//! Whole runs of an intake, and what holds of every run.

use vstd::prelude::*;
use crate::intake::{spec_intake, IntakeAction, IntakeEvent, IntakeView};

verus! {

/// The state that an intake which starts in `v` reaches on `events`, and
/// the actions that it asks for on the way, one for each event.
pub open spec fn intake_run(v: IntakeView, events: Seq<IntakeEvent>) -> (
    IntakeView,
    Seq<IntakeAction>,
)
    decreases events.len(),
{
    if events.len() == 0 {
        (v, Seq::empty())
    } else {
        let before = intake_run(v, events.drop_last());
        let last = spec_intake(before.0, events.last());
        (last.0, before.1.push(last.1))
    }
}

/// The number of accepts that `actions` start.
pub open spec fn accept_count(actions: Seq<IntakeAction>) -> nat
    decreases actions.len(),
{
    if actions.len() == 0 {
        0
    } else {
        accept_count(actions.drop_last()) + if actions.last() is Accept {
            1nat
        } else {
            0nat
        }
    }
}

/// The number of tasks that `actions` spawn.
pub open spec fn spawn_count(actions: Seq<IntakeAction>) -> nat
    decreases actions.len(),
{
    if actions.len() == 0 {
        0
    } else {
        spawn_count(actions.drop_last()) + if actions.last() is Spawn {
            1nat
        } else {
            0nat
        }
    }
}

/// The number of failed accepts that `actions` skip.
pub open spec fn skip_count(actions: Seq<IntakeAction>) -> nat
    decreases actions.len(),
{
    if actions.len() == 0 {
        0
    } else {
        skip_count(actions.drop_last()) + if actions.last() is Skip {
            1nat
        } else {
            0nat
        }
    }
}

/// The action speaks of the accept `id`.
pub open spec fn names(a: IntakeAction, id: u64) -> bool {
    a == IntakeAction::Accept(id) || a == IntakeAction::Spawn(id) || a == IntakeAction::Skip(id)
}

/// The action settles the accept `id`, one way or the other.
pub open spec fn settles(a: IntakeAction, id: u64) -> bool {
    a == IntakeAction::Spawn(id) || a == IntakeAction::Skip(id)
}

/// Each step keeps an intake well formed.
pub proof fn step_keeps_well_formed(v: IntakeView, e: IntakeEvent)
    requires
        v.well_formed(),
    ensures
        spec_intake(v, e).0.well_formed(),
{
}

/// A request that arrives is taken at once, whatever accepts are still
/// under way: as long as the sequence has not ended and a number is left,
/// its accept is started under a number that no accept under way has.
pub proof fn arrival_is_never_delayed(v: IntakeView)
    requires
        v.well_formed(),
        v.draining,
        v.can_issue(),
    ensures
        spec_intake(v, IntakeEvent::Arrived).1 == IntakeAction::Accept(v.next),
        !v.open.contains(v.next),
        spec_intake(v, IntakeEvent::Arrived).0.open == v.open.insert(v.next),
        spec_intake(v, IntakeEvent::Arrived).0.draining,
{
}

/// A failed accept costs that one request and nothing else: the intake
/// goes on draining, and every other accept under way stays under way.
pub proof fn failure_is_local(v: IntakeView, id: u64)
    ensures
        spec_intake(v, IntakeEvent::Failed(id)).0.draining == v.draining,
        spec_intake(v, IntakeEvent::Failed(id)).0.next == v.next,
        forall|other: u64|
            other != id ==> (spec_intake(v, IntakeEvent::Failed(id)).0.open.contains(other)
                <==> v.open.contains(other)),
        !spec_intake(v, IntakeEvent::Failed(id)).0.open.contains(id),
{
}

/// A run asks for exactly one action per event.
pub proof fn intake_run_len(v: IntakeView, events: Seq<IntakeEvent>)
    ensures
        intake_run(v, events).1.len() == events.len(),
    decreases events.len(),
{
    if events.len() > 0 {
        intake_run_len(v, events.drop_last());
    }
}

/// Running `first` and then `second` is running the two in a row.
pub proof fn intake_run_in_two_parts(
    v: IntakeView,
    first: Seq<IntakeEvent>,
    second: Seq<IntakeEvent>,
)
    ensures
        intake_run(v, first + second).0 == intake_run(intake_run(v, first).0, second).0,
        intake_run(v, first + second).1 == intake_run(v, first).1 + intake_run(
            intake_run(v, first).0,
            second,
        ).1,
    decreases second.len(),
{
    if second.len() == 0 {
        assert(first + second == first);
    } else {
        intake_run_in_two_parts(v, first, second.drop_last());
        assert((first + second).drop_last() == first + second.drop_last());
        assert((first + second).last() == second.last());
    }
}

/// No request is lost and none is served twice: in every run of a
/// well-formed intake, each accept that was under way at the start or was
/// started since is under way, or was handed to a task, or was skipped,
/// and exactly one of the three.
pub proof fn requests_are_conserved(v: IntakeView, events: Seq<IntakeEvent>)
    requires
        v.well_formed(),
    ensures
        ({
            let (after, actions) = intake_run(v, events);
            &&& after.well_formed()
            &&& after.next == v.next + accept_count(actions)
            &&& v.open.len() + accept_count(actions) == spawn_count(actions) + skip_count(actions)
                + after.open.len()
        }),
    decreases events.len(),
{
    if events.len() > 0 {
        let front = events.drop_last();
        requests_are_conserved(v, front);
        let before = intake_run(v, front);
        let last = spec_intake(before.0, events.last());
        assert(before.1.push(last.1).drop_last() == before.1);
        step_keeps_well_formed(before.0, events.last());
        match events.last() {
            IntakeEvent::Arrived => {
                assert(!before.0.open.contains(before.0.next));
            },
            _ => {},
        }
    }
}

/// The number of requests that arrive in `events`.
pub open spec fn arrival_count(events: Seq<IntakeEvent>) -> nat
    decreases events.len(),
{
    if events.len() == 0 {
        0
    } else {
        arrival_count(events.drop_last()) + if events.last() is Arrived {
            1nat
        } else {
            0nat
        }
    }
}

/// The sequence does not end within `events`.
pub open spec fn never_ends(events: Seq<IntakeEvent>) -> bool {
    forall|i: int| 0 <= i < events.len() ==> !(#[trigger] events[i] is Ended)
}

/// Every request that arrives is accepted: as long as the sequence has
/// not ended and numbers are left, an intake starts one accept for each
/// arrival, so that a new intake has each arrival under way, handed to a
/// task, or skipped.
pub proof fn every_arrival_is_accepted(v: IntakeView, events: Seq<IntakeEvent>)
    requires
        v.well_formed(),
        v.draining,
        never_ends(events),
        v.next + events.len() < u64::MAX,
    ensures
        ({
            let (after, actions) = intake_run(v, events);
            &&& after.draining
            &&& accept_count(actions) == arrival_count(events)
            &&& v.open.len() + arrival_count(events) == spawn_count(actions) + skip_count(actions)
                + after.open.len()
        }),
{
    requests_are_conserved(v, events);
    arrivals_are_accepted(v, events);
}

/// The counting behind [`every_arrival_is_accepted`].
proof fn arrivals_are_accepted(v: IntakeView, events: Seq<IntakeEvent>)
    requires
        v.draining,
        never_ends(events),
        v.next + events.len() < u64::MAX,
    ensures
        intake_run(v, events).0.draining,
        intake_run(v, events).0.next == v.next + arrival_count(events),
        accept_count(intake_run(v, events).1) == arrival_count(events),
        arrival_count(events) <= events.len(),
    decreases events.len(),
{
    if events.len() > 0 {
        let front = events.drop_last();
        assert forall|i: int| 0 <= i < front.len() implies !(#[trigger] front[i] is Ended) by {
            assert(front[i] == events[i]);
        }
        arrivals_are_accepted(v, front);
        let before = intake_run(v, front);
        let last = spec_intake(before.0, events.last());
        assert(before.1.push(last.1).drop_last() == before.1);
        assert(!(events[events.len() - 1] is Ended));
    }
}

/// An accept that is neither under way nor still to be started is never
/// spoken of again.
pub proof fn settled_stays_settled(v: IntakeView, id: u64, events: Seq<IntakeEvent>)
    requires
        v.well_formed(),
        id < v.next,
        !v.open.contains(id),
    ensures
        intake_run(v, events).0.well_formed(),
        id < intake_run(v, events).0.next,
        !intake_run(v, events).0.open.contains(id),
        forall|i: int| 0 <= i < events.len() ==> !names(#[trigger] intake_run(v, events).1[i], id),
        intake_run(v, events).1.len() == events.len(),
    decreases events.len(),
{
    if events.len() > 0 {
        let front = events.drop_last();
        settled_stays_settled(v, id, front);
        step_keeps_well_formed(intake_run(v, front).0, events.last());
    }
}

/// Numbers are given out in rising order: an intake whose next number is
/// `v.next` never starts an accept under a smaller one.
pub proof fn numbers_rise(v: IntakeView, events: Seq<IntakeEvent>)
    ensures
        v.next <= intake_run(v, events).0.next,
        forall|i: int|
            0 <= i < events.len() ==> match #[trigger] intake_run(v, events).1[i] {
                IntakeAction::Accept(id) => v.next <= id,
                _ => true,
            },
        intake_run(v, events).1.len() == events.len(),
    decreases events.len(),
{
    if events.len() > 0 {
        numbers_rise(v, events.drop_last());
    }
}

/// Each request is consumed at most once: in a run of a well-formed
/// intake, once an accept has been handed to a task or skipped, no later
/// action speaks of it.
pub proof fn consumed_at_most_once(
    v: IntakeView,
    events: Seq<IntakeEvent>,
    i: int,
    j: int,
    id: u64,
)
    requires
        v.well_formed(),
        0 <= i < j < events.len(),
        settles(intake_run(v, events).1[i], id),
    ensures
        !names(intake_run(v, events).1[j], id),
{
    let first = events.take(i + 1);
    let second = events.skip(i + 1);
    assert(first + second == events);
    intake_run_in_two_parts(v, first, second);
    intake_run_len(v, first);
    // the state before and after the step that settled `id`
    let front = first.drop_last();
    run_keeps_well_formed(v, front);
    let before = intake_run(v, front).0;
    let after = intake_run(v, first).0;
    assert(intake_run(v, events).1[i] == intake_run(v, first).1[i]);
    assert(intake_run(v, first).1[i] == spec_intake(before, first.last()).1);
    assert(before.open.contains(id));
    step_keeps_well_formed(before, first.last());
    settled_stays_settled(after, id, second);
    assert(intake_run(v, events).1[j] == intake_run(after, second).1[j - (i + 1)]);
}

/// No number is given out twice: in a run of any intake, two accepts
/// started at different places have different numbers.
pub proof fn accepted_under_distinct_numbers(
    v: IntakeView,
    events: Seq<IntakeEvent>,
    i: int,
    j: int,
    id: u64,
)
    requires
        0 <= i < j < events.len(),
        intake_run(v, events).1[i] == IntakeAction::Accept(id),
    ensures
        intake_run(v, events).1[j] != IntakeAction::Accept(id),
{
    let first = events.take(i + 1);
    let second = events.skip(i + 1);
    assert(first + second == events);
    intake_run_in_two_parts(v, first, second);
    intake_run_len(v, first);
    let before = intake_run(v, first.drop_last()).0;
    let after = intake_run(v, first).0;
    assert(intake_run(v, events).1[i] == intake_run(v, first).1[i]);
    assert(intake_run(v, first).1[i] == spec_intake(before, first.last()).1);
    assert(after.next == id + 1);
    numbers_rise(after, second);
    assert(intake_run(v, events).1[j] == intake_run(after, second).1[j - (i + 1)]);
}

/// A task is spawned, or a failure skipped, only for an accept that was
/// started earlier in the run.
pub proof fn settled_only_after_started(events: Seq<IntakeEvent>, j: int, id: u64)
    requires
        0 <= j < events.len(),
        settles(intake_run(IntakeView::fresh(), events).1[j], id),
    ensures
        exists|i: int|
            0 <= i < j && #[trigger] intake_run(IntakeView::fresh(), events).1[i]
                == IntakeAction::Accept(id),
{
    let v = IntakeView::fresh();
    let first = events.take(j);
    let second = events.skip(j);
    assert(first + second == events);
    intake_run_in_two_parts(v, first, second);
    intake_run_len(v, first);
    intake_run_len(v, events);
    let before = intake_run(v, first).0;
    // the step at `j` runs from the state after `first`
    let step_events = events.take(j + 1);
    assert(step_events.drop_last() == first);
    assert(step_events + events.skip(j + 1) == events);
    intake_run_in_two_parts(v, step_events, events.skip(j + 1));
    intake_run_len(v, step_events);
    assert(intake_run(v, events).1[j] == intake_run(v, step_events).1[j]);
    assert(intake_run(v, step_events).1[j] == spec_intake(before, events[j]).1);
    assert(before.open.contains(id));
    open_was_started(first, id);
    let i = choose|i: int|
        0 <= i < first.len() && #[trigger] intake_run(v, first).1[i] == IntakeAction::Accept(id);
    assert(intake_run(v, events).1[i] == intake_run(v, first).1[i]);
}

/// Well-formedness lasts through a run.
pub proof fn run_keeps_well_formed(v: IntakeView, events: Seq<IntakeEvent>)
    requires
        v.well_formed(),
    ensures
        intake_run(v, events).0.well_formed(),
    decreases events.len(),
{
    if events.len() > 0 {
        run_keeps_well_formed(v, events.drop_last());
        step_keeps_well_formed(intake_run(v, events.drop_last()).0, events.last());
    }
}

/// An accept that is under way after a run of a new intake was started
/// in that run.
proof fn open_was_started(events: Seq<IntakeEvent>, id: u64)
    requires
        intake_run(IntakeView::fresh(), events).0.open.contains(id),
    ensures
        exists|i: int|
            0 <= i < events.len() && #[trigger] intake_run(IntakeView::fresh(), events).1[i]
                == IntakeAction::Accept(id),
    decreases events.len(),
{
    let v = IntakeView::fresh();
    if events.len() > 0 {
        let front = events.drop_last();
        let before = intake_run(v, front);
        intake_run_len(v, front);
        if before.0.open.contains(id) {
            open_was_started(front, id);
            let i = choose|i: int|
                0 <= i < front.len() && #[trigger] intake_run(v, front).1[i]
                    == IntakeAction::Accept(id);
            assert(intake_run(v, events).1[i] == IntakeAction::Accept(id));
        } else {
            assert(intake_run(v, events).1[events.len() - 1] == IntakeAction::Accept(id));
        }
    }
}

} // verus!
