//! The intake of a lazy sequence of requests, each of which has to be
//! accepted before it can be served.
//!
//! A request that arrives is numbered, and its accept is started without
//! waiting for any accept that is still under way. The accept resolves
//! later, by that number and in any order: a request that was accepted is
//! handed to a task of its own, one whose accept failed is skipped. The
//! intake ends only when the sequence does.

use std::collections::HashSet;
use vstd::prelude::*;

verus! {

broadcast use vstd::std_specs::hash::group_hash_axioms;

/// What happened on the sequence or on one of the accepts.
#[derive(Clone, Copy, Debug, PartialEq, Eq, Structural)]
pub enum IntakeEvent {
    /// The sequence yielded a request.
    Arrived,
    /// The accept with this number succeeded.
    Accepted(u64),
    /// The accept with this number failed.
    Failed(u64),
    /// The sequence has ended.
    Ended,
}

/// What the caller is to do next.
#[derive(Clone, Copy, Debug, PartialEq, Eq, Structural)]
pub enum IntakeAction {
    /// Start the accept of the request that arrived, under this number,
    /// and go on taking requests while it runs.
    Accept(u64),
    /// Hand what the accept with this number gave to a task of its own.
    Spawn(u64),
    /// Log the failed accept with this number; nothing else is affected.
    Skip(u64),
    /// Drop the request that arrived: every number has been used.
    Refuse,
    /// Stop taking requests; accepts under way still resolve.
    Stop,
    /// Nothing to do.
    Ignore,
}

/// An intake as a mathematical value.
pub struct IntakeView {
    /// Whether the sequence has not ended yet.
    pub draining: bool,
    /// The number that the next request will get.
    pub next: u64,
    /// The numbers of the accepts that are under way.
    pub open: Set<u64>,
}

impl IntakeView {
    /// Every accept under way was started, and only finitely many are.
    pub open spec fn well_formed(self) -> bool {
        &&& self.open.finite()
        &&& forall|id: u64| self.open.contains(id) ==> id < self.next
    }

    /// An intake that has seen nothing yet.
    pub open spec fn fresh() -> IntakeView {
        IntakeView { draining: true, next: 0, open: Set::empty() }
    }

    /// Whether a number is left for the next request.
    pub open spec fn can_issue(self) -> bool {
        self.next < u64::MAX
    }

    /// After the next number has been given out.
    pub open spec fn issue(self) -> IntakeView
        recommends
            self.can_issue(),
    {
        IntakeView { next: (self.next + 1) as u64, open: self.open.insert(self.next), ..self }
    }

    /// After the accept `id` has resolved.
    pub open spec fn resolve(self, id: u64) -> IntakeView {
        IntakeView { open: self.open.remove(id), ..self }
    }

    /// After the sequence has ended.
    pub open spec fn stop(self) -> IntakeView {
        IntakeView { draining: false, ..self }
    }
}

/// The transition function of an intake.
pub open spec fn spec_intake(v: IntakeView, e: IntakeEvent) -> (IntakeView, IntakeAction) {
    match e {
        IntakeEvent::Arrived => if !v.draining {
            (v, IntakeAction::Ignore)
        } else if !v.can_issue() {
            (v, IntakeAction::Refuse)
        } else {
            (v.issue(), IntakeAction::Accept(v.next))
        },
        IntakeEvent::Accepted(id) => if v.open.contains(id) {
            (v.resolve(id), IntakeAction::Spawn(id))
        } else {
            (v, IntakeAction::Ignore)
        },
        IntakeEvent::Failed(id) => if v.open.contains(id) {
            (v.resolve(id), IntakeAction::Skip(id))
        } else {
            (v, IntakeAction::Ignore)
        },
        IntakeEvent::Ended => if v.draining {
            (v.stop(), IntakeAction::Stop)
        } else {
            (v, IntakeAction::Ignore)
        },
    }
}

/// The state machine of an intake.
pub struct Intake {
    draining: bool,
    next: u64,
    open: HashSet<u64>,
}

impl View for Intake {
    type V = IntakeView;

    closed spec fn view(&self) -> IntakeView {
        IntakeView { draining: self.draining, next: self.next, open: self.open@ }
    }
}

impl Intake {
    /// An intake that has seen nothing yet.
    pub fn new() -> (intake: Intake)
        ensures
            intake@ == IntakeView::fresh(),
            intake@.well_formed(),
    {
        Intake { draining: true, next: 0, open: HashSet::new() }
    }

    /// An intake that has seen nothing yet and gives its first request
    /// the number `first`.
    pub fn numbered_from(first: u64) -> (intake: Intake)
        ensures
            intake@ == (IntakeView { draining: true, next: first, open: Set::empty() }),
            intake@.well_formed(),
    {
        Intake { draining: true, next: first, open: HashSet::new() }
    }

    /// Whether the sequence has not ended yet.
    pub fn is_draining(&self) -> (b: bool)
        ensures
            b == self@.draining,
    {
        self.draining
    }

    /// Whether the accept `id` is under way.
    pub fn is_open(&self, id: u64) -> (b: bool)
        ensures
            b == self@.open.contains(id),
    {
        self.open.contains(&id)
    }

    /// The number of accepts under way.
    pub fn open_count(&self) -> (n: usize)
        ensures
            n == self@.open.len(),
    {
        self.open.len()
    }

    /// Takes one event, moves to the next state and says what to do.
    pub fn step(&mut self, event: IntakeEvent) -> (action: IntakeAction)
        ensures
            (final(self)@, action) == spec_intake(old(self)@, event),
            old(self)@.well_formed() ==> final(self)@.well_formed(),
    {
        match event {
            IntakeEvent::Arrived => {
                if !self.draining {
                    IntakeAction::Ignore
                } else if self.next == u64::MAX {
                    IntakeAction::Refuse
                } else {
                    let id = self.next;
                    self.next = id + 1;
                    self.open.insert(id);
                    IntakeAction::Accept(id)
                }
            },
            IntakeEvent::Accepted(id) => {
                if self.open.remove(&id) {
                    IntakeAction::Spawn(id)
                } else {
                    assert(self.open@ == old(self).open@);
                    IntakeAction::Ignore
                }
            },
            IntakeEvent::Failed(id) => {
                if self.open.remove(&id) {
                    IntakeAction::Skip(id)
                } else {
                    assert(self.open@ == old(self).open@);
                    IntakeAction::Ignore
                }
            },
            IntakeEvent::Ended => {
                if self.draining {
                    self.draining = false;
                    IntakeAction::Stop
                } else {
                    IntakeAction::Ignore
                }
            },
        }
    }
}

} // verus!
