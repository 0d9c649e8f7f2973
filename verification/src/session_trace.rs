//! Whole runs of a session, and what holds of every run.
//!
//! A run is the sequence of events that a session is fed, in order. The
//! laws below are stated over [`run`], which folds the transition function
//! [`spec_step`] over such a sequence.

use vstd::prelude::*;
use crate::session::{
    spec_check_greeting, spec_connect_reply, spec_method_reply, spec_step, SessionActionView, SessionError, SessionEventView,
    SessionState, REP_GENERAL_FAILURE, REP_SUCCEEDED,
};
use crate::target::{
    parsed_target_is_well_formed, spec_parse_request, ProtocolError, TargetView, CMD_CONNECT,
    SOCKS_VERSION,
};

verus! {

/// The state that a session which starts in `s` reaches on `events`, and
/// the actions that it asks for on the way, one for each event.
pub open spec fn run(s: SessionState, events: Seq<SessionEventView>) -> (
    SessionState,
    Seq<SessionActionView>,
)
    decreases events.len(),
{
    if events.len() == 0 {
        (s, Seq::empty())
    } else {
        let before = run(s, events.drop_last());
        let last = spec_step(before.0, events.last());
        (last.0, before.1.push(last.1))
    }
}

/// No action of `actions` asks for a connect.
pub open spec fn no_connect(actions: Seq<SessionActionView>) -> bool {
    forall|i: int| 0 <= i < actions.len() ==> !(#[trigger] actions[i] is Connect)
}

/// The event ends a relay: one side closed, or a read or write failed.
pub open spec fn ends_relay(e: SessionEventView) -> bool {
    e is ClientClosed || e is UpstreamClosed || e is IoFailed
}

/// No event of `events` ends a relay.
pub open spec fn open_ended(events: Seq<SessionEventView>) -> bool {
    forall|i: int| 0 <= i < events.len() ==> !ends_relay(#[trigger] events[i])
}

/// All bytes that the client sent in `events`, in order.
pub open spec fn from_client(events: Seq<SessionEventView>) -> Seq<u8>
    decreases events.len(),
{
    if events.len() == 0 {
        Seq::empty()
    } else {
        let before = from_client(events.drop_last());
        match events.last() {
            SessionEventView::ClientData(b) => before + b,
            _ => before,
        }
    }
}

/// All bytes that upstream sent in `events`, in order.
pub open spec fn from_upstream(events: Seq<SessionEventView>) -> Seq<u8>
    decreases events.len(),
{
    if events.len() == 0 {
        Seq::empty()
    } else {
        let before = from_upstream(events.drop_last());
        match events.last() {
            SessionEventView::UpstreamData(b) => before + b,
            _ => before,
        }
    }
}

/// All bytes that `actions` relay to upstream, in order.
pub open spec fn to_upstream(actions: Seq<SessionActionView>) -> Seq<u8>
    decreases actions.len(),
{
    if actions.len() == 0 {
        Seq::empty()
    } else {
        let before = to_upstream(actions.drop_last());
        match actions.last() {
            SessionActionView::RelayToUpstream(b) => before + b,
            _ => before,
        }
    }
}

/// All bytes that `actions` relay to the client, in order. The proxy's
/// own replies are not among them.
pub open spec fn to_client(actions: Seq<SessionActionView>) -> Seq<u8>
    decreases actions.len(),
{
    if actions.len() == 0 {
        Seq::empty()
    } else {
        let before = to_client(actions.drop_last());
        match actions.last() {
            SessionActionView::RelayToClient(b) => before + b,
            _ => before,
        }
    }
}

/// A run asks for exactly one action per event, and the action at each
/// place is the one that the transition function gives for the state
/// reached so far.
pub proof fn run_is_stepwise(s: SessionState, events: Seq<SessionEventView>)
    ensures
        run(s, events).1.len() == events.len(),
        forall|i: int|
            0 <= i < events.len() ==> #[trigger] run(s, events).1[i] == spec_step(
                run(s, events.take(i)).0,
                events[i],
            ).1,
        forall|i: int|
            0 <= i < events.len() ==> run(s, #[trigger] events.take(i + 1)).0 == spec_step(
                run(s, events.take(i)).0,
                events[i],
            ).0,
    decreases events.len(),
{
    if events.len() > 0 {
        let front = events.drop_last();
        run_is_stepwise(s, front);
        assert forall|i: int| 0 <= i < events.len() implies #[trigger] run(s, events).1[i]
            == spec_step(run(s, events.take(i)).0, events[i]).1 by {
            if i < front.len() {
                assert(front.take(i) == events.take(i));
                assert(run(s, front).1[i] == spec_step(run(s, front.take(i)).0, front[i]).1);
            } else {
                assert(events.take(i) == front);
            }
        }
        assert forall|i: int| 0 <= i < events.len() implies run(s, #[trigger] events.take(i + 1)).0
            == spec_step(run(s, events.take(i)).0, events[i]).0 by {
            if i < front.len() {
                assert(front.take(i) == events.take(i));
                assert(front.take(i + 1) == events.take(i + 1));
            } else {
                assert(events.take(i) == front);
                assert(events.take(i + 1) == events);
            }
        }
    }
}

/// Running `first` and then `second` is running the two in a row.
pub proof fn run_in_two_parts(
    s: SessionState,
    first: Seq<SessionEventView>,
    second: Seq<SessionEventView>,
)
    ensures
        run(s, first + second).0 == run(run(s, first).0, second).0,
        run(s, first + second).1 == run(s, first).1 + run(run(s, first).0, second).1,
    decreases second.len(),
{
    if second.len() == 0 {
        assert(first + second == first);
    } else {
        run_in_two_parts(s, first, second.drop_last());
        assert((first + second).drop_last() == first + second.drop_last());
        assert((first + second).last() == second.last());
    }
}

/// A closed session stays closed and asks for nothing more.
pub proof fn closed_is_final(events: Seq<SessionEventView>)
    ensures
        run(SessionState::Closed, events).0 == SessionState::Closed,
        forall|i: int|
            0 <= i < events.len() ==> #[trigger] run(SessionState::Closed, events).1[i]
                == SessionActionView::Ignore,
        run(SessionState::Closed, events).1.len() == events.len(),
    decreases events.len(),
{
    if events.len() > 0 {
        closed_is_final(events.drop_last());
    }
}

/// A message with a version byte other than `0x05` ends the session with
/// `UnsupportedVersion`, at the greeting and at the request alike, and no
/// connect is asked for then or on any event that follows.
pub proof fn wrong_version_never_connects(
    s: SessionState,
    message: Seq<u8>,
    later: Seq<SessionEventView>,
)
    requires
        s == SessionState::Greeting || s == SessionState::MethodSelected,
        message.len() >= 1,
        message[0] != SOCKS_VERSION,
    ensures
        spec_step(s, SessionEventView::ClientData(message)).0 == SessionState::Closed,
        s == SessionState::Greeting ==> spec_step(s, SessionEventView::ClientData(message)).1
            == SessionActionView::Abort(
            SessionError::Protocol(ProtocolError::UnsupportedVersion),
        ),
        s == SessionState::MethodSelected ==> spec_step(
            s,
            SessionEventView::ClientData(message),
        ).1 == SessionActionView::Reject(
            spec_connect_reply(REP_GENERAL_FAILURE),
            SessionError::Protocol(ProtocolError::UnsupportedVersion),
        ),
        no_connect(run(s, seq![SessionEventView::ClientData(message)] + later).1),
{
    refused_message_never_connects(s, message, later);
}

/// A request with a command byte other than CONNECT, its version being
/// right, ends the session with `UnsupportedCommand`, and no connect is
/// asked for then or on any event that follows.
pub proof fn unsupported_command_never_connects(message: Seq<u8>, later: Seq<SessionEventView>)
    requires
        message.len() >= 2,
        message[0] == SOCKS_VERSION,
        message[1] != CMD_CONNECT,
    ensures
        spec_step(SessionState::MethodSelected, SessionEventView::ClientData(message)) == (
            SessionState::Closed,
            SessionActionView::Reject(
                spec_connect_reply(REP_GENERAL_FAILURE),
                SessionError::Protocol(ProtocolError::UnsupportedCommand),
            ),
        ),
        no_connect(
            run(
                SessionState::MethodSelected,
                seq![SessionEventView::ClientData(message)] + later,
            ).1,
        ),
{
    refused_message_never_connects(SessionState::MethodSelected, message, later);
}

/// A greeting or a request that is refused, for whatever reason, closes
/// the session, and no connect is asked for then or on any event that
/// follows.
pub proof fn refused_message_never_connects(
    s: SessionState,
    message: Seq<u8>,
    later: Seq<SessionEventView>,
)
    requires
        s == SessionState::Greeting && spec_check_greeting(message) is Some || s
            == SessionState::MethodSelected && spec_parse_request(message) is Err,
    ensures
        spec_step(s, SessionEventView::ClientData(message)).0 == SessionState::Closed,
        no_connect(run(s, seq![SessionEventView::ClientData(message)] + later).1),
{
    let first = seq![SessionEventView::ClientData(message)];
    assert(first.drop_last() == Seq::<SessionEventView>::empty());
    assert(run(s, first.drop_last()) == (s, Seq::<SessionActionView>::empty()));
    assert(run(s, first).0 == SessionState::Closed);
    assert(run(s, first).1 == seq![spec_step(s, first[0]).1]);
    run_in_two_parts(s, first, later);
    closed_is_final(later);
    let all = run(s, first + later).1;
    assert forall|i: int| 0 <= i < all.len() implies !(#[trigger] all[i] is Connect) by {
        if i >= 1 {
            assert(all[i] == run(SessionState::Closed, later).1[i - 1]);
        }
    }
}

/// A connect is asked for only on a request that decodes, with the target
/// that it decodes to, and only by a session that has selected the method.
pub proof fn connect_needs_parsed_request(s: SessionState, e: SessionEventView, t: TargetView)
    requires
        spec_step(s, e).1 == SessionActionView::Connect(t),
    ensures
        s == SessionState::MethodSelected,
        spec_step(s, e).0 == SessionState::RequestParsed,
        e is ClientData,
        spec_parse_request(e->ClientData_0) == Ok::<TargetView, ProtocolError>(t),
        t.well_formed(),
{
    parsed_target_is_well_formed(e->ClientData_0);
}

/// The success reply goes out only on the event that the connect has
/// succeeded, and only from the state in which a connect is under way.
pub proof fn success_reply_needs_connect(s: SessionState, e: SessionEventView)
    requires
        spec_step(s, e).1 == SessionActionView::Reply(spec_connect_reply(REP_SUCCEEDED)),
    ensures
        s == SessionState::RequestParsed,
        e == SessionEventView::ConnectSucceeded,
{
    if s == SessionState::Greeting {
        // the one reply of this state is two bytes long
        assert(spec_connect_reply(REP_SUCCEEDED).len() == 10);
    }
}

/// The number of connects that `actions` ask for.
pub open spec fn connect_count(actions: Seq<SessionActionView>) -> nat
    decreases actions.len(),
{
    if actions.len() == 0 {
        0
    } else {
        connect_count(actions.drop_last()) + if actions.last() is Connect {
            1nat
        } else {
            0nat
        }
    }
}

/// The number of success replies in `actions`.
pub open spec fn success_reply_count(actions: Seq<SessionActionView>) -> nat
    decreases actions.len(),
{
    if actions.len() == 0 {
        0
    } else {
        success_reply_count(actions.drop_last()) + if actions.last() == SessionActionView::Reply(
            spec_connect_reply(REP_SUCCEEDED),
        ) {
            1nat
        } else {
            0nat
        }
    }
}

/// In every run of a new session: at most one connect is asked for; none
/// is asked for before the request has been decoded; the success reply is
/// sent at most once and never before a connect was asked for; and no byte
/// is relayed before the success reply.
pub proof fn session_order(events: Seq<SessionEventView>)
    ensures
        ({
            let (state, actions) = run(SessionState::Greeting, events);
            &&& connect_count(actions) <= 1
            &&& success_reply_count(actions) <= connect_count(actions)
            &&& (state == SessionState::Greeting || state == SessionState::MethodSelected)
                ==> connect_count(actions) == 0
            &&& state == SessionState::RequestParsed ==> connect_count(actions) == 1
                && success_reply_count(actions) == 0
            &&& (state == SessionState::Connected || state == SessionState::Relaying)
                ==> success_reply_count(actions) == 1
            &&& success_reply_count(actions) == 0 ==> to_upstream(actions).len() == 0 && to_client(
                actions,
            ).len() == 0
        }),
    decreases events.len(),
{
    if events.len() > 0 {
        let front = events.drop_last();
        session_order(front);
        let before = run(SessionState::Greeting, front);
        let last = spec_step(before.0, events.last());
        let actions = before.1.push(last.1);
        assert(actions.drop_last() == before.1);
        assert(actions.last() == last.1);
        if last.1 == SessionActionView::Reply(spec_connect_reply(REP_SUCCEEDED)) {
            success_reply_needs_connect(before.0, events.last());
        }
    }
}

/// The connects of two runs of actions in a row are those of the first
/// and those of the second.
proof fn connects_in_two_parts(first: Seq<SessionActionView>, second: Seq<SessionActionView>)
    ensures
        connect_count(first + second) == connect_count(first) + connect_count(second),
    decreases second.len(),
{
    if second.len() == 0 {
        assert(first + second == first);
    } else {
        connects_in_two_parts(first, second.drop_last());
        assert((first + second).drop_last() == first + second.drop_last());
        assert((first + second).last() == second.last());
    }
}

/// Actions none of which asks for a connect, ask for no connect.
proof fn no_connect_counts_zero(actions: Seq<SessionActionView>)
    requires
        no_connect(actions),
    ensures
        connect_count(actions) == 0,
    decreases actions.len(),
{
    if actions.len() > 0 {
        let front = actions.drop_last();
        assert forall|i: int| 0 <= i < front.len() implies !(#[trigger] front[i] is Connect) by {
            assert(front[i] == actions[i]);
        }
        no_connect_counts_zero(front);
        assert(!(actions[actions.len() - 1] is Connect));
    }
}

/// A session whose greeting or request is refused never connects: if a
/// new session, after any events, stands before its greeting or its
/// request and the message that comes is refused, then from its first
/// event to its last, whatever follows, no connect is asked for.
pub proof fn refused_session_never_connects(
    earlier: Seq<SessionEventView>,
    message: Seq<u8>,
    later: Seq<SessionEventView>,
)
    requires
        ({
            let s = run(SessionState::Greeting, earlier).0;
            ||| s == SessionState::Greeting && spec_check_greeting(message) is Some
            ||| s == SessionState::MethodSelected && spec_parse_request(message) is Err
        }),
    ensures
        connect_count(
            run(
                SessionState::Greeting,
                earlier + (seq![SessionEventView::ClientData(message)] + later),
            ).1,
        ) == 0,
        run(
            SessionState::Greeting,
            earlier + (seq![SessionEventView::ClientData(message)] + later),
        ).0 == SessionState::Closed,
{
    let s = run(SessionState::Greeting, earlier).0;
    let rest = seq![SessionEventView::ClientData(message)] + later;
    session_order(earlier);
    refused_message_never_connects(s, message, later);
    run_in_two_parts(SessionState::Greeting, earlier, rest);
    no_connect_counts_zero(run(s, rest).1);
    connects_in_two_parts(run(SessionState::Greeting, earlier).1, run(s, rest).1);
    run_in_two_parts(s, seq![SessionEventView::ClientData(message)], later);
    closed_is_final(later);
    let first = seq![SessionEventView::ClientData(message)];
    assert(first.drop_last() == Seq::<SessionEventView>::empty());
    assert(run(s, first).0 == spec_step(run(s, first.drop_last()).0, first.last()).0);
}

/// The relay is faithful: while neither side closes and no read or write
/// fails, the bytes relayed to upstream are all the bytes that the client
/// sent, in the order sent, and the bytes relayed to the client are all
/// the bytes that upstream sent, in the order sent.
pub proof fn relay_is_faithful(s: SessionState, events: Seq<SessionEventView>)
    requires
        s == SessionState::Connected || s == SessionState::Relaying,
        open_ended(events),
    ensures
        to_upstream(run(s, events).1) == from_client(events),
        to_client(run(s, events).1) == from_upstream(events),
        run(s, events).0 == SessionState::Connected || run(s, events).0 == SessionState::Relaying,
    decreases events.len(),
{
    if events.len() > 0 {
        let front = events.drop_last();
        assert forall|i: int| 0 <= i < front.len() implies !ends_relay(#[trigger] front[i]) by {
            assert(front[i] == events[i]);
        }
        relay_is_faithful(s, front);
        let before = run(s, front);
        let last = spec_step(before.0, events.last());
        let actions = before.1.push(last.1);
        assert(actions.drop_last() == before.1);
        assert(actions.last() == last.1);
        assert(!ends_relay(events[events.len() - 1]));
    }
}

/// Once one side closes or a read or write fails, the relay is over:
/// nothing that arrives afterwards is relayed.
pub proof fn relay_ends_with_either_side(
    s: SessionState,
    e: SessionEventView,
    later: Seq<SessionEventView>,
)
    requires
        s == SessionState::Connected || s == SessionState::Relaying,
        ends_relay(e),
    ensures
        spec_step(s, e).0 == SessionState::Closed,
        to_upstream(run(s, seq![e] + later).1).len() == 0,
        to_client(run(s, seq![e] + later).1).len() == 0,
{
    let first = seq![e];
    assert(first.drop_last() == Seq::<SessionEventView>::empty());
    assert(run(s, first.drop_last()) == (s, Seq::<SessionActionView>::empty()));
    run_in_two_parts(s, first, later);
    closed_is_final(later);
    let head = run(s, first).1;
    let tail = run(SessionState::Closed, later).1;
    assert(head == seq![spec_step(s, e).1]);
    nothing_relayed(head + tail);
}

/// The events of `events` before the first one that ends a relay.
pub open spec fn live_prefix(events: Seq<SessionEventView>) -> Seq<SessionEventView>
    decreases events.len(),
{
    if events.len() == 0 || ends_relay(events[0]) {
        Seq::empty()
    } else {
        seq![events[0]] + live_prefix(events.drop_first())
    }
}

/// The live prefix is a prefix, nothing in it ends a relay, and what
/// follows it, if anything, begins with an event that does.
proof fn live_prefix_splits(events: Seq<SessionEventView>)
    ensures
        live_prefix(events).len() <= events.len(),
        live_prefix(events) == events.take(live_prefix(events).len() as int),
        open_ended(live_prefix(events)),
        live_prefix(events).len() < events.len() ==> ends_relay(
            events[live_prefix(events).len() as int],
        ),
    decreases events.len(),
{
    if events.len() > 0 && !ends_relay(events[0]) {
        let rest = events.drop_first();
        live_prefix_splits(rest);
        let k = live_prefix(rest).len() as int;
        assert(seq![events[0]] + rest.take(k) == events.take(k + 1));
        if k < rest.len() {
            assert(rest[k] == events[k + 1]);
        }
    } else {
        assert(events.take(0) == Seq::<SessionEventView>::empty());
    }
}

/// What two runs of actions relay is what the first relays, followed by
/// what the second relays.
proof fn relayed_in_two_parts(first: Seq<SessionActionView>, second: Seq<SessionActionView>)
    ensures
        to_upstream(first + second) == to_upstream(first) + to_upstream(second),
        to_client(first + second) == to_client(first) + to_client(second),
    decreases second.len(),
{
    if second.len() == 0 {
        assert(first + second == first);
    } else {
        relayed_in_two_parts(first, second.drop_last());
        assert((first + second).drop_last() == first + second.drop_last());
        assert((first + second).last() == second.last());
    }
}

/// The relay delivers every byte that arrived before its end, and none
/// that arrived after: whatever the events, the bytes relayed to upstream
/// are the bytes that the client sent before the first event that ends
/// the relay, in the order sent, and likewise towards the client.
pub proof fn relay_delivers_what_came_before_the_end(
    s: SessionState,
    events: Seq<SessionEventView>,
)
    requires
        s == SessionState::Connected || s == SessionState::Relaying,
    ensures
        to_upstream(run(s, events).1) == from_client(live_prefix(events)),
        to_client(run(s, events).1) == from_upstream(live_prefix(events)),
        live_prefix(events).len() < events.len() ==> run(s, events).0 == SessionState::Closed,
{
    live_prefix_splits(events);
    let live = live_prefix(events);
    let k = live.len() as int;
    let rest = events.skip(k);
    assert(live + rest == events);
    run_in_two_parts(s, live, rest);
    relay_is_faithful(s, live);
    relayed_in_two_parts(run(s, live).1, run(run(s, live).0, rest).1);
    if k < events.len() {
        let later = rest.drop_first();
        assert(seq![rest[0]] + later == rest);
        relay_ends_with_either_side(run(s, live).0, rest[0], later);
        let mid = run(s, live).0;
        let one = seq![rest[0]];
        run_in_two_parts(mid, one, later);
        closed_is_final(later);
        assert(one.drop_last() == Seq::<SessionEventView>::empty());
        assert(run(mid, one.drop_last()).0 == mid);
        assert(run(mid, one).0 == spec_step(mid, rest[0]).0);
    } else {
        assert(rest == Seq::<SessionEventView>::empty());
    }
}

/// The events of a handshake that succeeds: the greeting, the request,
/// and the word that the connect went through.
pub open spec fn handshake(greeting: Seq<u8>, request: Seq<u8>) -> Seq<SessionEventView> {
    seq![
        SessionEventView::ClientData(greeting),
        SessionEventView::ClientData(request),
        SessionEventView::ConnectSucceeded,
    ]
}

/// A whole session, from accept to end: a greeting of the right version
/// is answered with the method, a request that decodes is answered with
/// a connect to its target and, once that has succeeded, with the success
/// reply; from then on every byte that the client sends before the relay
/// ends goes to upstream and every byte that upstream sends goes to the
/// client, each in its order, and nothing else does.
pub proof fn session_serves_connect_and_relays(
    greeting: Seq<u8>,
    request: Seq<u8>,
    relayed: Seq<SessionEventView>,
)
    requires
        spec_check_greeting(greeting) is None,
        spec_parse_request(request) is Ok,
    ensures
        ({
            let (state, actions) = run(
                SessionState::Greeting,
                handshake(greeting, request) + relayed,
            );
            &&& actions.len() == 3 + relayed.len()
            &&& actions[0] == SessionActionView::Reply(spec_method_reply())
            &&& actions[1] == SessionActionView::Connect(spec_parse_request(request)->Ok_0)
            &&& actions[2] == SessionActionView::Reply(spec_connect_reply(REP_SUCCEEDED))
            &&& to_upstream(actions) == from_client(live_prefix(relayed))
            &&& to_client(actions) == from_upstream(live_prefix(relayed))
            &&& live_prefix(relayed).len() < relayed.len() ==> state == SessionState::Closed
        }),
{
    let g = SessionEventView::ClientData(greeting);
    let r = SessionEventView::ClientData(request);
    let c = SessionEventView::ConnectSucceeded;
    let h3 = handshake(greeting, request);
    let h2 = h3.drop_last();
    let h1 = h2.drop_last();
    let h0 = h1.drop_last();
    assert(h0.len() == 0);
    assert(h1.last() == g && h2.last() == r && h3.last() == c);
    assert(run(SessionState::Greeting, h0) == (
        SessionState::Greeting,
        Seq::<SessionActionView>::empty(),
    ));
    assert(run(SessionState::Greeting, h1).0 == SessionState::MethodSelected);
    assert(run(SessionState::Greeting, h2).0 == SessionState::RequestParsed);
    assert(run(SessionState::Greeting, h3).0 == SessionState::Connected);
    let head = run(SessionState::Greeting, h3).1;
    assert(head == seq![
        SessionActionView::Reply(spec_method_reply()),
        SessionActionView::Connect(spec_parse_request(request)->Ok_0),
        SessionActionView::Reply(spec_connect_reply(REP_SUCCEEDED)),
    ]);
    nothing_relayed(head);
    run_in_two_parts(SessionState::Greeting, h3, relayed);
    relay_delivers_what_came_before_the_end(SessionState::Connected, relayed);
    let tail = run(SessionState::Connected, relayed).1;
    relayed_in_two_parts(head, tail);
    run_is_stepwise(SessionState::Connected, relayed);
    assert(to_upstream(head) + to_upstream(tail) == to_upstream(tail));
    assert(to_client(head) + to_client(tail) == to_client(tail));
}

/// With an upstream that echoes, a whole session gives the client back
/// every byte that it wrote, byte for byte and in order: if, by the end
/// of the relay, upstream has sent exactly what the client has sent, then
/// what is relayed to the client is exactly what the client sent.
pub proof fn echoing_upstream_returns_every_byte(
    greeting: Seq<u8>,
    request: Seq<u8>,
    relayed: Seq<SessionEventView>,
)
    requires
        spec_check_greeting(greeting) is None,
        spec_parse_request(request) is Ok,
        from_upstream(live_prefix(relayed)) == from_client(live_prefix(relayed)),
    ensures
        to_client(run(SessionState::Greeting, handshake(greeting, request) + relayed).1)
            == from_client(live_prefix(relayed)),
        to_upstream(run(SessionState::Greeting, handshake(greeting, request) + relayed).1)
            == from_client(live_prefix(relayed)),
{
    session_serves_connect_and_relays(greeting, request, relayed);
}

/// A sequence of actions none of which relays, relays nothing.
proof fn nothing_relayed(actions: Seq<SessionActionView>)
    requires
        forall|i: int|
            0 <= i < actions.len() ==> !(#[trigger] actions[i] is RelayToUpstream) && !(
            actions[i] is RelayToClient),
    ensures
        to_upstream(actions).len() == 0,
        to_client(actions).len() == 0,
    decreases actions.len(),
{
    if actions.len() > 0 {
        nothing_relayed(actions.drop_last());
    }
}

} // verus!
