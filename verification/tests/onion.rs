use native_tor::echo::{EchoAction, EchoEvent, EchoHandler};
use native_tor::intake::{Intake, IntakeAction, IntakeEvent};
use native_tor::onion::{
    AcceptorAction, AcceptorEvent, Multiplexer, MultiplexerAction, MultiplexerEvent,
    StreamAcceptor,
};
use tor_cell::relaycell::msg::Connected;

/// The number under which the acceptor starts an accept.
fn accept_number(action: AcceptorAction) -> u64 {
    match action {
        AcceptorAction::Accept(id, _) => id,
        other => panic!("unexpected {other:?}"),
    }
}

#[test]
fn requests_are_numbered_in_order_of_arrival() {
    let mut m = Multiplexer::new();
    assert_eq!(m.pending(), 0);
    assert_eq!(m.step(MultiplexerEvent::RequestArrived), MultiplexerAction::Accept(0));
    assert_eq!(m.step(MultiplexerEvent::RequestArrived), MultiplexerAction::Accept(1));
    assert_eq!(m.step(MultiplexerEvent::RequestArrived), MultiplexerAction::Accept(2));
    assert_eq!(m.pending(), 3);
}

#[test]
fn slow_accept_does_not_hold_up_later_requests() {
    let mut m = Multiplexer::new();
    // request 0 arrives and its accept hangs
    assert_eq!(m.step(MultiplexerEvent::RequestArrived), MultiplexerAction::Accept(0));
    // requests 1..5 arrive, are accepted and get their acceptors meanwhile
    for id in 1..5u64 {
        assert_eq!(m.step(MultiplexerEvent::RequestArrived), MultiplexerAction::Accept(id));
        assert_eq!(m.step(MultiplexerEvent::Accepted(id)), MultiplexerAction::SpawnAcceptor(id));
    }
    assert_eq!(m.pending(), 1);
    // at last request 0 resolves too
    assert_eq!(m.step(MultiplexerEvent::Accepted(0)), MultiplexerAction::SpawnAcceptor(0));
    assert_eq!(m.pending(), 0);
}

#[test]
fn n_requests_with_one_stream_each_get_one_handler_each() {
    let n = 16u64;
    let mut m = Multiplexer::new();
    let mut accepts = Vec::new();
    for _ in 0..n {
        match m.step(MultiplexerEvent::RequestArrived) {
            MultiplexerAction::Accept(id) => accepts.push(id),
            other => panic!("unexpected {other:?}"),
        }
    }
    // the accepts resolve in another order than they were started
    let mut order = accepts.clone();
    order.reverse();
    order.rotate_left(5);
    let mut acceptors = Vec::new();
    for id in order {
        match m.step(MultiplexerEvent::Accepted(id)) {
            MultiplexerAction::SpawnAcceptor(got) => {
                assert_eq!(got, id);
                acceptors.push((id, StreamAcceptor::new()));
            }
            other => panic!("unexpected {other:?}"),
        }
    }
    assert_eq!(acceptors.len() as u64, n);
    assert_eq!(m.pending(), 0);

    let mut handlers = 0u64;
    for (_, acceptor) in acceptors.iter_mut() {
        assert_eq!(accept_number(acceptor.step(AcceptorEvent::StreamArrived)), 0);
        assert!(matches!(
            acceptor.step(AcceptorEvent::Accepted(0)),
            AcceptorAction::SpawnHandler(0)
        ));
        let mut handler = EchoHandler::new();
        assert_eq!(
            handler.step(EchoEvent::Received(b"ping".to_vec())),
            EchoAction::Write(b"ping".to_vec())
        );
        handlers += 1;
        assert!(matches!(acceptor.step(AcceptorEvent::StreamsEnded), AcceptorAction::Stop));
        // no second handler for the same stream
        assert!(matches!(acceptor.step(AcceptorEvent::Accepted(0)), AcceptorAction::Ignore));
        assert_eq!(acceptor.pending(), 0);
    }
    assert_eq!(handlers, n);
}

#[test]
fn failed_rendezvous_accept_is_skipped_and_the_loop_goes_on() {
    let mut m = Multiplexer::new();
    m.step(MultiplexerEvent::RequestArrived);
    m.step(MultiplexerEvent::RequestArrived);
    assert_eq!(m.step(MultiplexerEvent::AcceptFailed(0)), MultiplexerAction::Skip(0));
    assert_eq!(m.pending(), 1);
    // the other request and later ones are served as before
    assert_eq!(m.step(MultiplexerEvent::Accepted(1)), MultiplexerAction::SpawnAcceptor(1));
    assert_eq!(m.step(MultiplexerEvent::RequestArrived), MultiplexerAction::Accept(2));
    assert_eq!(m.step(MultiplexerEvent::Accepted(2)), MultiplexerAction::SpawnAcceptor(2));
}

#[test]
fn failed_stream_accept_gives_up_that_stream_only() {
    let mut a = StreamAcceptor::new();
    assert_eq!(accept_number(a.step(AcceptorEvent::StreamArrived)), 0);
    assert_eq!(accept_number(a.step(AcceptorEvent::StreamArrived)), 1);
    assert!(matches!(a.step(AcceptorEvent::AcceptFailed(0)), AcceptorAction::Abandon(0)));
    assert!(matches!(a.step(AcceptorEvent::Accepted(1)), AcceptorAction::SpawnHandler(1)));
    assert_eq!(accept_number(a.step(AcceptorEvent::StreamArrived)), 2);
    assert_eq!(a.pending(), 1);
}

#[test]
fn a_request_is_consumed_at_most_once() {
    let mut m = Multiplexer::new();
    m.step(MultiplexerEvent::RequestArrived);
    assert_eq!(m.step(MultiplexerEvent::Accepted(0)), MultiplexerAction::SpawnAcceptor(0));
    assert_eq!(m.step(MultiplexerEvent::Accepted(0)), MultiplexerAction::Ignore);
    assert_eq!(m.step(MultiplexerEvent::AcceptFailed(0)), MultiplexerAction::Ignore);
    m.step(MultiplexerEvent::RequestArrived);
    assert_eq!(m.step(MultiplexerEvent::AcceptFailed(1)), MultiplexerAction::Skip(1));
    assert_eq!(m.step(MultiplexerEvent::Accepted(1)), MultiplexerAction::Ignore);
    assert_eq!(m.step(MultiplexerEvent::AcceptFailed(1)), MultiplexerAction::Ignore);
}

#[test]
fn an_accept_that_was_never_started_is_ignored() {
    let mut m = Multiplexer::new();
    assert_eq!(m.step(MultiplexerEvent::Accepted(0)), MultiplexerAction::Ignore);
    assert_eq!(m.step(MultiplexerEvent::AcceptFailed(7)), MultiplexerAction::Ignore);
    m.step(MultiplexerEvent::RequestArrived);
    assert_eq!(m.step(MultiplexerEvent::Accepted(1)), MultiplexerAction::Ignore);
    assert_eq!(m.pending(), 1);
}

#[test]
fn multiplexer_stops_only_when_the_requests_end() {
    let mut m = Multiplexer::new();
    m.step(MultiplexerEvent::RequestArrived);
    assert_eq!(m.step(MultiplexerEvent::RequestsEnded), MultiplexerAction::Stop);
    assert_eq!(m.step(MultiplexerEvent::RequestsEnded), MultiplexerAction::Ignore);
    assert_eq!(m.step(MultiplexerEvent::RequestArrived), MultiplexerAction::Ignore);
    // an accept that was under way still resolves
    assert_eq!(m.step(MultiplexerEvent::Accepted(0)), MultiplexerAction::SpawnAcceptor(0));
}

#[test]
fn intake_conserves_requests() {
    let mut i = Intake::new();
    assert!(i.is_draining());
    let events = [
        IntakeEvent::Arrived,
        IntakeEvent::Arrived,
        IntakeEvent::Accepted(1),
        IntakeEvent::Arrived,
        IntakeEvent::Failed(0),
        IntakeEvent::Accepted(0),
        IntakeEvent::Arrived,
        IntakeEvent::Failed(9),
        IntakeEvent::Accepted(3),
        IntakeEvent::Accepted(1),
    ];
    let (mut accepts, mut spawns, mut skips) = (0usize, 0usize, 0usize);
    for e in events {
        match i.step(e) {
            IntakeAction::Accept(_) => accepts += 1,
            IntakeAction::Spawn(_) => spawns += 1,
            IntakeAction::Skip(_) => skips += 1,
            IntakeAction::Ignore => {}
            other => panic!("unexpected {other:?}"),
        }
    }
    assert_eq!((accepts, spawns, skips), (4, 2, 1));
    assert_eq!(i.open_count(), 1);
    assert!(i.is_open(2));
    assert!(!i.is_open(0));
    assert_eq!(accepts, spawns + skips + i.open_count());
    assert_eq!(i.step(IntakeEvent::Ended), IntakeAction::Stop);
    assert!(!i.is_draining());
}

#[test]
fn stream_is_accepted_with_an_empty_connected_message() {
    let mut a = StreamAcceptor::new();
    match a.step(AcceptorEvent::StreamArrived) {
        AcceptorAction::Accept(id, message) => {
            assert_eq!(id, 0);
            assert_eq!(format!("{:?}", message), format!("{:?}", Connected::new_empty()));
            assert_eq!(format!("{:?}", message), "Connected { addr: None }");
        }
        other => panic!("unexpected {other:?}"),
    }
}

#[test]
fn acceptor_stops_only_when_the_streams_end() {
    let mut a = StreamAcceptor::new();
    assert_eq!(accept_number(a.step(AcceptorEvent::StreamArrived)), 0);
    assert!(matches!(a.step(AcceptorEvent::StreamsEnded), AcceptorAction::Stop));
    assert!(matches!(a.step(AcceptorEvent::StreamsEnded), AcceptorAction::Ignore));
    assert!(matches!(a.step(AcceptorEvent::StreamArrived), AcceptorAction::Ignore));
    assert!(matches!(a.step(AcceptorEvent::Accepted(0)), AcceptorAction::SpawnHandler(0)));
    assert_eq!(a.pending(), 0);
}

#[test]
fn request_is_refused_when_the_numbers_run_out() {
    let mut i = Intake::numbered_from(u64::MAX - 2);
    assert_eq!(i.step(IntakeEvent::Arrived), IntakeAction::Accept(u64::MAX - 2));
    assert_eq!(i.step(IntakeEvent::Arrived), IntakeAction::Accept(u64::MAX - 1));
    assert_eq!(i.step(IntakeEvent::Arrived), IntakeAction::Refuse);
    assert_eq!(i.step(IntakeEvent::Arrived), IntakeAction::Refuse);
    assert_eq!(i.open_count(), 2);
    // the accepts under way resolve as ever
    assert_eq!(i.step(IntakeEvent::Accepted(u64::MAX - 1)), IntakeAction::Spawn(u64::MAX - 1));
    assert_eq!(i.step(IntakeEvent::Failed(u64::MAX - 2)), IntakeAction::Skip(u64::MAX - 2));
    assert_eq!(i.step(IntakeEvent::Accepted(u64::MAX)), IntakeAction::Ignore);
    assert_eq!(i.open_count(), 0);
}
