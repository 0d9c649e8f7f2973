use native_tor::echo::{
    echo_reply, EchoAction, EchoEvent, EchoHandler, EchoState, IoError, ECHO_CHUNK_LIMIT,
};

#[test]
fn chunk_limit_is_1024() {
    assert_eq!(ECHO_CHUNK_LIMIT, 1024);
}

#[test]
fn echo_handler_returns_ping() {
    let mut h = EchoHandler::new();
    assert_eq!(h.state(), EchoState::Reading);
    // the single read returns the four bytes that the peer wrote
    let a = h.step(EchoEvent::Received(b"ping".to_vec()));
    assert_eq!(a, EchoAction::Write(b"ping".to_vec()));
    assert_eq!(h.state(), EchoState::Writing);
    // once they are written back the stream is dropped: the peer sees its end
    assert_eq!(h.step(EchoEvent::Written), EchoAction::Finish);
    assert_eq!(h.state(), EchoState::Done);
}

#[test]
fn echo_handler_serves_one_round_only() {
    let mut h = EchoHandler::new();
    h.step(EchoEvent::Received(b"one".to_vec()));
    // a second chunk before the write is through is not served
    assert_eq!(h.step(EchoEvent::Received(b"two".to_vec())), EchoAction::Ignore);
    assert_eq!(h.state(), EchoState::Writing);
    h.step(EchoEvent::Written);
    assert_eq!(h.step(EchoEvent::Received(b"three".to_vec())), EchoAction::Ignore);
    assert_eq!(h.step(EchoEvent::Written), EchoAction::Ignore);
    assert_eq!(h.state(), EchoState::Done);
}

#[test]
fn echo_reply_is_verbatim_up_to_the_limit() {
    assert_eq!(echo_reply(vec![]), Vec::<u8>::new());
    assert_eq!(echo_reply(vec![0, 255, 7]), vec![0, 255, 7]);
    let full: Vec<u8> = (0..1024).map(|i| (i % 251) as u8).collect();
    assert_eq!(echo_reply(full.clone()), full);
}

#[test]
fn echo_reply_keeps_the_first_1024_bytes_of_a_longer_chunk() {
    let long: Vec<u8> = (0..1025).map(|i| (i % 251) as u8).collect();
    assert_eq!(echo_reply(long.clone()), long[..1024].to_vec());
    let longer = vec![9u8; 5000];
    assert_eq!(echo_reply(longer).len(), 1024);
}

#[test]
fn empty_read_is_echoed_as_an_empty_write() {
    let mut h = EchoHandler::new();
    assert_eq!(h.step(EchoEvent::Received(vec![])), EchoAction::Write(vec![]));
    assert_eq!(h.step(EchoEvent::Written), EchoAction::Finish);
}

#[test]
fn read_failure_ends_the_handler() {
    let mut h = EchoHandler::new();
    assert_eq!(h.step(EchoEvent::ReadFailed), EchoAction::Fail(IoError::Read));
    assert_eq!(h.state(), EchoState::Done);
    assert_eq!(h.step(EchoEvent::Received(b"late".to_vec())), EchoAction::Ignore);
}

#[test]
fn write_failure_ends_the_handler() {
    let mut h = EchoHandler::new();
    h.step(EchoEvent::Received(b"ping".to_vec()));
    assert_eq!(h.step(EchoEvent::WriteFailed), EchoAction::Fail(IoError::Write));
    assert_eq!(h.state(), EchoState::Done);
    assert_eq!(h.step(EchoEvent::Written), EchoAction::Ignore);
}

#[test]
fn echo_events_out_of_place_are_ignored() {
    let mut h = EchoHandler::new();
    assert_eq!(h.step(EchoEvent::Written), EchoAction::Ignore);
    assert_eq!(h.step(EchoEvent::WriteFailed), EchoAction::Ignore);
    assert_eq!(h.state(), EchoState::Reading);
    h.step(EchoEvent::Received(vec![1]));
    assert_eq!(h.step(EchoEvent::ReadFailed), EchoAction::Ignore);
    assert_eq!(h.state(), EchoState::Writing);
}
