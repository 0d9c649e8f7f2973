use native_tor::session::{
    check_greeting, connect_reply, method_reply, Session, SessionAction, SessionError,
    SessionEvent, SessionState, REP_GENERAL_FAILURE, REP_SUCCEEDED,
};
use native_tor::target::{AddressKind, ProtocolError, Target};

const SUCCESS: [u8; 10] = [5, 0, 0, 1, 0, 0, 0, 0, 0, 0];
const FAILURE: [u8; 10] = [5, 1, 0, 1, 0, 0, 0, 0, 0, 0];

fn connect_request() -> Vec<u8> {
    let mut b = vec![5, 1, 0, 3, 11];
    b.extend_from_slice(b"example.com");
    b.extend_from_slice(&[0x01, 0xbb]);
    b
}

/// Drives a new session through greeting, request and connect.
fn connected_session() -> Session {
    let mut s = Session::new();
    s.step(SessionEvent::ClientData(vec![5, 1, 0]));
    s.step(SessionEvent::ClientData(connect_request()));
    s.step(SessionEvent::ConnectSucceeded);
    assert_eq!(s.state(), SessionState::Connected);
    s
}

#[test]
fn replies_have_the_documented_bytes() {
    assert_eq!(method_reply(), vec![5, 0]);
    assert_eq!(connect_reply(REP_SUCCEEDED), SUCCESS.to_vec());
    assert_eq!(connect_reply(REP_GENERAL_FAILURE), FAILURE.to_vec());
    assert_eq!(connect_reply(7), vec![5, 7, 0, 1, 0, 0, 0, 0, 0, 0]);
}

#[test]
fn greeting_is_checked_for_its_version_only() {
    assert_eq!(check_greeting(&[5, 1, 0]), Ok(()));
    assert_eq!(check_greeting(&[5, 2, 0, 2]), Ok(()));
    // no-auth is not among the methods offered
    assert_eq!(check_greeting(&[5, 1, 2]), Ok(()));
    // the method list is cut short
    assert_eq!(check_greeting(&[5, 3, 0]), Ok(()));
    assert_eq!(check_greeting(&[5]), Ok(()));
    assert_eq!(check_greeting(&[4, 1, 0]), Err(ProtocolError::UnsupportedVersion));
    assert_eq!(check_greeting(&[]), Err(ProtocolError::Truncated));
}

#[test]
fn new_session_waits_for_the_greeting() {
    let s = Session::new();
    assert_eq!(s.state(), SessionState::Greeting);
    assert!(!s.is_closed());
}

#[test]
fn handshake_selects_no_auth_unconditionally() {
    let mut s = Session::new();
    let a = s.step(SessionEvent::ClientData(vec![5, 2, 1, 2]));
    assert_eq!(a, SessionAction::Reply(vec![5, 0]));
    assert_eq!(s.state(), SessionState::MethodSelected);
}

#[test]
fn request_leads_to_connect_with_the_parsed_target() {
    let mut s = Session::new();
    s.step(SessionEvent::ClientData(vec![5, 1, 0]));
    let a = s.step(SessionEvent::ClientData(connect_request()));
    assert_eq!(
        a,
        SessionAction::Connect(Target {
            kind: AddressKind::Domain,
            host: "example.com".to_string(),
            port: 443,
        })
    );
    assert_eq!(s.state(), SessionState::RequestParsed);
}

#[test]
fn success_reply_follows_the_connect() {
    let mut s = Session::new();
    s.step(SessionEvent::ClientData(vec![5, 1, 0]));
    // a connect outcome that nobody asked for is ignored
    assert_eq!(s.step(SessionEvent::ConnectSucceeded), SessionAction::Ignore);
    assert_eq!(s.state(), SessionState::MethodSelected);
    s.step(SessionEvent::ClientData(connect_request()));
    assert_eq!(s.step(SessionEvent::ConnectSucceeded), SessionAction::Reply(SUCCESS.to_vec()));
    assert_eq!(s.state(), SessionState::Connected);
    // and is sent once
    assert_eq!(s.step(SessionEvent::ConnectSucceeded), SessionAction::Ignore);
}

#[test]
fn failed_connect_sends_the_failure_reply_and_closes() {
    let mut s = Session::new();
    s.step(SessionEvent::ClientData(vec![5, 1, 0]));
    s.step(SessionEvent::ClientData(connect_request()));
    let a = s.step(SessionEvent::ConnectFailed);
    assert_eq!(a, SessionAction::Reject(FAILURE.to_vec(), SessionError::Connect));
    assert!(s.is_closed());
}

#[test]
fn wrong_version_in_greeting_aborts_without_reply_or_connect() {
    let mut s = Session::new();
    let a = s.step(SessionEvent::ClientData(vec![4, 1, 0]));
    assert_eq!(a, SessionAction::Abort(SessionError::Protocol(ProtocolError::UnsupportedVersion)));
    assert!(s.is_closed());
    // whatever follows, nothing is asked for
    assert_eq!(s.step(SessionEvent::ClientData(connect_request())), SessionAction::Ignore);
    assert_eq!(s.step(SessionEvent::ConnectSucceeded), SessionAction::Ignore);
    assert!(s.is_closed());
}

#[test]
fn wrong_version_in_request_is_rejected_without_connect() {
    let mut s = Session::new();
    s.step(SessionEvent::ClientData(vec![5, 1, 0]));
    let mut request = connect_request();
    request[0] = 4;
    let a = s.step(SessionEvent::ClientData(request));
    assert_eq!(
        a,
        SessionAction::Reject(
            FAILURE.to_vec(),
            SessionError::Protocol(ProtocolError::UnsupportedVersion)
        )
    );
    assert!(s.is_closed());
    assert_eq!(s.step(SessionEvent::ClientData(connect_request())), SessionAction::Ignore);
}

#[test]
fn unsupported_command_is_rejected_without_connect() {
    for cmd in [0u8, 2, 3, 0xff] {
        let mut s = Session::new();
        s.step(SessionEvent::ClientData(vec![5, 1, 0]));
        let mut request = connect_request();
        request[1] = cmd;
        let a = s.step(SessionEvent::ClientData(request));
        assert_eq!(
            a,
            SessionAction::Reject(
                FAILURE.to_vec(),
                SessionError::Protocol(ProtocolError::UnsupportedCommand)
            )
        );
        assert!(s.is_closed());
        assert_eq!(s.step(SessionEvent::ConnectSucceeded), SessionAction::Ignore);
    }
}

#[test]
fn unsupported_address_type_is_rejected() {
    let mut s = Session::new();
    s.step(SessionEvent::ClientData(vec![5, 1, 0]));
    let a = s.step(SessionEvent::ClientData(vec![5, 1, 0, 2, 1, 2, 3, 4, 0, 80]));
    assert_eq!(
        a,
        SessionAction::Reject(
            FAILURE.to_vec(),
            SessionError::Protocol(ProtocolError::UnsupportedAddressType)
        )
    );
    assert!(s.is_closed());
}

#[test]
fn truncated_request_is_rejected() {
    let mut s = Session::new();
    s.step(SessionEvent::ClientData(vec![5, 1, 0]));
    let a = s.step(SessionEvent::ClientData(vec![5, 1, 0, 3, 200, b'a', b'b']));
    assert_eq!(
        a,
        SessionAction::Reject(FAILURE.to_vec(), SessionError::Protocol(ProtocolError::Truncated))
    );
    assert!(s.is_closed());
}

#[test]
fn empty_greeting_is_truncated() {
    let mut s = Session::new();
    let a = s.step(SessionEvent::ClientData(vec![]));
    assert_eq!(a, SessionAction::Abort(SessionError::Protocol(ProtocolError::Truncated)));
    assert!(s.is_closed());
}

#[test]
fn client_leaving_during_the_handshake_ends_the_session() {
    for steps in 0..3 {
        let mut s = Session::new();
        if steps >= 1 {
            s.step(SessionEvent::ClientData(vec![5, 1, 0]));
        }
        if steps >= 2 {
            s.step(SessionEvent::ClientData(connect_request()));
        }
        assert_eq!(s.step(SessionEvent::ClientClosed), SessionAction::Abort(SessionError::Io));
        assert!(s.is_closed());
    }
    let mut s = Session::new();
    assert_eq!(s.step(SessionEvent::IoFailed), SessionAction::Abort(SessionError::Io));
    assert!(s.is_closed());
}

#[test]
fn events_out_of_place_are_ignored() {
    let mut s = Session::new();
    assert_eq!(s.step(SessionEvent::UpstreamData(vec![1, 2])), SessionAction::Ignore);
    assert_eq!(s.step(SessionEvent::UpstreamClosed), SessionAction::Ignore);
    assert_eq!(s.step(SessionEvent::ConnectFailed), SessionAction::Ignore);
    assert_eq!(s.state(), SessionState::Greeting);
    s.step(SessionEvent::ClientData(vec![5, 1, 0]));
    s.step(SessionEvent::ClientData(connect_request()));
    // the connect is under way: nothing is relayed yet
    assert_eq!(s.step(SessionEvent::ClientData(vec![9])), SessionAction::Ignore);
    assert_eq!(s.step(SessionEvent::UpstreamData(vec![9])), SessionAction::Ignore);
    assert_eq!(s.state(), SessionState::RequestParsed);
}

#[test]
fn relay_forwards_both_directions_verbatim() {
    let mut s = connected_session();
    assert_eq!(
        s.step(SessionEvent::ClientData(b"GET / HTTP/1.0\r\n\r\n".to_vec())),
        SessionAction::RelayToUpstream(b"GET / HTTP/1.0\r\n\r\n".to_vec())
    );
    assert_eq!(s.state(), SessionState::Relaying);
    assert_eq!(
        s.step(SessionEvent::UpstreamData(b"HTTP/1.0 200 OK\r\n".to_vec())),
        SessionAction::RelayToClient(b"HTTP/1.0 200 OK\r\n".to_vec())
    );
    // bytes that look like a request are relayed like any others
    assert_eq!(
        s.step(SessionEvent::ClientData(connect_request())),
        SessionAction::RelayToUpstream(connect_request())
    );
    assert_eq!(s.state(), SessionState::Relaying);
}

#[test]
fn relay_ends_when_either_side_closes() {
    let mut s = connected_session();
    s.step(SessionEvent::ClientData(vec![1]));
    assert_eq!(s.step(SessionEvent::UpstreamClosed), SessionAction::Finish);
    assert!(s.is_closed());
    assert_eq!(s.step(SessionEvent::ClientData(vec![2])), SessionAction::Ignore);

    let mut s = connected_session();
    assert_eq!(s.step(SessionEvent::ClientClosed), SessionAction::Finish);
    assert!(s.is_closed());
    assert_eq!(s.step(SessionEvent::UpstreamData(vec![2])), SessionAction::Ignore);
}

#[test]
fn relay_ends_on_io_failure() {
    let mut s = connected_session();
    s.step(SessionEvent::UpstreamData(vec![1]));
    assert_eq!(s.step(SessionEvent::IoFailed), SessionAction::Abort(SessionError::Io));
    assert!(s.is_closed());
}

/// An upstream that sends back whatever it is sent.
struct EchoUpstream {
    pending: Vec<Vec<u8>>,
}

#[test]
fn full_session_with_echoing_upstream_returns_every_byte_in_order() {
    let mut upstream = EchoUpstream { pending: Vec::new() };
    let mut to_client: Vec<u8> = Vec::new();
    let mut s = Session::new();

    match s.step(SessionEvent::ClientData(vec![5, 1, 0])) {
        SessionAction::Reply(b) => assert_eq!(b, vec![5, 0]),
        other => panic!("unexpected {other:?}"),
    }
    let mut request = vec![5, 1, 0, 1, 127, 0, 0, 1];
    request.extend_from_slice(&[0, 7]);
    match s.step(SessionEvent::ClientData(request)) {
        SessionAction::Connect(t) => {
            assert_eq!(t.host, "127.0.0.1");
            assert_eq!(t.port, 7);
        }
        other => panic!("unexpected {other:?}"),
    }
    match s.step(SessionEvent::ConnectSucceeded) {
        SessionAction::Reply(b) => assert_eq!(b, SUCCESS.to_vec()),
        other => panic!("unexpected {other:?}"),
    }

    let chunks: Vec<Vec<u8>> = vec![
        b"hello".to_vec(),
        vec![],
        (0..=255u8).collect(),
        b" world".to_vec(),
        vec![0; 4096],
    ];
    let mut written: Vec<u8> = Vec::new();
    for chunk in &chunks {
        written.extend_from_slice(chunk);
        match s.step(SessionEvent::ClientData(chunk.clone())) {
            SessionAction::RelayToUpstream(b) => upstream.pending.push(b),
            other => panic!("unexpected {other:?}"),
        }
        // the upstream answers some chunks late, two at a time
        if upstream.pending.len() == 2 {
            for echoed in upstream.pending.drain(..) {
                match s.step(SessionEvent::UpstreamData(echoed)) {
                    SessionAction::RelayToClient(b) => to_client.extend_from_slice(&b),
                    other => panic!("unexpected {other:?}"),
                }
            }
        }
    }
    for echoed in upstream.pending.drain(..) {
        match s.step(SessionEvent::UpstreamData(echoed)) {
            SessionAction::RelayToClient(b) => to_client.extend_from_slice(&b),
            other => panic!("unexpected {other:?}"),
        }
    }
    assert_eq!(to_client, written);
    assert_eq!(s.step(SessionEvent::ClientClosed), SessionAction::Finish);
    assert!(s.is_closed());
}

#[test]
fn at_most_one_connect_is_asked_for() {
    let mut s = Session::new();
    let events = vec![
        SessionEvent::ClientData(vec![5, 1, 0]),
        SessionEvent::ClientData(connect_request()),
        SessionEvent::ClientData(connect_request()),
        SessionEvent::ConnectSucceeded,
        SessionEvent::ClientData(connect_request()),
        SessionEvent::ConnectSucceeded,
        SessionEvent::UpstreamData(vec![1]),
        SessionEvent::ClientClosed,
        SessionEvent::ClientData(connect_request()),
    ];
    let mut connects = 0;
    let mut success_replies = 0;
    for e in events {
        match s.step(e) {
            SessionAction::Connect(_) => {
                assert_eq!(success_replies, 0);
                connects += 1;
            }
            SessionAction::Reply(b) if b == SUCCESS.to_vec() => {
                assert_eq!(connects, 1);
                success_replies += 1;
            }
            _ => {}
        }
    }
    assert_eq!(connects, 1);
    assert_eq!(success_replies, 1);
}
