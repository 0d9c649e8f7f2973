//! One SOCKS5 session as a state machine.
//!
//! The caller owns the client socket and, once the connect has resolved,
//! the upstream stream. It reports what happened on them as a
//! [`SessionEvent`] and carries out the [`SessionAction`] that comes back.
//! Each `ClientData` event before the relay carries one whole message of
//! the client, as one read delivered it.

use vstd::prelude::*;
use crate::target::{
    parse_request, spec_parse_request, ProtocolError, Target, TargetView, SOCKS_VERSION,
};

verus! {

/// Method byte of "no authentication required".
pub const METHOD_NO_AUTH: u8 = 0x00;

/// Reply code of a request that was served.
pub const REP_SUCCEEDED: u8 = 0x00;

/// Reply code of a request that failed, whatever the cause.
pub const REP_GENERAL_FAILURE: u8 = 0x01;

/// Where a session stands.
#[derive(Clone, Copy, Debug, PartialEq, Eq, Structural)]
pub enum SessionState {
    /// Waiting for the client's greeting.
    Greeting,
    /// The method was selected; waiting for the request.
    MethodSelected,
    /// The request named a target; the connect to it is under way.
    RequestParsed,
    /// The upstream stream is open and the success reply went out; no
    /// byte has been relayed yet.
    Connected,
    /// Bytes are being copied in both directions.
    Relaying,
    /// The session is over.
    Closed,
}

/// Why a session ended early.
#[derive(Clone, Copy, Debug, PartialEq, Eq, Structural)]
pub enum SessionError {
    /// The client sent a message that is malformed or not supported.
    Protocol(ProtocolError),
    /// The connect to the target failed.
    Connect,
    /// A read or write on one of the two legs failed.
    Io,
}

/// What happened on the session's sockets.
#[derive(Clone, Debug, PartialEq, Eq)]
pub enum SessionEvent {
    /// Bytes arrived from the client.
    ClientData(Vec<u8>),
    /// Bytes arrived from upstream.
    UpstreamData(Vec<u8>),
    /// The connect that was asked for has opened the upstream stream.
    ConnectSucceeded,
    /// The connect that was asked for has failed.
    ConnectFailed,
    /// The client's side reached end of stream.
    ClientClosed,
    /// The upstream side reached end of stream.
    UpstreamClosed,
    /// A read or a write failed.
    IoFailed,
}

/// What the caller is to do next.
#[derive(Clone, Debug, PartialEq, Eq)]
pub enum SessionAction {
    /// Write these bytes of the proxy's own to the client and go on.
    Reply(Vec<u8>),
    /// Open a stream to the target and report how that went.
    Connect(Target),
    /// Write these bytes, which came from the client, to upstream.
    RelayToUpstream(Vec<u8>),
    /// Write these bytes, which came from upstream, to the client.
    RelayToClient(Vec<u8>),
    /// Write this failure reply to the client, then end the session.
    Reject(Vec<u8>, SessionError),
    /// End the session without a reply.
    Abort(SessionError),
    /// One side has ended the relay: close the other and end the session.
    Finish,
    /// Nothing to do.
    Ignore,
}

/// A session event as a mathematical value.
pub enum SessionEventView {
    ClientData(Seq<u8>),
    UpstreamData(Seq<u8>),
    ConnectSucceeded,
    ConnectFailed,
    ClientClosed,
    UpstreamClosed,
    IoFailed,
}

/// A session action as a mathematical value.
pub enum SessionActionView {
    Reply(Seq<u8>),
    Connect(TargetView),
    RelayToUpstream(Seq<u8>),
    RelayToClient(Seq<u8>),
    Reject(Seq<u8>, SessionError),
    Abort(SessionError),
    Finish,
    Ignore,
}

impl View for SessionEvent {
    type V = SessionEventView;

    open spec fn view(&self) -> SessionEventView {
        match self {
            SessionEvent::ClientData(b) => SessionEventView::ClientData(b@),
            SessionEvent::UpstreamData(b) => SessionEventView::UpstreamData(b@),
            SessionEvent::ConnectSucceeded => SessionEventView::ConnectSucceeded,
            SessionEvent::ConnectFailed => SessionEventView::ConnectFailed,
            SessionEvent::ClientClosed => SessionEventView::ClientClosed,
            SessionEvent::UpstreamClosed => SessionEventView::UpstreamClosed,
            SessionEvent::IoFailed => SessionEventView::IoFailed,
        }
    }
}

impl View for SessionAction {
    type V = SessionActionView;

    open spec fn view(&self) -> SessionActionView {
        match self {
            SessionAction::Reply(b) => SessionActionView::Reply(b@),
            SessionAction::Connect(t) => SessionActionView::Connect(t@),
            SessionAction::RelayToUpstream(b) => SessionActionView::RelayToUpstream(b@),
            SessionAction::RelayToClient(b) => SessionActionView::RelayToClient(b@),
            SessionAction::Reject(b, e) => SessionActionView::Reject(b@, *e),
            SessionAction::Abort(e) => SessionActionView::Abort(*e),
            SessionAction::Finish => SessionActionView::Finish,
            SessionAction::Ignore => SessionActionView::Ignore,
        }
    }
}

/// The reply to a greeting: version 5, no authentication.
pub open spec fn spec_method_reply() -> Seq<u8> {
    seq![SOCKS_VERSION, METHOD_NO_AUTH]
}

/// The reply to a request, with reply code `rep`: version 5, the code, a
/// reserved zero, address type IPv4, and a bound address and port of zeros.
pub open spec fn spec_connect_reply(rep: u8) -> Seq<u8> {
    seq![SOCKS_VERSION, rep, 0u8, 1u8, 0u8, 0u8, 0u8, 0u8, 0u8, 0u8]
}

/// What a greeting is refused for, if it is: an empty one has no version
/// byte, and any version other than `0x05` is not served. The method list
/// is not examined.
pub open spec fn spec_check_greeting(b: Seq<u8>) -> Option<ProtocolError> {
    if b.len() < 1 {
        Some(ProtocolError::Truncated)
    } else if b[0] != SOCKS_VERSION {
        Some(ProtocolError::UnsupportedVersion)
    } else {
        None
    }
}

/// The transition function: the state that follows `s` on event `e`, and
/// the action that the event calls for.
pub open spec fn spec_step(s: SessionState, e: SessionEventView) -> (
    SessionState,
    SessionActionView,
) {
    match s {
        SessionState::Greeting => match e {
            SessionEventView::ClientData(b) => match spec_check_greeting(b) {
                None => (SessionState::MethodSelected, SessionActionView::Reply(spec_method_reply())),
                Some(err) => (
                    SessionState::Closed,
                    SessionActionView::Abort(SessionError::Protocol(err)),
                ),
            },
            SessionEventView::ClientClosed | SessionEventView::IoFailed => (
                SessionState::Closed,
                SessionActionView::Abort(SessionError::Io),
            ),
            _ => (s, SessionActionView::Ignore),
        },
        SessionState::MethodSelected => match e {
            SessionEventView::ClientData(b) => match spec_parse_request(b) {
                Ok(t) => (SessionState::RequestParsed, SessionActionView::Connect(t)),
                Err(err) => (
                    SessionState::Closed,
                    SessionActionView::Reject(
                        spec_connect_reply(REP_GENERAL_FAILURE),
                        SessionError::Protocol(err),
                    ),
                ),
            },
            SessionEventView::ClientClosed | SessionEventView::IoFailed => (
                SessionState::Closed,
                SessionActionView::Abort(SessionError::Io),
            ),
            _ => (s, SessionActionView::Ignore),
        },
        SessionState::RequestParsed => match e {
            SessionEventView::ConnectSucceeded => (
                SessionState::Connected,
                SessionActionView::Reply(spec_connect_reply(REP_SUCCEEDED)),
            ),
            SessionEventView::ConnectFailed => (
                SessionState::Closed,
                SessionActionView::Reject(
                    spec_connect_reply(REP_GENERAL_FAILURE),
                    SessionError::Connect,
                ),
            ),
            SessionEventView::ClientClosed | SessionEventView::IoFailed => (
                SessionState::Closed,
                SessionActionView::Abort(SessionError::Io),
            ),
            _ => (s, SessionActionView::Ignore),
        },
        SessionState::Connected | SessionState::Relaying => match e {
            SessionEventView::ClientData(b) => (
                SessionState::Relaying,
                SessionActionView::RelayToUpstream(b),
            ),
            SessionEventView::UpstreamData(b) => (
                SessionState::Relaying,
                SessionActionView::RelayToClient(b),
            ),
            SessionEventView::ClientClosed | SessionEventView::UpstreamClosed => (
                SessionState::Closed,
                SessionActionView::Finish,
            ),
            SessionEventView::IoFailed => (
                SessionState::Closed,
                SessionActionView::Abort(SessionError::Io),
            ),
            _ => (s, SessionActionView::Ignore),
        },
        SessionState::Closed => (SessionState::Closed, SessionActionView::Ignore),
    }
}

/// The reply to a greeting.
pub fn method_reply() -> (reply: Vec<u8>)
    ensures
        reply@ == spec_method_reply(),
{
    vec![SOCKS_VERSION, METHOD_NO_AUTH]
}

/// The reply to a request, with reply code `rep`.
pub fn connect_reply(rep: u8) -> (reply: Vec<u8>)
    ensures
        reply@ == spec_connect_reply(rep),
{
    vec![SOCKS_VERSION, rep, 0u8, 1u8, 0u8, 0u8, 0u8, 0u8, 0u8, 0u8]
}

/// Examines a greeting `VER NMETHODS METHODS`.
pub fn check_greeting(buf: &[u8]) -> (r: Result<(), ProtocolError>)
    ensures
        match r {
            Ok(_) => spec_check_greeting(buf@) == None::<ProtocolError>,
            Err(e) => spec_check_greeting(buf@) == Some(e),
        },
{
    if buf.len() < 1 {
        Err(ProtocolError::Truncated)
    } else if buf[0] != SOCKS_VERSION {
        Err(ProtocolError::UnsupportedVersion)
    } else {
        Ok(())
    }
}

/// The state machine of one session.
pub struct Session {
    state: SessionState,
}

impl View for Session {
    type V = SessionState;

    closed spec fn view(&self) -> SessionState {
        self.state
    }
}

impl Session {
    /// A session for a connection that was just accepted.
    pub fn new() -> (s: Session)
        ensures
            s@ == SessionState::Greeting,
    {
        Session { state: SessionState::Greeting }
    }

    /// Where the session stands.
    pub fn state(&self) -> (s: SessionState)
        ensures
            s == self@,
    {
        self.state
    }

    /// Whether the session is over.
    pub fn is_closed(&self) -> (b: bool)
        ensures
            b == (self@ == SessionState::Closed),
    {
        match self.state {
            SessionState::Closed => true,
            _ => false,
        }
    }

    /// Takes one event, moves to the next state and says what to do.
    pub fn step(&mut self, event: SessionEvent) -> (action: SessionAction)
        ensures
            (final(self)@, action@) == spec_step(old(self)@, event@),
    {
        match self.state {
            SessionState::Greeting => match event {
                SessionEvent::ClientData(b) => match check_greeting(b.as_slice()) {
                    Ok(_) => {
                        self.state = SessionState::MethodSelected;
                        SessionAction::Reply(method_reply())
                    },
                    Err(err) => {
                        self.state = SessionState::Closed;
                        SessionAction::Abort(SessionError::Protocol(err))
                    },
                },
                SessionEvent::ClientClosed | SessionEvent::IoFailed => {
                    self.state = SessionState::Closed;
                    SessionAction::Abort(SessionError::Io)
                },
                _ => SessionAction::Ignore,
            },
            SessionState::MethodSelected => match event {
                SessionEvent::ClientData(b) => match parse_request(b.as_slice()) {
                    Ok(t) => {
                        self.state = SessionState::RequestParsed;
                        SessionAction::Connect(t)
                    },
                    Err(err) => {
                        self.state = SessionState::Closed;
                        SessionAction::Reject(
                            connect_reply(REP_GENERAL_FAILURE),
                            SessionError::Protocol(err),
                        )
                    },
                },
                SessionEvent::ClientClosed | SessionEvent::IoFailed => {
                    self.state = SessionState::Closed;
                    SessionAction::Abort(SessionError::Io)
                },
                _ => SessionAction::Ignore,
            },
            SessionState::RequestParsed => match event {
                SessionEvent::ConnectSucceeded => {
                    self.state = SessionState::Connected;
                    SessionAction::Reply(connect_reply(REP_SUCCEEDED))
                },
                SessionEvent::ConnectFailed => {
                    self.state = SessionState::Closed;
                    SessionAction::Reject(connect_reply(REP_GENERAL_FAILURE), SessionError::Connect)
                },
                SessionEvent::ClientClosed | SessionEvent::IoFailed => {
                    self.state = SessionState::Closed;
                    SessionAction::Abort(SessionError::Io)
                },
                _ => SessionAction::Ignore,
            },
            SessionState::Connected | SessionState::Relaying => match event {
                SessionEvent::ClientData(b) => {
                    self.state = SessionState::Relaying;
                    SessionAction::RelayToUpstream(b)
                },
                SessionEvent::UpstreamData(b) => {
                    self.state = SessionState::Relaying;
                    SessionAction::RelayToClient(b)
                },
                SessionEvent::ClientClosed | SessionEvent::UpstreamClosed => {
                    self.state = SessionState::Closed;
                    SessionAction::Finish
                },
                SessionEvent::IoFailed => {
                    self.state = SessionState::Closed;
                    SessionAction::Abort(SessionError::Io)
                },
                _ => SessionAction::Ignore,
            },
            SessionState::Closed => SessionAction::Ignore,
        }
    }
}

} // verus!
