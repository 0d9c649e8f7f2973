//! The listener of the SOCKS5 proxy.
//!
//! It binds one loopback TCP port and then accepts without end. Every
//! connection gets a session in a task of its own, so that no session
//! holds up the next accept. An accept that fails is logged and the loop
//! goes on; only a bind that fails is fatal.

use vstd::prelude::*;
use crate::startup::StartupError;

verus! {

/// The port that the proxy listens on unless told otherwise.
pub const DEFAULT_SOCKS_PORT: u16 = 9050;

/// Where a listener stands.
#[derive(Clone, Copy, Debug, PartialEq, Eq, Structural)]
pub enum ListenerState {
    /// The port is being bound.
    Binding,
    /// The accept loop runs.
    Accepting,
    /// The bind failed.
    Failed,
}

/// What happened on the listening socket.
#[derive(Clone, Copy, Debug, PartialEq, Eq, Structural)]
pub enum ListenerEvent {
    /// The port is bound.
    Bound,
    /// The port could not be bound.
    BindFailed,
    /// An accept returned a connection.
    Connection,
    /// An accept failed.
    AcceptFailed,
}

/// What the caller is to do next.
#[derive(Clone, Copy, Debug, PartialEq, Eq, Structural)]
pub enum ListenerAction {
    /// Begin to accept.
    Accept,
    /// Spawn a task that runs a new session on the connection, and
    /// accept again without waiting for it.
    SpawnSession,
    /// Log the failure and accept again.
    LogAndContinue,
    /// Give up startup with this error.
    Abort(StartupError),
    /// Nothing to do.
    Ignore,
}

/// The transition function of a listener.
pub open spec fn spec_listener_step(s: ListenerState, e: ListenerEvent) -> (
    ListenerState,
    ListenerAction,
) {
    match (s, e) {
        (ListenerState::Binding, ListenerEvent::Bound) => (
            ListenerState::Accepting,
            ListenerAction::Accept,
        ),
        (ListenerState::Binding, ListenerEvent::BindFailed) => (
            ListenerState::Failed,
            ListenerAction::Abort(StartupError::Bind),
        ),
        (ListenerState::Accepting, ListenerEvent::Connection) => (
            ListenerState::Accepting,
            ListenerAction::SpawnSession,
        ),
        (ListenerState::Accepting, ListenerEvent::AcceptFailed) => (
            ListenerState::Accepting,
            ListenerAction::LogAndContinue,
        ),
        _ => (s, ListenerAction::Ignore),
    }
}

/// The state machine of the listener.
pub struct Listener {
    port: u16,
    state: ListenerState,
}

/// A listener as a mathematical value.
pub struct ListenerView {
    /// The loopback port that it binds.
    pub port: u16,
    /// Where it stands.
    pub state: ListenerState,
}

impl View for Listener {
    type V = ListenerView;

    closed spec fn view(&self) -> ListenerView {
        ListenerView { port: self.port, state: self.state }
    }
}

impl Listener {
    /// A listener that is to bind `port` on the loopback address.
    pub fn new(port: u16) -> (l: Listener)
        ensures
            l@ == (ListenerView { port, state: ListenerState::Binding }),
    {
        Listener { port, state: ListenerState::Binding }
    }

    /// A listener on [`DEFAULT_SOCKS_PORT`].
    pub fn on_default_port() -> (l: Listener)
        ensures
            l@ == (ListenerView { port: DEFAULT_SOCKS_PORT, state: ListenerState::Binding }),
    {
        Listener::new(DEFAULT_SOCKS_PORT)
    }

    /// The loopback port that the listener binds.
    pub fn port(&self) -> (p: u16)
        ensures
            p == self@.port,
    {
        self.port
    }

    /// The address that the listener binds: the IPv4 loopback address
    /// and its port.
    pub fn address(&self) -> (a: ([u8; 4], u16))
        ensures
            a.0@ == seq![127u8, 0u8, 0u8, 1u8],
            a.1 == self@.port,
    {
        ([127, 0, 0, 1], self.port)
    }

    /// Where the listener stands.
    pub fn state(&self) -> (s: ListenerState)
        ensures
            s == self@.state,
    {
        self.state
    }

    /// Takes one event, moves to the next state and says what to do.
    pub fn step(&mut self, event: ListenerEvent) -> (action: ListenerAction)
        ensures
            final(self)@.port == old(self)@.port,
            (final(self)@.state, action) == spec_listener_step(old(self)@.state, event),
    {
        match (self.state, event) {
            (ListenerState::Binding, ListenerEvent::Bound) => {
                self.state = ListenerState::Accepting;
                ListenerAction::Accept
            },
            (ListenerState::Binding, ListenerEvent::BindFailed) => {
                self.state = ListenerState::Failed;
                ListenerAction::Abort(StartupError::Bind)
            },
            (ListenerState::Accepting, ListenerEvent::Connection) => ListenerAction::SpawnSession,
            (ListenerState::Accepting, ListenerEvent::AcceptFailed) => {
                ListenerAction::LogAndContinue
            },
            _ => ListenerAction::Ignore,
        }
    }
}

/// The state that a listener which starts in `s` reaches on `events`, and
/// the actions that it asks for on the way, one for each event.
pub open spec fn listener_run(s: ListenerState, events: Seq<ListenerEvent>) -> (
    ListenerState,
    Seq<ListenerAction>,
)
    decreases events.len(),
{
    if events.len() == 0 {
        (s, Seq::empty())
    } else {
        let before = listener_run(s, events.drop_last());
        let last = spec_listener_step(before.0, events.last());
        (last.0, before.1.push(last.1))
    }
}

/// The accept loop never stops: a listener that accepts goes on
/// accepting whatever happens; it spawns a session on every connection
/// and on nothing else, and answers a failed accept by accepting again.
pub proof fn accept_loop_never_stops(events: Seq<ListenerEvent>)
    ensures
        listener_run(ListenerState::Accepting, events).0 == ListenerState::Accepting,
        listener_run(ListenerState::Accepting, events).1.len() == events.len(),
        forall|i: int|
            0 <= i < events.len() ==> (#[trigger] listener_run(
                ListenerState::Accepting,
                events,
            ).1[i] == ListenerAction::SpawnSession <==> events[i] == ListenerEvent::Connection),
        forall|i: int|
            0 <= i < events.len() ==> (#[trigger] listener_run(
                ListenerState::Accepting,
                events,
            ).1[i] == ListenerAction::LogAndContinue <==> events[i]
                == ListenerEvent::AcceptFailed),
    decreases events.len(),
{
    if events.len() > 0 {
        accept_loop_never_stops(events.drop_last());
    }
}

/// A failed bind is fatal: the listener never accepts and never spawns a
/// session afterwards.
pub proof fn bind_failure_is_fatal(events: Seq<ListenerEvent>)
    ensures
        spec_listener_step(ListenerState::Binding, ListenerEvent::BindFailed) == (
            ListenerState::Failed,
            ListenerAction::Abort(StartupError::Bind),
        ),
        listener_run(ListenerState::Failed, events).0 == ListenerState::Failed,
        listener_run(ListenerState::Failed, events).1.len() == events.len(),
        forall|i: int|
            0 <= i < events.len() ==> #[trigger] listener_run(ListenerState::Failed, events).1[i]
                == ListenerAction::Ignore,
    decreases events.len(),
{
    if events.len() > 0 {
        bind_failure_is_fatal(events.drop_last());
    }
}

} // verus!
