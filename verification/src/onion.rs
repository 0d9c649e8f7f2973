//! The inbound side of an onion service.
//!
//! The service hands out a lazy sequence of rendezvous requests. The
//! [`Multiplexer`] is the intake of that sequence: it has each request
//! accepted and gives each accepted one a [`StreamAcceptor`] in a task of
//! its own. A stream acceptor is the intake of the stream requests of one
//! rendezvous: it has each accepted, which tells the remote party that it
//! is connected, and gives each data stream an echo handler in a task of
//! its own.
//!
//! Both are the state machine of [`crate::intake`] under the names of
//! their level, so every law of an intake's runs holds of both.

use tor_cell::relaycell::msg::Connected;
use vstd::prelude::*;
use crate::intake::{spec_intake, Intake, IntakeAction, IntakeEvent, IntakeView};

verus! {

/// The CONNECTED message of tor-cell, which tells the remote party that
/// its stream is open. Nothing inside it is read here.
#[verifier::external_type_specification]
#[verifier::external_body]
pub struct ExConnected(tor_cell::relaycell::msg::Connected);

/// `Connected::new_empty` of tor-cell: builds the CONNECTED message that
/// names no address. Nothing is claimed of the message.
#[verifier::external_body]
fn empty_connected() -> Connected {
    Connected::new_empty()
}

/// What happened on the sequence of rendezvous requests.
#[derive(Clone, Copy, Debug, PartialEq, Eq, Structural)]
pub enum MultiplexerEvent {
    /// The service yielded a rendezvous request.
    RequestArrived,
    /// The accept with this number gave the request's stream requests.
    Accepted(u64),
    /// The accept with this number failed.
    AcceptFailed(u64),
    /// The service was torn down: no request will follow.
    RequestsEnded,
}

/// What the caller of a multiplexer is to do next.
#[derive(Clone, Copy, Debug, PartialEq, Eq, Structural)]
pub enum MultiplexerAction {
    /// Start the accept of the rendezvous request that arrived, under
    /// this number, and go on taking requests while it runs.
    Accept(u64),
    /// Spawn a task that drains, with a stream acceptor of its own, the
    /// stream requests that the accept with this number gave.
    SpawnAcceptor(u64),
    /// Log the failed accept with this number and skip the request.
    Skip(u64),
    /// Drop the request that arrived: every number has been used.
    Refuse,
    /// Stop taking requests.
    Stop,
    /// Nothing to do.
    Ignore,
}

/// What happened on the stream requests of one rendezvous.
#[derive(Clone, Copy, Debug, PartialEq, Eq, Structural)]
pub enum AcceptorEvent {
    /// The rendezvous yielded a stream request.
    StreamArrived,
    /// The accept with this number gave a data stream.
    Accepted(u64),
    /// The accept with this number failed.
    AcceptFailed(u64),
    /// The rendezvous will yield no further stream request.
    StreamsEnded,
}

/// What the caller of a stream acceptor is to do next.
#[derive(Debug)]
pub enum AcceptorAction {
    /// Start the accept of the stream request that arrived, under this
    /// number, and answer the remote party with this message.
    Accept(u64, Connected),
    /// Spawn an echo handler on the data stream that the accept with
    /// this number gave.
    SpawnHandler(u64),
    /// Log the failed accept with this number; only that one stream is
    /// given up.
    Abandon(u64),
    /// Drop the stream request that arrived: every number has been used.
    Refuse,
    /// Stop taking stream requests.
    Stop,
    /// Nothing to do.
    Ignore,
}

impl MultiplexerEvent {
    /// The event as one of an intake.
    pub open spec fn as_intake(self) -> IntakeEvent {
        match self {
            MultiplexerEvent::RequestArrived => IntakeEvent::Arrived,
            MultiplexerEvent::Accepted(id) => IntakeEvent::Accepted(id),
            MultiplexerEvent::AcceptFailed(id) => IntakeEvent::Failed(id),
            MultiplexerEvent::RequestsEnded => IntakeEvent::Ended,
        }
    }
}

impl MultiplexerAction {
    /// The action as one of an intake.
    pub open spec fn as_intake(self) -> IntakeAction {
        match self {
            MultiplexerAction::Accept(id) => IntakeAction::Accept(id),
            MultiplexerAction::SpawnAcceptor(id) => IntakeAction::Spawn(id),
            MultiplexerAction::Skip(id) => IntakeAction::Skip(id),
            MultiplexerAction::Refuse => IntakeAction::Refuse,
            MultiplexerAction::Stop => IntakeAction::Stop,
            MultiplexerAction::Ignore => IntakeAction::Ignore,
        }
    }
}

impl AcceptorEvent {
    /// The event as one of an intake.
    pub open spec fn as_intake(self) -> IntakeEvent {
        match self {
            AcceptorEvent::StreamArrived => IntakeEvent::Arrived,
            AcceptorEvent::Accepted(id) => IntakeEvent::Accepted(id),
            AcceptorEvent::AcceptFailed(id) => IntakeEvent::Failed(id),
            AcceptorEvent::StreamsEnded => IntakeEvent::Ended,
        }
    }
}

impl AcceptorAction {
    /// The action as one of an intake.
    pub open spec fn as_intake(self) -> IntakeAction {
        match self {
            AcceptorAction::Accept(id, _) => IntakeAction::Accept(id),
            AcceptorAction::SpawnHandler(id) => IntakeAction::Spawn(id),
            AcceptorAction::Abandon(id) => IntakeAction::Skip(id),
            AcceptorAction::Refuse => IntakeAction::Refuse,
            AcceptorAction::Stop => IntakeAction::Stop,
            AcceptorAction::Ignore => IntakeAction::Ignore,
        }
    }
}

/// The multiplexer of an onion service's rendezvous requests.
pub struct Multiplexer {
    intake: Intake,
}

impl View for Multiplexer {
    type V = IntakeView;

    closed spec fn view(&self) -> IntakeView {
        self.intake@
    }
}

impl Multiplexer {
    /// A multiplexer for a service that was just launched.
    pub fn new() -> (m: Multiplexer)
        ensures
            m@ == IntakeView::fresh(),
    {
        Multiplexer { intake: Intake::new() }
    }

    /// The number of rendezvous accepts under way.
    pub fn pending(&self) -> (n: usize)
        ensures
            n == self@.open.len(),
    {
        self.intake.open_count()
    }

    /// Takes one event, moves to the next state and says what to do: the
    /// step of an intake, under the names of this level.
    pub fn step(&mut self, event: MultiplexerEvent) -> (action: MultiplexerAction)
        ensures
            (final(self)@, action.as_intake()) == spec_intake(old(self)@, event.as_intake()),
            old(self)@.well_formed() ==> final(self)@.well_formed(),
    {
        let inner = match event {
            MultiplexerEvent::RequestArrived => IntakeEvent::Arrived,
            MultiplexerEvent::Accepted(id) => IntakeEvent::Accepted(id),
            MultiplexerEvent::AcceptFailed(id) => IntakeEvent::Failed(id),
            MultiplexerEvent::RequestsEnded => IntakeEvent::Ended,
        };
        match self.intake.step(inner) {
            IntakeAction::Accept(id) => MultiplexerAction::Accept(id),
            IntakeAction::Spawn(id) => MultiplexerAction::SpawnAcceptor(id),
            IntakeAction::Skip(id) => MultiplexerAction::Skip(id),
            IntakeAction::Refuse => MultiplexerAction::Refuse,
            IntakeAction::Stop => MultiplexerAction::Stop,
            IntakeAction::Ignore => MultiplexerAction::Ignore,
        }
    }
}

/// The acceptor of the stream requests of one rendezvous.
pub struct StreamAcceptor {
    intake: Intake,
}

impl View for StreamAcceptor {
    type V = IntakeView;

    closed spec fn view(&self) -> IntakeView {
        self.intake@
    }
}

impl StreamAcceptor {
    /// An acceptor for a rendezvous that was just accepted.
    pub fn new() -> (a: StreamAcceptor)
        ensures
            a@ == IntakeView::fresh(),
    {
        StreamAcceptor { intake: Intake::new() }
    }

    /// The number of stream accepts under way.
    pub fn pending(&self) -> (n: usize)
        ensures
            n == self@.open.len(),
    {
        self.intake.open_count()
    }

    /// Takes one event, moves to the next state and says what to do: the
    /// step of an intake, under the names of this level.
    pub fn step(&mut self, event: AcceptorEvent) -> (action: AcceptorAction)
        ensures
            (final(self)@, action.as_intake()) == spec_intake(old(self)@, event.as_intake()),
            old(self)@.well_formed() ==> final(self)@.well_formed(),
    {
        let inner = match event {
            AcceptorEvent::StreamArrived => IntakeEvent::Arrived,
            AcceptorEvent::Accepted(id) => IntakeEvent::Accepted(id),
            AcceptorEvent::AcceptFailed(id) => IntakeEvent::Failed(id),
            AcceptorEvent::StreamsEnded => IntakeEvent::Ended,
        };
        match self.intake.step(inner) {
            IntakeAction::Accept(id) => AcceptorAction::Accept(id, empty_connected()),
            IntakeAction::Spawn(id) => AcceptorAction::SpawnHandler(id),
            IntakeAction::Skip(id) => AcceptorAction::Abandon(id),
            IntakeAction::Refuse => AcceptorAction::Refuse,
            IntakeAction::Stop => AcceptorAction::Stop,
            IntakeAction::Ignore => AcceptorAction::Ignore,
        }
    }
}

} // verus!
