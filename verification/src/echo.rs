//! The handler of one accepted onion data stream.
//!
//! It reads one chunk of at most [`ECHO_CHUNK_LIMIT`] bytes, writes the
//! same bytes back and is done: one read, one write, no second round.

use vstd::prelude::*;

verus! {

/// Largest chunk, in bytes, that a handler reads from its stream.
pub const ECHO_CHUNK_LIMIT: usize = 1024;

/// Which half of the exchange failed.
#[derive(Clone, Copy, Debug, PartialEq, Eq, Structural)]
pub enum IoError {
    /// The read from the stream failed.
    Read,
    /// The write to the stream failed.
    Write,
}

/// Where a handler stands.
#[derive(Clone, Copy, Debug, PartialEq, Eq, Structural)]
pub enum EchoState {
    /// Waiting for the one chunk.
    Reading,
    /// The chunk is being written back.
    Writing,
    /// The handler is done; the stream is to be dropped.
    Done,
}

/// What happened on the handler's stream.
#[derive(Clone, Debug, PartialEq, Eq)]
pub enum EchoEvent {
    /// The read returned these bytes.
    Received(Vec<u8>),
    /// The read failed.
    ReadFailed,
    /// The write went through.
    Written,
    /// The write failed.
    WriteFailed,
}

/// What the caller is to do next.
#[derive(Clone, Debug, PartialEq, Eq)]
pub enum EchoAction {
    /// Write these bytes to the stream and report how that went.
    Write(Vec<u8>),
    /// Drop the stream: the exchange is complete.
    Finish,
    /// Log the failure and drop the stream; no other task is affected.
    Fail(IoError),
    /// Nothing to do.
    Ignore,
}

/// A handler event as a mathematical value.
pub enum EchoEventView {
    Received(Seq<u8>),
    ReadFailed,
    Written,
    WriteFailed,
}

/// A handler action as a mathematical value.
pub enum EchoActionView {
    Write(Seq<u8>),
    Finish,
    Fail(IoError),
    Ignore,
}

impl View for EchoEvent {
    type V = EchoEventView;

    open spec fn view(&self) -> EchoEventView {
        match self {
            EchoEvent::Received(b) => EchoEventView::Received(b@),
            EchoEvent::ReadFailed => EchoEventView::ReadFailed,
            EchoEvent::Written => EchoEventView::Written,
            EchoEvent::WriteFailed => EchoEventView::WriteFailed,
        }
    }
}

impl View for EchoAction {
    type V = EchoActionView;

    open spec fn view(&self) -> EchoActionView {
        match self {
            EchoAction::Write(b) => EchoActionView::Write(b@),
            EchoAction::Finish => EchoActionView::Finish,
            EchoAction::Fail(e) => EchoActionView::Fail(*e),
            EchoAction::Ignore => EchoActionView::Ignore,
        }
    }
}

/// What is written back for what was read: the same bytes, or the first
/// [`ECHO_CHUNK_LIMIT`] of them should the read have returned more.
pub open spec fn echo_of(received: Seq<u8>) -> Seq<u8> {
    if received.len() <= ECHO_CHUNK_LIMIT {
        received
    } else {
        received.take(ECHO_CHUNK_LIMIT as int)
    }
}

/// The transition function of a handler.
pub open spec fn spec_echo_step(s: EchoState, e: EchoEventView) -> (EchoState, EchoActionView) {
    match (s, e) {
        (EchoState::Reading, EchoEventView::Received(b)) => (
            EchoState::Writing,
            EchoActionView::Write(echo_of(b)),
        ),
        (EchoState::Reading, EchoEventView::ReadFailed) => (
            EchoState::Done,
            EchoActionView::Fail(IoError::Read),
        ),
        (EchoState::Writing, EchoEventView::Written) => (EchoState::Done, EchoActionView::Finish),
        (EchoState::Writing, EchoEventView::WriteFailed) => (
            EchoState::Done,
            EchoActionView::Fail(IoError::Write),
        ),
        _ => (s, EchoActionView::Ignore),
    }
}

/// The bytes to write back for the bytes that one read returned.
pub fn echo_reply(received: Vec<u8>) -> (reply: Vec<u8>)
    ensures
        reply@ == echo_of(received@),
{
    let mut reply = received;
    if reply.len() > ECHO_CHUNK_LIMIT {
        reply.truncate(ECHO_CHUNK_LIMIT);
    }
    reply
}

/// The state machine of one handler.
pub struct EchoHandler {
    state: EchoState,
}

impl View for EchoHandler {
    type V = EchoState;

    closed spec fn view(&self) -> EchoState {
        self.state
    }
}

impl EchoHandler {
    /// A handler for a stream that was just accepted. The caller reads
    /// once, asking for at most [`ECHO_CHUNK_LIMIT`] bytes.
    pub fn new() -> (h: EchoHandler)
        ensures
            h@ == EchoState::Reading,
    {
        EchoHandler { state: EchoState::Reading }
    }

    /// Where the handler stands.
    pub fn state(&self) -> (s: EchoState)
        ensures
            s == self@,
    {
        self.state
    }

    /// Takes one event, moves to the next state and says what to do.
    pub fn step(&mut self, event: EchoEvent) -> (action: EchoAction)
        ensures
            (final(self)@, action@) == spec_echo_step(old(self)@, event@),
    {
        match self.state {
            EchoState::Reading => match event {
                EchoEvent::Received(b) => {
                    self.state = EchoState::Writing;
                    EchoAction::Write(echo_reply(b))
                },
                EchoEvent::ReadFailed => {
                    self.state = EchoState::Done;
                    EchoAction::Fail(IoError::Read)
                },
                _ => EchoAction::Ignore,
            },
            EchoState::Writing => match event {
                EchoEvent::Written => {
                    self.state = EchoState::Done;
                    EchoAction::Finish
                },
                EchoEvent::WriteFailed => {
                    self.state = EchoState::Done;
                    EchoAction::Fail(IoError::Write)
                },
                _ => EchoAction::Ignore,
            },
            EchoState::Done => EchoAction::Ignore,
        }
    }
}

/// The state that a handler which starts in `s` reaches on `events`, and
/// the actions that it asks for on the way, one for each event.
pub open spec fn echo_run(s: EchoState, events: Seq<EchoEventView>) -> (
    EchoState,
    Seq<EchoActionView>,
)
    decreases events.len(),
{
    if events.len() == 0 {
        (s, Seq::empty())
    } else {
        let before = echo_run(s, events.drop_last());
        let last = spec_echo_step(before.0, events.last());
        (last.0, before.1.push(last.1))
    }
}

/// The number of writes that `actions` ask for.
pub open spec fn write_count(actions: Seq<EchoActionView>) -> nat
    decreases actions.len(),
{
    if actions.len() == 0 {
        0
    } else {
        write_count(actions.drop_last()) + if actions.last() is Write {
            1nat
        } else {
            0nat
        }
    }
}

/// What is written back never exceeds the chunk limit, and is the chunk
/// itself whenever the read kept to the limit.
pub proof fn echo_is_verbatim(received: Seq<u8>)
    ensures
        echo_of(received).len() <= ECHO_CHUNK_LIMIT,
        echo_of(received).is_prefix_of(received),
        received.len() <= ECHO_CHUNK_LIMIT ==> echo_of(received) == received,
{
}

/// A handler serves one round: whatever events it is fed, it asks for at
/// most one write, and for none once it has left the reading state by
/// another way.
pub proof fn echo_writes_once(events: Seq<EchoEventView>)
    ensures
        write_count(echo_run(EchoState::Reading, events).1) <= 1,
        echo_run(EchoState::Reading, events).0 == EchoState::Reading ==> write_count(
            echo_run(EchoState::Reading, events).1,
        ) == 0,
        echo_run(EchoState::Reading, events).1.len() == events.len(),
    decreases events.len(),
{
    if events.len() > 0 {
        let front = events.drop_last();
        echo_writes_once(front);
        let before = echo_run(EchoState::Reading, front);
        let last = spec_echo_step(before.0, events.last());
        assert(before.1.push(last.1).drop_last() == before.1);
    }
}

/// The one round in full: a handler that reads `received` and whose write
/// goes through asks for exactly that chunk to be written back, then
/// finishes.
pub proof fn echo_round(received: Seq<u8>)
    ensures
        echo_run(
            EchoState::Reading,
            seq![EchoEventView::Received(received), EchoEventView::Written],
        ) == (EchoState::Done, seq![EchoActionView::Write(echo_of(received)), EchoActionView::Finish]),
{
    let events = seq![EchoEventView::Received(received), EchoEventView::Written];
    let front = events.drop_last();
    assert(front == seq![EchoEventView::Received(received)]);
    assert(front.drop_last() == Seq::<EchoEventView>::empty());
    assert(echo_run(EchoState::Reading, front.drop_last()) == (
        EchoState::Reading,
        Seq::<EchoActionView>::empty(),
    ));
    assert(echo_run(EchoState::Reading, front).1 == seq![EchoActionView::Write(echo_of(received))]);
    assert(echo_run(EchoState::Reading, events).1 == seq![
        EchoActionView::Write(echo_of(received)),
        EchoActionView::Finish,
    ]);
}

} // verus!
