//! A raw, non-blocking descriptor seen as a readiness-driven byte stream.
//!
//! The stream owns its descriptor and decides, for each read or write, what
//! the driver has to do next: ask the reactor for readiness, attempt the
//! operation once, hand control back to the scheduler, or finish. The driver
//! makes the system calls and talks to the reactor, and reports each outcome
//! as an [`IoEvent`].

use crate::descriptor::{is_descriptor, OwnedDescriptor};
use vstd::prelude::*;

verus! {

/// Where one read or write stands.
#[derive(Clone, Copy, Debug, PartialEq, Eq)]
pub enum OpState {
    /// No operation has been started.
    Idle,
    /// The operation waits for the reactor to report the descriptor ready.
    Suspended,
    /// The descriptor was reported ready; one non-blocking attempt is under
    /// way.
    Attempting,
    /// The operation has finished, with success or with an error.
    Done,
}

/// What the driver observed.
#[derive(Clone, Copy, Debug, PartialEq, Eq)]
pub enum IoEvent {
    /// The task was polled: the operation starts, or resumes after a
    /// wake-up.
    Polled,
    /// The reactor does not report the descriptor ready yet; the task's
    /// waker is registered.
    NotReady,
    /// The reactor reports the descriptor ready.
    Ready,
    /// The attempt found that the operation would still block.
    WouldBlock,
    /// The attempt transferred this many bytes. Zero bytes read mean
    /// end-of-stream.
    Transferred(usize),
    /// The reactor or the attempt failed with this OS error code.
    Failed(i32),
}

/// What the driver has to do next.
#[derive(Clone, Copy, Debug, PartialEq, Eq)]
pub enum IoAction {
    /// Ask the reactor whether the descriptor is ready. With `clear` set,
    /// the readiness that was last reported has proved stale and is cleared
    /// first, so that only a new report counts.
    AwaitReadiness { clear: bool },
    /// Make one non-blocking attempt at the operation.
    Attempt,
    /// Return to the scheduler; the task stays suspended until it is woken.
    Yield,
    /// The operation is over: the number of bytes transferred, or the OS
    /// error code.
    Complete(Result<usize, i32>),
}

/// Why the stream refused a call.
#[derive(Clone, Copy, Debug, PartialEq, Eq)]
pub enum StreamError {
    /// The number handed over names no descriptor.
    InvalidDescriptor,
    /// The stream no longer owns a descriptor: it was shut down.
    Closed,
    /// The event does not answer the action that is outstanding.
    UnexpectedEvent,
}

impl OpState {
    /// Whether `event` can follow in this state.
    pub open spec fn accepts(self, event: IoEvent) -> bool {
        match self {
            OpState::Idle | OpState::Done => event is Polled,
            OpState::Suspended => event is Polled || event is NotReady || event is Ready
                || event is Failed,
            OpState::Attempting => event is WouldBlock || event is Transferred || event is Failed,
        }
    }

    /// The state that an accepted `event` leads to; an event that is not
    /// accepted changes nothing.
    pub open spec fn after(self, event: IoEvent) -> OpState {
        if !self.accepts(event) {
            self
        } else {
            match event {
                IoEvent::Polled | IoEvent::NotReady | IoEvent::WouldBlock => OpState::Suspended,
                IoEvent::Ready => OpState::Attempting,
                IoEvent::Transferred(_) | IoEvent::Failed(_) => OpState::Done,
            }
        }
    }

    /// The action that an accepted `event` asks for. An attempt that would
    /// block is no error: the stale readiness is cleared and readiness is
    /// awaited afresh.
    pub open spec fn action_on(self, event: IoEvent) -> IoAction {
        match event {
            IoEvent::Polled => IoAction::AwaitReadiness { clear: false },
            IoEvent::WouldBlock => IoAction::AwaitReadiness { clear: true },
            IoEvent::NotReady => IoAction::Yield,
            IoEvent::Ready => IoAction::Attempt,
            IoEvent::Transferred(n) => IoAction::Complete(Ok(n)),
            IoEvent::Failed(code) => IoAction::Complete(Err(code)),
        }
    }

    /// The state after a whole sequence of events, taken in order.
    pub open spec fn run(self, events: Seq<IoEvent>) -> OpState
        decreases events.len(),
    {
        if events.len() == 0 {
            self
        } else {
            self.after(events[0]).run(events.skip(1))
        }
    }

    /// The actions asked for over a whole sequence of events, in order;
    /// events that are not accepted ask for none.
    pub open spec fn actions(self, events: Seq<IoEvent>) -> Seq<IoAction>
        decreases events.len(),
    {
        if events.len() == 0 {
            Seq::empty()
        } else {
            let first = if self.accepts(events[0]) {
                seq![self.action_on(events[0])]
            } else {
                Seq::empty()
            };
            first + self.after(events[0]).actions(events.skip(1))
        }
    }

    /// Takes one event. An event that the state accepts moves the operation
    /// on and yields the next action; any other is refused with `None` and
    /// changes nothing.
    pub fn advance(&mut self, event: IoEvent) -> (action: Option<IoAction>)
        ensures
            *final(self) == old(self).after(event),
            old(self).accepts(event) ==> action == Some(old(self).action_on(event)),
            !old(self).accepts(event) ==> action is None,
    {
        match (*self, event) {
            (OpState::Idle, IoEvent::Polled)
            | (OpState::Done, IoEvent::Polled)
            | (OpState::Suspended, IoEvent::Polled) => {
                *self = OpState::Suspended;
                Some(IoAction::AwaitReadiness { clear: false })
            },
            (OpState::Attempting, IoEvent::WouldBlock) => {
                *self = OpState::Suspended;
                Some(IoAction::AwaitReadiness { clear: true })
            },
            (OpState::Suspended, IoEvent::NotReady) => {
                Some(IoAction::Yield)
            },
            (OpState::Suspended, IoEvent::Ready) => {
                *self = OpState::Attempting;
                Some(IoAction::Attempt)
            },
            (OpState::Attempting, IoEvent::Transferred(n)) => {
                *self = OpState::Done;
                Some(IoAction::Complete(Ok(n)))
            },
            (OpState::Suspended, IoEvent::Failed(code))
            | (OpState::Attempting, IoEvent::Failed(code)) => {
                *self = OpState::Done;
                Some(IoAction::Complete(Err(code)))
            },
            _ => None,
        }
    }
}

/// What a stream is, to its callers: the descriptor it owns, if it still
/// owns one, and where its read and its write stand.
pub struct StreamView {
    pub descriptor: Option<int>,
    pub reader: OpState,
    pub writer: OpState,
}

impl StreamView {
    /// The stream that has just taken ownership of `descriptor`.
    pub open spec fn fresh(descriptor: int) -> StreamView {
        StreamView { descriptor: Some(descriptor), reader: OpState::Idle, writer: OpState::Idle }
    }

    /// The answer of a shutdown: the descriptor to close, or the refusal of
    /// a stream that was shut down before.
    pub open spec fn shutdown_result(self) -> Result<i32, StreamError> {
        match self.descriptor {
            Some(descriptor) => Ok(descriptor as i32),
            None => Err(StreamError::Closed),
        }
    }

    /// The stream after a shutdown.
    pub open spec fn shut_down(self) -> StreamView {
        StreamView { descriptor: None, ..self }
    }

    /// The stream after `event` was reported for its read.
    pub open spec fn after_read(self, event: IoEvent) -> StreamView {
        if self.descriptor is Some {
            StreamView { reader: self.reader.after(event), ..self }
        } else {
            self
        }
    }

    /// The stream after `event` was reported for its write.
    pub open spec fn after_write(self, event: IoEvent) -> StreamView {
        if self.descriptor is Some {
            StreamView { writer: self.writer.after(event), ..self }
        } else {
            self
        }
    }
}

/// The stream's answer to `event` for an operation in state `op`.
pub open spec fn poll_result(open: bool, op: OpState, event: IoEvent) -> Result<
    IoAction,
    StreamError,
> {
    if !open {
        Err(StreamError::Closed)
    } else if op.accepts(event) {
        Ok(op.action_on(event))
    } else {
        Err(StreamError::UnexpectedEvent)
    }
}

/// A byte stream over a descriptor that it alone owns.
///
/// Before the first poll the driver switches the descriptor to non-blocking
/// mode and registers it with the reactor.
#[derive(Debug)]
pub struct PipeStream {
    descriptor: Option<OwnedDescriptor>,
    reader: OpState,
    writer: OpState,
}

impl View for PipeStream {
    type V = StreamView;

    closed spec fn view(&self) -> StreamView {
        StreamView {
            descriptor: match self.descriptor {
                Some(d) => Some(d@),
                None => None,
            },
            reader: self.reader,
            writer: self.writer,
        }
    }
}

impl PipeStream {
    /// Wraps a descriptor that is already owned.
    pub fn from_descriptor(descriptor: OwnedDescriptor) -> (stream: PipeStream)
        ensures
            stream@ == StreamView::fresh(descriptor@),
    {
        PipeStream { descriptor: Some(descriptor), reader: OpState::Idle, writer: OpState::Idle }
    }

    /// Takes ownership of the descriptor `fd`. A negative number is refused.
    pub fn new(fd: i32) -> (made: Result<PipeStream, StreamError>)
        ensures
            is_descriptor(fd as int) ==> made is Ok && made->Ok_0@ == StreamView::fresh(fd as int),
            !is_descriptor(fd as int) ==> made == Err::<PipeStream, StreamError>(
                StreamError::InvalidDescriptor,
            ),
    {
        match OwnedDescriptor::adopt(fd) {
            Some(descriptor) => Ok(PipeStream::from_descriptor(descriptor)),
            None => Err(StreamError::InvalidDescriptor),
        }
    }

    /// Takes ownership of the descriptor `fd`, which the caller knows to be
    /// one.
    pub fn from_fd(fd: i32) -> (stream: PipeStream)
        requires
            is_descriptor(fd as int),
        ensures
            stream@ == StreamView::fresh(fd as int),
    {
        PipeStream {
            descriptor: OwnedDescriptor::adopt(fd),
            reader: OpState::Idle,
            writer: OpState::Idle,
        }
    }

    /// Whether the stream still owns its descriptor.
    pub fn is_open(&self) -> (open: bool)
        ensures
            open == (self@.descriptor is Some),
    {
        self.descriptor.is_some()
    }

    /// The number of the descriptor, while the stream owns one. Ownership
    /// stays with the stream.
    pub fn as_raw_fd(&self) -> (fd: Option<i32>)
        ensures
            fd is Some <==> self@.descriptor is Some,
            fd matches Some(raw) ==> self@.descriptor == Some(raw as int) && is_descriptor(
                raw as int,
            ),
    {
        match &self.descriptor {
            Some(descriptor) => Some(descriptor.raw()),
            None => None,
        }
    }

    /// Gives the descriptor up: the stream is gone and the receiver of the
    /// number has to close it. A stream that was shut down has nothing left
    /// to give.
    pub fn into_raw_fd(self) -> (fd: Option<i32>)
        ensures
            fd is Some <==> self@.descriptor is Some,
            fd matches Some(raw) ==> self@.descriptor == Some(raw as int) && is_descriptor(
                raw as int,
            ),
    {
        match self.descriptor {
            Some(descriptor) => Some(descriptor.release()),
            None => None,
        }
    }

    /// Ends the stream's ownership by closing: the first call hands out the
    /// descriptor that the driver has to close now, and the stream owns
    /// nothing afterwards. Any later call is refused and changes nothing, so
    /// no descriptor is handed out for closing twice.
    pub fn shutdown(&mut self) -> (closing: Result<i32, StreamError>)
        ensures
            closing == old(self)@.shutdown_result(),
            final(self)@ == old(self)@.shut_down(),
            closing matches Ok(raw) ==> is_descriptor(raw as int),
    {
        match self.descriptor.take() {
            Some(descriptor) => Ok(descriptor.release()),
            None => Err(StreamError::Closed),
        }
    }

    /// Takes one event of the stream's read and says what to do next.
    ///
    /// The read is suspended until the reactor reports the descriptor
    /// readable and is then attempted once. An attempt that would block
    /// suspends it again; bytes read, none at end-of-stream, complete it with
    /// their number; an error completes it with the error.
    pub fn poll_read(&mut self, event: IoEvent) -> (next: Result<IoAction, StreamError>)
        ensures
            next == poll_result(old(self)@.descriptor is Some, old(self)@.reader, event),
            final(self)@ == old(self)@.after_read(event),
    {
        if self.descriptor.is_none() {
            return Err(StreamError::Closed);
        }
        match self.reader.advance(event) {
            Some(action) => Ok(action),
            None => Err(StreamError::UnexpectedEvent),
        }
    }

    /// Takes one event of the stream's write and says what to do next, as
    /// [`PipeStream::poll_read`] does for the read, with readiness for
    /// writing.
    pub fn poll_write(&mut self, event: IoEvent) -> (next: Result<IoAction, StreamError>)
        ensures
            next == poll_result(old(self)@.descriptor is Some, old(self)@.writer, event),
            final(self)@ == old(self)@.after_write(event),
    {
        if self.descriptor.is_none() {
            return Err(StreamError::Closed);
        }
        match self.writer.advance(event) {
            Some(action) => Ok(action),
            None => Err(StreamError::UnexpectedEvent),
        }
    }
}

/// `retries` wake-ups that turn out to be spurious: each time the reactor
/// reports the descriptor ready, and the attempt finds that it would block.
pub open spec fn spurious_wakeups(retries: nat) -> Seq<IoEvent>
    decreases retries,
{
    if retries == 0 {
        Seq::empty()
    } else {
        seq![IoEvent::Ready, IoEvent::WouldBlock] + spurious_wakeups((retries - 1) as nat)
    }
}

/// What `retries` spurious wake-ups make the driver do: attempt, then clear
/// the stale readiness and await it again, each time.
pub open spec fn retry_actions(retries: nat) -> Seq<IoAction>
    decreases retries,
{
    if retries == 0 {
        Seq::empty()
    } else {
        seq![IoAction::Attempt, IoAction::AwaitReadiness { clear: true }] + retry_actions((retries - 1) as nat)
    }
}

/// Spurious wake-ups neither end a suspended operation nor fail it: after
/// any number of them the operation is suspended as before, and all it has
/// asked for is one attempt and one new wait per wake-up.
pub proof fn lemma_spurious_wakeups_resuspend(retries: nat, tail: Seq<IoEvent>)
    ensures
        OpState::Suspended.run(spurious_wakeups(retries) + tail) == OpState::Suspended.run(tail),
        OpState::Suspended.actions(spurious_wakeups(retries) + tail) == retry_actions(retries)
            + OpState::Suspended.actions(tail),
    decreases retries,
{
    let suspended = OpState::Suspended;
    if retries == 0 {
        assert(spurious_wakeups(retries) + tail == tail);
        assert(retry_actions(retries) + suspended.actions(tail) == suspended.actions(tail));
    } else {
        let shorter = spurious_wakeups((retries - 1) as nat) + tail;
        let events = spurious_wakeups(retries) + tail;
        assert(events == seq![IoEvent::Ready, IoEvent::WouldBlock] + shorter);
        assert(events[0] == IoEvent::Ready);
        let second = events.skip(1);
        assert(second[0] == IoEvent::WouldBlock);
        assert(second.skip(1) == shorter);
        let attempting = OpState::Attempting;
        assert(suspended.run(events) == attempting.run(second));
        assert(attempting.run(second) == suspended.run(shorter));
        assert(suspended.actions(events) == seq![IoAction::Attempt] + attempting.actions(second));
        assert(attempting.actions(second) == seq![IoAction::AwaitReadiness { clear: true }]
            + suspended.actions(shorter));
        lemma_spurious_wakeups_resuspend((retries - 1) as nat, tail);
        assert(seq![IoAction::Attempt] + (seq![IoAction::AwaitReadiness { clear: true }] + (retry_actions(
            (retries - 1) as nat,
        ) + suspended.actions(tail))) == retry_actions(retries) + suspended.actions(tail));
    }
}

/// An operation that is polled, woken spuriously any number of times and
/// then transfers `n` bytes completes exactly once, at the very end, with
/// `n` bytes and no error. With `n == 0` this is a read at end-of-stream.
pub proof fn lemma_completes_after_spurious_wakeups(retries: nat, n: usize)
    ensures
        ({
            let events = seq![IoEvent::Polled] + spurious_wakeups(retries) + seq![
                IoEvent::Ready,
                IoEvent::Transferred(n),
            ];
            &&& OpState::Idle.run(events) == OpState::Done
            &&& OpState::Idle.actions(events) == seq![IoAction::AwaitReadiness { clear: false }]
                + retry_actions(retries) + seq![IoAction::Attempt, IoAction::Complete(Ok(n))]
        }),
{
    let last = seq![IoEvent::Ready, IoEvent::Transferred(n)];
    let rest = spurious_wakeups(retries) + last;
    let events = seq![IoEvent::Polled] + spurious_wakeups(retries) + last;
    let suspended = OpState::Suspended;
    assert(events == seq![IoEvent::Polled] + rest);
    assert(events[0] == IoEvent::Polled);
    assert(events.skip(1) == rest);
    assert(OpState::Idle.run(events) == suspended.run(rest));
    assert(OpState::Idle.actions(events) == seq![IoAction::AwaitReadiness { clear: false }]
        + suspended.actions(rest));
    lemma_spurious_wakeups_resuspend(retries, last);
    let second = last.skip(1);
    assert(second[0] == IoEvent::Transferred(n));
    assert(second.skip(1).len() == 0);
    let attempting = OpState::Attempting;
    assert(suspended.run(last) == attempting.run(second));
    assert(attempting.run(second) == OpState::Done.run(second.skip(1)));
    assert(suspended.actions(last) == seq![IoAction::Attempt] + attempting.actions(second));
    assert(attempting.actions(second) == seq![IoAction::Complete(Ok(n))] + OpState::Done.actions(
        second.skip(1),
    ));
    assert(suspended.actions(last) == seq![IoAction::Attempt, IoAction::Complete(Ok(n))]);
    assert(seq![IoAction::AwaitReadiness { clear: false }] + (retry_actions(retries) + seq![
        IoAction::Attempt,
        IoAction::Complete(Ok(n)),
    ]) == seq![IoAction::AwaitReadiness { clear: false }] + retry_actions(retries) + seq![
        IoAction::Attempt,
        IoAction::Complete(Ok(n)),
    ]);
}

/// Closing twice through the stream is refused the second time: whatever the
/// stream was before, once it is shut down a further shutdown hands out no
/// descriptor and leaves the stream as it is.
pub proof fn lemma_second_shutdown_is_refused(stream: StreamView)
    ensures
        stream.shut_down().shutdown_result() == Err::<i32, StreamError>(StreamError::Closed),
        stream.shut_down().shut_down() == stream.shut_down(),
{
}

} // verus!
