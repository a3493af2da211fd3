//! The notification loop of a watch session.
//!
//! The loop performs no input or output itself. A driver carries out the
//! directive the loop hands it (read the event descriptor, test whether the
//! event-control file still exists, close the descriptor) and reports what
//! happened as an [`Event`]; the loop answers with the signal to surface to
//! the caller and the next directive.

use vstd::prelude::*;

verus! {

/// Width in bytes of the kernel's notification counter. Every read of the
/// event descriptor asks for exactly this many bytes.
pub const COUNTER_WIDTH: usize = 8;

/// How the driver waits for the event descriptor.
#[derive(Clone, Copy, Debug, PartialEq, Eq)]
pub enum ExecutionMode {
    /// The calling thread blocks in the read.
    Blocking,
    /// Only the owning task is suspended; a reactor reports readiness.
    Reactor,
}

/// Why a session is over.
#[derive(Clone, Copy, Debug, PartialEq, Eq)]
pub enum EndReason {
    /// The event-control file is gone: the cgroup was removed. This is the
    /// normal end of a session, not a failure.
    CgroupRemoved,
    /// A read failed with this OS error code while the cgroup still existed,
    /// and the loop was configured to stop on such errors.
    ReadFailed(i32),
}

/// The states of the loop.
#[derive(Clone, Copy, Debug, PartialEq, Eq)]
pub enum Phase {
    /// Suspended until the event descriptor delivers.
    Waiting,
    /// A read has returned and is being dealt with; the liveness check is
    /// still outstanding. `failure` holds the error code if the read failed.
    Draining { failure: Option<i32> },
    /// The session is over.
    Terminated { reason: EndReason },
}

/// What the driver observed while carrying out a directive.
#[derive(Clone, Copy, Debug, PartialEq, Eq)]
pub enum Event {
    /// The read of the counter completed.
    ReadCompleted,
    /// The read failed with this OS error code.
    ReadFailed(i32),
    /// The liveness check, made after the read returned: whether the
    /// event-control file still exists.
    ControlFile { present: bool },
}

/// What the loop surfaces to the caller.
#[derive(Clone, Copy, Debug, PartialEq, Eq)]
pub enum Signal {
    /// At least one out-of-memory event occurred in the cgroup.
    OomEvent,
    /// A read of the event descriptor failed with this OS error code.
    ReadError(i32),
    /// The session is over; emitted once, as the last signal.
    Finished(EndReason),
}

/// What the driver has to do next.
#[derive(Clone, Copy, Debug, PartialEq, Eq)]
pub enum Directive {
    /// Wait until the event descriptor is readable and read
    /// [`COUNTER_WIDTH`] bytes from it.
    Read,
    /// Test whether the event-control file still exists.
    CheckControlFile,
    /// Close the event descriptor and stop.
    Close,
}

/// The loop's answer to an accepted event.
#[derive(Clone, Copy, Debug, PartialEq, Eq)]
pub struct Step {
    /// The signal to surface, if the event gives rise to one.
    pub signal: Option<Signal>,
    /// What to do next.
    pub directive: Directive,
}

/// The decision state of one watch session.
#[derive(Clone, Copy, Debug, PartialEq, Eq)]
pub struct NotificationLoop {
    pub phase: Phase,
    /// Whether the loop goes on reading after a read failed while the cgroup
    /// still exists.
    pub continue_on_transient_error: bool,
}

/// The directive that is outstanding in `phase`.
pub open spec fn directive_in(phase: Phase) -> Directive {
    match phase {
        Phase::Waiting => Directive::Read,
        Phase::Draining { .. } => Directive::CheckControlFile,
        Phase::Terminated { .. } => Directive::Close,
    }
}

/// The policy on transient read errors that a mode has unless another is
/// asked for: a blocking loop reads on, a reactor-driven loop stops.
pub open spec fn continues_by_default(mode: ExecutionMode) -> bool {
    mode is Blocking
}

/// `rounds` notifications, each found with the event-control file still in
/// place afterwards.
pub open spec fn surviving_rounds(rounds: nat) -> Seq<Event>
    decreases rounds,
{
    if rounds == 0 {
        Seq::empty()
    } else {
        seq![Event::ReadCompleted, Event::ControlFile { present: true }] + surviving_rounds(
            (rounds - 1) as nat,
        )
    }
}

/// `n` notifications delivered before the cgroup is removed: the liveness
/// check finds the event-control file after each but the last.
pub open spec fn notifications_then_removal(n: nat) -> Seq<Event>
    recommends
        n >= 1,
{
    surviving_rounds((n - 1) as nat) + seq![
        Event::ReadCompleted,
        Event::ControlFile { present: false },
    ]
}

impl NotificationLoop {
    /// Whether `event` answers the directive outstanding in this state.
    pub open spec fn accepts(self, event: Event) -> bool {
        match self.phase {
            Phase::Waiting => event is ReadCompleted || event is ReadFailed,
            Phase::Draining { .. } => event is ControlFile,
            Phase::Terminated { .. } => false,
        }
    }

    /// The phase that an accepted `event` leads to.
    pub open spec fn next_phase(self, event: Event) -> Phase {
        match (self.phase, event) {
            (Phase::Waiting, Event::ReadCompleted) => Phase::Draining { failure: None },
            (Phase::Waiting, Event::ReadFailed(code)) => Phase::Draining { failure: Some(code) },
            (Phase::Draining { .. }, Event::ControlFile { present: false }) => Phase::Terminated {
                reason: EndReason::CgroupRemoved,
            },
            (Phase::Draining { failure: Some(code) }, Event::ControlFile { present: true }) => {
                if self.continue_on_transient_error {
                    Phase::Waiting
                } else {
                    Phase::Terminated { reason: EndReason::ReadFailed(code) }
                }
            },
            (Phase::Draining { failure: None }, Event::ControlFile { present: true }) => {
                Phase::Waiting
            },
            _ => self.phase,
        }
    }

    /// The signal that an accepted `event` gives rise to: one notification
    /// per completed read, one diagnostic per failed read, and the final
    /// signal when the session ends.
    pub open spec fn signal_on(self, event: Event) -> Option<Signal> {
        match event {
            Event::ReadCompleted => Some(Signal::OomEvent),
            Event::ReadFailed(code) => Some(Signal::ReadError(code)),
            Event::ControlFile { .. } => match self.next_phase(event) {
                Phase::Terminated { reason } => Some(Signal::Finished(reason)),
                _ => None,
            },
        }
    }

    /// The state after `event`; an event that is not accepted changes
    /// nothing.
    pub open spec fn after(self, event: Event) -> NotificationLoop {
        if self.accepts(event) {
            NotificationLoop { phase: self.next_phase(event), ..self }
        } else {
            self
        }
    }

    /// The signals surfaced on `event`; none for an event that is not
    /// accepted.
    pub open spec fn emitted(self, event: Event) -> Seq<Signal> {
        if self.accepts(event) && self.signal_on(event) is Some {
            seq![self.signal_on(event)->0]
        } else {
            Seq::empty()
        }
    }

    /// The state after a whole sequence of events, taken in order.
    pub open spec fn run(self, events: Seq<Event>) -> NotificationLoop
        decreases events.len(),
    {
        if events.len() == 0 {
            self
        } else {
            self.after(events[0]).run(events.skip(1))
        }
    }

    /// The signals surfaced over a whole sequence of events, in order.
    pub open spec fn signals(self, events: Seq<Event>) -> Seq<Signal>
        decreases events.len(),
    {
        if events.len() == 0 {
            Seq::empty()
        } else {
            self.emitted(events[0]) + self.after(events[0]).signals(events.skip(1))
        }
    }

    /// A loop for a freshly registered descriptor. It starts out waiting.
    pub fn new(continue_on_transient_error: bool) -> (lp: NotificationLoop)
        ensures
            lp == (NotificationLoop { phase: Phase::Waiting, continue_on_transient_error }),
    {
        NotificationLoop { phase: Phase::Waiting, continue_on_transient_error }
    }

    /// A loop with the policy on transient read errors that `mode` has by
    /// default.
    pub fn for_mode(mode: ExecutionMode) -> (lp: NotificationLoop)
        ensures
            lp == (NotificationLoop {
                phase: Phase::Waiting,
                continue_on_transient_error: continues_by_default(mode),
            }),
    {
        let continue_on_transient_error = match mode {
            ExecutionMode::Blocking => true,
            ExecutionMode::Reactor => false,
        };
        NotificationLoop { phase: Phase::Waiting, continue_on_transient_error }
    }

    /// The directive that is outstanding now.
    pub fn directive(&self) -> (d: Directive)
        ensures
            d == directive_in(self.phase),
    {
        match self.phase {
            Phase::Waiting => Directive::Read,
            Phase::Draining { .. } => Directive::CheckControlFile,
            Phase::Terminated { .. } => Directive::Close,
        }
    }

    /// Whether the session is over.
    pub fn is_terminated(&self) -> (t: bool)
        ensures
            t == (self.phase is Terminated),
    {
        match self.phase {
            Phase::Terminated { .. } => true,
            _ => false,
        }
    }

    /// Takes one event from the driver.
    ///
    /// An event that answers the outstanding directive moves the loop on and
    /// yields the signal to surface and the next directive. Any other event
    /// (a liveness report while a read is outstanding, anything at all once
    /// the session is over) is refused with `None` and changes nothing.
    pub fn step(&mut self, event: Event) -> (r: Option<Step>)
        ensures
            *final(self) == old(self).after(event),
            old(self).accepts(event) ==> r == Some(
                Step {
                    signal: old(self).signal_on(event),
                    directive: directive_in(old(self).next_phase(event)),
                },
            ),
            !old(self).accepts(event) ==> r is None,
    {
        match (self.phase, event) {
            (Phase::Waiting, Event::ReadCompleted) => {
                self.phase = Phase::Draining { failure: None };
                Some(Step { signal: Some(Signal::OomEvent), directive: Directive::CheckControlFile })
            },
            (Phase::Waiting, Event::ReadFailed(code)) => {
                self.phase = Phase::Draining { failure: Some(code) };
                Some(
                    Step {
                        signal: Some(Signal::ReadError(code)),
                        directive: Directive::CheckControlFile,
                    },
                )
            },
            (Phase::Draining { failure }, Event::ControlFile { present }) => {
                let ended = if !present {
                    Some(EndReason::CgroupRemoved)
                } else {
                    match failure {
                        Some(code) if !self.continue_on_transient_error => Some(
                            EndReason::ReadFailed(code),
                        ),
                        _ => None,
                    }
                };
                match ended {
                    Some(reason) => {
                        self.phase = Phase::Terminated { reason };
                        Some(
                            Step {
                                signal: Some(Signal::Finished(reason)),
                                directive: Directive::Close,
                            },
                        )
                    },
                    None => {
                        self.phase = Phase::Waiting;
                        Some(Step { signal: None, directive: Directive::Read })
                    },
                }
            },
            _ => None,
        }
    }

    /// Feeds a recorded sequence of events to the loop, in order, and
    /// collects the signals it surfaces. Events that are refused are passed
    /// over.
    pub fn replay(&mut self, events: &Vec<Event>) -> (out: Vec<Signal>)
        ensures
            *final(self) == old(self).run(events@),
            out@ == old(self).signals(events@),
    {
        let mut out: Vec<Signal> = Vec::new();
        let mut i: usize = 0;
        assert(events@.skip(0) == events@);
        while i < events.len()
            invariant
                i <= events.len(),
                old(self).run(events@) == self.run(events@.skip(i as int)),
                old(self).signals(events@) == out@ + self.signals(events@.skip(i as int)),
            decreases events.len() - i,
        {
            let ghost before = *self;
            let ghost rest = events@.skip(i as int);
            assert(rest[0] == events@[i as int]);
            assert(rest.skip(1) == events@.skip(i + 1));
            match self.step(events[i]) {
                Some(Step { signal: Some(signal), .. }) => {
                    out.push(signal);
                },
                _ => {},
            }
            assert(out@ + self.signals(rest.skip(1)) == old(self).signals(events@)) by {
                assert(before.signals(rest) == before.emitted(rest[0]) + self.signals(
                    rest.skip(1),
                ));
            }
            i += 1;
        }
        out
    }
}

/// Cgroup removal before any event: whatever the first read returns, and
/// whatever the policy on transient errors, a loop that finds the
/// event-control file gone at its first liveness check is over after that
/// one read, and it ends as a session that was removed, not as a failed one.
pub proof fn lemma_removed_before_first_event(continue_on_transient_error: bool, first: Event)
    requires
        first is ReadCompleted || first is ReadFailed,
    ensures
        ({
            let fresh = NotificationLoop { phase: Phase::Waiting, continue_on_transient_error };
            let events = seq![first, Event::ControlFile { present: false }];
            &&& fresh.run(events).phase == Phase::Terminated { reason: EndReason::CgroupRemoved }
            &&& fresh.signals(events) == seq![
                fresh.signal_on(first)->0,
                Signal::Finished(EndReason::CgroupRemoved),
            ]
        }),
{
    let fresh = NotificationLoop { phase: Phase::Waiting, continue_on_transient_error };
    let events = seq![first, Event::ControlFile { present: false }];
    let second = events.skip(1);
    assert(second[0] == Event::ControlFile { present: false });
    assert(second.skip(1).len() == 0);
    let drained = fresh.after(first);
    let ended = drained.after(second[0]);
    assert(drained.run(second) == ended.run(second.skip(1)));
    assert(fresh.run(events) == drained.run(second));
    assert(drained.signals(second) == drained.emitted(second[0]) + ended.signals(second.skip(1)));
    assert(fresh.signals(events) == fresh.emitted(first) + drained.signals(second));
}

/// A waiting loop that is fed `rounds` notifications, each with the
/// event-control file still in place, and then `tail`, surfaces one
/// out-of-memory signal per notification and goes on with `tail` as if it had
/// just started waiting.
pub proof fn lemma_surviving_rounds(lp: NotificationLoop, rounds: nat, tail: Seq<Event>)
    requires
        lp.phase is Waiting,
    ensures
        lp.run(surviving_rounds(rounds) + tail) == lp.run(tail),
        lp.signals(surviving_rounds(rounds) + tail) == Seq::new(rounds, |i: int| Signal::OomEvent)
            + lp.signals(tail),
    decreases rounds,
{
    if rounds == 0 {
        assert(surviving_rounds(rounds) + tail == tail);
        assert(Seq::new(rounds, |i: int| Signal::OomEvent) + lp.signals(tail) == lp.signals(tail));
    } else {
        let shorter = surviving_rounds((rounds - 1) as nat) + tail;
        let events = surviving_rounds(rounds) + tail;
        let read = Event::ReadCompleted;
        let alive = Event::ControlFile { present: true };
        assert(events == seq![read, alive] + shorter);
        assert(events[0] == read);
        let second = events.skip(1);
        assert(second[0] == alive);
        assert(second.skip(1) == shorter);
        let drained = lp.after(read);
        assert(drained.after(alive) == lp);
        assert(lp.run(events) == drained.run(second));
        assert(drained.run(second) == lp.run(shorter));
        assert(lp.signals(events) == lp.emitted(read) + drained.signals(second));
        assert(drained.signals(second) == drained.emitted(alive) + lp.signals(shorter));
        lemma_surviving_rounds(lp, (rounds - 1) as nat, tail);
        assert(seq![Signal::OomEvent] + Seq::new((rounds - 1) as nat, |i: int| Signal::OomEvent)
            == Seq::new(rounds, |i: int| Signal::OomEvent));
    }
}

/// `n` notifications delivered before the cgroup is removed make a fresh
/// loop surface exactly `n` out-of-memory signals, then the final signal of a
/// removed session, and leave it terminated.
pub proof fn lemma_one_signal_per_notification(continue_on_transient_error: bool, n: nat)
    requires
        n >= 1,
    ensures
        ({
            let fresh = NotificationLoop { phase: Phase::Waiting, continue_on_transient_error };
            let events = notifications_then_removal(n);
            &&& fresh.run(events).phase == Phase::Terminated { reason: EndReason::CgroupRemoved }
            &&& fresh.signals(events) == Seq::new(n, |i: int| Signal::OomEvent).push(
                Signal::Finished(EndReason::CgroupRemoved),
            )
        }),
{
    let fresh = NotificationLoop { phase: Phase::Waiting, continue_on_transient_error };
    let last = seq![Event::ReadCompleted, Event::ControlFile { present: false }];
    lemma_surviving_rounds(fresh, (n - 1) as nat, last);
    lemma_removed_before_first_event(continue_on_transient_error, Event::ReadCompleted);
    assert(Seq::new((n - 1) as nat, |i: int| Signal::OomEvent) + seq![
        Signal::OomEvent,
        Signal::Finished(EndReason::CgroupRemoved),
    ] == Seq::new(n, |i: int| Signal::OomEvent).push(Signal::Finished(EndReason::CgroupRemoved)));
}

/// Once a session is over it stays over: a terminated loop accepts no event,
/// changes no more and surfaces nothing, so the directive to close the
/// descriptor is handed out once.
pub proof fn lemma_terminated_is_final(lp: NotificationLoop, events: Seq<Event>)
    requires
        lp.phase is Terminated,
    ensures
        lp.run(events) == lp,
        lp.signals(events) == Seq::<Signal>::empty(),
    decreases events.len(),
{
    if events.len() > 0 {
        lemma_terminated_is_final(lp, events.skip(1));
    }
}

/// Whether the final signal, if it occurs in `signals` at all, occurs once
/// and in the last place.
pub open spec fn finishes_last(signals: Seq<Signal>) -> bool {
    forall|i: int| 0 <= i < signals.len() && #[trigger] signals[i] is Finished ==> i + 1
        == signals.len()
}

/// Whatever the driver reports, and in whatever order, the final signal is
/// surfaced at most once and nothing is surfaced after it; and it has been
/// surfaced exactly when a session that was not over before is over now.
pub proof fn lemma_finished_comes_last(lp: NotificationLoop, events: Seq<Event>)
    ensures
        finishes_last(lp.signals(events)),
        lp.signals(events).len() > 0 && lp.signals(events).last() is Finished ==> lp.run(
            events,
        ).phase is Terminated,
        !(lp.phase is Terminated) && lp.run(events).phase is Terminated ==> lp.signals(
            events,
        ).len() > 0 && lp.signals(events).last() is Finished,
    decreases events.len(),
{
    if events.len() > 0 {
        let next = lp.after(events[0]);
        let first = lp.emitted(events[0]);
        let rest = next.signals(events.skip(1));
        let all = lp.signals(events);
        lemma_finished_comes_last(next, events.skip(1));
        if first.len() > 0 && first[0] is Finished {
            lemma_terminated_is_final(next, events.skip(1));
            assert(all == first);
        } else {
            assert forall|i: int| 0 <= i < all.len() && #[trigger] all[i] is Finished implies i + 1
                == all.len() by {
                if i >= first.len() {
                    assert(all[i] == rest[i - first.len()]);
                }
            }
            if all.len() > 0 && all.last() is Finished {
                assert(rest.len() > 0);
                assert(all.last() == rest.last());
            }
            if !(lp.phase is Terminated) && lp.run(events).phase is Terminated {
                assert(!(next.phase is Terminated));
                assert(all.last() == rest.last());
            }
        }
    }
}

} // verus!
