//! The handshake that subscribes an event descriptor to a cgroup's
//! out-of-memory controller.
//!
//! Three things have to happen, in this order: the cgroup's OOM-control file
//! is opened for reading, an event descriptor is created, and the record
//! that names both descriptors is written to the cgroup's event-control
//! file. The registrar says which of them is due and takes the outcome; the
//! driver makes the system calls. The first failure ends the attempt.

use crate::cgroup::{joined, CgroupHandle, EVENT_CONTROL, OOM_CONTROL};
use crate::descriptor::{is_descriptor, OwnedDescriptor};
use crate::record::{is_record, lemma_record_shape, record, registration_record};
use vstd::prelude::*;

verus! {

/// Why a registration failed. Each variant carries the OS error code and
/// the descriptors that were open by then and are left for the caller to
/// close.
#[derive(Clone, Copy, Debug, PartialEq, Eq)]
pub enum RegistrationError {
    /// The OOM-control file could not be opened.
    OpenControl { code: i32 },
    /// No event descriptor could be created.
    CreateDescriptor { code: i32, control: i32 },
    /// The record could not be written to the event-control file.
    WriteRecord { code: i32, control: i32, event: i32 },
}

/// How far the handshake has come.
#[derive(Clone, Copy, Debug, PartialEq, Eq)]
pub enum Stage {
    /// The OOM-control file is to be opened.
    OpeningControl,
    /// The OOM-control file is open on `control`; the event descriptor is to
    /// be created.
    CreatingDescriptor { control: i32 },
    /// Both descriptors exist; the record is to be written.
    WritingRecord { control: i32, event: i32 },
    /// The record is written: `event` is subscribed, and `control` has to
    /// stay open for as long as `event` does.
    Registered { control: i32, event: i32 },
    /// The attempt failed. Nothing is tried again.
    Failed { error: RegistrationError },
}

/// What came of the step that was due.
#[derive(Clone, Copy, Debug, PartialEq, Eq)]
pub enum Outcome {
    /// The OOM-control file is open on this descriptor.
    Opened(i32),
    /// The event descriptor was created, with this number.
    Created(i32),
    /// The record was written.
    Written,
    /// The step failed with this OS error code.
    Failed(i32),
}

/// What the driver has to do next.
#[derive(Debug, PartialEq, Eq)]
pub enum Request {
    /// Open the file at `path`, the cgroup's OOM-control file, for reading,
    /// and keep it open.
    OpenControl { path: String },
    /// Create an event descriptor whose counter starts at `initial`, closed
    /// across process-image replacement if `close_on_exec` is set.
    CreateDescriptor { initial: u32, close_on_exec: bool },
    /// Write `payload` as the entire contents of the file at `path`, the
    /// cgroup's event-control file.
    WriteRecord { path: String, payload: Vec<u8> },
    /// The handshake is complete; take the subscription.
    Conclude,
    /// The attempt failed; close the descriptors that `error` names and
    /// report it.
    Abandon { error: RegistrationError },
}

/// A request, with its path and its payload as sequences.
pub enum RequestView {
    OpenControl { path: Seq<char> },
    CreateDescriptor { initial: u32, close_on_exec: bool },
    WriteRecord { path: Seq<char>, payload: Seq<u8> },
    Conclude,
    Abandon { error: RegistrationError },
}

impl View for Request {
    type V = RequestView;

    open spec fn view(&self) -> RequestView {
        match *self {
            Request::OpenControl { path } => RequestView::OpenControl { path: path@ },
            Request::CreateDescriptor { initial, close_on_exec } => RequestView::CreateDescriptor {
                initial,
                close_on_exec,
            },
            Request::WriteRecord { path, payload } => RequestView::WriteRecord {
                path: path@,
                payload: payload@,
            },
            Request::Conclude => RequestView::Conclude,
            Request::Abandon { error } => RequestView::Abandon { error },
        }
    }
}

/// The request that is due at `stage` of the handshake for the cgroup in
/// `dir`: the event descriptor starts with an empty counter and is closed
/// across process-image replacement, and the record names the event
/// descriptor first.
pub open spec fn request_at(dir: Seq<char>, stage: Stage) -> RequestView {
    match stage {
        Stage::OpeningControl => RequestView::OpenControl { path: joined(dir, OOM_CONTROL@) },
        Stage::CreatingDescriptor { .. } => RequestView::CreateDescriptor {
            initial: 0,
            close_on_exec: true,
        },
        Stage::WritingRecord { control, event } => RequestView::WriteRecord {
            path: joined(dir, EVENT_CONTROL@),
            payload: record(event as int, control as int),
        },
        Stage::Registered { .. } => RequestView::Conclude,
        Stage::Failed { error } => RequestView::Abandon { error },
    }
}

impl Stage {
    /// Whether every descriptor that the stage holds is one, and the two of
    /// a pair differ.
    pub open spec fn wf(self) -> bool {
        match self {
            Stage::OpeningControl | Stage::Failed { error: RegistrationError::OpenControl { .. } } => true,
            Stage::CreatingDescriptor { control }
            | Stage::Failed { error: RegistrationError::CreateDescriptor { control, .. } } => {
                is_descriptor(control as int)
            },
            Stage::WritingRecord { control, event }
            | Stage::Registered { control, event }
            | Stage::Failed { error: RegistrationError::WriteRecord { control, event, .. } } => {
                is_descriptor(control as int) && is_descriptor(event as int) && control != event
            },
        }
    }

    /// Whether `outcome` answers the request that is due. A number that
    /// names no descriptor, or an event descriptor with the number of the
    /// control descriptor, answers none.
    pub open spec fn accepts(self, outcome: Outcome) -> bool {
        match self {
            Stage::OpeningControl => outcome is Failed || (outcome matches Outcome::Opened(fd)
                && is_descriptor(fd as int)),
            Stage::CreatingDescriptor { control } => outcome is Failed || (
            outcome matches Outcome::Created(fd) && is_descriptor(fd as int) && fd != control),
            Stage::WritingRecord { .. } => outcome is Failed || outcome is Written,
            Stage::Registered { .. } | Stage::Failed { .. } => false,
        }
    }

    /// The stage after `outcome`; an outcome that is not accepted changes
    /// nothing.
    pub open spec fn after(self, outcome: Outcome) -> Stage {
        if !self.accepts(outcome) {
            self
        } else {
            match (self, outcome) {
                (Stage::OpeningControl, Outcome::Opened(control)) => Stage::CreatingDescriptor {
                    control,
                },
                (Stage::OpeningControl, Outcome::Failed(code)) => Stage::Failed {
                    error: RegistrationError::OpenControl { code },
                },
                (Stage::CreatingDescriptor { control }, Outcome::Created(event)) => {
                    Stage::WritingRecord { control, event }
                },
                (Stage::CreatingDescriptor { control }, Outcome::Failed(code)) => Stage::Failed {
                    error: RegistrationError::CreateDescriptor { code, control },
                },
                (Stage::WritingRecord { control, event }, Outcome::Written) => Stage::Registered {
                    control,
                    event,
                },
                (Stage::WritingRecord { control, event }, Outcome::Failed(code)) => Stage::Failed {
                    error: RegistrationError::WriteRecord { code, control, event },
                },
                _ => self,
            }
        }
    }
}

/// What a registrar is, to its callers: the cgroup's directory and the stage
/// of the handshake.
pub struct RegistrarView {
    pub dir: Seq<char>,
    pub stage: Stage,
}

impl RegistrarView {
    /// The registrar that has everything still to do for the cgroup in
    /// `dir`.
    pub open spec fn fresh(dir: Seq<char>) -> RegistrarView {
        RegistrarView { dir, stage: Stage::OpeningControl }
    }

    /// The request that is due.
    pub open spec fn request(self) -> RequestView {
        request_at(self.dir, self.stage)
    }

    /// The registrar after `outcome`.
    pub open spec fn after(self, outcome: Outcome) -> RegistrarView {
        RegistrarView { stage: self.stage.after(outcome), ..self }
    }

    /// The registrar after a whole sequence of outcomes, taken in order.
    pub open spec fn run(self, outcomes: Seq<Outcome>) -> RegistrarView
        decreases outcomes.len(),
    {
        if outcomes.len() == 0 {
            self
        } else {
            self.after(outcomes[0]).run(outcomes.skip(1))
        }
    }

    /// The requests made in answer to a whole sequence of outcomes, in
    /// order; an outcome that is not accepted is answered with none.
    pub open spec fn requests(self, outcomes: Seq<Outcome>) -> Seq<RequestView>
        decreases outcomes.len(),
    {
        if outcomes.len() == 0 {
            Seq::empty()
        } else {
            let first = if self.stage.accepts(outcomes[0]) {
                seq![self.after(outcomes[0]).request()]
            } else {
                Seq::empty()
            };
            first + self.after(outcomes[0]).requests(outcomes.skip(1))
        }
    }
}

/// A completed registration: the subscribed event descriptor, and the
/// descriptor of the OOM-control file that the subscription rests on.
///
/// The control descriptor is not to be closed before the event descriptor,
/// and both are closed when the session ends.
#[derive(Debug)]
pub struct Subscription {
    pub handle: CgroupHandle,
    pub event: OwnedDescriptor,
    pub control: OwnedDescriptor,
}

impl Subscription {
    /// Ends the subscription and names the two descriptors in the order in
    /// which they are to be closed: the event descriptor first, the control
    /// descriptor it was paired with after it.
    pub fn teardown(self) -> (closing: (i32, i32))
        ensures
            closing.0 == self.event@,
            closing.1 == self.control@,
            is_descriptor(closing.0 as int),
            is_descriptor(closing.1 as int),
    {
        let event = self.event.release();
        let control = self.control.release();
        (event, control)
    }
}

/// The handshake for one cgroup.
#[derive(Debug)]
pub struct Registrar {
    handle: CgroupHandle,
    stage: Stage,
}

impl View for Registrar {
    type V = RegistrarView;

    closed spec fn view(&self) -> RegistrarView {
        RegistrarView { dir: self.handle@, stage: self.stage }
    }
}

impl Registrar {
    #[verifier::type_invariant]
    spec fn well_formed(self) -> bool {
        self.stage.wf()
    }

    /// A registrar for the cgroup `handle`, with everything still to do.
    pub fn new(handle: CgroupHandle) -> (registrar: Registrar)
        ensures
            registrar@ == RegistrarView::fresh(handle@),
    {
        Registrar { handle, stage: Stage::OpeningControl }
    }

    /// The cgroup that is being registered for.
    pub fn handle(&self) -> (handle: &CgroupHandle)
        ensures
            handle@ == self@.dir,
    {
        &self.handle
    }

    /// How far the handshake has come.
    pub fn stage(&self) -> (stage: Stage)
        ensures
            stage == self@.stage,
            stage.wf(),
    {
        proof {
            use_type_invariant(self);
        }
        self.stage
    }

    /// The request that is due now.
    pub fn request(&self) -> (request: Request)
        ensures
            request@ == self@.request(),
            request@ matches RequestView::WriteRecord { payload, .. } ==> is_record(payload),
    {
        proof {
            use_type_invariant(self);
        }
        match self.stage {
            Stage::OpeningControl => Request::OpenControl { path: self.handle.oom_control_path() },
            Stage::CreatingDescriptor { .. } => Request::CreateDescriptor {
                initial: 0,
                close_on_exec: true,
            },
            Stage::WritingRecord { control, event } => {
                proof {
                    lemma_record_shape(event as int, control as int);
                }
                Request::WriteRecord {
                    path: self.handle.event_control_path(),
                    payload: registration_record(event, control),
                }
            },
            Stage::Registered { .. } => Request::Conclude,
            Stage::Failed { error } => Request::Abandon { error },
        }
    }

    /// Takes the outcome of the step that was due.
    ///
    /// An outcome that answers the request moves the handshake on and
    /// yields the next request; a failure ends the attempt for good. Any
    /// other outcome is refused with `None` and changes nothing.
    pub fn step(&mut self, outcome: Outcome) -> (next: Option<Request>)
        ensures
            final(self)@ == old(self)@.after(outcome),
            old(self)@.stage.accepts(outcome) ==> next is Some && next->0@ == final(self)@.request(),
            !old(self)@.stage.accepts(outcome) ==> next is None,
    {
        proof {
            use_type_invariant(&*self);
        }
        let stage = match (self.stage, outcome) {
            (Stage::OpeningControl, Outcome::Opened(control)) if control >= 0 => {
                Stage::CreatingDescriptor { control }
            },
            (Stage::OpeningControl, Outcome::Failed(code)) => Stage::Failed {
                error: RegistrationError::OpenControl { code },
            },
            (Stage::CreatingDescriptor { control }, Outcome::Created(event)) if event >= 0 && event
                != control => Stage::WritingRecord { control, event },
            (Stage::CreatingDescriptor { control }, Outcome::Failed(code)) => Stage::Failed {
                error: RegistrationError::CreateDescriptor { code, control },
            },
            (Stage::WritingRecord { control, event }, Outcome::Written) => Stage::Registered {
                control,
                event,
            },
            (Stage::WritingRecord { control, event }, Outcome::Failed(code)) => Stage::Failed {
                error: RegistrationError::WriteRecord { code, control, event },
            },
            _ => {
                return None;
            },
        };
        self.stage = stage;
        Some(self.request())
    }

    /// Ends the handshake. Once the record is written this yields the
    /// subscription, and after a failure the error; while a step is still
    /// due there is nothing to conclude, and the answer is `None`.
    pub fn conclude(self) -> (end: Option<Result<Subscription, RegistrationError>>)
        ensures
            match self@.stage {
                Stage::Registered { control, event } => end matches Some(Ok(subscription))
                    && subscription.handle@ == self@.dir && subscription.event@ == event
                    && subscription.control@ == control,
                Stage::Failed { error } => end == Some(
                    Err::<Subscription, RegistrationError>(error),
                ),
                _ => end is None,
            },
    {
        proof {
            use_type_invariant(&self);
        }
        match self.stage {
            Stage::Registered { control, event } => {
                let event = OwnedDescriptor::adopt(event).unwrap();
                let control = OwnedDescriptor::adopt(control).unwrap();
                Some(Ok(Subscription { handle: self.handle, event, control }))
            },
            Stage::Failed { error } => Some(Err(error)),
            _ => None,
        }
    }
}

/// Registration succeeds whenever its three steps do: once the OOM-control
/// file is open, the event descriptor exists and the write has gone through,
/// the handshake is complete. On the way the registrar asks for the
/// OOM-control file of the cgroup to be opened, for one descriptor to be
/// created and for one write, to the event-control file of the cgroup, and
/// what it hands out for writing has the shape of a record.
pub proof fn lemma_registration_succeeds(dir: Seq<char>, control: i32, event: i32)
    requires
        is_descriptor(control as int),
        is_descriptor(event as int),
        control != event,
    ensures
        ({
            let outcomes = seq![Outcome::Opened(control), Outcome::Created(event), Outcome::Written];
            let start = RegistrarView::fresh(dir);
            &&& start.run(outcomes).stage == Stage::Registered { control, event }
            &&& seq![start.request()] + start.requests(outcomes) == seq![
                RequestView::OpenControl { path: joined(dir, OOM_CONTROL@) },
                RequestView::CreateDescriptor { initial: 0, close_on_exec: true },
                RequestView::WriteRecord {
                    path: joined(dir, EVENT_CONTROL@),
                    payload: record(event as int, control as int),
                },
                RequestView::Conclude,
            ]
            &&& is_record(record(event as int, control as int))
        }),
{
    let outcomes = seq![Outcome::Opened(control), Outcome::Created(event), Outcome::Written];
    let start = RegistrarView::fresh(dir);
    let creating = RegistrarView { dir, stage: Stage::CreatingDescriptor { control } };
    let writing = RegistrarView { dir, stage: Stage::WritingRecord { control, event } };
    let registered = RegistrarView { dir, stage: Stage::Registered { control, event } };
    let after_open = outcomes.skip(1);
    let after_create = after_open.skip(1);
    assert(after_open[0] == Outcome::Created(event));
    assert(after_create[0] == Outcome::Written);
    assert(after_create.skip(1).len() == 0);
    assert(start.after(outcomes[0]) == creating);
    assert(creating.after(after_open[0]) == writing);
    assert(writing.after(after_create[0]) == registered);
    assert(writing.run(after_create) == registered.run(after_create.skip(1)));
    assert(creating.run(after_open) == writing.run(after_create));
    assert(start.run(outcomes) == creating.run(after_open));
    assert(writing.requests(after_create) == seq![registered.request()] + registered.requests(
        after_create.skip(1),
    ));
    assert(creating.requests(after_open) == seq![writing.request()] + writing.requests(
        after_create,
    ));
    assert(start.requests(outcomes) == seq![creating.request()] + creating.requests(after_open));
    lemma_record_shape(event as int, control as int);
}

} // verus!
