//! The lifecycle of a workload's processes: create, start, stop and remove.
//!
//! Each operation is a sequence of requests to the container runtime, the
//! process store and the event notifier. The library decides which request
//! comes next; whoever drives the operation performs the request and hands
//! back the reply. An operation begins with one of [`create`],
//! [`start_by_kind`], [`stop_by_kind`] and [`remove`], each of which gives
//! the operation's state and its first step, and goes on with
//! [`Operation::step`] until a step ends it. [`Operation::step_at`] and
//! [`after_at`] do the same at a time that the caller gives in place of the
//! clock's.

use vstd::prelude::*;

use crate::error::ProcessError;
use crate::error::ProcessErrorView;
use crate::error::RuntimeFailure;
use crate::error::RuntimeFailureView;
use crate::error::StoreFailure;
use crate::error::StoreFailureView;
use crate::labels::owned_labels;
use crate::labels::with_owner_labels;
use crate::labels::Labels;
use crate::process::parse_kind;
use crate::process::parsed_kind;
use crate::process::process_views;
use crate::process::ContainerInspect;
use crate::process::ContainerInspectView;
use crate::process::Process;
use crate::process::ProcessKind;
use crate::process::ProcessPartial;
use crate::process::ProcessView;

verus! {

/// The transition of a workload that its subscribers are told of.
#[derive(Clone, Copy, Debug, PartialEq, Eq, Structural)]
pub enum EventAction {
    Started,
    Stopped,
}

/// How the runtime is to remove a container.
#[derive(Clone, Copy, Debug, PartialEq, Eq, Structural)]
pub struct RemoveOptions {
    /// Remove the volumes of the container with it.
    pub volumes: bool,
    /// Kill the container first if it runs.
    pub force: bool,
    /// Remove the link of that name, not the container.
    pub link: bool,
}

/// What an operation asks of its surroundings.
#[derive(Debug)]
pub enum Request {
    /// Ask the store for the processes kept under the kind key.
    ListProcesses { kind_key: String },
    /// Ask the runtime to create a container of this name with these labels.
    CreateContainer { name: String, labels: Labels },
    /// Ask the runtime what it knows of the container.
    InspectContainer { id: String },
    /// Ask the runtime to start the container.
    StartContainer { id: String },
    /// Ask the runtime to stop the container.
    StopContainer { id: String },
    /// Ask the runtime to remove the container.
    RemoveContainer { key: String, options: Option<RemoveOptions> },
    /// Ask the store to keep a record of the process.
    StoreProcess { process: ProcessPartial },
    /// Ask the store to delete the record of the process.
    DeleteProcess { key: String },
    /// Look the virtual machine up in the store and tell its subscribers.
    EmitVm { key: String, action: EventAction },
    /// Look the cargo up in the store and tell its subscribers.
    EmitCargo { key: String, action: EventAction },
    /// Ask the store to set the time of the job's last change to this time.
    UpdateJob { key: String, updated_at: chrono::NaiveDateTime },
}

/// A request, with each text as its characters and the labels as a map. The
/// time that a job is updated with is no part of it: which time that is
/// is stated where the time is given, by [`after_at`] and
/// [`Operation::step_at`].
pub enum RequestView {
    ListProcesses { kind_key: Seq<char> },
    CreateContainer { name: Seq<char>, labels: Map<Seq<char>, Seq<char>> },
    InspectContainer { id: Seq<char> },
    StartContainer { id: Seq<char> },
    StopContainer { id: Seq<char> },
    RemoveContainer { key: Seq<char>, options: Option<RemoveOptions> },
    StoreProcess { process: ProcessView },
    DeleteProcess { key: Seq<char> },
    EmitVm { key: Seq<char>, action: EventAction },
    EmitCargo { key: Seq<char>, action: EventAction },
    UpdateJob { key: Seq<char> },
}

impl View for Request {
    type V = RequestView;

    open spec fn view(&self) -> RequestView {
        match *self {
            Request::ListProcesses { kind_key } => RequestView::ListProcesses {
                kind_key: kind_key@,
            },
            Request::CreateContainer { name, labels } => RequestView::CreateContainer {
                name: name@,
                labels: labels@,
            },
            Request::InspectContainer { id } => RequestView::InspectContainer { id: id@ },
            Request::StartContainer { id } => RequestView::StartContainer { id: id@ },
            Request::StopContainer { id } => RequestView::StopContainer { id: id@ },
            Request::RemoveContainer { key, options } => RequestView::RemoveContainer {
                key: key@,
                options,
            },
            Request::StoreProcess { process } => RequestView::StoreProcess { process: process@ },
            Request::DeleteProcess { key } => RequestView::DeleteProcess { key: key@ },
            Request::EmitVm { key, action } => RequestView::EmitVm { key: key@, action },
            Request::EmitCargo { key, action } => RequestView::EmitCargo { key: key@, action },
            Request::UpdateJob { key, .. } => RequestView::UpdateJob { key: key@ },
        }
    }
}

/// What an operation does next: it asks for something, or it ends.
#[derive(Debug)]
pub enum Step {
    /// The operation goes on once the request is answered.
    Call(Request),
    /// The operation has ended and has made this process.
    Created(Process),
    /// The operation has ended well.
    Done,
    /// The operation has ended with this error.
    Failed(ProcessError),
}

/// A step, with what it holds as its view.
pub enum StepView {
    Call(RequestView),
    Created(ProcessView),
    Done,
    Failed(ProcessErrorView),
}

impl View for Step {
    type V = StepView;

    open spec fn view(&self) -> StepView {
        match *self {
            Step::Call(request) => StepView::Call(request@),
            Step::Created(process) => StepView::Created(process@),
            Step::Done => StepView::Done,
            Step::Failed(error) => StepView::Failed(error@),
        }
    }
}

/// What came back for the last request.
#[derive(Debug)]
pub enum Reply {
    /// The store's answer to `ListProcesses`.
    Processes(Vec<Process>),
    /// The runtime's answer to `CreateContainer`: the id of the container.
    ContainerCreated { id: String },
    /// The runtime's answer to `InspectContainer`.
    ContainerInspected(ContainerInspect),
    /// The store's answer to `StoreProcess`: the record that it keeps.
    ProcessStored(Process),
    /// The request was carried out and has nothing to tell.
    Done,
    /// The runtime failed.
    RuntimeFailed(RuntimeFailure),
    /// The store failed.
    StoreFailed(StoreFailure),
}

/// A reply, with what it holds as its view.
pub enum ReplyView {
    Processes(Seq<ProcessView>),
    ContainerCreated { id: Seq<char> },
    ContainerInspected(ContainerInspectView),
    ProcessStored(ProcessView),
    Done,
    RuntimeFailed(RuntimeFailureView),
    StoreFailed(StoreFailureView),
}

impl View for Reply {
    type V = ReplyView;

    open spec fn view(&self) -> ReplyView {
        match *self {
            Reply::Processes(processes) => ReplyView::Processes(process_views(processes@)),
            Reply::ContainerCreated { id } => ReplyView::ContainerCreated { id: id@ },
            Reply::ContainerInspected(data) => ReplyView::ContainerInspected(data@),
            Reply::ProcessStored(process) => ReplyView::ProcessStored(process@),
            Reply::Done => ReplyView::Done,
            Reply::RuntimeFailed(failure) => ReplyView::RuntimeFailed(failure@),
            Reply::StoreFailed(failure) => ReplyView::StoreFailed(failure@),
        }
    }
}

impl ReplyView {
    /// The error that an operation ends with when this reply is not what it
    /// goes on with: the failure that the reply reports, or that the reply
    /// fits no pending request.
    pub open spec fn error(self) -> ProcessErrorView {
        match self {
            ReplyView::RuntimeFailed(failure) => ProcessErrorView::of_runtime(failure),
            ReplyView::StoreFailed(failure) => ProcessErrorView::of_store(failure),
            _ => ProcessErrorView::OutOfTurn,
        }
    }

    /// Whether the reply says that the container is gone: the runtime has
    /// removed it, or has found none to remove.
    pub open spec fn container_gone(self) -> bool {
        match self {
            ReplyView::Done => true,
            ReplyView::RuntimeFailed(failure) => failure.is_absent(),
            _ => false,
        }
    }
}

/// Where an operation stands: which reply it waits for, and what it needs
/// to go on from there.
pub enum OperationView {
    /// Waits for the processes of the workload.
    Listing { action: EventAction, kind: ProcessKind, kind_key: Seq<char> },
    /// Waits for the runtime to start or stop the process before `next`.
    Switching {
        action: EventAction,
        kind: ProcessKind,
        kind_key: Seq<char>,
        processes: Seq<ProcessView>,
        next: nat,
    },
    /// Waits for the runtime to remove the container.
    Removing { key: Seq<char> },
    /// Waits for the runtime to create the container.
    Creating { name: Seq<char>, kind: ProcessKind, kind_key: Seq<char>, node_key: Seq<char> },
    /// Waits for the runtime to inspect the container.
    Inspecting {
        id: Seq<char>,
        name: Seq<char>,
        kind: ProcessKind,
        kind_key: Seq<char>,
        node_key: Seq<char>,
    },
    /// Waits for the store to keep the record.
    Storing,
    /// Waits for the last request to be carried out.
    Closing,
    /// Has ended.
    Finished,
}

/// The request that follows the starting or stopping of a workload's
/// processes: subscribers of a virtual machine or a cargo are told, and a
/// job has the time of its last change set.
pub open spec fn after_request(
    kind: ProcessKind,
    kind_key: Seq<char>,
    action: EventAction,
) -> RequestView {
    match kind {
        ProcessKind::Vm => RequestView::EmitVm { key: kind_key, action },
        ProcessKind::Cargo => RequestView::EmitCargo { key: kind_key, action },
        ProcessKind::Job => RequestView::UpdateJob { key: kind_key },
    }
}

/// Whether the process is, by what the runtime last said of it, where the
/// action would bring it: running for a start, not running for a stop.
pub open spec fn already(action: EventAction, process: ProcessView) -> bool {
    process.data.is_running() == (action == EventAction::Started)
}

/// The request to the runtime that carries the action out on the process.
pub open spec fn switch_request(action: EventAction, process: ProcessView) -> RequestView {
    match action {
        EventAction::Started => RequestView::StartContainer { id: process.data.id_or_empty() },
        EventAction::Stopped => RequestView::StopContainer { id: process.data.id_or_empty() },
    }
}

/// An operation that has ended with an error.
pub open spec fn halted(error: ProcessErrorView) -> (OperationView, StepView) {
    (OperationView::Finished, StepView::Failed(error))
}

/// How starting or stopping goes on with the process at `next`. Past the
/// last process, the request of [`after_request`] follows. At a process that
/// is already where the action would bring it, the operation ends at once
/// and leaves the processes behind it as they are. Any other process is
/// started or stopped.
pub open spec fn switch_from(
    action: EventAction,
    kind: ProcessKind,
    kind_key: Seq<char>,
    processes: Seq<ProcessView>,
    next: nat,
) -> (OperationView, StepView) {
    if next >= processes.len() {
        (OperationView::Closing, StepView::Call(after_request(kind, kind_key, action)))
    } else if already(action, processes[next as int]) {
        (OperationView::Finished, StepView::Done)
    } else {
        (
            OperationView::Switching { action, kind, kind_key, processes, next: next + 1 },
            StepView::Call(switch_request(action, processes[next as int])),
        )
    }
}

/// Where an operation stands after a reply, and the step that it takes.
///
/// A reply that the operation does not wait for ends it: with the failure
/// where the reply reports one, and else with the error of a reply out of
/// turn. The one failure that does not end an operation is the runtime's
/// word that the container to remove does not exist.
pub open spec fn transition(state: OperationView, reply: ReplyView) -> (OperationView, StepView) {
    match state {
        OperationView::Listing { action, kind, kind_key } => match reply {
            ReplyView::Processes(processes) => switch_from(action, kind, kind_key, processes, 0),
            _ => halted(reply.error()),
        },
        OperationView::Switching { action, kind, kind_key, processes, next } => match reply {
            ReplyView::Done => switch_from(action, kind, kind_key, processes, next),
            _ => halted(reply.error()),
        },
        OperationView::Removing { key } => if reply.container_gone() {
            (OperationView::Closing, StepView::Call(RequestView::DeleteProcess { key }))
        } else {
            halted(reply.error())
        },
        OperationView::Creating { name, kind, kind_key, node_key } => match reply {
            ReplyView::ContainerCreated { id } => (
                OperationView::Inspecting { id, name, kind, kind_key, node_key },
                StepView::Call(RequestView::InspectContainer { id }),
            ),
            _ => halted(reply.error()),
        },
        OperationView::Inspecting { id, name, kind, kind_key, node_key } => match reply {
            ReplyView::ContainerInspected(data) => (
                OperationView::Storing,
                StepView::Call(
                    RequestView::StoreProcess {
                        process: ProcessView { key: id, name, kind, data, node_key, kind_key },
                    },
                ),
            ),
            _ => halted(reply.error()),
        },
        OperationView::Storing => match reply {
            ReplyView::ProcessStored(process) => (
                OperationView::Finished,
                StepView::Created(process),
            ),
            _ => halted(reply.error()),
        },
        OperationView::Closing => match reply {
            ReplyView::Done => (OperationView::Finished, StepView::Done),
            _ => halted(reply.error()),
        },
        OperationView::Finished => halted(ProcessErrorView::OutOfTurn),
    }
}

#[derive(Debug)]
enum Stage {
    Listing { action: EventAction, kind: ProcessKind, kind_key: String },
    Switching {
        action: EventAction,
        kind: ProcessKind,
        kind_key: String,
        processes: Vec<Process>,
        next: usize,
    },
    Removing { key: String },
    Creating { name: String, kind: ProcessKind, kind_key: String, node_key: String },
    Inspecting { id: String, name: String, kind: ProcessKind, kind_key: String, node_key: String },
    Storing,
    Closing,
    Finished,
}

/// An operation under way.
#[derive(Debug)]
pub struct Operation {
    stage: Stage,
}

impl View for Operation {
    type V = OperationView;

    closed spec fn view(&self) -> OperationView {
        match self.stage {
            Stage::Listing { action, kind, kind_key } => OperationView::Listing {
                action,
                kind,
                kind_key: kind_key@,
            },
            Stage::Switching { action, kind, kind_key, processes, next } => {
                OperationView::Switching {
                    action,
                    kind,
                    kind_key: kind_key@,
                    processes: process_views(processes@),
                    next: next as nat,
                }
            },
            Stage::Removing { key } => OperationView::Removing { key: key@ },
            Stage::Creating { name, kind, kind_key, node_key } => OperationView::Creating {
                name: name@,
                kind,
                kind_key: kind_key@,
                node_key: node_key@,
            },
            Stage::Inspecting { id, name, kind, kind_key, node_key } => OperationView::Inspecting {
                id: id@,
                name: name@,
                kind,
                kind_key: kind_key@,
                node_key: node_key@,
            },
            Stage::Storing => OperationView::Storing,
            Stage::Closing => OperationView::Closing,
            Stage::Finished => OperationView::Finished,
        }
    }
}

/// `chrono::NaiveDateTime`: a date and a time of day without a time zone.
/// Nothing is known of what is inside it.
#[verifier::external_type_specification]
#[verifier::external_body]
pub struct ExNaiveDateTime(chrono::NaiveDateTime);

/// Calls `chrono::Utc::now`, which reads the system's clock, and takes the
/// date and time of its answer with `naive_utc`. Nothing is claimed of the
/// time that comes back. The call panics where the clock stands before the
/// year 1970.
#[verifier::external_body]
fn utc_now() -> chrono::NaiveDateTime {
    chrono::Utc::now().naive_utc()
}

/// The request that follows the starting or stopping of a workload's
/// processes, at the time `now`: subscribers of a virtual machine or a cargo
/// are told, and a job has the time of its last change set to `now`.
pub fn after_at(
    kind: &ProcessKind,
    kind_key: &str,
    action: EventAction,
    now: chrono::NaiveDateTime,
) -> (res: Request)
    ensures
        res@ == after_request(*kind, kind_key@, action),
        res matches Request::UpdateJob { updated_at, .. } ==> updated_at == now,
{
    match kind {
        ProcessKind::Vm => Request::EmitVm { key: kind_key.to_owned(), action },
        ProcessKind::Cargo => Request::EmitCargo { key: kind_key.to_owned(), action },
        ProcessKind::Job => Request::UpdateJob { key: kind_key.to_owned(), updated_at: now },
    }
}

/// The request that follows the starting or stopping of a workload's
/// processes: that of [`after_at`] at the time that the clock shows when
/// this is called.
pub fn after(kind: &ProcessKind, kind_key: &str, action: EventAction) -> (res: Request)
    ensures
        res@ == after_request(*kind, kind_key@, action),
{
    after_at(kind, kind_key, action, utc_now())
}

fn halt(reply: Reply) -> (res: (Operation, Step))
    ensures
        (res.0@, res.1@) == halted(reply@.error()),
{
    let error = match reply {
        Reply::RuntimeFailed(failure) => ProcessError::from_runtime(failure),
        Reply::StoreFailed(failure) => ProcessError::from_store(failure),
        _ => ProcessError::OutOfTurn,
    };
    (Operation { stage: Stage::Finished }, Step::Failed(error))
}

fn switch(
    action: EventAction,
    kind: ProcessKind,
    kind_key: String,
    processes: Vec<Process>,
    next: usize,
    now: chrono::NaiveDateTime,
) -> (res: (Operation, Step))
    ensures
        (res.0@, res.1@) == switch_from(
            action,
            kind,
            kind_key@,
            process_views(processes@),
            next as nat,
        ),
        res.1 matches Step::Call(Request::UpdateJob { updated_at, .. }) ==> updated_at == now,
{
    if next >= processes.len() {
        let request = after_at(&kind, kind_key.as_str(), action, now);
        (Operation { stage: Stage::Closing }, Step::Call(request))
    } else {
        let process = &processes[next];
        assert(process_views(processes@)[next as int] == process@);
        let running = process.data.is_running();
        let there = match action {
            EventAction::Started => running,
            EventAction::Stopped => !running,
        };
        if there {
            (Operation { stage: Stage::Finished }, Step::Done)
        } else {
            let id = process.data.id_or_empty();
            let request = match action {
                EventAction::Started => Request::StartContainer { id },
                EventAction::Stopped => Request::StopContainer { id },
            };
            (
                Operation {
                    stage: Stage::Switching { action, kind, kind_key, processes, next: next + 1 },
                },
                Step::Call(request),
            )
        }
    }
}

fn is_container_gone(reply: &Reply) -> (res: bool)
    ensures
        res == reply@.container_gone(),
{
    match reply {
        Reply::Done => true,
        Reply::RuntimeFailed(failure) => failure.is_absent(),
        _ => false,
    }
}

impl Operation {
    /// Takes the reply to the request of the last step and gives the state
    /// that the operation is in then, and its next step, which it takes at
    /// the time that the clock shows when this is called.
    pub fn step(self, reply: Reply) -> (res: (Operation, Step))
        ensures
            (res.0@, res.1@) == transition(self@, reply@),
    {
        self.step_at(reply, utc_now())
    }

    /// Takes the reply to the request of the last step and gives the state
    /// that the operation is in then, and its next step, taken at the time
    /// `now`: where the step asks to update a job, it asks to set the time
    /// of the job's last change to `now`.
    pub fn step_at(self, reply: Reply, now: chrono::NaiveDateTime) -> (res: (Operation, Step))
        ensures
            (res.0@, res.1@) == transition(self@, reply@),
            res.1 matches Step::Call(Request::UpdateJob { updated_at, .. }) ==> updated_at == now,
    {
        match self.stage {
            Stage::Listing { action, kind, kind_key } => match reply {
                Reply::Processes(processes) => switch(action, kind, kind_key, processes, 0, now),
                other => halt(other),
            },
            Stage::Switching { action, kind, kind_key, processes, next } => match reply {
                Reply::Done => switch(action, kind, kind_key, processes, next, now),
                other => halt(other),
            },
            Stage::Removing { key } => {
                if is_container_gone(&reply) {
                    (
                        Operation { stage: Stage::Closing },
                        Step::Call(Request::DeleteProcess { key }),
                    )
                } else {
                    halt(reply)
                }
            },
            Stage::Creating { name, kind, kind_key, node_key } => match reply {
                Reply::ContainerCreated { id } => {
                    let request = Request::InspectContainer { id: id.clone() };
                    (
                        Operation {
                            stage: Stage::Inspecting { id, name, kind, kind_key, node_key },
                        },
                        Step::Call(request),
                    )
                },
                other => halt(other),
            },
            Stage::Inspecting { id, name, kind, kind_key, node_key } => match reply {
                Reply::ContainerInspected(data) => {
                    let process = ProcessPartial { key: id, name, kind, data, node_key, kind_key };
                    (
                        Operation { stage: Stage::Storing },
                        Step::Call(Request::StoreProcess { process }),
                    )
                },
                other => halt(other),
            },
            Stage::Storing => match reply {
                Reply::ProcessStored(process) => (
                    Operation { stage: Stage::Finished },
                    Step::Created(process),
                ),
                other => halt(other),
            },
            Stage::Closing => match reply {
                Reply::Done => (Operation { stage: Stage::Finished }, Step::Done),
                other => halt(other),
            },
            Stage::Finished => (
                Operation { stage: Stage::Finished },
                Step::Failed(ProcessError::OutOfTurn),
            ),
        }
    }
}

/// Where the starting or stopping of a workload's processes begins.
pub open spec fn listing(action: EventAction, kind: ProcessKind, kind_key: Seq<char>) -> (
    OperationView,
    StepView,
) {
    (
        OperationView::Listing { action, kind, kind_key },
        StepView::Call(RequestView::ListProcesses { kind_key }),
    )
}

/// Where the removal of a process begins.
pub open spec fn removing(key: Seq<char>, options: Option<RemoveOptions>) -> (
    OperationView,
    StepView,
) {
    (
        OperationView::Removing { key },
        StepView::Call(RequestView::RemoveContainer { key, options }),
    )
}

/// Where the creation of a process begins: with the request for a container
/// that carries the daemon's labels over those given, or, where the kind
/// string does not parse, with the end of the operation.
pub open spec fn creating(
    name: Seq<char>,
    kind: Seq<char>,
    kind_key: Seq<char>,
    labels: Map<Seq<char>, Seq<char>>,
    node_key: Seq<char>,
) -> (OperationView, StepView) {
    match parsed_kind(kind) {
        Ok(kind) => (
            OperationView::Creating { name, kind, kind_key, node_key },
            StepView::Call(
                RequestView::CreateContainer { name, labels: owned_labels(labels, kind) },
            ),
        ),
        Err(error) => halted(error),
    }
}

fn list(action: EventAction, kind: &ProcessKind, kind_key: &str) -> (res: (Operation, Step))
    ensures
        (res.0@, res.1@) == listing(action, *kind, kind_key@),
{
    (
        Operation { stage: Stage::Listing { action, kind: *kind, kind_key: kind_key.to_owned() } },
        Step::Call(Request::ListProcesses { kind_key: kind_key.to_owned() }),
    )
}

/// Begins to start the processes kept under the kind key, in the order in
/// which the store lists them. The operation ends at the first process that
/// already runs; where none does, the request of [`after`] follows the last
/// start.
pub fn start_by_kind(kind: &ProcessKind, kind_key: &str) -> (res: (Operation, Step))
    ensures
        (res.0@, res.1@) == listing(EventAction::Started, *kind, kind_key@),
{
    list(EventAction::Started, kind, kind_key)
}

/// Begins to stop the processes kept under the kind key, in the order in
/// which the store lists them. The operation ends at the first process that
/// does not run; where all do, the request of [`after`] follows the last
/// stop.
pub fn stop_by_kind(kind: &ProcessKind, kind_key: &str) -> (res: (Operation, Step))
    ensures
        (res.0@, res.1@) == listing(EventAction::Stopped, *kind, kind_key@),
{
    list(EventAction::Stopped, kind, kind_key)
}

/// Begins to remove the process of the given key: the container first, then
/// the record in the store. A container that the runtime does not find
/// counts as removed.
pub fn remove(key: &str, options: Option<RemoveOptions>) -> (res: (Operation, Step))
    ensures
        (res.0@, res.1@) == removing(key@, options),
{
    (
        Operation { stage: Stage::Removing { key: key.to_owned() } },
        Step::Call(Request::RemoveContainer { key: key.to_owned(), options }),
    )
}

/// Begins to create a process of the given name for the workload of the
/// given kind and kind key, on the node `node_key`, from a container with
/// the given labels. The kind string is parsed before anything is asked
/// for. The container is made, then inspected, then the process is handed
/// to the store; a container whose process the store fails to keep stays
/// with the runtime.
pub fn create(name: &str, kind: &str, kind_key: &str, labels: Labels, node_key: &str) -> (res: (
    Operation,
    Step,
))
    ensures
        (res.0@, res.1@) == creating(name@, kind@, kind_key@, labels@, node_key@),
{
    match parse_kind(kind) {
        Err(error) => (Operation { stage: Stage::Finished }, Step::Failed(error)),
        Ok(kind) => {
            let labels = with_owner_labels(labels, kind);
            (
                Operation {
                    stage: Stage::Creating {
                        name: name.to_owned(),
                        kind,
                        kind_key: kind_key.to_owned(),
                        node_key: node_key.to_owned(),
                    },
                },
                Step::Call(Request::CreateContainer { name: name.to_owned(), labels }),
            )
        },
    }
}

} // verus!
