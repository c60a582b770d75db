//! Process records, the runtime state they carry, and the status of a
//! workload as the aggregate of its processes.

use vstd::prelude::*;
use vstd::string::*;

use crate::error::ProcessError;
use crate::error::ProcessErrorView;
use crate::key::has_two_segments;
use crate::key::is_only_separator;
use crate::key::kind_segment;
use crate::key::malformed_kind_message;
use crate::key::second_segment;

verus! {

/// The kind of workload that a process belongs to.
#[derive(Clone, Copy, Debug, PartialEq, Eq, Structural)]
pub enum ProcessKind {
    Vm,
    Job,
    Cargo,
}

impl ProcessKind {
    /// The name of the kind, as it stands in kind strings and labels.
    pub open spec fn name(self) -> Seq<char> {
        match self {
            ProcessKind::Vm => "vm"@,
            ProcessKind::Job => "job"@,
            ProcessKind::Cargo => "cargo"@,
        }
    }

    /// The kind that a name stands for, if it is the name of one.
    pub open spec fn of_name(name: Seq<char>) -> Option<ProcessKind> {
        if name == "vm"@ {
            Some(ProcessKind::Vm)
        } else if name == "job"@ {
            Some(ProcessKind::Job)
        } else if name == "cargo"@ {
            Some(ProcessKind::Cargo)
        } else {
            None
        }
    }

    /// The kind that the name stands for: `vm`, `job` or `cargo`, and no
    /// other.
    pub fn from_name(name: &str) -> (res: Option<ProcessKind>)
        ensures
            res == ProcessKind::of_name(name@),
    {
        let name = name.to_owned();
        if name == "vm".to_owned() {
            Some(ProcessKind::Vm)
        } else if name == "job".to_owned() {
            Some(ProcessKind::Job)
        } else if name == "cargo".to_owned() {
            Some(ProcessKind::Cargo)
        } else {
            None
        }
    }

    /// The name of the kind: `vm`, `job` or `cargo`.
    pub fn to_string(&self) -> (res: String)
        ensures
            res@ == self.name(),
    {
        match self {
            ProcessKind::Vm => "vm".to_owned(),
            ProcessKind::Job => "job".to_owned(),
            ProcessKind::Cargo => "cargo".to_owned(),
        }
    }
}

/// The kind names are distinct, so a kind is found again from its name.
pub proof fn lemma_kind_name_round_trip(kind: ProcessKind)
    ensures
        ProcessKind::of_name(kind.name()) == Some(kind),
{
    reveal_strlit("vm");
    reveal_strlit("job");
    reveal_strlit("cargo");
    assert("vm"@.len() == 2 && "job"@.len() == 3 && "cargo"@.len() == 5);
}

/// What a kind string that names no kind is answered with.
pub open spec fn unknown_kind_message(name: Seq<char>) -> Seq<char> {
    "Invalid process kind: "@ + name
}

/// What a kind string parses to: the kind that its second segment names.
/// A string that is not of two segments is rejected, and so is one whose
/// second segment names no kind.
pub open spec fn parsed_kind(text: Seq<char>) -> Result<ProcessKind, ProcessErrorView> {
    if !has_two_segments(text) {
        Err(ProcessErrorView::Validation(malformed_kind_message()))
    } else {
        match ProcessKind::of_name(second_segment(text)) {
            Some(kind) => Ok(kind),
            None => Err(ProcessErrorView::Validation(unknown_kind_message(second_segment(text)))),
        }
    }
}

/// A domain without a `/`, a `/` and the name of a kind make a kind string
/// that parses to this kind.
pub proof fn lemma_kind_string_parses(domain: Seq<char>, kind: ProcessKind)
    requires
        forall|i: int| 0 <= i < domain.len() ==> domain[i] != '/',
    ensures
        has_two_segments(domain + seq!['/'] + kind.name()),
        second_segment(domain + seq!['/'] + kind.name()) == kind.name(),
        parsed_kind(domain + seq!['/'] + kind.name()) == Ok::<ProcessKind, ProcessErrorView>(kind),
{
    reveal_strlit("vm");
    reveal_strlit("job");
    reveal_strlit("cargo");
    let text = domain + seq!['/'] + kind.name();
    let at = domain.len() as int;
    assert(forall|i: int| 0 <= i < kind.name().len() ==> kind.name()[i] != '/');
    assert(is_only_separator(text, at));
    let found = choose|found: int| is_only_separator(text, found);
    assert(found == at);
    assert(text.skip(at + 1) =~= kind.name());
    lemma_kind_name_round_trip(kind);
}

/// A kind string that is not of two segments does not parse, whatever it
/// holds.
pub proof fn lemma_other_segments_do_not_parse(text: Seq<char>)
    requires
        !has_two_segments(text),
    ensures
        parsed_kind(text) == Err::<ProcessKind, ProcessErrorView>(
            ProcessErrorView::Validation(malformed_kind_message()),
        ),
{
}

/// Parses a kind string of the form `domain.tld/kind` into the kind of
/// workload that it names.
pub fn parse_kind(kind: &str) -> (res: Result<ProcessKind, ProcessError>)
    ensures
        match res {
            Ok(k) => parsed_kind(kind@) == Ok::<ProcessKind, ProcessErrorView>(k),
            Err(e) => parsed_kind(kind@) == Err::<ProcessKind, ProcessErrorView>(e@),
        },
{
    match kind_segment(kind) {
        None => Err(
            ProcessError::Validation("Kind must be of the form `domain.tld/kind`".to_owned()),
        ),
        Some(name) => match ProcessKind::from_name(name.as_str()) {
            Some(kind) => Ok(kind),
            None => {
                let mut message = "Invalid process kind: ".to_owned();
                message.append(name.as_str());
                Err(ProcessError::Validation(message))
            },
        },
    }
}

/// What the runtime said of a container when it was last inspected.
#[derive(Clone, Debug, PartialEq, Eq)]
pub struct ContainerState {
    pub running: Option<bool>,
    pub restarting: Option<bool>,
    pub exit_code: Option<i64>,
    pub error: Option<String>,
}

/// The state of a container, with its error message as its characters.
pub struct ContainerStateView {
    pub running: Option<bool>,
    pub restarting: Option<bool>,
    pub exit_code: Option<i64>,
    pub error: Option<Seq<char>>,
}

impl View for ContainerState {
    type V = ContainerStateView;

    open spec fn view(&self) -> ContainerStateView {
        ContainerStateView {
            running: self.running,
            restarting: self.restarting,
            exit_code: self.exit_code,
            error: match self.error {
                Some(e) => Some(e@),
                None => None,
            },
        }
    }
}

impl ContainerStateView {
    /// The state of a container of which nothing is known.
    pub open spec fn unknown() -> ContainerStateView {
        ContainerStateView { running: None, restarting: None, exit_code: None, error: None }
    }

    pub open spec fn is_running(self) -> bool {
        self.running == Some(true)
    }

    pub open spec fn is_restarting(self) -> bool {
        self.restarting == Some(true)
    }

    /// How often the container counts as failed: once when it restarts;
    /// else not at all when it runs; else once for an exit code other than
    /// zero and once more for an error message that is not empty.
    pub open spec fn failures(self) -> nat {
        if self.is_restarting() {
            1
        } else if self.is_running() {
            0
        } else {
            let by_exit_code: nat = match self.exit_code {
                Some(code) => if code != 0 { 1 } else { 0 },
                None => 0,
            };
            let by_error: nat = match self.error {
                Some(e) => if e.len() > 0 { 1 } else { 0 },
                None => 0,
            };
            by_exit_code + by_error
        }
    }

    /// How often the container counts as succeeded: once when it neither
    /// restarts nor runs and has left with exit code zero.
    pub open spec fn successes(self) -> nat {
        if !self.is_restarting() && !self.is_running() && self.exit_code == Some(0i64) {
            1
        } else {
            0
        }
    }

    /// How often the container counts as running: once when it runs and
    /// does not restart.
    pub open spec fn runnings(self) -> nat {
        if !self.is_restarting() && self.is_running() {
            1
        } else {
            0
        }
    }
}

impl ContainerState {
    /// The state of a container of which nothing is known.
    pub fn unknown() -> (res: ContainerState)
        ensures
            res@ == ContainerStateView::unknown(),
    {
        ContainerState { running: None, restarting: None, exit_code: None, error: None }
    }

    pub fn is_running(&self) -> (res: bool)
        ensures
            res == self@.is_running(),
    {
        match self.running {
            Some(r) => r,
            None => false,
        }
    }

    pub fn is_restarting(&self) -> (res: bool)
        ensures
            res == self@.is_restarting(),
    {
        match self.restarting {
            Some(r) => r,
            None => false,
        }
    }
}

/// What the runtime answers when a container is inspected, as far as the
/// library reads it: the container's id and its state.
#[derive(Clone, Debug, PartialEq, Eq)]
pub struct ContainerInspect {
    pub id: Option<String>,
    pub state: Option<ContainerState>,
}

/// The runtime's answer to an inspection, with each text as its characters.
pub struct ContainerInspectView {
    pub id: Option<Seq<char>>,
    pub state: Option<ContainerStateView>,
}

impl View for ContainerInspect {
    type V = ContainerInspectView;

    open spec fn view(&self) -> ContainerInspectView {
        ContainerInspectView {
            id: match self.id {
                Some(id) => Some(id@),
                None => None,
            },
            state: match self.state {
                Some(s) => Some(s@),
                None => None,
            },
        }
    }
}

impl ContainerInspectView {
    /// The container's id, empty where the runtime gave none.
    pub open spec fn id_or_empty(self) -> Seq<char> {
        match self.id {
            Some(id) => id,
            None => Seq::empty(),
        }
    }

    /// The container's state, unknown where the runtime gave none.
    pub open spec fn state_or_unknown(self) -> ContainerStateView {
        match self.state {
            Some(s) => s,
            None => ContainerStateView::unknown(),
        }
    }

    pub open spec fn is_running(self) -> bool {
        self.state_or_unknown().is_running()
    }
}

impl ContainerInspect {
    /// The container's id, empty where the runtime gave none.
    pub fn id_or_empty(&self) -> (res: String)
        ensures
            res@ == self@.id_or_empty(),
    {
        match &self.id {
            Some(id) => id.clone(),
            None => String::new(),
        }
    }

    /// Whether the runtime said that the container runs.
    pub fn is_running(&self) -> (res: bool)
        ensures
            res == self@.is_running(),
    {
        match &self.state {
            Some(s) => s.is_running(),
            None => false,
        }
    }
}

/// What is handed to the process store to make a record of a container.
#[derive(Clone, Debug, PartialEq, Eq)]
pub struct ProcessPartial {
    /// The id that the runtime gave the container.
    pub key: String,
    pub name: String,
    pub kind: ProcessKind,
    pub data: ContainerInspect,
    /// The node that owns the container.
    pub node_key: String,
    /// The key of the workload that the container belongs to.
    pub kind_key: String,
}

/// The stored record of one container that backs a workload.
#[derive(Clone, Debug, PartialEq, Eq)]
pub struct Process {
    /// The id that the runtime gave the container.
    pub key: String,
    pub name: String,
    pub kind: ProcessKind,
    pub data: ContainerInspect,
    /// The node that owns the container.
    pub node_key: String,
    /// The key of the workload that the container belongs to.
    pub kind_key: String,
}

/// A process, stored or to be stored, with each text as its characters.
pub struct ProcessView {
    pub key: Seq<char>,
    pub name: Seq<char>,
    pub kind: ProcessKind,
    pub data: ContainerInspectView,
    pub node_key: Seq<char>,
    pub kind_key: Seq<char>,
}

impl View for ProcessPartial {
    type V = ProcessView;

    open spec fn view(&self) -> ProcessView {
        ProcessView {
            key: self.key@,
            name: self.name@,
            kind: self.kind,
            data: self.data@,
            node_key: self.node_key@,
            kind_key: self.kind_key@,
        }
    }
}

impl View for Process {
    type V = ProcessView;

    open spec fn view(&self) -> ProcessView {
        ProcessView {
            key: self.key@,
            name: self.name@,
            kind: self.kind,
            data: self.data@,
            node_key: self.node_key@,
            kind_key: self.kind_key@,
        }
    }
}

/// The processes of a list, each as its view.
pub open spec fn process_views(processes: Seq<Process>) -> Seq<ProcessView> {
    Seq::new(processes.len(), |i: int| processes[i]@)
}

/// The sum over the processes of what `weight` gives for the state of each.
pub open spec fn tally(
    processes: Seq<ProcessView>,
    weight: spec_fn(ContainerStateView) -> nat,
) -> nat
    decreases processes.len(),
{
    if processes.len() == 0 {
        0
    } else {
        tally(processes.drop_last(), weight) + weight(processes.last().data.state_or_unknown())
    }
}

/// How many failures the processes count for.
pub open spec fn count_failed(processes: Seq<ProcessView>) -> nat {
    tally(processes, |s: ContainerStateView| s.failures())
}

/// How many of the processes have succeeded.
pub open spec fn count_succeeded(processes: Seq<ProcessView>) -> nat {
    tally(processes, |s: ContainerStateView| s.successes())
}

/// How many of the processes run.
pub open spec fn count_running(processes: Seq<ProcessView>) -> nat {
    tally(processes, |s: ContainerStateView| s.runnings())
}

/// The tally of the first `count` processes does not exceed the tally of
/// all.
pub proof fn lemma_tally_of_first(
    processes: Seq<ProcessView>,
    weight: spec_fn(ContainerStateView) -> nat,
    count: int,
)
    requires
        0 <= count <= processes.len(),
    ensures
        tally(processes.take(count), weight) <= tally(processes, weight),
    decreases processes.len() - count,
{
    if count < processes.len() {
        lemma_tally_of_first(processes, weight, count + 1);
        assert(processes.take(count + 1).drop_last() =~= processes.take(count));
    } else {
        assert(processes.take(count) =~= processes);
    }
}

/// No process counts for more than `bound`, so the processes together do
/// not count for more than `bound` times their number. A process counts for
/// at most two failures, and once at most as succeeded or as running.
pub proof fn lemma_tally_bound(
    processes: Seq<ProcessView>,
    weight: spec_fn(ContainerStateView) -> nat,
    bound: nat,
)
    requires
        forall|s: ContainerStateView| #[trigger] weight(s) <= bound,
    ensures
        tally(processes, weight) <= bound * processes.len(),
    decreases processes.len(),
{
    if processes.len() > 0 {
        lemma_tally_bound(processes.drop_last(), weight, bound);
        assert(bound * processes.len() == bound * processes.drop_last().len() + bound)
            by (nonlinear_arith)
            requires
                processes.len() == processes.drop_last().len() + 1,
        ;
    }
}

/// The failures of a list of processes are at most twice as many as the
/// processes.
pub proof fn lemma_count_failed_bound(processes: Seq<ProcessView>)
    ensures
        count_failed(processes) <= 2 * processes.len(),
{
    lemma_tally_bound(processes, |s: ContainerStateView| s.failures(), 2);
}

/// Counts the processes, and how many of them count as failed, as succeeded
/// and as running, in this order.
///
/// A process that restarts counts as failed and as nothing else. One that
/// runs counts as running and as nothing else. Any other counts as succeeded
/// when its exit code is zero and as failed when it is not, and as failed
/// once more when it carries an error message that is not empty. So the
/// failures can be twice as many as the processes, and have to fit the
/// result: they do where twice the number of processes does.
pub fn count_status(instances: &[Process]) -> (res: (usize, usize, usize, usize))
    requires
        count_failed(process_views(instances@)) <= usize::MAX,
    ensures
        res.0 == instances@.len(),
        res.1 == count_failed(process_views(instances@)),
        res.2 == count_succeeded(process_views(instances@)),
        res.3 == count_running(process_views(instances@)),
{
    let ghost views = process_views(instances@);
    let mut instance_failed: usize = 0;
    let mut instance_success: usize = 0;
    let mut instance_running: usize = 0;
    let mut i: usize = 0;
    while i < instances.len()
        invariant
            i <= instances@.len(),
            views == process_views(instances@),
            count_failed(views) <= usize::MAX,
            instance_failed == count_failed(views.take(i as int)),
            instance_success == count_succeeded(views.take(i as int)),
            instance_running == count_running(views.take(i as int)),
            instance_success <= i,
            instance_running <= i,
        decreases instances@.len() - i,
    {
        let instance = &instances[i];
        proof {
            assert(views.take(i + 1).drop_last() =~= views.take(i as int));
            assert(views.take(i + 1).last() == instance@);
            lemma_tally_of_first(views, |s: ContainerStateView| s.failures(), i + 1);
        }
        let restarting = match &instance.data.state {
            Some(s) => s.is_restarting(),
            None => false,
        };
        let running = instance.data.is_running();
        if restarting {
            instance_failed += 1;
        } else if running {
            instance_running += 1;
        } else {
            if let Some(state) = &instance.data.state {
                if let Some(exit_code) = state.exit_code {
                    if exit_code == 0 {
                        instance_success += 1;
                    } else {
                        instance_failed += 1;
                    }
                }
                if let Some(error) = &state.error {
                    if !error.as_str().is_empty() {
                        instance_failed += 1;
                    }
                }
            }
        }
        i += 1;
    }
    assert(views.take(i as int) =~= views);
    (instances.len(), instance_failed, instance_success, instance_running)
}

} // verus!
