use nanocld::error::{ProcessError, RuntimeFailure, StoreFailure};
use nanocld::labels::Labels;
use nanocld::lifecycle::{
    after, after_at, create, remove, start_by_kind, stop_by_kind, EventAction, Operation,
    RemoveOptions, Reply, Request, Step,
};
use nanocld::process::{ContainerInspect, ContainerState, Process, ProcessKind, ProcessPartial};

fn process(id: &str, running: Option<bool>) -> Process {
    Process {
        key: id.to_owned(),
        name: format!("{id}.c"),
        kind: ProcessKind::Cargo,
        data: ContainerInspect {
            id: Some(id.to_owned()),
            state: Some(ContainerState { running, restarting: None, exit_code: None, error: None }),
        },
        node_key: "node-1".to_owned(),
        kind_key: "nstore.system".to_owned(),
    }
}

fn runtime_failure(status_code: Option<u16>, message: &str) -> RuntimeFailure {
    RuntimeFailure { status_code, message: message.to_owned() }
}

fn store_failure(not_found: bool, message: &str) -> StoreFailure {
    StoreFailure { not_found, message: message.to_owned() }
}

/// What a step is, written out for comparison.
fn shown(step: &Step) -> String {
    match step {
        Step::Call(Request::ListProcesses { kind_key }) => format!("list {kind_key}"),
        Step::Call(Request::CreateContainer { name, labels }) => {
            let mut labels: Vec<String> =
                labels.to_vec().iter().map(|l| format!("{}={}", l.name, l.value)).collect();
            labels.sort();
            format!("create {name} [{}]", labels.join(","))
        }
        Step::Call(Request::InspectContainer { id }) => format!("inspect {id}"),
        Step::Call(Request::StartContainer { id }) => format!("start {id}"),
        Step::Call(Request::StopContainer { id }) => format!("stop {id}"),
        Step::Call(Request::RemoveContainer { key, options }) => match options {
            None => format!("remove {key}"),
            Some(o) => format!("remove {key} v={} force={} link={}", o.volumes, o.force, o.link),
        },
        Step::Call(Request::StoreProcess { process }) => {
            format!("store {} {} {}", process.key, process.name, process.kind_key)
        }
        Step::Call(Request::DeleteProcess { key }) => format!("delete {key}"),
        Step::Call(Request::EmitVm { key, action }) => format!("emit vm {key} {action:?}"),
        Step::Call(Request::EmitCargo { key, action }) => format!("emit cargo {key} {action:?}"),
        Step::Call(Request::UpdateJob { key, .. }) => format!("update job {key}"),
        Step::Created(process) => format!("created {}", process.key),
        Step::Done => "done".to_owned(),
        Step::Failed(error) => format!("failed {error:?}"),
    }
}

/// Drives an operation with the given replies and lists its steps.
fn steps(begin: (Operation, Step), replies: Vec<Reply>) -> Vec<String> {
    let (mut operation, first) = begin;
    let mut out = vec![shown(&first)];
    for reply in replies {
        let (next, step) = operation.step(reply);
        operation = next;
        out.push(shown(&step));
    }
    out
}

#[test]
fn start_by_kind_starts_each_stopped_process_and_tells_of_it() {
    let processes = vec![process("a", Some(false)), process("b", None), process("c", Some(false))];
    assert_eq!(
        steps(
            start_by_kind(&ProcessKind::Cargo, "nstore.system"),
            vec![Reply::Processes(processes), Reply::Done, Reply::Done, Reply::Done, Reply::Done],
        ),
        [
            "list nstore.system",
            "start a",
            "start b",
            "start c",
            "emit cargo nstore.system Started",
            "done",
        ],
    );
}

#[test]
fn start_by_kind_ends_at_the_first_running_process() {
    let processes = vec![process("a", Some(false)), process("b", Some(true)), process("c", None)];
    assert_eq!(
        steps(
            start_by_kind(&ProcessKind::Cargo, "nstore.system"),
            vec![Reply::Processes(processes), Reply::Done],
        ),
        ["list nstore.system", "start a", "done"],
    );
    assert_eq!(
        steps(
            start_by_kind(&ProcessKind::Vm, "vm.global"),
            vec![Reply::Processes(vec![process("a", Some(true)), process("b", Some(false))])],
        ),
        ["list vm.global", "done"],
    );
}

#[test]
fn start_by_kind_without_processes_tells_of_the_start() {
    assert_eq!(
        steps(
            start_by_kind(&ProcessKind::Vm, "vm.global"),
            vec![Reply::Processes(vec![]), Reply::Done],
        ),
        ["list vm.global", "emit vm vm.global Started", "done"],
    );
    assert_eq!(
        steps(
            start_by_kind(&ProcessKind::Job, "backup"),
            vec![Reply::Processes(vec![]), Reply::Done],
        ),
        ["list backup", "update job backup", "done"],
    );
}

#[test]
fn start_by_kind_gives_up_when_a_start_fails() {
    let processes = vec![process("a", None), process("b", None)];
    assert_eq!(
        steps(
            start_by_kind(&ProcessKind::Cargo, "k"),
            vec![
                Reply::Processes(processes),
                Reply::RuntimeFailed(runtime_failure(Some(500), "boom")),
                Reply::Done,
            ],
        ),
        [
            "list k",
            "start a",
            "failed Runtime(\"boom\")",
            "failed OutOfTurn",
        ],
    );
}

#[test]
fn start_by_kind_gives_up_when_the_listing_or_the_notice_fails() {
    assert_eq!(
        steps(
            start_by_kind(&ProcessKind::Cargo, "k"),
            vec![Reply::StoreFailed(store_failure(false, "no connection"))],
        ),
        ["list k", "failed Store(\"no connection\")"],
    );
    assert_eq!(
        steps(
            start_by_kind(&ProcessKind::Cargo, "k"),
            vec![Reply::Processes(vec![]), Reply::StoreFailed(store_failure(true, "no cargo k"))],
        ),
        ["list k", "emit cargo k Started", "failed NotFound(\"no cargo k\")"],
    );
}

#[test]
fn start_by_kind_starts_a_container_without_id_by_the_empty_name() {
    let mut bare = process("a", None);
    bare.data.id = None;
    bare.data.state = None;
    assert_eq!(
        steps(start_by_kind(&ProcessKind::Job, "j"), vec![Reply::Processes(vec![bare])]),
        ["list j", "start "],
    );
}

#[test]
fn stop_by_kind_stops_each_running_process_and_tells_of_it() {
    let processes = vec![process("a", Some(true)), process("b", Some(true))];
    assert_eq!(
        steps(
            stop_by_kind(&ProcessKind::Vm, "vm.global"),
            vec![Reply::Processes(processes), Reply::Done, Reply::Done, Reply::Done],
        ),
        ["list vm.global", "stop a", "stop b", "emit vm vm.global Stopped", "done"],
    );
}

#[test]
fn stop_by_kind_ends_at_the_first_process_that_does_not_run() {
    let processes = vec![process("a", Some(true)), process("b", None), process("c", Some(true))];
    assert_eq!(
        steps(
            stop_by_kind(&ProcessKind::Cargo, "k"),
            vec![Reply::Processes(processes), Reply::Done],
        ),
        ["list k", "stop a", "done"],
    );
}

#[test]
fn stop_by_kind_of_a_job_updates_the_job() {
    assert_eq!(
        steps(
            stop_by_kind(&ProcessKind::Job, "backup"),
            vec![Reply::Processes(vec![process("a", Some(true))]), Reply::Done, Reply::Done],
        ),
        ["list backup", "stop a", "update job backup", "done"],
    );
}

#[test]
fn a_job_is_updated_with_the_time_of_the_request() {
    let before = chrono::Utc::now().naive_utc();
    let request = after(&ProcessKind::Job, "backup", EventAction::Stopped);
    let later = chrono::Utc::now().naive_utc();
    match request {
        Request::UpdateJob { key, updated_at } => {
            assert_eq!(key, "backup");
            assert!(before <= updated_at && updated_at <= later);
        }
        other => panic!("{other:?}"),
    }
}

fn at(seconds: i64) -> chrono::NaiveDateTime {
    chrono::DateTime::from_timestamp(seconds, 0).expect("a time in range").naive_utc()
}

#[test]
fn a_job_is_updated_with_the_time_given() {
    for seconds in [0, 1, 1_700_000_000, -86_400] {
        match after_at(&ProcessKind::Job, "backup", EventAction::Started, at(seconds)) {
            Request::UpdateJob { key, updated_at } => {
                assert_eq!(key, "backup");
                assert_eq!(updated_at, at(seconds));
            }
            other => panic!("{other:?}"),
        }
    }
    assert_eq!(
        shown(&Step::Call(after_at(&ProcessKind::Vm, "v.global", EventAction::Stopped, at(7)))),
        "emit vm v.global Stopped",
    );
    assert_eq!(
        shown(&Step::Call(after_at(&ProcessKind::Cargo, "c.global", EventAction::Started, at(7)))),
        "emit cargo c.global Started",
    );
}

#[test]
fn a_step_at_a_time_updates_the_job_with_that_time() {
    let (operation, _) = stop_by_kind(&ProcessKind::Job, "backup");
    let (operation, first) =
        operation.step_at(Reply::Processes(vec![process("a", Some(true))]), at(10));
    assert_eq!(shown(&first), "stop a");
    let (operation, second) = operation.step_at(Reply::Done, at(20));
    match second {
        Step::Call(Request::UpdateJob { key, updated_at }) => {
            assert_eq!(key, "backup");
            assert_eq!(updated_at, at(20));
        }
        other => panic!("{other:?}"),
    }
    let (_, last) = operation.step_at(Reply::Done, at(30));
    assert_eq!(shown(&last), "done");
}

#[test]
fn a_step_at_a_time_goes_as_a_step() {
    let replies = || {
        vec![
            Reply::Processes(vec![process("a", None), process("b", None)]),
            Reply::Done,
            Reply::RuntimeFailed(runtime_failure(Some(404), "gone")),
            Reply::Done,
        ]
    };
    let (mut operation, first) = start_by_kind(&ProcessKind::Cargo, "k");
    let mut timed = vec![shown(&first)];
    for reply in replies() {
        let (next, step) = operation.step_at(reply, at(5));
        operation = next;
        timed.push(shown(&step));
    }
    assert_eq!(timed, steps(start_by_kind(&ProcessKind::Cargo, "k"), replies()));
    assert_eq!(
        timed,
        ["list k", "start a", "start b", "failed NotFound(\"gone\")", "failed OutOfTurn"],
    );
}

#[test]
fn after_follows_the_kind() {
    assert_eq!(
        shown(&Step::Call(after(&ProcessKind::Vm, "v.global", EventAction::Stopped))),
        "emit vm v.global Stopped",
    );
    assert_eq!(
        shown(&Step::Call(after(&ProcessKind::Cargo, "c.global", EventAction::Started))),
        "emit cargo c.global Started",
    );
    assert_eq!(
        shown(&Step::Call(after(&ProcessKind::Job, "j", EventAction::Started))),
        "update job j",
    );
}

#[test]
fn remove_deletes_the_record_once_the_container_is_removed() {
    assert_eq!(
        steps(remove("1a2b", None), vec![Reply::Done, Reply::Done]),
        ["remove 1a2b", "delete 1a2b", "done"],
    );
}

#[test]
fn remove_hands_the_options_on() {
    let options = RemoveOptions { volumes: true, force: true, link: false };
    assert_eq!(
        steps(remove("1a2b", Some(options)), vec![]),
        ["remove 1a2b v=true force=true link=false"],
    );
}

#[test]
fn remove_of_an_absent_container_deletes_the_record_all_the_same() {
    let absent = || Reply::RuntimeFailed(runtime_failure(Some(404), "No such container: 1a2b"));
    assert_eq!(
        steps(remove("1a2b", None), vec![absent(), Reply::Done]),
        ["remove 1a2b", "delete 1a2b", "done"],
    );
    // the second removal of the same process goes the same way
    assert_eq!(
        steps(remove("1a2b", None), vec![absent(), Reply::Done]),
        steps(remove("1a2b", None), vec![Reply::Done, Reply::Done]),
    );
}

#[test]
fn remove_gives_up_on_any_other_failure_of_the_runtime() {
    assert_eq!(
        steps(
            remove("1a2b", None),
            vec![Reply::RuntimeFailed(runtime_failure(Some(409), "removal in progress"))],
        ),
        ["remove 1a2b", "failed Runtime(\"removal in progress\")"],
    );
    assert_eq!(
        steps(remove("1a2b", None), vec![Reply::RuntimeFailed(runtime_failure(None, "timeout"))]),
        ["remove 1a2b", "failed Runtime(\"timeout\")"],
    );
}

#[test]
fn remove_gives_up_when_the_record_cannot_be_deleted() {
    assert_eq!(
        steps(
            remove("1a2b", None),
            vec![Reply::Done, Reply::StoreFailed(store_failure(false, "locked"))],
        ),
        ["remove 1a2b", "delete 1a2b", "failed Store(\"locked\")"],
    );
}

#[test]
fn create_makes_inspects_and_stores() {
    let mut labels = Labels::new();
    labels.insert("com.example".to_owned(), "x".to_owned());
    let inspect = ContainerInspect {
        id: Some("f00d".to_owned()),
        state: Some(ContainerState {
            running: Some(false),
            restarting: Some(false),
            exit_code: Some(0),
            error: Some(String::new()),
        }),
    };
    let stored = Process {
        key: "f00d".to_owned(),
        name: "nstore.system.c".to_owned(),
        kind: ProcessKind::Cargo,
        data: inspect.clone(),
        node_key: "node-1".to_owned(),
        kind_key: "nstore.system".to_owned(),
    };
    let (operation, first) =
        create("nstore.system.c", "nanocl.io/cargo", "nstore.system", labels, "node-1");
    assert_eq!(
        shown(&first),
        "create nstore.system.c [com.example=x,io.nanocl.kind=cargo,io.nanocl=enabled]",
    );
    let (operation, second) = operation.step(Reply::ContainerCreated { id: "f00d".to_owned() });
    assert_eq!(shown(&second), "inspect f00d");
    let (operation, third) = operation.step(Reply::ContainerInspected(inspect.clone()));
    match third {
        Step::Call(Request::StoreProcess { process }) => assert_eq!(
            process,
            ProcessPartial {
                key: "f00d".to_owned(),
                name: "nstore.system.c".to_owned(),
                kind: ProcessKind::Cargo,
                data: inspect,
                node_key: "node-1".to_owned(),
                kind_key: "nstore.system".to_owned(),
            },
        ),
        other => panic!("{other:?}"),
    }
    let (_, last) = operation.step(Reply::ProcessStored(stored.clone()));
    match last {
        Step::Created(process) => assert_eq!(process, stored),
        other => panic!("{other:?}"),
    }
}

#[test]
fn create_rejects_a_bad_kind_before_it_asks_for_anything() {
    assert_eq!(
        steps(create("n", "cargo", "n.global", Labels::new(), "node-1"), vec![]),
        ["failed Validation(\"Kind must be of the form `domain.tld/kind`\")"],
    );
    assert_eq!(
        steps(create("n", "nanocl.io/pod", "n.global", Labels::new(), "node-1"), vec![]),
        ["failed Validation(\"Invalid process kind: pod\")"],
    );
}

#[test]
fn create_gives_up_at_the_first_failure() {
    let begin = || create("n", "nanocl.io/job", "n", Labels::new(), "node-1");
    assert_eq!(
        steps(begin(), vec![Reply::RuntimeFailed(runtime_failure(Some(404), "no such image"))]),
        ["create n [io.nanocl.kind=job,io.nanocl=enabled]", "failed NotFound(\"no such image\")"],
    );
    assert_eq!(
        steps(
            begin(),
            vec![
                Reply::ContainerCreated { id: "1".to_owned() },
                Reply::RuntimeFailed(runtime_failure(None, "gone")),
            ],
        )[1..],
        ["inspect 1", "failed Runtime(\"gone\")"],
    );
    assert_eq!(
        steps(
            begin(),
            vec![
                Reply::ContainerCreated { id: "1".to_owned() },
                Reply::ContainerInspected(ContainerInspect { id: None, state: None }),
                Reply::StoreFailed(store_failure(false, "duplicate key")),
            ],
        )[2..],
        ["store 1 n n", "failed Store(\"duplicate key\")"],
    );
}

#[test]
fn a_reply_out_of_turn_ends_the_operation() {
    assert_eq!(
        steps(remove("k", None), vec![Reply::Processes(vec![])]),
        ["remove k", "failed OutOfTurn"],
    );
    assert_eq!(
        steps(start_by_kind(&ProcessKind::Job, "j"), vec![Reply::Done]),
        ["list j", "failed OutOfTurn"],
    );
    assert_eq!(
        steps(
            create("n", "nanocl.io/job", "n", Labels::new(), "node-1"),
            vec![Reply::ContainerInspected(ContainerInspect { id: None, state: None })],
        )[1..],
        ["failed OutOfTurn"],
    );
    assert_eq!(
        steps(remove("k", None), vec![Reply::Done, Reply::Done, Reply::Done]),
        ["remove k", "delete k", "done", "failed OutOfTurn"],
    );
}

#[test]
fn errors_are_answered_with_their_status() {
    let not_found = ProcessError::from_runtime(runtime_failure(Some(404), "absent"));
    assert_eq!(not_found, ProcessError::NotFound("absent".to_owned()));
    assert_eq!(not_found.status(), 404);
    assert_eq!(ProcessError::from_runtime(runtime_failure(Some(500), "x")).status(), 500);
    assert_eq!(ProcessError::from_runtime(runtime_failure(None, "x")).status(), 500);
    assert_eq!(
        ProcessError::from_store(store_failure(true, "no row")),
        ProcessError::NotFound("no row".to_owned()),
    );
    assert_eq!(
        ProcessError::from_store(store_failure(false, "x")),
        ProcessError::Store("x".to_owned())
    );
    assert_eq!(ProcessError::Store("x".to_owned()).status(), 500);
    assert_eq!(ProcessError::Validation("bad".to_owned()).status(), 400);
    assert_eq!(ProcessError::Validation("bad".to_owned()).message(), "bad");
    assert_eq!(ProcessError::OutOfTurn.status(), 500);
    assert_eq!(ProcessError::OutOfTurn.message(), "the answer fits no pending request");
    assert!(runtime_failure(Some(404), "").is_absent());
    assert!(!runtime_failure(Some(403), "").is_absent());
    assert!(!runtime_failure(None, "").is_absent());
}
