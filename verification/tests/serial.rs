use std::collections::BTreeSet;

use nanocld::lifecycle::{start_by_kind, Reply, Request, Step};
use nanocld::locks::KeyLocks;
use nanocld::process::{ContainerInspect, ContainerState, Process, ProcessKind};

/// The records of a workload as the store lists them while the containers
/// in `running` run.
fn listed(ids: &[&str], running: &BTreeSet<String>) -> Vec<Process> {
    ids.iter()
        .map(|id| Process {
            key: (*id).to_owned(),
            name: format!("{id}.c"),
            kind: ProcessKind::Cargo,
            data: ContainerInspect {
                id: Some((*id).to_owned()),
                state: Some(ContainerState {
                    running: Some(running.contains(*id)),
                    restarting: None,
                    exit_code: None,
                    error: None,
                }),
            },
            node_key: "node-1".to_owned(),
            kind_key: "nstore.system".to_owned(),
        })
        .collect()
}

/// Takes a start of the workload from its first request to its end against
/// a runtime that does as it is told, and says whether it ended well.
fn start(ids: &[&str], running: &mut BTreeSet<String>, locks: &mut KeyLocks) -> bool {
    assert!(locks.try_acquire("nstore.system"));
    let (mut operation, mut step) = start_by_kind(&ProcessKind::Cargo, "nstore.system");
    let ended_well = loop {
        let reply = match step {
            Step::Call(Request::ListProcesses { .. }) => Reply::Processes(listed(ids, running)),
            Step::Call(Request::StartContainer { id }) => {
                running.insert(id);
                Reply::Done
            }
            Step::Call(_) => Reply::Done,
            Step::Done => break true,
            Step::Created(_) | Step::Failed(_) => break false,
        };
        (operation, step) = operation.step(reply);
    };
    locks.release("nstore.system");
    ended_well
}

#[test]
fn two_starts_in_turn_leave_no_container_stopped() {
    for ids in [vec![], vec!["a"], vec!["a", "b", "c"], vec!["a", "a"], vec!["", "b"]] {
        let mut running = BTreeSet::from(["other".to_owned()]);
        let mut locks = KeyLocks::new();
        assert!(start(&ids, &mut running, &mut locks));
        assert!(start(&ids, &mut running, &mut locks));
        for id in &ids {
            assert!(running.contains(*id));
        }
        assert!(running.contains("other"));
    }
}

#[test]
fn a_start_that_finds_the_first_container_running_leaves_the_others_as_they_are() {
    let ids = ["a", "b"];
    let mut running = BTreeSet::from(["a".to_owned()]);
    let mut locks = KeyLocks::new();
    assert!(start(&ids, &mut running, &mut locks));
    assert!(start(&ids, &mut running, &mut locks));
    assert!(!running.contains("b"));
}
