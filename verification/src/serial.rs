//! Starts of one workload that run one after the other.
//!
//! The table of [`crate::locks`] lets one operation at a time work on a kind
//! key, so of two starts of one workload the second begins when the first
//! has ended. Here both are taken through their requests against a runtime
//! and a store that do as they are told, and it is shown that they cannot
//! both end well and leave a container stopped.

use vstd::prelude::*;

use crate::lifecycle::after_request;
use crate::lifecycle::listing;
use crate::lifecycle::transition;
use crate::lifecycle::EventAction;
use crate::lifecycle::OperationView;
use crate::lifecycle::ReplyView;
use crate::lifecycle::RequestView;
use crate::lifecycle::StepView;
use crate::process::ContainerInspectView;
use crate::process::ContainerStateView;
use crate::process::ProcessKind;
use crate::process::ProcessView;

verus! {

/// The processes of a workload as the store lists them while the containers
/// of the ids in `running` run: each record as it is kept, with the
/// runtime's word on whether its container runs.
pub open spec fn listed(kept: Seq<ProcessView>, running: Set<Seq<char>>) -> Seq<ProcessView> {
    Seq::new(
        kept.len(),
        |i: int|
            ProcessView {
                data: ContainerInspectView {
                    id: kept[i].data.id,
                    state: Some(
                        ContainerStateView {
                            running: Some(running.contains(kept[i].data.id_or_empty())),
                            ..kept[i].data.state_or_unknown()
                        },
                    ),
                },
                ..kept[i]
            },
    )
}

/// How a request of a start or a stop is answered where nothing fails, and
/// the containers that run afterwards: the store lists the processes as
/// they stand, the runtime starts or stops the container that it is asked
/// to, and the request that follows the last start or stop is carried out.
pub open spec fn served(kept: Seq<ProcessView>, running: Set<Seq<char>>, request: RequestView) -> (
    ReplyView,
    Set<Seq<char>>,
) {
    match request {
        RequestView::ListProcesses { .. } => (ReplyView::Processes(listed(kept, running)), running),
        RequestView::StartContainer { id } => (ReplyView::Done, running.insert(id)),
        RequestView::StopContainer { id } => (ReplyView::Done, running.remove(id)),
        _ => (ReplyView::Done, running),
    }
}

/// The step that an operation ends with, and the containers that run then,
/// when up to `requests` of its requests are answered as [`served`] says,
/// beginning with the request of `step`.
pub open spec fn driven(
    kept: Seq<ProcessView>,
    state: OperationView,
    step: StepView,
    running: Set<Seq<char>>,
    requests: nat,
) -> (StepView, Set<Seq<char>>)
    decreases requests,
{
    if requests > 0 && step is Call {
        let answer = served(kept, running, step->Call_0);
        let next = transition(state, answer.0);
        driven(kept, next.0, next.1, answer.1, (requests - 1) as nat)
    } else {
        (step, running)
    }
}

/// How a start of the workload ends, and the containers that run then, when
/// it is taken from its first request to its end with nothing else going on:
/// it makes one request for the listing, at most one for each process and
/// one after the last.
pub open spec fn started(
    kind: ProcessKind,
    kind_key: Seq<char>,
    kept: Seq<ProcessView>,
    running: Set<Seq<char>>,
) -> (StepView, Set<Seq<char>>) {
    driven(
        kept,
        listing(EventAction::Started, kind, kind_key).0,
        listing(EventAction::Started, kind, kind_key).1,
        running,
        kept.len() + 2,
    )
}

/// Once the last start is carried out, the request that follows it is, and
/// the operation ends well; the containers that run stay the same.
proof fn lemma_closing_ends_well(
    kind: ProcessKind,
    kind_key: Seq<char>,
    kept: Seq<ProcessView>,
    running: Set<Seq<char>>,
    requests: nat,
)
    requires
        requests >= 1,
    ensures
        driven(
            kept,
            OperationView::Closing,
            StepView::Call(after_request(kind, kind_key, EventAction::Started)),
            running,
            requests,
        ) == (StepView::Done, running),
{
    reveal_with_fuel(driven, 2);
}

/// A start that has listed the processes `listing`, none of them running,
/// and asks for the start of the one before `next`, starts that one and all
/// after it and ends well. No container that ran before is stopped by it.
proof fn lemma_the_rest_is_started(
    kind: ProcessKind,
    kind_key: Seq<char>,
    kept: Seq<ProcessView>,
    listing: Seq<ProcessView>,
    next: nat,
    running: Set<Seq<char>>,
    requests: nat,
)
    requires
        forall|i: int| 0 <= i < listing.len() ==> !(#[trigger] listing[i]).data.is_running(),
        1 <= next <= listing.len(),
        requests >= listing.len() - next + 2,
    ensures
        ({
            let end = driven(
                kept,
                OperationView::Switching {
                    action: EventAction::Started,
                    kind,
                    kind_key,
                    processes: listing,
                    next,
                },
                StepView::Call(
                    RequestView::StartContainer { id: listing[next - 1].data.id_or_empty() },
                ),
                running,
                requests,
            );
            &&& end.0 == StepView::Done
            &&& forall|id: Seq<char>| running.contains(id) ==> end.1.contains(id)
            &&& forall|i: int|
                next - 1 <= i < listing.len() ==> end.1.contains(
                    (#[trigger] listing[i]).data.id_or_empty(),
                )
        }),
    decreases listing.len() - next,
{
    let id = listing[next - 1].data.id_or_empty();
    let state = OperationView::Switching {
        action: EventAction::Started,
        kind,
        kind_key,
        processes: listing,
        next,
    };
    let step = StepView::Call(RequestView::StartContainer { id });
    let now = running.insert(id);
    let then = transition(state, ReplyView::Done);
    let left = (requests - 1) as nat;
    let end = driven(kept, state, step, running, requests);
    assert(served(kept, running, step->Call_0) == (ReplyView::Done, now));
    assert(end == driven(kept, then.0, then.1, now, left));
    if next >= listing.len() {
        lemma_closing_ends_well(kind, kind_key, kept, now, left);
        assert(end.1 == now);
    } else {
        assert(!listing[next as int].data.is_running());
        lemma_the_rest_is_started(kind, kind_key, kept, listing, next + 1, now, left);
        let further = driven(
            kept,
            OperationView::Switching {
                action: EventAction::Started,
                kind,
                kind_key,
                processes: listing,
                next: next + 1,
            },
            StepView::Call(
                RequestView::StartContainer { id: listing[next + 1 - 1].data.id_or_empty() },
            ),
            now,
            left,
        );
        assert(end == further);
        assert(now.contains(id));
        assert forall|other: Seq<char>| running.contains(other) implies end.1.contains(other) by {
            assert(now.contains(other));
        }
    }
    assert forall|i: int| next - 1 <= i < listing.len() implies end.1.contains(
        (#[trigger] listing[i]).data.id_or_empty(),
    ) by {
        if i == next - 1 {
            assert(end.1.contains(id));
        }
    }
}

/// Two starts of one workload, the second begun when the first has ended,
/// do not both end well and leave a container of the workload stopped:
/// where every container of the workload is stopped at the outset and the
/// runtime and the store do as they are told, both starts end well and every
/// container of the workload runs afterwards.
pub proof fn lemma_starts_in_turn_leave_none_stopped(
    kind: ProcessKind,
    kind_key: Seq<char>,
    kept: Seq<ProcessView>,
    running: Set<Seq<char>>,
)
    requires
        forall|i: int|
            0 <= i < kept.len() ==> !running.contains((#[trigger] kept[i]).data.id_or_empty()),
    ensures
        started(kind, kind_key, kept, running).0 == StepView::Done,
        started(kind, kind_key, kept, started(kind, kind_key, kept, running).1).0
            == StepView::Done,
        forall|i: int|
            0 <= i < kept.len() ==> started(
                kind,
                kind_key,
                kept,
                started(kind, kind_key, kept, running).1,
            ).1.contains((#[trigger] kept[i]).data.id_or_empty()),
{
    let first = started(kind, kind_key, kept, running);
    lemma_first_start(kind, kind_key, kept, running);
    lemma_start_of_running(kind, kind_key, kept, first.1);
}

/// A start of a workload whose containers are all stopped ends well, and
/// all of them run afterwards.
pub proof fn lemma_first_start(
    kind: ProcessKind,
    kind_key: Seq<char>,
    kept: Seq<ProcessView>,
    running: Set<Seq<char>>,
)
    requires
        forall|i: int|
            0 <= i < kept.len() ==> !running.contains((#[trigger] kept[i]).data.id_or_empty()),
    ensures
        started(kind, kind_key, kept, running).0 == StepView::Done,
        forall|i: int|
            0 <= i < kept.len() ==> started(kind, kind_key, kept, running).1.contains(
                (#[trigger] kept[i]).data.id_or_empty(),
            ),
{
    let listing = listed(kept, running);
    let requests = (kept.len() + 1) as nat;
    assert forall|i: int| 0 <= i < listing.len() implies !(#[trigger] listing[i]).data.is_running()
        && listing[i].data.id_or_empty() == kept[i].data.id_or_empty() by {
        assert(!running.contains(kept[i].data.id_or_empty()));
    }
    if kept.len() == 0 {
        lemma_closing_ends_well(kind, kind_key, kept, running, requests);
    } else {
        lemma_the_rest_is_started(kind, kind_key, kept, listing, 1, running, requests);
        assert forall|i: int| 0 <= i < kept.len() implies started(
            kind,
            kind_key,
            kept,
            running,
        ).1.contains((#[trigger] kept[i]).data.id_or_empty()) by {
            assert(listing[i].data.id_or_empty() == kept[i].data.id_or_empty());
        }
    }
}

/// A start of a workload whose containers all run ends well and changes
/// nothing.
pub proof fn lemma_start_of_running(
    kind: ProcessKind,
    kind_key: Seq<char>,
    kept: Seq<ProcessView>,
    running: Set<Seq<char>>,
)
    requires
        forall|i: int|
            0 <= i < kept.len() ==> running.contains((#[trigger] kept[i]).data.id_or_empty()),
    ensures
        started(kind, kind_key, kept, running) == (StepView::Done, running),
{
    let listing = listed(kept, running);
    if kept.len() == 0 {
        lemma_closing_ends_well(kind, kind_key, kept, running, (kept.len() + 1) as nat);
    } else {
        assert(running.contains(kept[0].data.id_or_empty()));
        assert(listing[0].data.is_running());
        reveal_with_fuel(driven, 2);
    }
}

} // verus!
