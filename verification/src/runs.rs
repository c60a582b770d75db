//! What holds of whole runs of an operation: of the steps that it takes
//! when its requests are answered one after the other.

use vstd::prelude::*;

use crate::error::ProcessErrorView;
use crate::error::RuntimeFailureView;
use crate::labels::owned_labels;
use crate::lifecycle::after_request;
use crate::lifecycle::already;
use crate::lifecycle::creating;
use crate::lifecycle::halted;
use crate::lifecycle::listing;
use crate::lifecycle::removing;
use crate::lifecycle::switch_request;
use crate::lifecycle::transition;
use crate::lifecycle::EventAction;
use crate::lifecycle::OperationView;
use crate::lifecycle::RemoveOptions;
use crate::lifecycle::ReplyView;
use crate::lifecycle::RequestView;
use crate::lifecycle::StepView;
use crate::process::parsed_kind;
use crate::process::ContainerInspectView;
use crate::process::ProcessKind;
use crate::process::ProcessView;

verus! {

/// Where an operation stands after the replies, taken in this order, and
/// the steps that it has answered them with.
pub open spec fn run(state: OperationView, replies: Seq<ReplyView>) -> (
    OperationView,
    Seq<StepView>,
)
    decreases replies.len(),
{
    if replies.len() == 0 {
        (state, Seq::empty())
    } else {
        let before = run(state, replies.drop_last());
        let last = transition(before.0, replies.last());
        (last.0, before.1.push(last.1))
    }
}

/// A run takes one step for each reply, and the step for a reply is the one
/// that the transition gives where the operation stands after the replies
/// before it.
pub proof fn lemma_run_steps(state: OperationView, replies: Seq<ReplyView>, at: int)
    requires
        0 <= at < replies.len(),
    ensures
        run(state, replies).1.len() == replies.len(),
        run(state, replies).1[at] == transition(run(state, replies.take(at)).0, replies[at]).1,
        run(state, replies.take(at + 1)).0 == transition(
            run(state, replies.take(at)).0,
            replies[at],
        ).0,
    decreases replies.len(),
{
    let front = replies.drop_last();
    assert(replies.take(at + 1).drop_last() =~= replies.take(at));
    if at == replies.len() - 1 {
        assert(replies.take(at) =~= front);
        if at > 0 {
            lemma_run_steps(state, front, at - 1);
        } else {
            assert(run(state, front).1.len() == 0);
        }
    } else {
        lemma_run_steps(state, front, at);
        assert(front.take(at) =~= replies.take(at));
    }
}

/// A failure of the runtime or of the store ends an operation at once, with
/// that failure as its error and with no further request. The one failure
/// that does not is the runtime's word that the container to remove is
/// absent.
pub proof fn lemma_failure_ends_the_operation(state: OperationView, reply: ReplyView)
    requires
        reply is RuntimeFailed || reply is StoreFailed,
        !(state is Finished),
        !(state is Removing && reply.container_gone()),
    ensures
        transition(state, reply) == halted(reply.error()),
        reply matches ReplyView::RuntimeFailed(failure) ==> reply.error()
            == ProcessErrorView::of_runtime(failure),
        reply matches ReplyView::StoreFailed(failure) ==> reply.error()
            == ProcessErrorView::of_store(failure),
{
}

/// Once an operation has taken a step that is no request, it has ended:
/// whatever replies follow, it asks for nothing more and answers each with
/// the error of a reply out of turn.
pub proof fn lemma_nothing_follows_the_end(
    state: OperationView,
    replies: Seq<ReplyView>,
    end: int,
    later: int,
)
    requires
        0 <= end < later < replies.len(),
        !(run(state, replies).1[end] is Call),
    ensures
        run(state, replies).1[later] == StepView::Failed(ProcessErrorView::OutOfTurn),
        run(state, replies.take(later + 1)).0 is Finished,
    decreases later - end,
{
    lemma_run_steps(state, replies, end);
    lemma_run_steps(state, replies, later);
    if later == end + 1 {
        assert(run(state, replies.take(later)).0 is Finished);
    } else {
        lemma_nothing_follows_the_end(state, replies, end, later - 1);
    }
}

/// A creation whose requests are all carried out asks the runtime for the
/// container, then for what it knows of the container under the id that it
/// gave, then the store to keep the process: under that id, with the name,
/// the kind, the node and the kind key that the creation was begun with and
/// with what the runtime said. It ends with the record that the store keeps.
pub proof fn lemma_create_runs_through(
    name: Seq<char>,
    kind: Seq<char>,
    kind_key: Seq<char>,
    labels: Map<Seq<char>, Seq<char>>,
    node_key: Seq<char>,
    id: Seq<char>,
    data: ContainerInspectView,
    stored: ProcessView,
)
    requires
        parsed_kind(kind) is Ok,
    ensures
        creating(name, kind, kind_key, labels, node_key).1 == StepView::Call(
            RequestView::CreateContainer {
                name,
                labels: owned_labels(labels, parsed_kind(kind)->Ok_0),
            },
        ),
        run(
            creating(name, kind, kind_key, labels, node_key).0,
            seq![
                ReplyView::ContainerCreated { id },
                ReplyView::ContainerInspected(data),
                ReplyView::ProcessStored(stored),
            ],
        ) == (
            OperationView::Finished,
            seq![
                StepView::Call(RequestView::InspectContainer { id }),
                StepView::Call(
                    RequestView::StoreProcess {
                        process: ProcessView {
                            key: id,
                            name,
                            kind: parsed_kind(kind)->Ok_0,
                            data,
                            node_key,
                            kind_key,
                        },
                    },
                ),
                StepView::Created(stored),
            ],
        ),
{
    let begin = creating(name, kind, kind_key, labels, node_key).0;
    let replies = seq![
        ReplyView::ContainerCreated { id },
        ReplyView::ContainerInspected(data),
        ReplyView::ProcessStored(stored),
    ];
    lemma_run_steps(begin, replies, 0);
    lemma_run_steps(begin, replies, 1);
    lemma_run_steps(begin, replies, 2);
    assert(replies.take(0) =~= Seq::<ReplyView>::empty());
    assert(replies.take(3) =~= replies);
    assert(run(begin, replies).1 =~= seq![
        StepView::Call(RequestView::InspectContainer { id }),
        StepView::Call(
            RequestView::StoreProcess {
                process: ProcessView {
                    key: id,
                    name,
                    kind: parsed_kind(kind)->Ok_0,
                    data,
                    node_key,
                    kind_key,
                },
            },
        ),
        StepView::Created(stored),
    ]);
}

/// Removing a process whose container the runtime no longer has goes as
/// removing one that it has: the record in the store is deleted next, and
/// once that is done the removal ends well. So a process can be removed
/// twice.
pub proof fn lemma_remove_absent_container(
    key: Seq<char>,
    options: Option<RemoveOptions>,
    failure: RuntimeFailureView,
)
    requires
        failure.is_absent(),
    ensures
        run(removing(key, options).0, seq![ReplyView::RuntimeFailed(failure), ReplyView::Done]) == (
            OperationView::Finished,
            seq![StepView::Call(RequestView::DeleteProcess { key }), StepView::Done],
        ),
        run(removing(key, options).0, seq![ReplyView::RuntimeFailed(failure), ReplyView::Done])
            == run(removing(key, options).0, seq![ReplyView::Done, ReplyView::Done]),
{
    let start = removing(key, options).0;
    let absent = seq![ReplyView::RuntimeFailed(failure), ReplyView::Done];
    let present = seq![ReplyView::Done, ReplyView::Done];
    reveal_with_fuel(run, 3);
    assert(absent.drop_last() =~= seq![ReplyView::RuntimeFailed(failure)]);
    assert(absent.drop_last().drop_last() =~= Seq::<ReplyView>::empty());
    assert(present.drop_last() =~= seq![ReplyView::Done]);
    assert(present.drop_last().drop_last() =~= Seq::<ReplyView>::empty());
    assert(run(start, absent).1 =~= seq![
        StepView::Call(RequestView::DeleteProcess { key }),
        StepView::Done,
    ]);
    assert(run(start, present).1 =~= run(start, absent).1);
}

/// Where the starting or stopping of processes stands after `count`
/// replies, when none of the processes is already where the action brings it
/// and every request is carried out.
proof fn lemma_switching_goes_on(
    action: EventAction,
    kind: ProcessKind,
    kind_key: Seq<char>,
    processes: Seq<ProcessView>,
    replies: Seq<ReplyView>,
    count: int,
)
    requires
        1 <= count <= processes.len() + 1,
        count <= replies.len(),
        replies[0] == ReplyView::Processes(processes),
        forall|i: int| 0 <= i < processes.len() ==> !already(action, #[trigger] processes[i]),
        forall|i: int| 1 <= i < count ==> #[trigger] replies[i] == ReplyView::Done,
    ensures
        run(listing(action, kind, kind_key).0, replies.take(count)).0 == (if count
            <= processes.len() {
            OperationView::Switching { action, kind, kind_key, processes, next: count as nat }
        } else {
            OperationView::Closing
        }),
    decreases count,
{
    lemma_run_steps(listing(action, kind, kind_key).0, replies, count - 1);
    if count == 1 {
        assert(replies.take(0) =~= Seq::<ReplyView>::empty());
    } else {
        lemma_switching_goes_on(action, kind, kind_key, processes, replies, count - 1);
    }
}

/// Where none of the listed processes is already where the action brings it
/// and every request is carried out, a start or a stop asks the runtime to
/// start or stop each process, in the order of the listing, then makes the
/// request that follows the kind, and then ends well.
pub proof fn lemma_switch_runs_through(
    action: EventAction,
    kind: ProcessKind,
    kind_key: Seq<char>,
    processes: Seq<ProcessView>,
    replies: Seq<ReplyView>,
)
    requires
        replies.len() == processes.len() + 2,
        replies[0] == ReplyView::Processes(processes),
        forall|i: int| 1 <= i < replies.len() ==> #[trigger] replies[i] == ReplyView::Done,
        forall|i: int| 0 <= i < processes.len() ==> !already(action, #[trigger] processes[i]),
    ensures
        run(listing(action, kind, kind_key).0, replies).0 == OperationView::Finished,
        run(listing(action, kind, kind_key).0, replies).1.len() == processes.len() + 2,
        forall|i: int|
            0 <= i < processes.len() ==> run(listing(action, kind, kind_key).0, replies).1[i]
                == StepView::Call(switch_request(action, #[trigger] processes[i])),
        run(listing(action, kind, kind_key).0, replies).1[processes.len() as int]
            == StepView::Call(after_request(kind, kind_key, action)),
        run(listing(action, kind, kind_key).0, replies).1[processes.len() as int + 1]
            == StepView::Done,
{
    let begin = listing(action, kind, kind_key).0;
    let count = processes.len() as int;
    let steps = run(begin, replies).1;
    assert(replies.take(0) =~= Seq::<ReplyView>::empty());
    assert(replies.take(count + 2) =~= replies);
    lemma_run_steps(begin, replies, count + 1);
    lemma_switching_goes_on(action, kind, kind_key, processes, replies, count + 1);
    lemma_run_steps(begin, replies, count);
    if count > 0 {
        lemma_switching_goes_on(action, kind, kind_key, processes, replies, count);
    }
    assert forall|i: int| 0 <= i < count implies steps[i] == StepView::Call(
        switch_request(action, #[trigger] processes[i]),
    ) by {
        lemma_run_steps(begin, replies, i);
        if i > 0 {
            lemma_switching_goes_on(action, kind, kind_key, processes, replies, i);
        }
    }
}

/// Whether each of the first `count` processes was not yet where the
/// action brings it, and the step at its place asks to bring it there.
pub open spec fn switched(
    action: EventAction,
    processes: Seq<ProcessView>,
    steps: Seq<StepView>,
    count: int,
) -> bool {
    forall|i: int|
        0 <= i < count ==> !already(action, #[trigger] processes[i]) && steps[i] == StepView::Call(
            switch_request(action, processes[i]),
        )
}

/// Whether the replies that follow the first are, up to the one at `count`,
/// that the request was carried out.
pub open spec fn carried_out(replies: Seq<ReplyView>, count: int) -> bool {
    forall|i: int| 1 <= i <= count ==> #[trigger] replies[i] == ReplyView::Done
}

/// What holds of the starting or stopping of the processes `processes`
/// after `count` replies, of which the first was the listing.
pub open spec fn switching_so_far(
    action: EventAction,
    kind: ProcessKind,
    kind_key: Seq<char>,
    processes: Seq<ProcessView>,
    replies: Seq<ReplyView>,
    state: OperationView,
    steps: Seq<StepView>,
    count: int,
) -> bool {
    &&& steps.len() == count
    &&& match state {
        OperationView::Switching { action: a, kind: k, kind_key: key, processes: ps, next } => {
            &&& a == action
            &&& k == kind
            &&& key == kind_key
            &&& ps == processes
            &&& next == count
            &&& count <= processes.len()
            &&& switched(action, processes, steps, count)
            &&& carried_out(replies, count - 1)
        },
        OperationView::Closing => {
            &&& count == processes.len() + 1
            &&& switched(action, processes, steps, processes.len() as int)
            &&& carried_out(replies, processes.len() as int)
        },
        OperationView::Finished => steps[count - 1] == StepView::Done ==> {
            ||| {
                &&& count == processes.len() + 2
                &&& switched(action, processes, steps, processes.len() as int)
                &&& carried_out(replies, processes.len() as int)
            }
            ||| {
                &&& count <= processes.len()
                &&& already(action, processes[count - 1])
                &&& switched(action, processes, steps, count - 1)
                &&& carried_out(replies, count - 1)
            }
        },
        _ => false,
    }
}

proof fn lemma_switching_so_far(
    action: EventAction,
    kind: ProcessKind,
    kind_key: Seq<char>,
    processes: Seq<ProcessView>,
    replies: Seq<ReplyView>,
    count: int,
)
    requires
        1 <= count <= replies.len(),
        replies[0] == ReplyView::Processes(processes),
    ensures
        switching_so_far(
            action,
            kind,
            kind_key,
            processes,
            replies,
            run(listing(action, kind, kind_key).0, replies.take(count)).0,
            run(listing(action, kind, kind_key).0, replies.take(count)).1,
            count,
        ),
    decreases count,
{
    let begin = listing(action, kind, kind_key).0;
    let taken = replies.take(count);
    assert(taken.drop_last() =~= replies.take(count - 1));
    assert(taken.last() == replies[count - 1]);
    if count == 1 {
        assert(run(begin, replies.take(0)) == (begin, Seq::<StepView>::empty()));
    } else {
        lemma_switching_so_far(action, kind, kind_key, processes, replies, count - 1);
    }
}

/// A start or a stop that ends well has reached every process that the
/// listing showed as not yet started, or not yet stopped: it has asked the
/// runtime to start or stop each of them, and each time the runtime has
/// answered that it did.
///
/// This holds where the listing shows no process that is already there
/// before one that is not. Where it does, the operation ends well at the
/// first process that is already there and leaves the later ones as they
/// are.
pub proof fn lemma_done_reaches_every_process(
    action: EventAction,
    kind: ProcessKind,
    kind_key: Seq<char>,
    processes: Seq<ProcessView>,
    replies: Seq<ReplyView>,
    at: int,
)
    requires
        replies.len() > 0,
        replies[0] == ReplyView::Processes(processes),
        run(listing(action, kind, kind_key).0, replies).1.last() == StepView::Done,
        forall|a: int, b: int|
            0 <= a < b < processes.len() && already(action, #[trigger] processes[a]) ==> already(
                action,
                #[trigger] processes[b],
            ),
        0 <= at < processes.len(),
        !already(action, processes[at]),
    ensures
        at + 1 < replies.len(),
        run(listing(action, kind, kind_key).0, replies).1[at] == StepView::Call(
            switch_request(action, processes[at]),
        ),
        replies[at + 1] == ReplyView::Done,
{
    let count = replies.len() as int;
    lemma_switching_so_far(action, kind, kind_key, processes, replies, count);
    assert(replies.take(count) =~= replies);
    let end = run(listing(action, kind, kind_key).0, replies);
    assert(end.1.last() == end.1[count - 1]);
    assert(end.0 is Finished);
    if count <= processes.len() {
        assert(already(action, processes[count - 1]));
        if at >= count - 1 {
            assert(already(action, processes[at]));
        }
    }
}

} // verus!
