//! Properties of validation and workflow state that hold across operations.

use vstd::prelude::*;

use crate::identifiers::TaskId;
use super::graph::{has_later_duplicate, has_node, ids_unique, lemma_node_position, node_position};
use super::state::{
    block_cause, blocks_caused, blocks_explained, count_pending, newly_blocked, only_pending_blocked,
    blocking_result, blocking_settled, blocking_verdicts, cancel_result, decisive,
    failure_status, is_ready, is_unsuccessful, prerequisites_result, running_transition_result, start_result,
    success_verdicts, task_slot,
};
use super::types::{TaskDependency, TaskGraphError, TaskNode, TaskRuntimeState, TaskStatus};
use super::validate::{dependencies_well_formed, in_degree_overflows, is_acyclic, validation_result};

verus! {

/// Validation accepts a graph exactly when the scratch buffers cover every
/// node, node identities are unique, every dependency names two distinct
/// known tasks and occurs once, no node has more incoming edges than a
/// `u32` counter holds, and the dependencies have no directed cycle.
pub proof fn lemma_validation_accepts_exactly_acyclic_graphs(
    nodes: Seq<TaskNode>,
    deps: Seq<TaskDependency>,
    incoming_capacity: int,
    queue_capacity: int,
)
    ensures
        validation_result(nodes, deps, incoming_capacity, queue_capacity) is Ok <==> {
            &&& incoming_capacity >= nodes.len()
            &&& queue_capacity >= nodes.len()
            &&& ids_unique(nodes)
            &&& dependencies_well_formed(nodes, deps)
            &&& !in_degree_overflows(nodes, deps)
            &&& is_acyclic(nodes, deps)
        },
{
    if ids_unique(nodes) {
        assert(!exists|i: int| 0 <= i < nodes.len() && has_later_duplicate(nodes, i));
    } else {
        let (i, j) = choose|i: int, j: int| 0 <= i < j < nodes.len() && nodes[i].id == nodes[j].id;
        assert(has_later_duplicate(nodes, i));
    }
}

/// A ready task's every prerequisite is a known task whose state is `Succeeded`.
pub proof fn lemma_ready_tasks_have_succeeded_prerequisites(
    nodes: Seq<TaskNode>,
    deps: Seq<TaskDependency>,
    states: Seq<TaskRuntimeState>,
    i: int,
    k: int,
)
    requires
        is_ready(nodes, deps, states, i),
        0 <= k < deps.len(),
        deps[k].dependent == nodes[i].id,
    ensures
        node_position(nodes, deps[k].prerequisite) matches Some(j) && j < states.len()
            && states[j].status == TaskStatus::Succeeded,
{
    let verdicts = success_verdicts(nodes, deps, states, nodes[i].id);
    if verdicts(k) is Some {
        super::graph::lemma_first_such(deps.len() as int, decisive(verdicts), k);
    }
}

/// After settling, no pending task has a prerequisite that is exhausted,
/// cancelled, or blocked.
pub proof fn lemma_settled_pending_tasks_have_no_failed_prerequisite(
    nodes: Seq<TaskNode>,
    deps: Seq<TaskDependency>,
    states: Seq<TaskRuntimeState>,
    i: int,
    k: int,
)
    requires
        blocking_settled(nodes, deps, states),
        0 <= i < nodes.len(),
        i < states.len(),
        states[i].status == TaskStatus::Pending,
        0 <= k < deps.len(),
        deps[k].dependent == nodes[i].id,
    ensures
        node_position(nodes, deps[k].prerequisite) matches Some(j) && j < states.len()
            && !is_unsuccessful(states[j].status),
{
    let verdicts = blocking_verdicts(nodes, deps, states, nodes[i].id);
    assert(blocking_result(nodes, deps, states, nodes[i].id) == Ok::<bool, TaskGraphError>(false));
    if verdicts(k) is Some {
        super::graph::lemma_first_such(deps.len() as int, decisive(verdicts), k);
    }
}

/// Terminal states are final: a succeeded, exhausted, cancelled, or blocked
/// task can be neither started, completed, failed, nor cancelled.
pub proof fn lemma_terminal_states_reject_transitions(
    nodes: Seq<TaskNode>,
    deps: Seq<TaskDependency>,
    states: Seq<TaskRuntimeState>,
    task: TaskId,
)
    requires
        task_slot(nodes, states, task) matches Some(i) && (states[i].status == TaskStatus::Succeeded
            || is_unsuccessful(states[i].status)),
    ensures
        start_result(nodes, deps, states, task) is Err,
        running_transition_result(nodes, states, task) is Err,
        cancel_result(nodes, states, task) is Err,
{
}

/// Starting a task never lets its attempt count pass its budget.
pub proof fn lemma_start_respects_attempt_budget(
    nodes: Seq<TaskNode>,
    deps: Seq<TaskDependency>,
    states: Seq<TaskRuntimeState>,
    task: TaskId,
)
    requires
        start_result(nodes, deps, states, task) is Ok,
    ensures
        task_slot(nodes, states, task) matches Some(i) && states[i].attempts + 1
            <= nodes[i].budget.maximum_attempts,
{
}


/// The least of `rank[0..n]`.
spec fn least_rank(rank: Seq<int>, n: int) -> int
    decreases n,
{
    if n <= 1 {
        rank[0]
    } else if rank[n - 1] < least_rank(rank, n - 1) {
        rank[n - 1]
    } else {
        least_rank(rank, n - 1)
    }
}

proof fn lemma_least_rank(rank: Seq<int>, n: int, m: int)
    requires
        0 <= m < n,
    ensures
        least_rank(rank, n) <= rank[m],
    decreases n,
{
    if n > 1 && m < n - 1 {
        lemma_least_rank(rank, n - 1, m);
    }
}

/// No task blocked between settled states `before` and `after` can have a
/// cause: following causes descends in rank until it reaches a prerequisite
/// that was already unsuccessful, which a settled pending task cannot have.
proof fn lemma_no_cause_when_settled(
    nodes: Seq<TaskNode>,
    deps: Seq<TaskDependency>,
    before: Seq<TaskRuntimeState>,
    after: Seq<TaskRuntimeState>,
    rank: Seq<int>,
    i: int,
)
    requires
        blocking_settled(nodes, deps, before),
        only_pending_blocked(before, after),
        blocks_caused(nodes, deps, before, after, rank),
        0 <= i < after.len(),
    ensures
        !newly_blocked(before, after, i),
    decreases rank[i] - least_rank(rank, after.len() as int),
{
    if newly_blocked(before, after, i) {
        reveal(blocks_caused);
        let (k, j) = choose|k: int, j: int|
            #[trigger] block_cause(nodes, deps, before, after, rank, i, k, j);
        lemma_settled_pending_tasks_have_no_failed_prerequisite(nodes, deps, before, i, k);
        assert(after[j] == before[j] || before[j].status == TaskStatus::Pending);
        assert(before[j].status == TaskStatus::Pending);
        assert(newly_blocked(before, after, j));
        lemma_least_rank(rank, after.len() as int, j);
        lemma_no_cause_when_settled(nodes, deps, before, after, rank, j);
    }
}

/// Propagation leaves settled states alone: when no pending task has an
/// unsuccessful prerequisite, the only states that only-pending-to-blocked
/// changes can lead to with every block explained are the states themselves.
/// So a second propagation right after a successful one changes nothing.
pub proof fn lemma_settled_states_are_left_unchanged(
    nodes: Seq<TaskNode>,
    deps: Seq<TaskDependency>,
    before: Seq<TaskRuntimeState>,
    after: Seq<TaskRuntimeState>,
)
    requires
        blocking_settled(nodes, deps, before),
        only_pending_blocked(before, after),
        blocks_explained(nodes, deps, before, after),
    ensures
        after == before,
{
    let rank = choose|rank: Seq<int>| blocks_caused(nodes, deps, before, after, rank);
    assert forall|i: int| 0 <= i < after.len() implies after[i] == before[i] by {
        if after[i] != before[i] {
            assert(newly_blocked(before, after, i));
            lemma_no_cause_when_settled(nodes, deps, before, after, rank, i);
        }
    }
    assert(after =~= before);
}


/// Some dependency makes node `j` a prerequisite of node `i`, resolving the
/// prerequisite's identity to its first node.
pub open spec fn prerequisite_edge(nodes: Seq<TaskNode>, deps: Seq<TaskDependency>, j: int, i: int) -> bool {
    exists|k: int|
        0 <= k < deps.len() && #[trigger] deps[k].dependent == nodes[i].id && node_position(
            nodes,
            deps[k].prerequisite,
        ) == Some(j)
}

/// `path` runs along prerequisite edges from a node that is exhausted,
/// cancelled, or blocked in `states` through nodes that are all pending.
pub open spec fn blocking_path(
    nodes: Seq<TaskNode>,
    deps: Seq<TaskDependency>,
    states: Seq<TaskRuntimeState>,
    path: Seq<int>,
) -> bool {
    &&& path.len() >= 2
    &&& forall|m: int| 0 <= m < path.len() ==> 0 <= #[trigger] path[m] < nodes.len()
    &&& forall|m: int|
        0 <= m < path.len() - 1 ==> prerequisite_edge(nodes, deps, #[trigger] path[m], path[m + 1])
    &&& is_unsuccessful(states[path[0]].status)
    &&& forall|m: int| 1 <= m < path.len() ==> (#[trigger] states[path[m]]).status == TaskStatus::Pending
}

/// Number of nodes among the first `n` that moved from pending to blocked.
pub open spec fn count_newly_blocked(
    before: Seq<TaskRuntimeState>,
    after: Seq<TaskRuntimeState>,
    n: int,
) -> nat
    decreases n,
{
    if n <= 0 {
        0
    } else {
        count_newly_blocked(before, after, n - 1) + if newly_blocked(before, after, n - 1) {
            1nat
        } else {
            0nat
        }
    }
}

/// A node newly blocked under explained blocks ends a blocking path.
proof fn lemma_newly_blocked_has_path(
    nodes: Seq<TaskNode>,
    deps: Seq<TaskDependency>,
    before: Seq<TaskRuntimeState>,
    after: Seq<TaskRuntimeState>,
    rank: Seq<int>,
    i: int,
) -> (path: Seq<int>)
    requires
        only_pending_blocked(before, after),
        blocks_caused(nodes, deps, before, after, rank),
        newly_blocked(before, after, i),
    ensures
        blocking_path(nodes, deps, before, path),
        path.last() == i,
    decreases rank[i] - least_rank(rank, after.len() as int),
{
    reveal(blocks_caused);
    let (k, j) = choose|k: int, j: int| #[trigger] block_cause(nodes, deps, before, after, rank, i, k, j);
    assert(prerequisite_edge(nodes, deps, j, i));
    let id = deps[k].prerequisite;
    assert(has_node(nodes, id));
    let witness = choose|w: int| 0 <= w < nodes.len() && nodes[w].id == id;
    lemma_node_position(nodes, id, witness);
    assert(0 <= j < nodes.len());
    if before[j].status != TaskStatus::Pending {
        assert(after[j] == before[j]);
        let path = seq![j, i];
        assert(path[0] == j && path[1] == i);
        path
    } else {
        assert(newly_blocked(before, after, j));
        lemma_least_rank(rank, after.len() as int, j);
        let prefix = lemma_newly_blocked_has_path(nodes, deps, before, after, rank, j);
        let path = prefix.push(i);
        assert forall|m: int| 0 <= m < path.len() - 1 implies prerequisite_edge(
            nodes,
            deps,
            #[trigger] path[m],
            path[m + 1],
        ) by {
            if m < path.len() - 2 {
                assert(path[m] == prefix[m] && path[m + 1] == prefix[m + 1]);
            } else {
                assert(path[m] == j && path[m + 1] == i);
            }
        }
        assert forall|m: int| 1 <= m < path.len() implies (#[trigger] before[path[m]]).status
            == TaskStatus::Pending by {
            if m < path.len() - 1 {
                assert(path[m] == prefix[m]);
            }
        }
        assert forall|m: int| 0 <= m < path.len() implies 0 <= #[trigger] path[m] < nodes.len() by {
            if m < path.len() - 1 {
                assert(path[m] == prefix[m]);
            }
        }
        assert(path[0] == prefix[0]);
        path
    }
}

/// Every node on a blocking path after its start is unsuccessful once
/// blocking has settled.
proof fn lemma_path_is_blocked(
    nodes: Seq<TaskNode>,
    deps: Seq<TaskDependency>,
    before: Seq<TaskRuntimeState>,
    after: Seq<TaskRuntimeState>,
    path: Seq<int>,
    m: int,
)
    requires
        before.len() == nodes.len(),
        only_pending_blocked(before, after),
        blocking_settled(nodes, deps, after),
        blocking_path(nodes, deps, before, path),
        0 <= m < path.len(),
    ensures
        is_unsuccessful(after[path[m]].status),
        m >= 1 ==> newly_blocked(before, after, path[m]),
    decreases m,
{
    let node = path[m];
    assert(0 <= node < nodes.len());
    if m == 0 {
        assert(after[node] == before[node] || before[node].status == TaskStatus::Pending);
    } else {
        lemma_path_is_blocked(nodes, deps, before, after, path, m - 1);
        let previous = path[m - 1];
        assert(prerequisite_edge(nodes, deps, previous, node));
        let k = choose|k: int|
            0 <= k < deps.len() && #[trigger] deps[k].dependent == nodes[node].id && node_position(
                nodes,
                deps[k].prerequisite,
            ) == Some(previous);
        assert(before[node].status == TaskStatus::Pending);
        if after[node].status == TaskStatus::Pending {
            lemma_settled_pending_tasks_have_no_failed_prerequisite(nodes, deps, after, node, k);
        }
        assert(after[node] == before[node] || after[node].status == TaskStatus::Blocked);
    }
}

proof fn lemma_count_newly_blocked(
    before: Seq<TaskRuntimeState>,
    after: Seq<TaskRuntimeState>,
    n: int,
)
    requires
        only_pending_blocked(before, after),
        0 <= n <= before.len(),
    ensures
        count_pending(before.take(n)) == count_pending(after.take(n)) + count_newly_blocked(
            before,
            after,
            n,
        ),
    decreases n,
{
    if n > 0 {
        lemma_count_newly_blocked(before, after, n - 1);
        assert(before.take(n).drop_last() =~= before.take(n - 1));
        assert(after.take(n).drop_last() =~= after.take(n - 1));
        assert(after[n - 1] == before[n - 1] || before[n - 1].status == TaskStatus::Pending);
    }
}

/// Block propagation blocks exactly the pending nodes reached from an
/// exhausted, cancelled, or blocked node along prerequisite edges through
/// pending nodes, and reports their number: for states that cover the graph,
/// any outcome that only turns pending nodes into blocked ones, explains each
/// block, and leaves no pending node with an unsuccessful prerequisite (what
/// a successful `propagate_blocked` ensures) blocks node `i` exactly when a
/// blocking path ends at `i`, and the number of newly blocked nodes is the
/// drop in pending nodes.
pub proof fn lemma_propagation_blocks_exactly_the_reached_nodes(
    nodes: Seq<TaskNode>,
    deps: Seq<TaskDependency>,
    before: Seq<TaskRuntimeState>,
    after: Seq<TaskRuntimeState>,
)
    requires
        before.len() == nodes.len(),
        only_pending_blocked(before, after),
        blocks_explained(nodes, deps, before, after),
        blocking_settled(nodes, deps, after),
    ensures
        forall|i: int|
            0 <= i < nodes.len() ==> (#[trigger] newly_blocked(before, after, i) <==> exists|
                path: Seq<int>,
            | blocking_path(nodes, deps, before, path) && path.last() == i),
        count_pending(before) == count_pending(after) + count_newly_blocked(
            before,
            after,
            nodes.len() as int,
        ),
{
    let rank = choose|rank: Seq<int>| blocks_caused(nodes, deps, before, after, rank);
    assert forall|i: int| 0 <= i < nodes.len() implies (#[trigger] newly_blocked(before, after, i)
        <==> exists|path: Seq<int>| blocking_path(nodes, deps, before, path) && path.last() == i) by {
        if newly_blocked(before, after, i) {
            let path = lemma_newly_blocked_has_path(nodes, deps, before, after, rank, i);
        }
        if exists|path: Seq<int>| blocking_path(nodes, deps, before, path) && path.last() == i {
            let path = choose|path: Seq<int>| blocking_path(nodes, deps, before, path) && path.last() == i;
            lemma_path_is_blocked(nodes, deps, before, after, path, path.len() - 1);
        }
    }
    lemma_count_newly_blocked(before, after, before.len() as int);
    assert(before.take(before.len() as int) =~= before);
    assert(after.take(after.len() as int) =~= after);
}


/// Cancelling a known task succeeds exactly when it has not finished: it is
/// pending, waiting to retry after a failure, or running.
pub proof fn lemma_cancel_accepts_exactly_unfinished_tasks(
    nodes: Seq<TaskNode>,
    states: Seq<TaskRuntimeState>,
    task: TaskId,
    i: int,
)
    requires
        task_slot(nodes, states, task) == Some(i),
    ensures
        cancel_result(nodes, states, task) is Ok <==> (states[i].status == TaskStatus::Pending
            || states[i].status == TaskStatus::Failed || states[i].status == TaskStatus::Running),
{
}

/// A task that has just been started can always be cancelled: starting
/// leaves it running, and a running task accepts cancellation.
pub proof fn lemma_started_tasks_can_be_cancelled(
    nodes: Seq<TaskNode>,
    deps: Seq<TaskDependency>,
    states: Seq<TaskRuntimeState>,
    task: TaskId,
)
    requires
        start_result(nodes, deps, states, task) is Ok,
    ensures
        task_slot(nodes, states, task) matches Some(i) && cancel_result(
            nodes,
            states.update(i, TaskRuntimeState { status: TaskStatus::Running, attempts: (states[i].attempts + 1) as u16 }),
            task,
        ) is Ok,
{
    let i = task_slot(nodes, states, task)->Some_0;
    let started = states.update(
        i,
        TaskRuntimeState { status: TaskStatus::Running, attempts: (states[i].attempts + 1) as u16 },
    );
    let witness = choose|w: int| 0 <= w < nodes.len() && nodes[w].id == task;
    lemma_node_position(nodes, task, witness);
    assert(0 <= i < states.len());
    assert(started[i].status == TaskStatus::Running);
    assert(task_slot(nodes, started, task) == Some(i));
    assert(cancel_result(nodes, started, task) is Ok);
}

/// Readiness agrees with starting: in a graph whose node identities are
/// unique, a node with a state entry is listed as ready exactly when
/// starting it would succeed, so pending tasks and failed tasks with
/// attempts left are both offered once their prerequisites have succeeded.
pub proof fn lemma_ready_exactly_when_startable(
    nodes: Seq<TaskNode>,
    deps: Seq<TaskDependency>,
    states: Seq<TaskRuntimeState>,
    i: int,
)
    requires
        ids_unique(nodes),
        0 <= i < nodes.len(),
        i < states.len(),
    ensures
        is_ready(nodes, deps, states, i) <==> start_result(nodes, deps, states, nodes[i].id) is Ok,
        (states[i].status == TaskStatus::Failed && states[i].attempts
            < nodes[i].budget.maximum_attempts && prerequisites_result(
            nodes,
            deps,
            states,
            nodes[i].id,
        ) == Ok::<bool, TaskGraphError>(true)) ==> is_ready(nodes, deps, states, i),
{
    super::graph::lemma_node_position(nodes, nodes[i].id, i);
    assert(task_slot(nodes, states, nodes[i].id) == Some(i));
}


/// A failed attempt leaves a task retryable while attempts remain and
/// finished otherwise: the failed state can be started again exactly when
/// the attempts made are below the budget, and only a task whose attempts
/// are spent counts as unsuccessful and so blocks its dependents.
pub proof fn lemma_failure_is_retryable_exactly_while_attempts_remain(
    nodes: Seq<TaskNode>,
    deps: Seq<TaskDependency>,
    states: Seq<TaskRuntimeState>,
    task: TaskId,
)
    requires
        running_transition_result(nodes, states, task) is Ok,
        ids_unique(nodes),
    ensures
        task_slot(nodes, states, task) matches Some(i) && ({
            let failed = states.update(
                i,
                TaskRuntimeState {
                    status: failure_status(states[i].attempts, nodes[i].budget.maximum_attempts),
                    attempts: states[i].attempts,
                },
            );
            &&& is_unsuccessful(failed[i].status) <==> states[i].attempts
                >= nodes[i].budget.maximum_attempts
            &&& failed[i].status != TaskStatus::Running
            &&& prerequisites_result(nodes, deps, failed, task) == Ok::<bool, TaskGraphError>(true)
                ==> (start_result(nodes, deps, failed, task) is Ok <==> states[i].attempts
                < nodes[i].budget.maximum_attempts)
        }),
{
    let witness = choose|w: int| 0 <= w < nodes.len() && nodes[w].id == task;
    lemma_node_position(nodes, task, witness);
    let i = task_slot(nodes, states, task)->Some_0;
    let failed = states.update(
        i,
        TaskRuntimeState {
            status: failure_status(states[i].attempts, nodes[i].budget.maximum_attempts),
            attempts: states[i].attempts,
        },
    );
    assert(task_slot(nodes, failed, task) == Some(i));
}

} // verus!
