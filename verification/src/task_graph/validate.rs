//! Structural and acyclicity validation of borrowed task graphs.

use vstd::prelude::*;

use crate::identifiers::{CapacityExhausted, CapacityResource, TaskId};
use super::counting::{
    edge_pending, in_degree, lemma_covering, lemma_distinct_bounded, lemma_missing_value,
    lemma_pending_edges_positive, lemma_pending_edges_prefix, lemma_pending_edges_skip,
    lemma_pending_edges_take_succ, lemma_pending_edges_zero, pending_edges,
};
use super::graph::{
    TaskGraph, first_such, has_later_duplicate, has_node, ids_unique, is_first_such,
    lemma_first_such, };
use super::types::{TaskDependency, TaskGraphError, TaskNode, node_capacity, node_capacity_error};

verus! {

/// Caller-owned scratch required for acyclic graph validation.
pub struct GraphValidationScratch<'a> {
    /// Per-node incoming-edge counts.
    pub incoming_counts: &'a mut [u32],
    /// Kahn traversal queue storing node indices.
    pub queue: &'a mut [usize],
}

/// Predicate selecting node indices that share their identity with a later node.
pub open spec fn duplicate_predicate(nodes: Seq<TaskNode>) -> spec_fn(int) -> bool {
    |i: int| has_later_duplicate(nodes, i)
}

/// The defect of dependency `k`, checked in the order prerequisite, dependent,
/// self-loop, later duplicate.
pub open spec fn dependency_defect(
    nodes: Seq<TaskNode>,
    deps: Seq<TaskDependency>,
    k: int,
) -> Option<TaskGraphError> {
    let d = deps[k];
    if !has_node(nodes, d.prerequisite) {
        Some(TaskGraphError::UnknownTask(d.prerequisite))
    } else if !has_node(nodes, d.dependent) {
        Some(TaskGraphError::UnknownTask(d.dependent))
    } else if d.prerequisite == d.dependent {
        Some(TaskGraphError::SelfDependency(d.prerequisite))
    } else if exists|j: int| k < j < deps.len() && deps[j] == d {
        Some(TaskGraphError::DuplicateDependency(d))
    } else {
        None
    }
}

/// Predicate selecting defective dependency indices.
pub open spec fn defect_predicate(nodes: Seq<TaskNode>, deps: Seq<TaskDependency>) -> spec_fn(
    int,
) -> bool {
    |k: int| dependency_defect(nodes, deps, k) is Some
}

/// Every dependency names two distinct known tasks and occurs once.
pub open spec fn dependencies_well_formed(nodes: Seq<TaskNode>, deps: Seq<TaskDependency>) -> bool {
    forall|k: int| 0 <= k < deps.len() ==> #[trigger] dependency_defect(nodes, deps, k) is None
}

/// Some node has more incoming edges than a `u32` counter can hold.
pub open spec fn in_degree_overflows(nodes: Seq<TaskNode>, deps: Seq<TaskDependency>) -> bool {
    exists|i: int| 0 <= i < nodes.len() && in_degree(deps, nodes[i].id) > u32::MAX
}

/// `order` lists every node index exactly once, and each dependency's
/// prerequisite is listed before its dependent.
pub open spec fn is_topological_order(
    nodes: Seq<TaskNode>,
    deps: Seq<TaskDependency>,
    order: Seq<int>,
) -> bool {
    &&& order.len() == nodes.len()
    &&& forall|t: int| 0 <= t < order.len() ==> 0 <= #[trigger] order[t] < nodes.len()
    &&& forall|s: int, t: int| 0 <= s < t < order.len() ==> order[s] != order[t]
    &&& forall|k: int, t: int|
        0 <= k < deps.len() && 0 <= t < order.len() && #[trigger] nodes[order[t]].id
            == #[trigger] deps[k].dependent ==> exists|s: int|
            0 <= s < t && nodes[order[s]].id == deps[k].prerequisite
}

/// The dependency relation has no directed cycle.
pub open spec fn is_acyclic(nodes: Seq<TaskNode>, deps: Seq<TaskDependency>) -> bool {
    exists|order: Seq<int>| is_topological_order(nodes, deps, order)
}

/// The failure reported when an incoming-edge counter overflows.
pub open spec fn edge_overflow_error() -> TaskGraphError {
    TaskGraphError::CapacityExhausted(
        CapacityExhausted {
            resource: CapacityResource::TaskEdges,
            required: 0x1_0000_0000,
            available: 0xffff_ffff,
        },
    )
}

/// Outcome of validating a graph with scratch buffers of the given lengths:
/// the first failing check in the order scratch capacity, node identities,
/// dependency integrity, edge-count capacity, acyclicity.
pub open spec fn validation_result(
    nodes: Seq<TaskNode>,
    deps: Seq<TaskDependency>,
    incoming_capacity: int,
    queue_capacity: int,
) -> Result<(), TaskGraphError> {
    let available = if incoming_capacity < queue_capacity {
        incoming_capacity
    } else {
        queue_capacity
    };
    if available < nodes.len() {
        Err(node_capacity_error(nodes.len() as int, available))
    } else if exists|i: int| 0 <= i < nodes.len() && has_later_duplicate(nodes, i) {
        Err(
            TaskGraphError::DuplicateTask(
                nodes[first_such(nodes.len() as int, duplicate_predicate(nodes))].id,
            ),
        )
    } else if exists|k: int| 0 <= k < deps.len() && #[trigger] dependency_defect(nodes, deps, k) is Some {
        Err(
            dependency_defect(
                nodes,
                deps,
                first_such(deps.len() as int, defect_predicate(nodes, deps)),
            )->0,
        )
    } else if in_degree_overflows(nodes, deps) {
        Err(edge_overflow_error())
    } else if !is_acyclic(nodes, deps) {
        Err(TaskGraphError::CycleDetected)
    } else {
        Ok(())
    }
}

fn validate_scratch(required: usize, incoming_capacity: usize, queue_capacity: usize) -> (result:
    Result<(), TaskGraphError>)
    ensures
        result is Ok <==> incoming_capacity >= required && queue_capacity >= required,
        result matches Err(e) ==> e == node_capacity_error(
            required as int,
            if incoming_capacity < queue_capacity {
                incoming_capacity as int
            } else {
                queue_capacity as int
            },
        ),
{
    let available = if incoming_capacity < queue_capacity {
        incoming_capacity
    } else {
        queue_capacity
    };
    if available < required {
        return Err(node_capacity(required, available));
    }
    Ok(())
}

fn validate_nodes(nodes: &[TaskNode]) -> (result: Result<(), TaskGraphError>)
    ensures
        result is Ok <==> ids_unique(nodes@),
        result is Ok <==> !exists|i: int| 0 <= i < nodes@.len() && has_later_duplicate(nodes@, i),
        result matches Err(e) ==> e == TaskGraphError::DuplicateTask(
            nodes@[first_such(nodes@.len() as int, duplicate_predicate(nodes@))].id,
        ),
{
    let mut left: usize = 0;
    while left < nodes.len()
        invariant
            left <= nodes@.len(),
            forall|i: int| 0 <= i < left ==> !has_later_duplicate(nodes@, i),
        decreases nodes@.len() - left,
    {
        let mut right: usize = left + 1;
        while right < nodes.len()
            invariant
                left < nodes@.len(),
                left + 1 <= right <= nodes@.len(),
                forall|i: int| 0 <= i < left ==> !has_later_duplicate(nodes@, i),
                forall|j: int| left < j < right ==> nodes@[j].id != nodes@[left as int].id,
            decreases nodes@.len() - right,
        {
            if nodes[right].id == nodes[left].id {
                proof {
                    let p = duplicate_predicate(nodes@);
                    assert(p(left as int));
                    lemma_first_such(nodes@.len() as int, p, left as int);
                    assert forall|j: int| 0 <= j < left implies !#[trigger] p(j) by {}
                    assert(is_first_such(nodes@.len() as int, p, left as int));
                }
                return Err(TaskGraphError::DuplicateTask(nodes[left].id));
            }
            right += 1;
        }
        left += 1;
    }
    proof {
        assert forall|i: int, j: int| 0 <= i < j < nodes@.len() implies nodes@[i].id
            != nodes@[j].id by {
            assert(!has_later_duplicate(nodes@, i));
        }
    }
    Ok(())
}

fn validate_dependencies(graph: &TaskGraph<'_>) -> (result: Result<(), TaskGraphError>)
    ensures
        result is Ok <==> dependencies_well_formed(graph.nodes@, graph.dependencies@),
        result matches Err(e) ==> e == dependency_defect(
            graph.nodes@,
            graph.dependencies@,
            first_such(
                graph.dependencies@.len() as int,
                defect_predicate(graph.nodes@, graph.dependencies@),
            ),
        )->0,
{
    let ghost nodes = graph.nodes@;
    let ghost deps = graph.dependencies@;
    let mut left: usize = 0;
    while left < graph.dependencies.len()
        invariant
            left <= deps.len(),
            nodes == graph.nodes@,
            deps == graph.dependencies@,
            forall|k: int| 0 <= k < left ==> #[trigger] dependency_defect(nodes, deps, k) is None,
        decreases deps.len() - left,
    {
        let dependency = graph.dependencies[left];
        let ghost p = defect_predicate(nodes, deps);
        let mut defect: Option<TaskGraphError> = None;
        if graph.node(dependency.prerequisite).is_none() {
            defect = Some(TaskGraphError::UnknownTask(dependency.prerequisite));
        } else if graph.node(dependency.dependent).is_none() {
            defect = Some(TaskGraphError::UnknownTask(dependency.dependent));
        } else if dependency.prerequisite == dependency.dependent {
            defect = Some(TaskGraphError::SelfDependency(dependency.prerequisite));
        } else {
            let mut right: usize = left + 1;
            let mut duplicate = false;
            while right < graph.dependencies.len()
                invariant
                    left < deps.len(),
                    left + 1 <= right <= deps.len(),
                    deps == graph.dependencies@,
                    dependency == deps[left as int],
                    duplicate <==> exists|j: int| left < j < right && deps[j] == dependency,
                decreases deps.len() - right,
            {
                if graph.dependencies[right] == dependency {
                    duplicate = true;
                }
                right += 1;
            }
            if duplicate {
                defect = Some(TaskGraphError::DuplicateDependency(dependency));
            }
        }
        assert(defect == dependency_defect(nodes, deps, left as int));
        if let Some(error) = defect {
            proof {
                assert(p(left as int));
                lemma_first_such(deps.len() as int, p, left as int);
                assert forall|j: int| 0 <= j < left implies !#[trigger] p(j) by {
                    assert(dependency_defect(nodes, deps, j) is None);
                }
                assert(is_first_such(deps.len() as int, p, left as int));
            }
            return Err(error);
        }
        left += 1;
    }
    Ok(())
}

} // verus!

verus! {

/// Identities of the nodes whose indices are listed in `prefix`.
pub open spec fn released_by(nodes: Seq<TaskNode>, prefix: Seq<usize>) -> Set<TaskId> {
    Set::new(
        |id: TaskId| exists|s: int| 0 <= s < prefix.len() && #[trigger] nodes[prefix[s] as int].id == id,
    )
}

/// The first `length` queue entries are distinct node indices below `n`.
pub open spec fn queue_entries_valid(queue: Seq<usize>, length: int, n: int) -> bool {
    &&& 0 <= length <= queue.len()
    &&& forall|t: int| 0 <= t < length ==> #[trigger] queue[t] < n
    &&& forall|s: int, t: int| 0 <= s < t < length ==> queue[s] != queue[t]
}

/// Node index `i` is among the first `length` queue entries.
pub open spec fn in_queue(queue: Seq<usize>, length: int, i: int) -> bool {
    exists|t: int| 0 <= t < length && queue[t] == i
}

/// Every queued node appears after all of its prerequisites.
pub open spec fn queue_respects_dependencies(
    nodes: Seq<TaskNode>,
    deps: Seq<TaskDependency>,
    queue: Seq<usize>,
    length: int,
) -> bool {
    forall|t: int, k: int|
        0 <= t < length && 0 <= k < deps.len() && #[trigger] nodes[queue[t] as int].id
            == #[trigger] deps[k].dependent ==> exists|s: int|
            0 <= s < t && nodes[queue[s] as int].id == deps[k].prerequisite
}

/// The first `length` queue entries as mathematical integers.
pub open spec fn queue_order(queue: Seq<usize>, length: int) -> Seq<int> {
    Seq::new(length as nat, |t: int| queue[t] as int)
}

fn write_queue(queue: &mut [usize], position: usize, value: usize) -> (result: Result<
    (),
    TaskGraphError,
>)
    ensures
        final(queue)@.len() == old(queue)@.len(),
        position < old(queue)@.len() ==> result is Ok && final(queue)@ == old(queue)@.update(
            position as int,
            value,
        ),
        position >= old(queue)@.len() ==> result == Err::<(), TaskGraphError>(
            node_capacity_error(
                if position == usize::MAX {
                    position as int
                } else {
                    position + 1
                },
                old(queue)@.len() as int,
            ),
        ) && final(queue)@ == old(queue)@,
{
    let available = queue.len();
    if position >= available {
        return Err(node_capacity(position.saturating_add(1), available));
    }
    queue[position] = value;
    Ok(())
}

/// A queue covering every node in dependency order is a topological order.
proof fn lemma_complete_queue_is_topological(
    nodes: Seq<TaskNode>,
    deps: Seq<TaskDependency>,
    queue: Seq<usize>,
)
    requires
        queue_entries_valid(queue, nodes.len() as int, nodes.len() as int),
        queue_respects_dependencies(nodes, deps, queue, nodes.len() as int),
    ensures
        is_acyclic(nodes, deps),
{
    let n = nodes.len() as int;
    let order = queue_order(queue, n);
    assert forall|k: int, t: int|
        0 <= k < deps.len() && 0 <= t < order.len() && #[trigger] nodes[order[t]].id
            == #[trigger] deps[k].dependent implies exists|s: int|
        0 <= s < t && nodes[order[s]].id == deps[k].prerequisite by {
        assert(nodes[queue[t] as int].id == deps[k].dependent);
        let s = choose|s: int| 0 <= s < t && nodes[queue[s] as int].id == deps[k].prerequisite;
        assert(order[s] == queue[s] as int);
    }
    assert(is_topological_order(nodes, deps, order));
}

/// Kahn's traversal stopping before covering every node proves a cycle.
proof fn lemma_incomplete_queue_is_cyclic(
    nodes: Seq<TaskNode>,
    deps: Seq<TaskDependency>,
    queue: Seq<usize>,
    length: int,
    counts: Seq<u32>,
)
    requires
        length < nodes.len(),
        nodes.len() <= counts.len(),
        queue_entries_valid(queue, length, nodes.len() as int),
        forall|i: int|
            0 <= i < nodes.len() ==> #[trigger] counts[i] == pending_edges(
                deps,
                nodes[i].id,
                released_by(nodes, queue.take(length)),
            ),
        forall|i: int| 0 <= i < nodes.len() ==> (in_queue(queue, length, i) <==> #[trigger] counts[i] == 0),
        dependencies_well_formed(nodes, deps),
        ids_unique(nodes),
    ensures
        !is_acyclic(nodes, deps),
{
    let n = nodes.len() as int;
    if is_acyclic(nodes, deps) {
        let order = choose|order: Seq<int>| is_topological_order(nodes, deps, order);
        let listed = queue_order(queue, length);
        assert forall|t: int| 0 <= t < listed.len() implies 0 <= #[trigger] listed[t] < n by {
            assert(queue[t] < n);
        }
        assert forall|s: int, t: int| 0 <= s < t < listed.len() implies listed[s] != listed[t] by {
            assert(queue[s] != queue[t]);
        }
        let missing = lemma_missing_value(listed, n);
        let position = lemma_covering(order, n, missing);
        let unlisted = |t: int| !in_queue(queue, length, order[t]);
        assert(!in_queue(queue, length, missing)) by {
            if in_queue(queue, length, missing) {
                let t = choose|t: int| 0 <= t < length && queue[t] == missing;
                assert(listed[t] == missing);
            }
        }
        assert(unlisted(position));
        lemma_first_such(n, unlisted, position);
        let t0 = first_such(n, unlisted);
        let j = order[t0];
        assert(0 <= j < n);
        assert(counts[j] != 0);
        let released = released_by(nodes, queue.take(length));
        let m = lemma_pending_edges_positive(deps, nodes[j].id, released);
        assert(nodes[order[t0]].id == deps[m].dependent);
        let s = choose|s: int| 0 <= s < t0 && nodes[order[s]].id == deps[m].prerequisite;
        assert(!unlisted(s));
        let q = choose|q: int| 0 <= q < length && queue[q] == order[s];
        assert(queue.take(length)[q] == queue[q]);
        assert(released.contains(deps[m].prerequisite));
    }
}

} // verus!

verus! {

/// Counts incoming edges per node into the first `nodes.len()` counters.
fn count_incoming(graph: &TaskGraph<'_>, counts: &mut [u32]) -> (result: Result<(), TaskGraphError>)
    requires
        ids_unique(graph.nodes@),
        dependencies_well_formed(graph.nodes@, graph.dependencies@),
        graph.nodes@.len() <= old(counts)@.len(),
        forall|i: int| 0 <= i < graph.nodes@.len() ==> old(counts)@[i] == 0,
    ensures
        final(counts)@.len() == old(counts)@.len(),
        result is Ok <==> !in_degree_overflows(graph.nodes@, graph.dependencies@),
        result is Err ==> result == Err::<(), TaskGraphError>(edge_overflow_error()),
        result is Ok ==> forall|i: int|
            0 <= i < graph.nodes@.len() ==> #[trigger] final(counts)@[i] == in_degree(
                graph.dependencies@,
                graph.nodes@[i].id,
            ),
{
    let ghost nodes = graph.nodes@;
    let ghost deps = graph.dependencies@;
    let ghost capacity = counts@.len();
    let mut k: usize = 0;
    while k < graph.dependencies.len()
        invariant
            nodes == graph.nodes@,
            deps == graph.dependencies@,
            ids_unique(nodes),
            dependencies_well_formed(nodes, deps),
            k <= deps.len(),
            capacity == old(counts)@.len(),
            counts@.len() == capacity,
            nodes.len() <= capacity,
            forall|i: int|
                0 <= i < nodes.len() ==> #[trigger] counts@[i] == in_degree(
                    deps.take(k as int),
                    nodes[i].id,
                ),
        decreases deps.len() - k,
    {
        let dependency = graph.dependencies[k];
        assert(dependency_defect(nodes, deps, k as int) is None);
        let dependent_index = match graph.node_index(dependency.dependent) {
            Some(index) => index,
            None => {
                return Err(TaskGraphError::UnknownTask(dependency.dependent));
            },
        };
        let current = counts[dependent_index];
        let ghost before = counts@;
        match current.checked_add(1) {
            None => {
                proof {
                    lemma_pending_edges_take_succ(
                        deps,
                        k as int,
                        dependency.dependent,
                        Set::empty(),
                    );
                    lemma_pending_edges_prefix(
                        deps,
                        k + 1,
                        dependency.dependent,
                        Set::empty(),
                    );
                    assert(in_degree(deps, nodes[dependent_index as int].id) > u32::MAX);
                }
                return Err(
                    TaskGraphError::CapacityExhausted(
                        CapacityExhausted::new(
                            CapacityResource::TaskEdges,
                            u32::MAX as u64 + 1,
                            current as u64,
                        ),
                    ),
                );
            },
            Some(next) => {
                counts[dependent_index] = next;
            },
        }
        proof {
            assert forall|i: int| 0 <= i < nodes.len() implies #[trigger] counts@[i] == in_degree(
                deps.take(k + 1),
                nodes[i].id,
            ) by {
                lemma_pending_edges_take_succ(deps, k as int, nodes[i].id, Set::empty());
                if i != dependent_index {
                    assert(nodes[i].id != nodes[dependent_index as int].id);
                    assert(counts@[i] == before[i]);
                }
            }
        }
        k += 1;
    }
    assert(deps.take(deps.len() as int) =~= deps);
    assert forall|i: int| 0 <= i < nodes.len() implies in_degree(deps, nodes[i].id) <= u32::MAX by {
        assert(counts@[i] == in_degree(deps, nodes[i].id));
    }
    Ok(())
}

/// Queues, in index order, every node that has no incoming edge.
fn seed_queue(counts: &[u32], queue: &mut [usize], node_count: usize) -> (length: usize)
    requires
        node_count <= counts@.len(),
        node_count <= old(queue)@.len(),
    ensures
        final(queue)@.len() == old(queue)@.len(),
        length <= node_count,
        queue_entries_valid(final(queue)@, length as int, node_count as int),
        forall|i: int|
            0 <= i < node_count ==> (in_queue(final(queue)@, length as int, i) <==> #[trigger] counts@[i]
                == 0),
        forall|t: int| 0 <= t < length ==> counts@[#[trigger] final(queue)@[t] as int] == 0,
{
    let ghost capacity = queue@.len();
    assert(capacity == old(queue)@.len());
    let mut length: usize = 0;
    let mut index: usize = 0;
    while index < node_count
        invariant
            node_count <= counts@.len(),
            node_count <= capacity,
            capacity == old(queue)@.len(),
            queue@.len() == capacity,
            length <= index <= node_count,
            forall|t: int| 0 <= t < length ==> #[trigger] queue@[t] < index,
            forall|s: int, t: int| 0 <= s < t < length ==> queue@[s] < queue@[t],
            forall|t: int| 0 <= t < length ==> counts@[#[trigger] queue@[t] as int] == 0,
            forall|i: int| 0 <= i < index && #[trigger] counts@[i] == 0 ==> in_queue(queue@, length as int, i),
        decreases node_count - index,
    {
        if counts[index] == 0 {
            let ghost before = queue@;
            let written = write_queue(queue, length, index);
            assert(written is Ok);
            proof {
                assert forall|i: int| 0 <= i < index + 1 && #[trigger] counts@[i] == 0 implies in_queue(
                    queue@,
                    length + 1,
                    i,
                ) by {
                    if i < index {
                        let t = choose|t: int| 0 <= t < length && before[t] == i;
                        assert(queue@[t] == i);
                    } else {
                        assert(queue@[length as int] == i);
                    }
                }
            }
            length += 1;
        }
        index += 1;
    }
    proof {
        assert forall|i: int| 0 <= i < node_count implies (in_queue(queue@, length as int, i) <==> #[trigger] counts@[i] == 0) by {
            if in_queue(queue@, length as int, i) {
                let t = choose|t: int| 0 <= t < length && queue@[t] == i;
            }
        }
    }
    length
}

} // verus!

verus! {

/// Kahn traversal: releases queued nodes in order and queues each dependent
/// once its last pending prerequisite is released.
fn drain_queue(
    graph: &TaskGraph<'_>,
    counts: &mut [u32],
    queue: &mut [usize],
    seeded: usize,
) -> (result: Result<(), TaskGraphError>)
    requires
        ids_unique(graph.nodes@),
        dependencies_well_formed(graph.nodes@, graph.dependencies@),
        graph.nodes@.len() <= old(counts)@.len(),
        graph.nodes@.len() <= old(queue)@.len(),
        queue_entries_valid(old(queue)@, seeded as int, graph.nodes@.len() as int),
        seeded <= graph.nodes@.len(),
        forall|i: int|
            0 <= i < graph.nodes@.len() ==> #[trigger] old(counts)@[i] == in_degree(
                graph.dependencies@,
                graph.nodes@[i].id,
            ),
        forall|i: int|
            0 <= i < graph.nodes@.len() ==> (in_queue(old(queue)@, seeded as int, i) <==> #[trigger] old(
                counts,
            )@[i] == 0),
    ensures
        final(counts)@.len() == old(counts)@.len(),
        final(queue)@.len() == old(queue)@.len(),
        result == (if is_acyclic(graph.nodes@, graph.dependencies@) {
            Ok::<(), TaskGraphError>(())
        } else {
            Err(TaskGraphError::CycleDetected)
        }),
{
    let ghost nodes = graph.nodes@;
    let ghost deps = graph.dependencies@;
    let ghost n = nodes.len() as int;
    let ghost count_capacity = counts@.len();
    let ghost queue_capacity = queue@.len();
    let node_count = graph.nodes.len();
    proof {
        assert(released_by(nodes, queue@.take(0)) =~= Set::<TaskId>::empty());
        assert forall|t: int, k: int|
            0 <= t < seeded && 0 <= k < deps.len() && #[trigger] nodes[queue@[t] as int].id
                == #[trigger] deps[k].dependent implies exists|s: int|
            0 <= s < t && nodes[queue@[s] as int].id == deps[k].prerequisite by {
            let i = queue@[t] as int;
            assert(in_queue(queue@, seeded as int, i));
            assert(old(counts)@[i] == 0);
            assert(in_degree(deps, nodes[i].id) == 0);
            lemma_pending_edges_zero(deps, nodes[i].id, Set::empty(), k);
        }
    }
    let mut queue_length = seeded;
    let mut head: usize = 0;
    let mut visited: usize = 0;
    while head < queue_length
        invariant
            nodes == graph.nodes@,
            deps == graph.dependencies@,
            n == nodes.len(),
            node_count == n,
            ids_unique(nodes),
            dependencies_well_formed(nodes, deps),
            count_capacity == old(counts)@.len(),
            queue_capacity == old(queue)@.len(),
            counts@.len() == count_capacity,
            queue@.len() == queue_capacity,
            n <= count_capacity,
            n <= queue_capacity,
            head <= queue_length,
            queue_length <= n,
            visited == head,
            queue_entries_valid(queue@, queue_length as int, n),
            forall|i: int|
                0 <= i < n ==> #[trigger] counts@[i] == pending_edges(
                    deps,
                    nodes[i].id,
                    released_by(nodes, queue@.take(head as int)),
                ),
            forall|i: int| 0 <= i < n ==> (in_queue(queue@, queue_length as int, i) <==> #[trigger] counts@[i] == 0),
            queue_respects_dependencies(nodes, deps, queue@, queue_length as int),
        decreases n - head,
    {
        let node_index = queue[head];
        let ghost before = released_by(nodes, queue@.take(head as int));
        head += 1;
        visited += 1;
        let node = graph.nodes[node_index];
        let ghost prefix = queue@.take(head as int);
        let ghost after = released_by(nodes, prefix);
        proof {
            assert(after =~= before.insert(node.id)) by {
                assert forall|id: TaskId| after.contains(id) implies before.insert(node.id).contains(id) by {
                    let s = choose|s: int| 0 <= s < prefix.len() && #[trigger] nodes[prefix[s] as int].id == id;
                    if s < head - 1 {
                        assert(queue@.take(head - 1)[s] == prefix[s]);
                    }
                }
                assert forall|id: TaskId| before.insert(node.id).contains(id) implies after.contains(id) by {
                    if id == node.id {
                        assert(prefix[head - 1] == node_index);
                    } else {
                        let s = choose|s: int| 0 <= s < head - 1 && #[trigger] nodes[queue@.take(head - 1)[s] as int].id == id;
                        assert(prefix[s] == queue@.take(head - 1)[s]);
                    }
                }
            }
            assert(!before.contains(node.id)) by {
                if before.contains(node.id) {
                    let s = choose|s: int| 0 <= s < head - 1 && #[trigger] nodes[queue@.take(head - 1)[s] as int].id == node.id;
                    assert(queue@[s] != queue@[head - 1]);
                    assert(queue@.take(head - 1)[s] == queue@[s]);
                }
            }
            assert forall|i: int| 0 <= i < n implies #[trigger] counts@[i] == pending_edges(
                deps.take(0),
                nodes[i].id,
                after,
            ) + pending_edges(deps.skip(0), nodes[i].id, before) by {
                assert(deps.skip(0) =~= deps);
                assert(deps.take(0) =~= Seq::<TaskDependency>::empty());
            }
        }
        let mut k: usize = 0;
        while k < graph.dependencies.len()
            invariant
                nodes == graph.nodes@,
                deps == graph.dependencies@,
                n == nodes.len(),
                ids_unique(nodes),
                dependencies_well_formed(nodes, deps),
                counts@.len() == count_capacity,
                queue@.len() == queue_capacity,
                n <= count_capacity,
                n <= queue_capacity,
                1 <= head <= queue_length,
                queue_length <= n,
                k <= deps.len(),
                node == nodes[node_index as int],
                node_index < n,
                prefix == queue@.take(head as int),
                after == released_by(nodes, prefix),
                after == before.insert(node.id),
                !before.contains(node.id),
                queue_entries_valid(queue@, queue_length as int, n),
                forall|i: int|
                    0 <= i < n ==> #[trigger] counts@[i] == pending_edges(
                        deps.take(k as int),
                        nodes[i].id,
                        after,
                    ) + pending_edges(deps.skip(k as int), nodes[i].id, before),
                forall|i: int| 0 <= i < n ==> (in_queue(queue@, queue_length as int, i) <==> #[trigger] counts@[i] == 0),
                queue_respects_dependencies(nodes, deps, queue@, queue_length as int),
            decreases deps.len() - k,
        {
            let dependency = graph.dependencies[k];
            let ghost counts_before = counts@;
            let ghost queue_before = queue@;
            let ghost length_before = queue_length as int;
            proof {
                assert forall|i: int| 0 <= i < n implies #[trigger] counts@[i] == pending_edges(
                    deps.take(k + 1),
                    nodes[i].id,
                    after,
                ) + pending_edges(deps.skip(k + 1), nodes[i].id, before) + (edge_pending(
                    dependency,
                    nodes[i].id,
                    before,
                ) - edge_pending(dependency, nodes[i].id, after)) by {
                    lemma_pending_edges_take_succ(deps, k as int, nodes[i].id, after);
                    lemma_pending_edges_skip(deps, k as int, nodes[i].id, before);
                }
            }
            if dependency.prerequisite == node.id {
                assert(dependency_defect(nodes, deps, k as int) is None);
                let dependent_index = match graph.node_index(dependency.dependent) {
                    Some(index) => index,
                    None => {
                        return Err(TaskGraphError::UnknownTask(dependency.dependent));
                    },
                };
                let count = counts[dependent_index];
                assert(edge_pending(dependency, nodes[dependent_index as int].id, before) == 1);
                if count == 0 {
                    return Err(TaskGraphError::DuplicateDependency(dependency));
                }
                counts[dependent_index] = count - 1;
                if count - 1 == 0 {
                    proof {
                        let listed = queue_order(queue@, queue_length as int);
                        assert forall|t: int| 0 <= t < listed.len() implies 0 <= #[trigger] listed[t] < n by {
                            assert(queue@[t] < n);
                        }
                        assert forall|s: int, t: int| 0 <= s < t < listed.len() implies listed[s] != listed[t] by {
                            assert(queue@[s] != queue@[t]);
                        }
                        assert(!in_queue(queue@, queue_length as int, dependent_index as int));
                        let extended = listed.push(dependent_index as int);
                        assert forall|t: int| 0 <= t < extended.len() implies 0 <= #[trigger] extended[t] < n by {
                            if t < listed.len() {
                                assert(extended[t] == listed[t]);
                            }
                        }
                        assert forall|s: int, t: int| 0 <= s < t < extended.len() implies extended[s] != extended[t] by {
                            assert(extended[s] == listed[s]);
                            if t < listed.len() {
                                assert(extended[t] == listed[t]);
                            } else {
                                assert(listed[s] == queue@[s] as int);
                            }
                        }
                        lemma_distinct_bounded(extended, n);
                    }
                    let written = write_queue(queue, queue_length, dependent_index);
                    match written {
                        Ok(()) => {},
                        Err(error) => {
                            return Err(error);
                        },
                    }
                    proof {
                        let d = dependent_index as int;
                        let id = nodes[d].id;
                        assert(queue@.take(head as int) =~= prefix);
                        // every prerequisite of the newly queued node is released
                        assert forall|t: int, m: int|
                            0 <= t < queue_length + 1 && 0 <= m < deps.len() && #[trigger] nodes[queue@[t] as int].id
                                == #[trigger] deps[m].dependent implies exists|s: int|
                            0 <= s < t && nodes[queue@[s] as int].id == deps[m].prerequisite by {
                            if t < queue_length {
                                assert(queue@[t] == queue_before[t]);
                                assert(nodes[queue_before[t] as int].id == deps[m].dependent);
                                let s = choose|s: int| 0 <= s < t && nodes[queue_before[s] as int].id == deps[m].prerequisite;
                                assert(queue@[s] == queue_before[s]);
                            } else {
                                assert(queue@[t] == dependent_index);
                                assert(pending_edges(deps.take(k + 1), id, after) == 0);
                                assert(pending_edges(deps.skip(k + 1), id, before) == 0);
                                if m <= k {
                                    assert(deps.take(k + 1)[m] == deps[m]);
                                    lemma_pending_edges_zero(deps.take(k + 1), id, after, m);
                                } else {
                                    assert(deps.skip(k + 1)[m - k - 1] == deps[m]);
                                    lemma_pending_edges_zero(deps.skip(k + 1), id, before, m - k - 1);
                                }
                                assert(after.contains(deps[m].prerequisite));
                                let s = choose|s: int| 0 <= s < prefix.len() && #[trigger] nodes[prefix[s] as int].id == deps[m].prerequisite;
                                assert(prefix[s] == queue@[s]);
                            }
                        }
                        assert forall|i: int| 0 <= i < n implies (in_queue(queue@, queue_length + 1, i) <==> #[trigger] counts@[i] == 0) by {
                            if i == d {
                                assert(queue@[queue_length as int] == dependent_index);
                            } else {
                                assert(counts@[i] == counts_before[i]);
                                if in_queue(queue_before, queue_length as int, i) {
                                    let t = choose|t: int| 0 <= t < queue_length && queue_before[t] == i;
                                    assert(queue@[t] == i);
                                }
                                if in_queue(queue@, queue_length + 1, i) {
                                    let t = choose|t: int| 0 <= t < queue_length + 1 && queue@[t] == i;
                                    assert(queue_before[t] == i);
                                }
                            }
                        }
                        assert forall|s: int, t: int| 0 <= s < t < queue_length + 1 implies queue@[s] != queue@[t] by {
                            if t == queue_length {
                                if queue@[s] == queue@[t] {
                                    assert(queue_before[s] == dependent_index);
                                    assert(in_queue(queue_before, queue_length as int, d));
                                }
                            } else {
                                assert(queue_before[s] != queue_before[t]);
                            }
                        }
                    }
                    queue_length += 1;
                } else {
                    proof {
                        assert forall|i: int| 0 <= i < n implies (in_queue(queue@, queue_length as int, i) <==> #[trigger] counts@[i] == 0) by {
                            if i != dependent_index {
                                assert(counts@[i] == counts_before[i]);
                            }
                        }
                    }
                }
                proof {
                    assert forall|i: int| 0 <= i < n implies #[trigger] counts@[i] == pending_edges(
                        deps.take(k + 1),
                        nodes[i].id,
                        after,
                    ) + pending_edges(deps.skip(k + 1), nodes[i].id, before) by {
                        if i != dependent_index {
                            assert(nodes[i].id != dependency.dependent);
                            assert(counts@[i] == counts_before[i]);
                        }
                    }
                }
            }
            k += 1;
        }
        proof {
            assert(deps.take(deps.len() as int) =~= deps);
            assert(deps.skip(deps.len() as int) =~= Seq::<TaskDependency>::empty());
            assert(queue@.take(head as int) =~= prefix);
        }
    }
    if visited == node_count {
        proof {
            lemma_complete_queue_is_topological(nodes, deps, queue@);
        }
        Ok(())
    } else {
        proof {
            lemma_incomplete_queue_is_cyclic(nodes, deps, queue@, queue_length as int, counts@);
        }
        Err(TaskGraphError::CycleDetected)
    }
}

} // verus!

verus! {

/// Validates node identity, dependency integrity, and acyclicity.
///
/// Fails with the first failing check, in this order: the scratch buffers
/// hold fewer entries than there are nodes; two nodes share an identity; a
/// dependency names an unknown task, names one task twice, or is repeated; a
/// node has more incoming edges than a `u32` counter holds; the dependencies
/// form a directed cycle.
pub fn validate_graph(graph: &TaskGraph<'_>, scratch: GraphValidationScratch<'_>) -> (result:
    Result<(), TaskGraphError>)
    ensures
        result == validation_result(
            graph.nodes@,
            graph.dependencies@,
            old(scratch.incoming_counts)@.len() as int,
            old(scratch.queue)@.len() as int,
        ),
{
    let incoming_capacity = scratch.incoming_counts.len();
    let queue_capacity = scratch.queue.len();
    match validate_scratch(graph.nodes.len(), incoming_capacity, queue_capacity) {
        Ok(()) => {},
        Err(error) => {
            return Err(error);
        },
    }
    match validate_nodes(graph.nodes) {
        Ok(()) => {},
        Err(error) => {
            return Err(error);
        },
    }
    match validate_dependencies(graph) {
        Ok(()) => {},
        Err(error) => {
            return Err(error);
        },
    }
    let GraphValidationScratch { incoming_counts, queue } = scratch;
    let node_count = graph.nodes.len();
    let mut index: usize = 0;
    while index < node_count
        invariant
            node_count == graph.nodes@.len(),
            node_count <= incoming_counts@.len(),
            incoming_counts@.len() == incoming_capacity,
            index <= node_count,
            forall|i: int| 0 <= i < index ==> incoming_counts@[i] == 0,
        decreases node_count - index,
    {
        incoming_counts[index] = 0;
        index += 1;
    }
    match count_incoming(graph, incoming_counts) {
        Ok(()) => {},
        Err(error) => {
            return Err(error);
        },
    }
    let seeded = seed_queue(incoming_counts, queue, node_count);
    drain_queue(graph, incoming_counts, queue, seeded)
}

} // verus!
