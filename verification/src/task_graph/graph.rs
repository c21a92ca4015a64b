//! Borrowed task graphs, identity lookup, and structural validation.

use vstd::prelude::*;

use crate::identifiers::TaskId;
use super::types::{TaskDependency, TaskNode};

verus! {

/// Borrowed immutable task graph.
#[derive(Clone, Copy, Debug)]
pub struct TaskGraph<'a> {
    /// Node definitions.
    pub nodes: &'a [TaskNode],
    /// Directed dependency edges.
    pub dependencies: &'a [TaskDependency],
}

/// `i` is the first node index carrying identity `id`.
pub open spec fn is_first_position(nodes: Seq<TaskNode>, id: TaskId, i: int) -> bool {
    &&& 0 <= i < nodes.len()
    &&& nodes[i].id == id
    &&& forall|j: int| 0 <= j < i ==> nodes[j].id != id
}

/// Some node carries identity `id`.
pub open spec fn has_node(nodes: Seq<TaskNode>, id: TaskId) -> bool {
    exists|i: int| 0 <= i < nodes.len() && nodes[i].id == id
}

/// Index of the first node carrying identity `id`, if any.
pub open spec fn node_position(nodes: Seq<TaskNode>, id: TaskId) -> Option<int> {
    if has_node(nodes, id) {
        Some(choose|i: int| is_first_position(nodes, id, i))
    } else {
        None
    }
}

/// Every node identity occurs once.
pub open spec fn ids_unique(nodes: Seq<TaskNode>) -> bool {
    forall|i: int, j: int| 0 <= i < j < nodes.len() ==> nodes[i].id != nodes[j].id
}

/// A node has the same identity as some later node.
pub open spec fn has_later_duplicate(nodes: Seq<TaskNode>, i: int) -> bool {
    exists|j: int| i < j < nodes.len() && nodes[j].id == nodes[i].id
}

/// `i` is the smallest index in `0..n` satisfying `p`.
pub open spec fn is_first_such(n: int, p: spec_fn(int) -> bool, i: int) -> bool {
    &&& 0 <= i < n
    &&& p(i)
    &&& forall|j: int| 0 <= j < i ==> !#[trigger] p(j)
}

/// The smallest index in `0..n` satisfying `p` (meaningful when one exists).
pub open spec fn first_such(n: int, p: spec_fn(int) -> bool) -> int {
    choose|i: int| is_first_such(n, p, i)
}

/// Whenever some index satisfies `p`, a smallest one exists and is unique.
pub proof fn lemma_first_such(n: int, p: spec_fn(int) -> bool, k: int)
    requires
        0 <= k < n,
        p(k),
    ensures
        is_first_such(n, p, first_such(n, p)),
        first_such(n, p) <= k,
        forall|i: int| is_first_such(n, p, i) ==> i == first_such(n, p),
    decreases k,
{
    if exists|j: int| 0 <= j < k && #[trigger] p(j) {
        let j = choose|j: int| 0 <= j < k && #[trigger] p(j);
        lemma_first_such(n, p, j);
    } else {
        assert(is_first_such(n, p, k));
    }
    let f = first_such(n, p);
    assert forall|i: int| is_first_such(n, p, i) implies i == f by {
        if i < f {
            assert(!p(i));
        } else if f < i {
            assert(!p(f));
        }
    }
}

/// The first position of an identity that occurs in the graph is well defined.
pub proof fn lemma_node_position(nodes: Seq<TaskNode>, id: TaskId, k: int)
    requires
        0 <= k < nodes.len(),
        nodes[k].id == id,
    ensures
        node_position(nodes, id) is Some,
        is_first_position(nodes, id, node_position(nodes, id)->0),
        node_position(nodes, id)->0 <= k,
        ids_unique(nodes) ==> node_position(nodes, id) == Some(k),
{
    let p = |i: int| nodes[i].id == id;
    lemma_first_such(nodes.len() as int, p, k);
    let f = first_such(nodes.len() as int, p);
    assert forall|j: int| 0 <= j < f implies nodes[j].id != id by {
        assert(!p(j));
    }
    assert(is_first_position(nodes, id, f));
    let c = choose|i: int| is_first_position(nodes, id, i);
    assert(is_first_position(nodes, id, c));
    assert(is_first_such(nodes.len() as int, p, c));
}

/// A first position found by a left-to-right scan is the one the graph names.
pub proof fn lemma_first_position_is_node_position(nodes: Seq<TaskNode>, id: TaskId, i: int)
    requires
        is_first_position(nodes, id, i),
    ensures
        node_position(nodes, id) == Some(i),
{
    lemma_node_position(nodes, id, i);
}

impl<'a> TaskGraph<'a> {
    /// Creates a borrowed graph view.
    pub fn new(nodes: &'a [TaskNode], dependencies: &'a [TaskDependency]) -> (graph: Self)
        ensures
            graph.nodes@ == nodes@,
            graph.dependencies@ == dependencies@,
    {
        Self { nodes, dependencies }
    }

    /// Returns the node index with the requested identity.
    pub fn node_index(&self, task_id: TaskId) -> (index: Option<usize>)
        ensures
            index matches Some(i) ==> node_position(self.nodes@, task_id) == Some(i as int)
                && is_first_position(self.nodes@, task_id, i as int),
            index is None ==> node_position(self.nodes@, task_id) is None,
    {
        let mut i: usize = 0;
        while i < self.nodes.len()
            invariant
                i <= self.nodes@.len(),
                forall|j: int| 0 <= j < i ==> self.nodes@[j].id != task_id,
            decreases self.nodes@.len() - i,
        {
            if self.nodes[i].id == task_id {
                proof {
                    lemma_first_position_is_node_position(self.nodes@, task_id, i as int);
                }
                return Some(i);
            }
            i += 1;
        }
        None
    }

    /// Returns the node with the requested identity.
    pub fn node(&self, task_id: TaskId) -> (node: Option<&TaskNode>)
        ensures
            node matches Some(n) ==> node_position(self.nodes@, task_id) matches Some(i)
                && *n == self.nodes@[i],
            node is None ==> node_position(self.nodes@, task_id) is None,
    {
        match self.node_index(task_id) {
            Some(i) => {
                proof {
                    lemma_node_position(self.nodes@, task_id, i as int);
                }
                Some(&self.nodes[i])
            },
            None => None,
        }
    }
}

} // verus!
