//! Caller-owned runtime state of a workflow and its task transitions.

use vstd::prelude::*;

use crate::identifiers::{CapacityExhausted, CapacityResource, TaskId};
use super::graph::{TaskGraph, first_such, has_node, is_first_position, is_first_such, lemma_first_such, lemma_node_position, node_position};
use super::types::{TaskDependency, TaskGraphError, TaskNode, TaskRuntimeState, TaskStatus};

verus! {

/// The state-length failure for a graph with `n` nodes and `available` states.
pub open spec fn state_length_error(n: int, available: int) -> TaskGraphError {
    TaskGraphError::StateLengthMismatch { required: n as usize, available: available as usize }
}

/// A prerequisite in this state prevents its dependents from ever running.
pub open spec fn is_unsuccessful(status: TaskStatus) -> bool {
    status == TaskStatus::Exhausted || status == TaskStatus::Cancelled || status
        == TaskStatus::Blocked
}

/// What dependency `k` decides when checking that every prerequisite of
/// `task` succeeded: nothing, a missing prerequisite, missing state, or
/// an unfinished prerequisite.
pub open spec fn success_verdict(
    nodes: Seq<TaskNode>,
    deps: Seq<TaskDependency>,
    states: Seq<TaskRuntimeState>,
    task: TaskId,
    k: int,
) -> Option<Result<bool, TaskGraphError>> {
    if deps[k].dependent != task {
        None
    } else {
        match node_position(nodes, deps[k].prerequisite) {
            None => Some(Err(TaskGraphError::UnknownTask(deps[k].prerequisite))),
            Some(j) => if j >= states.len() {
                Some(Err(state_length_error(nodes.len() as int, states.len() as int)))
            } else if states[j].status != TaskStatus::Succeeded {
                Some(Ok(false))
            } else {
                None
            },
        }
    }
}

/// What dependency `k` decides when looking for an unsuccessful prerequisite
/// of `task`.
pub open spec fn blocking_verdict(
    nodes: Seq<TaskNode>,
    deps: Seq<TaskDependency>,
    states: Seq<TaskRuntimeState>,
    task: TaskId,
    k: int,
) -> Option<Result<bool, TaskGraphError>> {
    if deps[k].dependent != task {
        None
    } else {
        match node_position(nodes, deps[k].prerequisite) {
            None => Some(Err(TaskGraphError::UnknownTask(deps[k].prerequisite))),
            Some(j) => if j >= states.len() {
                Some(Err(state_length_error(nodes.len() as int, states.len() as int)))
            } else if is_unsuccessful(states[j].status) {
                Some(Ok(true))
            } else {
                None
            },
        }
    }
}

/// Indices whose verdict decides a prerequisite check.
pub open spec fn decisive(verdicts: spec_fn(int) -> Option<Result<bool, TaskGraphError>>) -> spec_fn(
    int,
) -> bool {
    |k: int| verdicts(k) is Some
}

/// The verdict of the first deciding dependency, or `default` when none decides.
pub open spec fn first_verdict(
    count: int,
    verdicts: spec_fn(int) -> Option<Result<bool, TaskGraphError>>,
    default: Result<bool, TaskGraphError>,
) -> Result<bool, TaskGraphError> {
    if exists|k: int| 0 <= k < count && #[trigger] verdicts(k) is Some {
        verdicts(first_such(count, decisive(verdicts)))->0
    } else {
        default
    }
}

/// Verdicts of every dependency on whether `task`'s prerequisites succeeded.
pub open spec fn success_verdicts(
    nodes: Seq<TaskNode>,
    deps: Seq<TaskDependency>,
    states: Seq<TaskRuntimeState>,
    task: TaskId,
) -> spec_fn(int) -> Option<Result<bool, TaskGraphError>> {
    |k: int| success_verdict(nodes, deps, states, task, k)
}

/// Verdicts of every dependency on whether `task` has an unsuccessful prerequisite.
pub open spec fn blocking_verdicts(
    nodes: Seq<TaskNode>,
    deps: Seq<TaskDependency>,
    states: Seq<TaskRuntimeState>,
    task: TaskId,
) -> spec_fn(int) -> Option<Result<bool, TaskGraphError>> {
    |k: int| blocking_verdict(nodes, deps, states, task, k)
}

/// Whether every prerequisite of `task` succeeded, or the failure met first.
pub open spec fn prerequisites_result(
    nodes: Seq<TaskNode>,
    deps: Seq<TaskDependency>,
    states: Seq<TaskRuntimeState>,
    task: TaskId,
) -> Result<bool, TaskGraphError> {
    first_verdict(deps.len() as int, success_verdicts(nodes, deps, states, task), Ok(true))
}

/// Whether some prerequisite of `task` is unsuccessful, or the failure met first.
pub open spec fn blocking_result(
    nodes: Seq<TaskNode>,
    deps: Seq<TaskDependency>,
    states: Seq<TaskRuntimeState>,
    task: TaskId,
) -> Result<bool, TaskGraphError> {
    first_verdict(deps.len() as int, blocking_verdicts(nodes, deps, states, task), Ok(false))
}

/// A scan that reaches index `k` without a decision answers with the first
/// later decision; a decision at `k` is the answer.
proof fn lemma_first_verdict_at(
    count: int,
    verdicts: spec_fn(int) -> Option<Result<bool, TaskGraphError>>,
    default: Result<bool, TaskGraphError>,
    k: int,
)
    requires
        0 <= k < count,
        verdicts(k) is Some,
        forall|j: int| 0 <= j < k ==> #[trigger] verdicts(j) is None,
    ensures
        first_verdict(count, verdicts, default) == verdicts(k)->0,
{
    let p = decisive(verdicts);
    assert(p(k));
    lemma_first_such(count, p, k);
    assert forall|j: int| 0 <= j < k implies !#[trigger] p(j) by {
        assert(verdicts(j) is None);
    }
    assert(is_first_such(count, p, k));
}

/// Scans dependencies in order for the first deciding verdict about `task`.
fn scan_prerequisites(
    graph: &TaskGraph<'_>,
    states: &[TaskRuntimeState],
    task_id: TaskId,
    require_success: bool,
) -> (result: Result<bool, TaskGraphError>)
    ensures
        require_success ==> result == prerequisites_result(graph.nodes@, graph.dependencies@, states@, task_id),
        !require_success ==> result == blocking_result(graph.nodes@, graph.dependencies@, states@, task_id),
{
    let ghost nodes = graph.nodes@;
    let ghost deps = graph.dependencies@;
    let ghost verdicts = if require_success {
        success_verdicts(nodes, deps, states@, task_id)
    } else {
        blocking_verdicts(nodes, deps, states@, task_id)
    };
    let ghost default: Result<bool, TaskGraphError> = if require_success { Ok(true) } else { Ok(false) };
    let mut k: usize = 0;
    while k < graph.dependencies.len()
        invariant
            nodes == graph.nodes@,
            deps == graph.dependencies@,
            k <= deps.len(),
            verdicts == (if require_success {
                success_verdicts(nodes, deps, states@, task_id)
            } else {
                blocking_verdicts(nodes, deps, states@, task_id)
            }),
            forall|j: int| 0 <= j < k ==> #[trigger] verdicts(j) is None,
        decreases deps.len() - k,
    {
        let dependency = graph.dependencies[k];
        if dependency.dependent == task_id {
            let index = match graph.node_index(dependency.prerequisite) {
                Some(index) => index,
                None => {
                    proof {
                        lemma_first_verdict_at(deps.len() as int, verdicts, default, k as int);
                    }
                    return Err(TaskGraphError::UnknownTask(dependency.prerequisite));
                },
            };
            if index >= states.len() {
                proof {
                    lemma_first_verdict_at(deps.len() as int, verdicts, default, k as int);
                }
                return Err(
                    TaskGraphError::StateLengthMismatch {
                        required: graph.nodes.len(),
                        available: states.len(),
                    },
                );
            }
            let status = states[index].status;
            if require_success {
                if status != TaskStatus::Succeeded {
                    proof {
                        lemma_first_verdict_at(deps.len() as int, verdicts, default, k as int);
                    }
                    return Ok(false);
                }
            } else {
                if status == TaskStatus::Exhausted || status == TaskStatus::Cancelled || status
                    == TaskStatus::Blocked {
                    proof {
                        lemma_first_verdict_at(deps.len() as int, verdicts, default, k as int);
                    }
                    return Ok(true);
                }
            }
        }
        assert(verdicts(k as int) is None);
        k += 1;
    }
    if require_success {
        Ok(true)
    } else {
        Ok(false)
    }
}

/// Returns whether every prerequisite of `task_id` has succeeded.
fn prerequisites_succeeded(
    graph: &TaskGraph<'_>,
    states: &[TaskRuntimeState],
    task_id: TaskId,
) -> (result: Result<bool, TaskGraphError>)
    ensures
        result == prerequisites_result(graph.nodes@, graph.dependencies@, states@, task_id),
{
    scan_prerequisites(graph, states, task_id, true)
}

/// Returns whether some prerequisite of `task_id` terminated unsuccessfully.
fn has_unsuccessful_prerequisite(
    graph: &TaskGraph<'_>,
    states: &[TaskRuntimeState],
    task_id: TaskId,
) -> (result: Result<bool, TaskGraphError>)
    ensures
        result == blocking_result(graph.nodes@, graph.dependencies@, states@, task_id),
{
    scan_prerequisites(graph, states, task_id, false)
}

} // verus!

verus! {

/// Index of `task`'s state when the task is a node and has a state entry.
pub open spec fn task_slot(nodes: Seq<TaskNode>, states: Seq<TaskRuntimeState>, task: TaskId) -> Option<
    int,
> {
    match node_position(nodes, task) {
        Some(i) => if i < states.len() {
            Some(i)
        } else {
            None
        },
        None => None,
    }
}

/// Outcome of starting `task`.
pub open spec fn start_result(
    nodes: Seq<TaskNode>,
    deps: Seq<TaskDependency>,
    states: Seq<TaskRuntimeState>,
    task: TaskId,
) -> Result<(), TaskGraphError> {
    match task_slot(nodes, states, task) {
        None => Err(TaskGraphError::UnknownTask(task)),
        Some(i) => {
            let current = states[i];
            if current.status != TaskStatus::Pending && current.status != TaskStatus::Failed {
                Err(TaskGraphError::InvalidTransition { task, state: current.status })
            } else {
                match prerequisites_result(nodes, deps, states, task) {
                    Err(error) => Err(error),
                    Ok(false) => Err(TaskGraphError::InvalidTransition { task, state: current.status }),
                    Ok(true) => if current.attempts >= nodes[i].budget.maximum_attempts {
                        Err(TaskGraphError::AttemptLimitReached(task))
                    } else {
                        Ok(())
                    },
                }
            }
        },
    }
}

/// Outcome of moving `task` out of `Running`.
pub open spec fn running_transition_result(
    nodes: Seq<TaskNode>,
    states: Seq<TaskRuntimeState>,
    task: TaskId,
) -> Result<(), TaskGraphError> {
    match task_slot(nodes, states, task) {
        None => Err(TaskGraphError::UnknownTask(task)),
        Some(i) => if states[i].status != TaskStatus::Running {
            Err(TaskGraphError::InvalidTransition { task, state: states[i].status })
        } else {
            Ok(())
        },
    }
}

/// Outcome of cancelling `task`.
pub open spec fn cancel_result(nodes: Seq<TaskNode>, states: Seq<TaskRuntimeState>, task: TaskId) -> Result<
    (),
    TaskGraphError,
> {
    match task_slot(nodes, states, task) {
        None => Err(TaskGraphError::UnknownTask(task)),
        Some(i) => {
            let status = states[i].status;
            if status == TaskStatus::Pending || status == TaskStatus::Failed || status
                == TaskStatus::Running {
                Ok(())
            } else {
                Err(TaskGraphError::InvalidTransition { task, state: status })
            }
        },
    }
}

/// Status a failed attempt leaves behind: retryable while attempts remain.
pub open spec fn failure_status(attempts: u16, maximum_attempts: u16) -> TaskStatus {
    if attempts >= maximum_attempts {
        TaskStatus::Exhausted
    } else {
        TaskStatus::Failed
    }
}

/// Caller-owned runtime state table.
pub struct TaskStateTable<'a> {
    states: &'a mut [TaskRuntimeState],
}

impl<'a> View for TaskStateTable<'a> {
    type V = Seq<TaskRuntimeState>;

    closed spec fn view(&self) -> Seq<TaskRuntimeState> {
        self.states@
    }
}

impl<'a> TaskStateTable<'a> {
    /// Creates a state table after checking exact graph alignment.
    pub fn new(graph: &TaskGraph<'_>, states: &'a mut [TaskRuntimeState]) -> (result: Result<
        Self,
        TaskGraphError,
    >)
        ensures
            result is Ok <==> old(states)@.len() == graph.nodes@.len(),
            result matches Ok(table) ==> table@ == old(states)@,
            result matches Err(error) ==> error == state_length_error(
                graph.nodes@.len() as int,
                old(states)@.len() as int,
            ),
            result is Err ==> final(states)@ == old(states)@,
    {
        if states.len() != graph.nodes.len() {
            return Err(
                TaskGraphError::StateLengthMismatch {
                    required: graph.nodes.len(),
                    available: states.len(),
                },
            );
        }
        Ok(Self { states })
    }

    /// Returns immutable state for one task.
    pub fn state(&self, graph: &TaskGraph<'_>, task_id: TaskId) -> (state: Option<TaskRuntimeState>)
        ensures
            state == (match task_slot(graph.nodes@, self@, task_id) {
                Some(i) => Some(self@[i]),
                None => None,
            }),
    {
        let index = match graph.node_index(task_id) {
            Some(index) => index,
            None => {
                return None;
            },
        };
        if index < self.states.len() {
            Some(self.states[index])
        } else {
            None
        }
    }

    /// Starts one ready task and increments its attempt count.
    pub fn start(&mut self, graph: &TaskGraph<'_>, task_id: TaskId) -> (result: Result<
        (),
        TaskGraphError,
    >)
        ensures
            result == start_result(graph.nodes@, graph.dependencies@, old(self)@, task_id),
            result is Ok ==> (task_slot(graph.nodes@, old(self)@, task_id) matches Some(i)
                && final(self)@ == old(self)@.update(
                i,
                TaskRuntimeState {
                    status: TaskStatus::Running,
                    attempts: (old(self)@[i].attempts + 1) as u16,
                },
            )),
            result is Err ==> final(self)@ == old(self)@,
    {
        let index = match graph.node_index(task_id) {
            Some(index) => index,
            None => {
                return Err(TaskGraphError::UnknownTask(task_id));
            },
        };
        let node = graph.nodes[index];
        if index >= self.states.len() {
            return Err(TaskGraphError::UnknownTask(task_id));
        }
        let current = self.states[index];
        if current.status != TaskStatus::Pending && current.status != TaskStatus::Failed {
            return Err(TaskGraphError::InvalidTransition { task: task_id, state: current.status });
        }
        match prerequisites_succeeded(graph, self.states, task_id) {
            Err(error) => {
                return Err(error);
            },
            Ok(false) => {
                return Err(
                    TaskGraphError::InvalidTransition { task: task_id, state: current.status },
                );
            },
            Ok(true) => {},
        }
        if current.attempts >= node.budget.maximum_attempts {
            return Err(TaskGraphError::AttemptLimitReached(task_id));
        }
        self.states[index] = TaskRuntimeState {
            status: TaskStatus::Running,
            attempts: current.attempts.saturating_add(1),
        };
        Ok(())
    }

    /// Marks a running task successful.
    pub fn succeed(&mut self, graph: &TaskGraph<'_>, task_id: TaskId) -> (result: Result<
        (),
        TaskGraphError,
    >)
        ensures
            result == running_transition_result(graph.nodes@, old(self)@, task_id),
            result is Ok ==> (task_slot(graph.nodes@, old(self)@, task_id) matches Some(i)
                && final(self)@ == old(self)@.update(
                i,
                TaskRuntimeState { status: TaskStatus::Succeeded, attempts: old(self)@[i].attempts },
            )),
            result is Err ==> final(self)@ == old(self)@,
    {
        self.transition_from_running(graph, task_id, TaskStatus::Succeeded)
    }

    /// Marks a running task failed and records terminal exhaustion when no retry remains.
    pub fn fail(&mut self, graph: &TaskGraph<'_>, task_id: TaskId) -> (result: Result<
        (),
        TaskGraphError,
    >)
        ensures
            result == running_transition_result(graph.nodes@, old(self)@, task_id),
            result is Ok ==> (task_slot(graph.nodes@, old(self)@, task_id) matches Some(i)
                && final(self)@ == old(self)@.update(
                i,
                TaskRuntimeState {
                    status: failure_status(
                        old(self)@[i].attempts,
                        graph.nodes@[i].budget.maximum_attempts,
                    ),
                    attempts: old(self)@[i].attempts,
                },
            )),
            result is Err ==> final(self)@ == old(self)@,
    {
        let index = match graph.node_index(task_id) {
            Some(index) => index,
            None => {
                return Err(TaskGraphError::UnknownTask(task_id));
            },
        };
        let node = graph.nodes[index];
        if index >= self.states.len() {
            return Err(TaskGraphError::UnknownTask(task_id));
        }
        let current = self.states[index];
        if current.status != TaskStatus::Running {
            return Err(TaskGraphError::InvalidTransition { task: task_id, state: current.status });
        }
        let status = if current.attempts >= node.budget.maximum_attempts {
            TaskStatus::Exhausted
        } else {
            TaskStatus::Failed
        };
        self.states[index] = TaskRuntimeState { status, attempts: current.attempts };
        Ok(())
    }

    /// Cancels a pending, failed, or running task.
    pub fn cancel(&mut self, graph: &TaskGraph<'_>, task_id: TaskId) -> (result: Result<
        (),
        TaskGraphError,
    >)
        ensures
            result == cancel_result(graph.nodes@, old(self)@, task_id),
            result is Ok ==> (task_slot(graph.nodes@, old(self)@, task_id) matches Some(i)
                && final(self)@ == old(self)@.update(
                i,
                TaskRuntimeState { status: TaskStatus::Cancelled, attempts: old(self)@[i].attempts },
            )),
            result is Err ==> final(self)@ == old(self)@,
    {
        let index = match graph.node_index(task_id) {
            Some(index) => index,
            None => {
                return Err(TaskGraphError::UnknownTask(task_id));
            },
        };
        if index >= self.states.len() {
            return Err(TaskGraphError::UnknownTask(task_id));
        }
        let current = self.states[index];
        match current.status {
            TaskStatus::Pending | TaskStatus::Failed | TaskStatus::Running => {
                self.states[index] = TaskRuntimeState {
                    status: TaskStatus::Cancelled,
                    attempts: current.attempts,
                };
                Ok(())
            },
            status => Err(TaskGraphError::InvalidTransition { task: task_id, state: status }),
        }
    }

    fn transition_from_running(
        &mut self,
        graph: &TaskGraph<'_>,
        task_id: TaskId,
        next: TaskStatus,
    ) -> (result: Result<(), TaskGraphError>)
        ensures
            result == running_transition_result(graph.nodes@, old(self)@, task_id),
            result is Ok ==> (task_slot(graph.nodes@, old(self)@, task_id) matches Some(i)
                && final(self)@ == old(self)@.update(
                i,
                TaskRuntimeState { status: next, attempts: old(self)@[i].attempts },
            )),
            result is Err ==> final(self)@ == old(self)@,
    {
        let index = match graph.node_index(task_id) {
            Some(index) => index,
            None => {
                return Err(TaskGraphError::UnknownTask(task_id));
            },
        };
        if index >= self.states.len() {
            return Err(TaskGraphError::UnknownTask(task_id));
        }
        let current = self.states[index];
        if current.status != TaskStatus::Running {
            return Err(TaskGraphError::InvalidTransition { task: task_id, state: current.status });
        }
        self.states[index] = TaskRuntimeState { status: next, attempts: current.attempts };
        Ok(())
    }
}

} // verus!

verus! {

/// Node `i` is ready: it has a state entry that is pending or retryable, all
/// of its prerequisites succeeded, and it has attempts left.
pub open spec fn is_ready(
    nodes: Seq<TaskNode>,
    deps: Seq<TaskDependency>,
    states: Seq<TaskRuntimeState>,
    i: int,
) -> bool {
    &&& 0 <= i < states.len()
    &&& (states[i].status == TaskStatus::Pending || states[i].status == TaskStatus::Failed)
    &&& prerequisites_result(nodes, deps, states, nodes[i].id) == Ok::<bool, TaskGraphError>(true)
    &&& states[i].attempts < nodes[i].budget.maximum_attempts
}

/// Failure met while inspecting node `i` for readiness, if any.
pub open spec fn readiness_failure(
    nodes: Seq<TaskNode>,
    deps: Seq<TaskDependency>,
    states: Seq<TaskRuntimeState>,
    i: int,
) -> Option<TaskGraphError> {
    if i >= states.len() {
        Some(state_length_error(nodes.len() as int, states.len() as int))
    } else if states[i].status == TaskStatus::Pending || states[i].status == TaskStatus::Failed {
        match prerequisites_result(nodes, deps, states, nodes[i].id) {
            Err(error) => Some(error),
            Ok(_) => None,
        }
    } else {
        None
    }
}

/// Predicate selecting node indices whose inspection fails.
pub open spec fn readiness_failure_predicate(
    nodes: Seq<TaskNode>,
    deps: Seq<TaskDependency>,
    states: Seq<TaskRuntimeState>,
) -> spec_fn(int) -> bool {
    |i: int| readiness_failure(nodes, deps, states, i) is Some
}

/// Identities of the ready nodes among the first `m`, in node order.
pub open spec fn ready_ids(
    nodes: Seq<TaskNode>,
    deps: Seq<TaskDependency>,
    states: Seq<TaskRuntimeState>,
    m: int,
) -> Seq<TaskId>
    decreases m,
{
    if m <= 0 {
        Seq::empty()
    } else {
        ready_ids(nodes, deps, states, m - 1) + if is_ready(nodes, deps, states, m - 1) {
            seq![nodes[m - 1].id]
        } else {
            Seq::empty()
        }
    }
}

/// Index at which the readiness scan stops: the first failing node, or the end.
pub open spec fn readiness_scan_end(
    nodes: Seq<TaskNode>,
    deps: Seq<TaskDependency>,
    states: Seq<TaskRuntimeState>,
) -> int {
    if exists|i: int| 0 <= i < nodes.len() && #[trigger] readiness_failure(nodes, deps, states, i) is Some {
        first_such(nodes.len() as int, readiness_failure_predicate(nodes, deps, states))
    } else {
        nodes.len() as int
    }
}

/// Outcome of writing the ready tasks into an output of `capacity` entries.
pub open spec fn ready_tasks_result(
    nodes: Seq<TaskNode>,
    deps: Seq<TaskDependency>,
    states: Seq<TaskRuntimeState>,
    capacity: int,
) -> Result<usize, TaskGraphError> {
    let end = readiness_scan_end(nodes, deps, states);
    let found = ready_ids(nodes, deps, states, end);
    if found.len() > capacity {
        Err(
            TaskGraphError::CapacityExhausted(
                CapacityExhausted {
                    resource: CapacityResource::TaskNodes,
                    required: (if capacity == usize::MAX {
                        capacity
                    } else {
                        capacity + 1
                    }) as u64,
                    available: capacity as u64,
                },
            ),
        )
    } else if end < nodes.len() {
        Err(readiness_failure(nodes, deps, states, end)->0)
    } else {
        Ok(found.len() as usize)
    }
}

/// Ready identities found before index `m` extend those found before `l`.
proof fn lemma_ready_ids_prefix(
    nodes: Seq<TaskNode>,
    deps: Seq<TaskDependency>,
    states: Seq<TaskRuntimeState>,
    l: int,
    m: int,
)
    requires
        0 <= l <= m,
    ensures
        ready_ids(nodes, deps, states, l).len() <= ready_ids(nodes, deps, states, m).len(),
        ready_ids(nodes, deps, states, m).take(ready_ids(nodes, deps, states, l).len() as int)
            == ready_ids(nodes, deps, states, l),
    decreases m - l,
{
    if l < m {
        lemma_ready_ids_prefix(nodes, deps, states, l, m - 1);
        let shorter = ready_ids(nodes, deps, states, m - 1);
        let longer = ready_ids(nodes, deps, states, m);
        let short = ready_ids(nodes, deps, states, l);
        assert(longer.take(short.len() as int) =~= shorter.take(short.len() as int));
    } else {
        let short = ready_ids(nodes, deps, states, l);
        assert(short.take(short.len() as int) =~= short);
    }
}

impl<'a> TaskStateTable<'a> {
    /// Writes all currently ready task identities into caller-owned output.
    ///
    /// Returns the number of ready tasks, written in node order to the front
    /// of `output`; entries past them keep their values.
    pub fn ready_tasks(&self, graph: &TaskGraph<'_>, output: &mut [TaskId]) -> (result: Result<
        usize,
        TaskGraphError,
    >)
        ensures
            result == ready_tasks_result(
                graph.nodes@,
                graph.dependencies@,
                self@,
                old(output)@.len() as int,
            ),
            ({
                let found = ready_ids(
                    graph.nodes@,
                    graph.dependencies@,
                    self@,
                    readiness_scan_end(graph.nodes@, graph.dependencies@, self@),
                );
                let written = if found.len() < old(output)@.len() {
                    found.len() as int
                } else {
                    old(output)@.len() as int
                };
                final(output)@ == found.take(written) + old(output)@.skip(written)
            }),
    {
        let ghost nodes = graph.nodes@;
        let ghost deps = graph.dependencies@;
        let ghost states = self@;
        let ghost initial = output@;
        let mut written: usize = 0;
        let mut index: usize = 0;
        proof {
            assert(initial.skip(0) =~= initial);
        }
        while index < graph.nodes.len()
            invariant
                nodes == graph.nodes@,
                deps == graph.dependencies@,
                states == self@,
                index <= nodes.len(),
                output@.len() == initial.len(),
                initial == old(output)@,
                written <= initial.len(),
                written == ready_ids(nodes, deps, states, index as int).len(),
                output@ == ready_ids(nodes, deps, states, index as int) + initial.skip(
                    written as int,
                ),
                forall|j: int| 0 <= j < index ==> #[trigger] readiness_failure(nodes, deps, states, j) is None,
            decreases nodes.len() - index,
        {
            let node = graph.nodes[index];
            if index >= self.states.len() {
                proof {
                    self.lemma_scan_stops_at(nodes, deps, index as int);
                }
                return Err(
                    TaskGraphError::StateLengthMismatch {
                        required: graph.nodes.len(),
                        available: self.states.len(),
                    },
                );
            }
            let state = self.states[index];
            let mut ready = false;
            if state.status == TaskStatus::Pending || state.status == TaskStatus::Failed {
                match prerequisites_succeeded(graph, self.states, node.id) {
                    Err(error) => {
                        proof {
                            self.lemma_scan_stops_at(nodes, deps, index as int);
                        }
                        return Err(error);
                    },
                    Ok(succeeded) => {
                        ready = succeeded && state.attempts < node.budget.maximum_attempts;
                    },
                }
            }
            assert(readiness_failure(nodes, deps, states, index as int) is None);
            assert(ready == is_ready(nodes, deps, states, index as int));
            if ready {
                let available = output.len();
                if written >= available {
                    proof {
                        let end = readiness_scan_end(nodes, deps, states);
                        if exists|i: int| 0 <= i < nodes.len() && #[trigger] readiness_failure(nodes, deps, states, i) is Some {
                            let i = choose|i: int| 0 <= i < nodes.len() && #[trigger] readiness_failure(nodes, deps, states, i) is Some;
                            lemma_first_such(nodes.len() as int, readiness_failure_predicate(nodes, deps, states), i);
                            if end <= index {
                                assert(readiness_failure_predicate(nodes, deps, states)(end));
                            }
                        }
                        assert(end > index);
                        lemma_ready_ids_prefix(nodes, deps, states, index + 1, end);
                        lemma_ready_ids_prefix(nodes, deps, states, index as int, end);
                        assert(initial.skip(written as int) =~= Seq::<TaskId>::empty());
                        assert(output@ =~= ready_ids(nodes, deps, states, index as int));
                    }
                    return Err(
                        TaskGraphError::CapacityExhausted(
                            CapacityExhausted::new(
                                CapacityResource::TaskNodes,
                                written.saturating_add(1) as u64,
                                available as u64,
                            ),
                        ),
                    );
                }
                output[written] = node.id;
                proof {
                    assert(output@ =~= ready_ids(nodes, deps, states, index + 1) + initial.skip(
                        written + 1,
                    ));
                }
                written += 1;
            } else {
                proof {
                    assert(ready_ids(nodes, deps, states, index + 1) =~= ready_ids(
                        nodes,
                        deps,
                        states,
                        index as int,
                    ));
                }
            }
            index += 1;
        }
        proof {
            assert(!exists|i: int| 0 <= i < nodes.len() && #[trigger] readiness_failure(nodes, deps, states, i) is Some);
            let found = ready_ids(nodes, deps, states, nodes.len() as int);
            assert(found.take(written as int) =~= found);
        }
        Ok(written)
    }

    /// When inspection of node `i` fails after every earlier node passed, the
    /// scan stops at `i` and reports the ready tasks found before it.
    proof fn lemma_scan_stops_at(&self, nodes: Seq<TaskNode>, deps: Seq<TaskDependency>, i: int)
        requires
            0 <= i < nodes.len(),
            readiness_failure(nodes, deps, self@, i) is Some,
            forall|j: int| 0 <= j < i ==> #[trigger] readiness_failure(nodes, deps, self@, j) is None,
        ensures
            readiness_scan_end(nodes, deps, self@) == i,
    {
        let p = readiness_failure_predicate(nodes, deps, self@);
        assert(p(i));
        lemma_first_such(nodes.len() as int, p, i);
        assert forall|j: int| 0 <= j < i implies !#[trigger] p(j) by {
            assert(readiness_failure(nodes, deps, self@, j) is None);
        }
        assert(is_first_such(nodes.len() as int, p, i));
    }
}

} // verus!

verus! {

/// Number of pending entries.
pub open spec fn count_pending(states: Seq<TaskRuntimeState>) -> nat
    decreases states.len(),
{
    if states.len() == 0 {
        0
    } else {
        count_pending(states.drop_last()) + if states.last().status == TaskStatus::Pending {
            1nat
        } else {
            0nat
        }
    }
}

/// `after` differs from `before` only by pending entries that became blocked.
pub open spec fn only_pending_blocked(
    before: Seq<TaskRuntimeState>,
    after: Seq<TaskRuntimeState>,
) -> bool {
    &&& after.len() == before.len()
    &&& forall|i: int|
        0 <= i < after.len() ==> #[trigger] after[i] == before[i] || (before[i].status
            == TaskStatus::Pending && after[i] == TaskRuntimeState {
            status: TaskStatus::Blocked,
            attempts: before[i].attempts,
        })
}

/// No pending node has an unsuccessful prerequisite.
pub open spec fn blocking_settled(
    nodes: Seq<TaskNode>,
    deps: Seq<TaskDependency>,
    states: Seq<TaskRuntimeState>,
) -> bool {
    forall|i: int|
        0 <= i < nodes.len() && i < states.len() && #[trigger] states[i].status == TaskStatus::Pending
            ==> blocking_result(nodes, deps, states, nodes[i].id) == Ok::<bool, TaskGraphError>(false)
}

/// Node `i` moved from pending in `before` to blocked in `after`.
pub open spec fn newly_blocked(before: Seq<TaskRuntimeState>, after: Seq<TaskRuntimeState>, i: int) -> bool {
    &&& 0 <= i < after.len()
    &&& i < before.len()
    &&& before[i].status == TaskStatus::Pending
    &&& after[i].status == TaskStatus::Blocked
}

/// Dependency `k` names prerequisite node `j` of node `i`; `j` is
/// unsuccessful in `after`, and either already was not pending in `before`
/// or was blocked earlier than `i` according to `rank`.
pub open spec fn block_cause(
    nodes: Seq<TaskNode>,
    deps: Seq<TaskDependency>,
    before: Seq<TaskRuntimeState>,
    after: Seq<TaskRuntimeState>,
    rank: Seq<int>,
    i: int,
    k: int,
    j: int,
) -> bool {
    &&& 0 <= k < deps.len()
    &&& deps[k].dependent == nodes[i].id
    &&& node_position(nodes, deps[k].prerequisite) == Some(j)
    &&& 0 <= j < after.len()
    &&& is_unsuccessful(after[j].status)
    &&& (before[j].status != TaskStatus::Pending || rank[j] < rank[i])
}

/// Every newly blocked node has a cause.
#[verifier::opaque]
pub open spec fn blocks_caused(
    nodes: Seq<TaskNode>,
    deps: Seq<TaskDependency>,
    before: Seq<TaskRuntimeState>,
    after: Seq<TaskRuntimeState>,
    rank: Seq<int>,
) -> bool {
    forall|i: int|
        #[trigger] newly_blocked(before, after, i) ==> i < nodes.len() && exists|k: int, j: int|
            #[trigger] block_cause(nodes, deps, before, after, rank, i, k, j)
}

/// The blocks introduced between `before` and `after` are explained by
/// chains of prerequisites ending in tasks that were already unsuccessful.
pub open spec fn blocks_explained(
    nodes: Seq<TaskNode>,
    deps: Seq<TaskDependency>,
    before: Seq<TaskRuntimeState>,
    after: Seq<TaskRuntimeState>,
) -> bool {
    exists|rank: Seq<int>| blocks_caused(nodes, deps, before, after, rank)
}

/// Every dependency into a known task names a known prerequisite, and every
/// node has a state entry.
pub open spec fn propagation_well_formed(
    nodes: Seq<TaskNode>,
    deps: Seq<TaskDependency>,
    states: Seq<TaskRuntimeState>,
) -> bool {
    &&& states.len() >= nodes.len()
    &&& forall|k: int|
        0 <= k < deps.len() && has_node(nodes, #[trigger] deps[k].dependent) ==> has_node(
            nodes,
            deps[k].prerequisite,
        )
}

/// Failures that block propagation can report.
pub open spec fn propagation_failure(
    nodes: Seq<TaskNode>,
    deps: Seq<TaskDependency>,
    states: Seq<TaskRuntimeState>,
    error: TaskGraphError,
) -> bool {
    ||| (error == state_length_error(nodes.len() as int, states.len() as int) && states.len()
        < nodes.len())
    ||| exists|k: int|
        0 <= k < deps.len() && has_node(nodes, #[trigger] deps[k].dependent) && !has_node(
            nodes,
            deps[k].prerequisite,
        ) && error == TaskGraphError::UnknownTask(deps[k].prerequisite)
}

proof fn lemma_count_pending_bound(states: Seq<TaskRuntimeState>)
    ensures
        count_pending(states) <= states.len(),
    decreases states.len(),
{
    if states.len() > 0 {
        lemma_count_pending_bound(states.drop_last());
    }
}

proof fn lemma_count_pending_block(states: Seq<TaskRuntimeState>, i: int, value: TaskRuntimeState)
    requires
        0 <= i < states.len(),
        states[i].status == TaskStatus::Pending,
        value.status != TaskStatus::Pending,
    ensures
        count_pending(states.update(i, value)) + 1 == count_pending(states),
    decreases states.len(),
{
    let updated = states.update(i, value);
    if i == states.len() - 1 {
        assert(updated.drop_last() =~= states.drop_last());
    } else {
        lemma_count_pending_block(states.drop_last(), i, value);
        assert(updated.drop_last() =~= states.drop_last().update(i, value));
    }
}

/// Extracts the dependency that decided a blocking check.
proof fn lemma_blocking_witness(
    nodes: Seq<TaskNode>,
    deps: Seq<TaskDependency>,
    states: Seq<TaskRuntimeState>,
    task: TaskId,
) -> (k: int)
    requires
        blocking_result(nodes, deps, states, task) != Ok::<bool, TaskGraphError>(false),
    ensures
        0 <= k < deps.len(),
        blocking_verdict(nodes, deps, states, task, k) == Some(blocking_result(nodes, deps, states, task)),
{
    let verdicts = blocking_verdicts(nodes, deps, states, task);
    let witness = choose|k: int| 0 <= k < deps.len() && #[trigger] verdicts(k) is Some;
    lemma_first_such(deps.len() as int, decisive(verdicts), witness);
    first_such(deps.len() as int, decisive(verdicts))
}

/// Positions named by the graph are valid first positions.
proof fn lemma_node_position_valid(nodes: Seq<TaskNode>, id: TaskId)
    requires
        node_position(nodes, id) is Some,
    ensures
        is_first_position(nodes, id, node_position(nodes, id)->0),
{
    let k = choose|k: int| 0 <= k < nodes.len() && nodes[k].id == id;
    lemma_node_position(nodes, id, k);
}

/// A failing blocking check of node `index` is a failure propagation may report,
/// and shows the inputs were not well formed.
proof fn lemma_blocking_failure(
    nodes: Seq<TaskNode>,
    deps: Seq<TaskDependency>,
    initial: Seq<TaskRuntimeState>,
    states: Seq<TaskRuntimeState>,
    index: int,
)
    requires
        0 <= index < nodes.len(),
        states.len() == initial.len(),
        blocking_result(nodes, deps, states, nodes[index].id) is Err,
    ensures
        propagation_failure(
            nodes,
            deps,
            initial,
            blocking_result(nodes, deps, states, nodes[index].id)->Err_0,
        ),
        !propagation_well_formed(nodes, deps, initial),
{
    let id = nodes[index].id;
    let k = lemma_blocking_witness(nodes, deps, states, id);
    assert(has_node(nodes, deps[k].dependent));
    if node_position(nodes, deps[k].prerequisite) is Some {
        lemma_node_position_valid(nodes, deps[k].prerequisite);
    }
}

/// Blocking pending node `index` because of an unsuccessful prerequisite keeps
/// every block explained, ranking the new block last.
proof fn lemma_block_step(
    nodes: Seq<TaskNode>,
    deps: Seq<TaskDependency>,
    initial: Seq<TaskRuntimeState>,
    before: Seq<TaskRuntimeState>,
    rank: Seq<int>,
    clock: int,
    index: int,
)
    requires
        0 <= index < nodes.len(),
        index < before.len(),
        only_pending_blocked(initial, before),
        rank.len() == initial.len(),
        before[index].status == TaskStatus::Pending,
        blocking_result(nodes, deps, before, nodes[index].id) == Ok::<bool, TaskGraphError>(true),
        forall|i: int| #[trigger] newly_blocked(initial, before, i) ==> rank[i] < clock,
        blocks_caused(nodes, deps, initial, before, rank),
    ensures
        ({
            let after = before.update(
                index,
                TaskRuntimeState { status: TaskStatus::Blocked, attempts: before[index].attempts },
            );
            let next_rank = rank.update(index, clock);
            &&& only_pending_blocked(initial, after)
            &&& forall|i: int| #[trigger] newly_blocked(initial, after, i) ==> next_rank[i] < clock + 1
            &&& blocks_caused(nodes, deps, initial, after, next_rank)
        }),
{
    let after = before.update(
        index,
        TaskRuntimeState { status: TaskStatus::Blocked, attempts: before[index].attempts },
    );
    let next_rank = rank.update(index, clock);
    let id = nodes[index].id;
    let k = lemma_blocking_witness(nodes, deps, before, id);
    lemma_node_position_valid(nodes, deps[k].prerequisite);
    let j = node_position(nodes, deps[k].prerequisite)->0;
    assert(initial[index] == before[index]);
    assert forall|i: int| 0 <= i < after.len() implies #[trigger] after[i] == initial[i] || (
    initial[i].status == TaskStatus::Pending && after[i] == TaskRuntimeState {
        status: TaskStatus::Blocked,
        attempts: initial[i].attempts,
    }) by {
        assert(before[i] == initial[i] || (initial[i].status == TaskStatus::Pending && before[i]
            == TaskRuntimeState { status: TaskStatus::Blocked, attempts: initial[i].attempts }));
    }
    assert forall|i: int| #[trigger] newly_blocked(initial, after, i) implies next_rank[i] < clock + 1 by {
        if i != index {
            assert(newly_blocked(initial, before, i));
        }
    }
    assert(block_cause(nodes, deps, initial, after, next_rank, index, k, j)) by {
        assert(after[j] == before[j]);
        if initial[j].status == TaskStatus::Pending {
            assert(newly_blocked(initial, before, j));
        }
    }
    reveal(blocks_caused);
    assert forall|i: int| #[trigger] newly_blocked(initial, after, i) implies i < nodes.len()
        && exists|k: int, j: int| #[trigger] block_cause(nodes, deps, initial, after, next_rank, i, k, j) by {
        if i != index {
            assert(newly_blocked(initial, before, i));
            let (k2, j2) = choose|k2: int, j2: int| #[trigger] block_cause(nodes, deps, initial, before, rank, i, k2, j2);
            assert(j2 != index);
            assert(after[j2] == before[j2]);
            assert(block_cause(nodes, deps, initial, after, next_rank, i, k2, j2));
        }
    }
}

impl<'a> TaskStateTable<'a> {
    /// Marks all pending descendants of unsuccessful prerequisites as blocked.
    ///
    /// Returns the number of tasks that moved from pending to blocked.
    pub fn propagate_blocked(&mut self, graph: &TaskGraph<'_>) -> (result: Result<usize, TaskGraphError>)
        ensures
            only_pending_blocked(old(self)@, final(self)@),
            propagation_well_formed(graph.nodes@, graph.dependencies@, old(self)@) ==> result is Ok,
            result matches Ok(changed) ==> {
                &&& changed == count_pending(old(self)@) - count_pending(final(self)@)
                &&& blocking_settled(graph.nodes@, graph.dependencies@, final(self)@)
                &&& blocks_explained(graph.nodes@, graph.dependencies@, old(self)@, final(self)@)
            },
            result matches Err(error) ==> propagation_failure(
                graph.nodes@,
                graph.dependencies@,
                old(self)@,
                error,
            ),
    {
        let ghost nodes = graph.nodes@;
        let ghost deps = graph.dependencies@;
        let ghost initial = self@;
        let ghost mut rank: Seq<int> = Seq::new(initial.len(), |i: int| 0);
        let ghost mut clock: int = 0;
        let mut total_changed: usize = 0;
        let state_count = self.states.len();
        proof {
            lemma_count_pending_bound(initial);
            reveal(blocks_caused);
            assert(only_pending_blocked(initial, self@));
        }
        loop
            invariant
                nodes == graph.nodes@,
                deps == graph.dependencies@,
                initial == old(self)@,
                state_count == initial.len(),
                count_pending(initial) <= initial.len(),
                only_pending_blocked(initial, self@),
                rank.len() == initial.len(),
                count_pending(self@) <= count_pending(initial),
                total_changed == count_pending(initial) - count_pending(self@),
                forall|i: int| #[trigger] newly_blocked(initial, self@, i) ==> rank[i] < clock,
                blocks_caused(nodes, deps, initial, self@, rank),
            decreases count_pending(self@),
        {
            let ghost pass_start = self@;
            let mut changed: usize = 0;
            let mut index: usize = 0;
            while index < graph.nodes.len()
                invariant
                    nodes == graph.nodes@,
                    deps == graph.dependencies@,
                    initial == old(self)@,
                    state_count == initial.len(),
                    count_pending(initial) <= initial.len(),
                    only_pending_blocked(initial, self@),
                    rank.len() == initial.len(),
                    index <= nodes.len(),
                    index <= self@.len(),
                    self@.len() == initial.len(),
                    count_pending(pass_start) <= count_pending(initial),
                    total_changed == count_pending(initial) - count_pending(pass_start),
                    changed + count_pending(self@) == count_pending(pass_start),
                    changed == 0 ==> self@ == pass_start,
                    changed == 0 ==> forall|j: int|
                        0 <= j < index && #[trigger] self@[j].status == TaskStatus::Pending
                            ==> blocking_result(nodes, deps, self@, nodes[j].id) == Ok::<
                            bool,
                            TaskGraphError,
                        >(false),
                    forall|i: int| #[trigger] newly_blocked(initial, self@, i) ==> rank[i] < clock,
                    blocks_caused(nodes, deps, initial, self@, rank),
                decreases nodes.len() - index,
            {
                let node = graph.nodes[index];
                if index >= self.states.len() {
                    return Err(
                        TaskGraphError::StateLengthMismatch {
                            required: graph.nodes.len(),
                            available: self.states.len(),
                        },
                    );
                }
                let current = self.states[index];
                if current.status == TaskStatus::Pending {
                    match has_unsuccessful_prerequisite(graph, self.states, node.id) {
                        Err(error) => {
                            proof {
                                lemma_blocking_failure(nodes, deps, initial, self@, index as int);
                            }
                            return Err(error);
                        },
                        Ok(true) => {
                            let ghost before = self@;
                            proof {
                                lemma_count_pending_block(
                                    self@,
                                    index as int,
                                    TaskRuntimeState {
                                        status: TaskStatus::Blocked,
                                        attempts: current.attempts,
                                    },
                                );
                                lemma_block_step(nodes, deps, initial, before, rank, clock, index as int);
                            }
                            self.states[index] = TaskRuntimeState {
                                status: TaskStatus::Blocked,
                                attempts: current.attempts,
                            };
                            proof {
                                rank = rank.update(index as int, clock);
                                clock = clock + 1;
                            }
                            changed += 1;
                        },
                        Ok(false) => {},
                    }
                }
                index += 1;
            }
            total_changed = total_changed.saturating_add(changed);
            if changed == 0 {
                proof {
                    assert(blocks_explained(nodes, deps, initial, self@));
                }
                return Ok(total_changed);
            }
        }
    }
}

} // verus!
