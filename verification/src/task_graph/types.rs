//! Workflow node, dependency, and runtime-state vocabulary.

use vstd::prelude::*;

use crate::identifiers::{ArtifactId, BackendId, CapacityExhausted, CapacityResource, ModelId, TaskId};

verus! {

/// Operation represented by a workflow node.
#[derive(Clone, Copy, Debug, PartialEq, Eq, Structural)]
#[non_exhaustive]
pub enum TaskKind {
    /// Produce an initial response or artifact.
    Draft,
    /// Review an artifact for defects.
    Review,
    /// Run the Rust compiler or another deterministic type checker.
    CompileCheck,
    /// Run a deterministic validator.
    Validate,
    /// Revise an artifact using prior findings.
    Revise,
    /// Aggregate multiple artifacts into one result.
    Aggregate,
    /// Application-defined operation code.
    Other(u16),
}

/// Artifact category produced by a task.
#[derive(Clone, Copy, Debug, PartialEq, Eq, Structural)]
#[non_exhaustive]
pub enum ArtifactKind {
    /// Plain UTF-8 text.
    Text,
    /// Source code.
    SourceCode,
    /// Structured compiler or review findings.
    Diagnostics,
    /// Token sequence.
    Tokens,
    /// Application-defined artifact category.
    Other(u16),
}

/// Output requirements declared before execution.
#[derive(Clone, Copy, Debug, PartialEq, Eq, Structural)]
pub struct TaskOutputContract {
    /// Required artifact category.
    pub kind: ArtifactKind,
    /// Hard upper bound for persisted output bytes. Zero means externally bounded.
    pub maximum_bytes: u64,
}

/// Model-selection policy interpreted by an orchestration engine.
#[derive(Clone, Copy, Debug, PartialEq, Eq, Structural)]
pub enum ModelPolicy {
    /// Use one exact logical model.
    Exact(ModelId),
    /// Prefer any compatible model implemented by one backend.
    PreferredBackend(BackendId),
    /// Use any compatible admitted model.
    AnyCompatible,
    /// Run no model because the task is deterministic.
    Deterministic,
}

/// Hard task budgets known before execution.
///
/// `maximum_attempts` counts the first attempt; a budget built by
/// [`TaskBudget::new`] always allows at least one attempt.
#[derive(Clone, Copy, Debug, PartialEq, Eq, Structural)]
pub struct TaskBudget {
    /// Maximum input tokens admitted to the task.
    pub maximum_input_tokens: u32,
    /// Maximum output tokens admitted to the task.
    pub maximum_output_tokens: u32,
    /// Maximum execution attempts including the first attempt.
    pub maximum_attempts: u16,
}

impl TaskBudget {
    /// Creates a task budget from validated bounds.
    pub fn new(
        maximum_input_tokens: u32,
        maximum_output_tokens: u32,
        maximum_attempts: u16,
    ) -> (budget: Self)
        requires
            maximum_attempts > 0,
        ensures
            budget == (TaskBudget { maximum_input_tokens, maximum_output_tokens, maximum_attempts }),
    {
        Self { maximum_input_tokens, maximum_output_tokens, maximum_attempts }
    }
}

/// Immutable node definition.
#[derive(Clone, Copy, Debug, PartialEq, Eq, Structural)]
pub struct TaskNode {
    /// Stable task identity.
    pub id: TaskId,
    /// Operation performed by the node.
    pub kind: TaskKind,
    /// Model-selection policy.
    pub model_policy: ModelPolicy,
    /// Hard execution budgets.
    pub budget: TaskBudget,
    /// Declared output contract.
    pub output: TaskOutputContract,
}

/// Directed dependency requiring one task to succeed before another can start.
#[derive(Clone, Copy, Debug, PartialEq, Eq, Structural)]
pub struct TaskDependency {
    /// Task that must succeed first.
    pub prerequisite: TaskId,
    /// Task gated by the prerequisite.
    pub dependent: TaskId,
}

/// Immutable artifact reference passed between tasks by identity.
#[derive(Clone, Copy, Debug, PartialEq, Eq, Structural)]
pub struct ArtifactReference {
    /// Artifact identity.
    pub id: ArtifactId,
    /// Artifact category.
    pub kind: ArtifactKind,
}

/// Runtime state of one task.
#[derive(Clone, Copy, Debug, PartialEq, Eq, Structural)]
pub enum TaskStatus {
    /// Waiting for all prerequisites.
    Pending,
    /// Currently executing.
    Running,
    /// Completed successfully.
    Succeeded,
    /// Attempt failed and may be retried within budget.
    Failed,
    /// All configured attempts failed.
    Exhausted,
    /// Explicitly cancelled.
    Cancelled,
    /// Cannot run because a prerequisite terminated unsuccessfully.
    Blocked,
}

impl Default for TaskStatus {
    fn default() -> (status: Self)
        ensures
            status == TaskStatus::Pending,
    {
        TaskStatus::Pending
    }
}

/// Mutable runtime fields aligned by index with graph nodes.
#[derive(Clone, Copy, Debug, PartialEq, Eq, Structural)]
pub struct TaskRuntimeState {
    /// Current task state.
    pub status: TaskStatus,
    /// Number of attempts already started.
    pub attempts: u16,
}

impl Default for TaskRuntimeState {
    fn default() -> (state: Self)
        ensures
            state == (TaskRuntimeState { status: TaskStatus::Pending, attempts: 0 }),
    {
        TaskRuntimeState { status: TaskStatus::Pending, attempts: 0 }
    }
}

/// Stable graph or workflow-state failure.
#[derive(Clone, Copy, Debug, PartialEq, Eq, Structural)]
#[non_exhaustive]
pub enum TaskGraphError {
    /// Two nodes share one identity.
    DuplicateTask(TaskId),
    /// Two identical dependency edges were supplied.
    DuplicateDependency(TaskDependency),
    /// A dependency references an unknown task.
    UnknownTask(TaskId),
    /// A task depends directly on itself.
    SelfDependency(TaskId),
    /// The graph contains at least one directed cycle.
    CycleDetected,
    /// A caller-owned fixed-capacity buffer is too small.
    CapacityExhausted(CapacityExhausted),
    /// Runtime state storage does not match the graph node count.
    StateLengthMismatch {
        /// Number of graph nodes.
        required: usize,
        /// Number of supplied state entries.
        available: usize,
    },
    /// Requested task transition is invalid.
    InvalidTransition {
        /// Task being transitioned.
        task: TaskId,
        /// Current state.
        state: TaskStatus,
    },
    /// Task exhausted its configured attempt budget.
    AttemptLimitReached(TaskId),
}

impl From<CapacityExhausted> for TaskGraphError {
    fn from(value: CapacityExhausted) -> (error: Self) {
        TaskGraphError::CapacityExhausted(value)
    }
}

impl vstd::std_specs::convert::FromSpecImpl<CapacityExhausted> for TaskGraphError {
    open spec fn obeys_from_spec() -> bool {
        true
    }

    open spec fn from_spec(value: CapacityExhausted) -> Self {
        TaskGraphError::CapacityExhausted(value)
    }
}

/// The capacity failure reported when a node-indexed buffer is too small.
pub open spec fn node_capacity_error(required: int, available: int) -> TaskGraphError {
    TaskGraphError::CapacityExhausted(
        CapacityExhausted {
            resource: CapacityResource::TaskNodes,
            required: required as u64,
            available: available as u64,
        },
    )
}

/// Builds the capacity failure for a node-indexed buffer that is too small.
pub fn node_capacity(required: usize, available: usize) -> (error: TaskGraphError)
    ensures
        error == node_capacity_error(required as int, available as int),
{
    TaskGraphError::CapacityExhausted(
        CapacityExhausted::new(CapacityResource::TaskNodes, required as u64, available as u64),
    )
}

} // verus!
