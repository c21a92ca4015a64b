//! Task-graph validation and runtime-state propagation.

use std::num::NonZeroU16;

use llm_app::identifiers::{BackendId, CapacityExhausted, CapacityResource, TaskId};
use llm_app::task_graph::graph::TaskGraph;
use llm_app::task_graph::state::TaskStateTable;
use llm_app::task_graph::types::{
    ArtifactKind, ModelPolicy, TaskBudget, TaskDependency, TaskGraphError, TaskKind, TaskNode,
    TaskOutputContract, TaskRuntimeState, TaskStatus,
};
use llm_app::task_graph::validate::{GraphValidationScratch, validate_graph};

fn node(id: u64, kind: TaskKind) -> Result<TaskNode, &'static str> {
    let attempts = NonZeroU16::new(2).ok_or("attempt count must be non-zero")?;
    Ok(TaskNode {
        id: TaskId::new(id),
        kind,
        model_policy: ModelPolicy::PreferredBackend(BackendId::new(1)),
        budget: TaskBudget::new(1024, 512, attempts.get()),
        output: TaskOutputContract {
            kind: ArtifactKind::Text,
            maximum_bytes: 4096,
        },
    })
}

fn edge(prerequisite: u64, dependent: u64) -> TaskDependency {
    TaskDependency {
        prerequisite: TaskId::new(prerequisite),
        dependent: TaskId::new(dependent),
    }
}

fn validate(nodes: &[TaskNode], dependencies: &[TaskDependency], slots: usize) -> Result<(), TaskGraphError> {
    let graph = TaskGraph::new(nodes, dependencies);
    let mut incoming = vec![0_u32; slots];
    let mut queue = vec![0_usize; slots];
    validate_graph(
        &graph,
        GraphValidationScratch {
            incoming_counts: &mut incoming,
            queue: &mut queue,
        },
    )
}

#[test]
fn acyclic_graph_validates() -> Result<(), &'static str> {
    let nodes = [
        node(1, TaskKind::Draft)?,
        node(2, TaskKind::Review)?,
        node(3, TaskKind::Revise)?,
    ];
    let dependencies = [
        TaskDependency {
            prerequisite: TaskId::new(1),
            dependent: TaskId::new(2),
        },
        TaskDependency {
            prerequisite: TaskId::new(2),
            dependent: TaskId::new(3),
        },
    ];
    let graph = TaskGraph::new(&nodes, &dependencies);
    let mut incoming = [0_u32; 3];
    let mut queue = [0_usize; 3];

    validate_graph(
        &graph,
        GraphValidationScratch {
            incoming_counts: &mut incoming,
            queue: &mut queue,
        },
    )
    .map_err(|_| "valid graph rejected")
}

#[test]
fn directed_cycle_is_rejected() -> Result<(), &'static str> {
    let nodes = [node(1, TaskKind::Draft)?, node(2, TaskKind::Review)?];
    let dependencies = [
        TaskDependency {
            prerequisite: TaskId::new(1),
            dependent: TaskId::new(2),
        },
        TaskDependency {
            prerequisite: TaskId::new(2),
            dependent: TaskId::new(1),
        },
    ];
    let graph = TaskGraph::new(&nodes, &dependencies);
    let mut incoming = [0_u32; 2];
    let mut queue = [0_usize; 2];

    let result = validate_graph(
        &graph,
        GraphValidationScratch {
            incoming_counts: &mut incoming,
            queue: &mut queue,
        },
    );

    assert_eq!(result, Err(TaskGraphError::CycleDetected));
    Ok(())
}

#[test]
fn runtime_state_releases_dependents_only_after_success() -> Result<(), &'static str> {
    let nodes = [node(1, TaskKind::Draft)?, node(2, TaskKind::Review)?];
    let dependencies = [TaskDependency {
        prerequisite: TaskId::new(1),
        dependent: TaskId::new(2),
    }];
    let graph = TaskGraph::new(&nodes, &dependencies);
    let mut states = [TaskRuntimeState::default(); 2];
    let mut table = TaskStateTable::new(&graph, &mut states).map_err(|_| "state table rejected")?;
    let mut ready = [TaskId::new(0); 2];

    assert_eq!(
        table
            .ready_tasks(&graph, &mut ready)
            .map_err(|_| "ready query failed")?,
        1
    );
    assert_eq!(ready[0], TaskId::new(1));

    table
        .start(&graph, TaskId::new(1))
        .map_err(|_| "start failed")?;
    table
        .succeed(&graph, TaskId::new(1))
        .map_err(|_| "success failed")?;

    assert_eq!(
        table
            .ready_tasks(&graph, &mut ready)
            .map_err(|_| "ready query failed")?,
        1
    );
    assert_eq!(ready[0], TaskId::new(2));
    assert_eq!(
        table
            .state(&graph, TaskId::new(1))
            .map(|state| state.status),
        Some(TaskStatus::Succeeded)
    );
    Ok(())
}

#[test]
fn failed_prerequisite_blocks_descendants() -> Result<(), &'static str> {
    let nodes = [
        node(1, TaskKind::Draft)?,
        node(2, TaskKind::Review)?,
        node(3, TaskKind::Revise)?,
    ];
    let dependencies = [
        TaskDependency {
            prerequisite: TaskId::new(1),
            dependent: TaskId::new(2),
        },
        TaskDependency {
            prerequisite: TaskId::new(2),
            dependent: TaskId::new(3),
        },
    ];
    let graph = TaskGraph::new(&nodes, &dependencies);
    let mut states = [TaskRuntimeState::default(); 3];
    let mut table = TaskStateTable::new(&graph, &mut states).map_err(|_| "state table rejected")?;

    table
        .start(&graph, TaskId::new(1))
        .map_err(|_| "first start failed")?;
    table
        .fail(&graph, TaskId::new(1))
        .map_err(|_| "first failure transition failed")?;
    table
        .start(&graph, TaskId::new(1))
        .map_err(|_| "retry start failed")?;
    table
        .fail(&graph, TaskId::new(1))
        .map_err(|_| "terminal failure transition failed")?;
    assert_eq!(
        table
            .propagate_blocked(&graph)
            .map_err(|_| "block propagation failed")?,
        2
    );
    assert_eq!(
        table
            .state(&graph, TaskId::new(2))
            .map(|state| state.status),
        Some(TaskStatus::Blocked)
    );
    assert_eq!(
        table
            .state(&graph, TaskId::new(3))
            .map(|state| state.status),
        Some(TaskStatus::Blocked)
    );
    Ok(())
}

#[test]
fn graph_lookup_finds_the_first_node_with_an_identity() -> Result<(), &'static str> {
    let nodes = [node(4, TaskKind::Draft)?, node(9, TaskKind::Aggregate)?];
    let graph = TaskGraph::new(&nodes, &[]);
    assert_eq!(graph.node_index(TaskId::new(9)), Some(1));
    assert_eq!(graph.node_index(TaskId::new(5)), None);
    assert_eq!(graph.node(TaskId::new(4)).map(|found| found.kind), Some(TaskKind::Draft));
    assert!(graph.node(TaskId::new(5)).is_none());
    Ok(())
}

#[test]
fn validation_reports_each_structural_defect() -> Result<(), &'static str> {
    let one = node(1, TaskKind::Draft)?;
    let two = node(2, TaskKind::Review)?;
    assert_eq!(
        validate(&[one, one], &[], 2),
        Err(TaskGraphError::DuplicateTask(TaskId::new(1)))
    );
    assert_eq!(
        validate(&[one, two], &[edge(1, 7)], 2),
        Err(TaskGraphError::UnknownTask(TaskId::new(7)))
    );
    assert_eq!(
        validate(&[one, two], &[edge(8, 2)], 2),
        Err(TaskGraphError::UnknownTask(TaskId::new(8)))
    );
    assert_eq!(
        validate(&[one, two], &[edge(2, 2)], 2),
        Err(TaskGraphError::SelfDependency(TaskId::new(2)))
    );
    assert_eq!(
        validate(&[one, two], &[edge(1, 2), edge(1, 2)], 2),
        Err(TaskGraphError::DuplicateDependency(edge(1, 2)))
    );
    assert_eq!(
        validate(&[one, two], &[edge(1, 2)], 1),
        Err(TaskGraphError::CapacityExhausted(CapacityExhausted::new(
            CapacityResource::TaskNodes,
            2,
            1
        )))
    );
    assert_eq!(validate(&[one, two], &[edge(1, 2)], 5), Ok(()));
    Ok(())
}

#[test]
fn state_table_requires_one_state_per_node() -> Result<(), &'static str> {
    let nodes = [node(1, TaskKind::Draft)?, node(2, TaskKind::Review)?];
    let graph = TaskGraph::new(&nodes, &[]);
    let mut states = [TaskRuntimeState::default(); 3];
    assert!(matches!(
        TaskStateTable::new(&graph, &mut states),
        Err(TaskGraphError::StateLengthMismatch {
            required: 2,
            available: 3
        })
    ));
    Ok(())
}

#[test]
fn attempts_are_bounded_by_the_budget() -> Result<(), &'static str> {
    let nodes = [node(1, TaskKind::Draft)?];
    let graph = TaskGraph::new(&nodes, &[]);
    let mut states = [TaskRuntimeState {
        status: TaskStatus::Failed,
        attempts: 2,
    }];
    let mut table = TaskStateTable::new(&graph, &mut states).map_err(|_| "state table rejected")?;
    assert_eq!(
        table.start(&graph, TaskId::new(1)),
        Err(TaskGraphError::AttemptLimitReached(TaskId::new(1)))
    );
    let mut ready = [TaskId::new(0); 1];
    assert_eq!(table.ready_tasks(&graph, &mut ready), Ok(0));
    Ok(())
}

#[test]
fn transitions_outside_their_source_states_are_rejected() -> Result<(), &'static str> {
    let nodes = [node(1, TaskKind::Draft)?, node(2, TaskKind::Review)?];
    let dependencies = [edge(1, 2)];
    let graph = TaskGraph::new(&nodes, &dependencies);
    let mut states = [TaskRuntimeState::default(); 2];
    let mut table = TaskStateTable::new(&graph, &mut states).map_err(|_| "state table rejected")?;

    assert_eq!(
        table.succeed(&graph, TaskId::new(1)),
        Err(TaskGraphError::InvalidTransition {
            task: TaskId::new(1),
            state: TaskStatus::Pending
        })
    );
    assert_eq!(
        table.start(&graph, TaskId::new(2)),
        Err(TaskGraphError::InvalidTransition {
            task: TaskId::new(2),
            state: TaskStatus::Pending
        })
    );
    assert_eq!(
        table.fail(&graph, TaskId::new(3)),
        Err(TaskGraphError::UnknownTask(TaskId::new(3)))
    );
    assert_eq!(table.cancel(&graph, TaskId::new(1)), Ok(()));
    assert_eq!(
        table.cancel(&graph, TaskId::new(1)),
        Err(TaskGraphError::InvalidTransition {
            task: TaskId::new(1),
            state: TaskStatus::Cancelled
        })
    );
    assert_eq!(
        table.start(&graph, TaskId::new(1)),
        Err(TaskGraphError::InvalidTransition {
            task: TaskId::new(1),
            state: TaskStatus::Cancelled
        })
    );
    assert_eq!(table.propagate_blocked(&graph), Ok(1));
    assert_eq!(
        table.state(&graph, TaskId::new(2)).map(|state| state.status),
        Some(TaskStatus::Blocked)
    );
    Ok(())
}

#[test]
fn failure_within_budget_allows_a_retry() -> Result<(), &'static str> {
    let nodes = [node(1, TaskKind::Draft)?];
    let graph = TaskGraph::new(&nodes, &[]);
    let mut states = [TaskRuntimeState::default(); 1];
    let mut table = TaskStateTable::new(&graph, &mut states).map_err(|_| "state table rejected")?;
    assert_eq!(table.start(&graph, TaskId::new(1)), Ok(()));
    assert_eq!(table.fail(&graph, TaskId::new(1)), Ok(()));
    assert_eq!(
        table.state(&graph, TaskId::new(1)),
        Some(TaskRuntimeState {
            status: TaskStatus::Failed,
            attempts: 1
        })
    );
    assert_eq!(table.start(&graph, TaskId::new(1)), Ok(()));
    assert_eq!(table.fail(&graph, TaskId::new(1)), Ok(()));
    assert_eq!(
        table.state(&graph, TaskId::new(1)).map(|state| state.status),
        Some(TaskStatus::Exhausted)
    );
    Ok(())
}

#[test]
fn ready_tasks_report_a_too_small_output() -> Result<(), &'static str> {
    let nodes = [node(1, TaskKind::Draft)?, node(2, TaskKind::Review)?];
    let graph = TaskGraph::new(&nodes, &[]);
    let mut states = [TaskRuntimeState::default(); 2];
    let table = TaskStateTable::new(&graph, &mut states).map_err(|_| "state table rejected")?;
    let mut ready = [TaskId::new(0); 1];
    assert_eq!(
        table.ready_tasks(&graph, &mut ready),
        Err(TaskGraphError::CapacityExhausted(CapacityExhausted::new(
            CapacityResource::TaskNodes,
            2,
            1
        )))
    );
    Ok(())
}

#[test]
fn a_second_propagation_changes_nothing() -> Result<(), &'static str> {
    let nodes = [
        node(1, TaskKind::Draft)?,
        node(2, TaskKind::Review)?,
        node(3, TaskKind::Revise)?,
    ];
    let dependencies = [edge(1, 2), edge(2, 3)];
    let graph = TaskGraph::new(&nodes, &dependencies);
    let mut states = [TaskRuntimeState::default(); 3];
    let mut table = TaskStateTable::new(&graph, &mut states).map_err(|_| "state table rejected")?;
    assert_eq!(table.cancel(&graph, TaskId::new(1)), Ok(()));
    assert_eq!(table.propagate_blocked(&graph), Ok(2));
    assert_eq!(table.propagate_blocked(&graph), Ok(0));
    assert_eq!(
        table.state(&graph, TaskId::new(3)).map(|state| state.status),
        Some(TaskStatus::Blocked)
    );
    Ok(())
}

#[test]
fn only_nodes_reached_through_pending_prerequisites_are_blocked() -> Result<(), &'static str> {
    let nodes = [
        node(1, TaskKind::Draft)?,
        node(2, TaskKind::Review)?,
        node(3, TaskKind::Draft)?,
        node(4, TaskKind::Review)?,
    ];
    let dependencies = [edge(1, 2), edge(3, 4)];
    let graph = TaskGraph::new(&nodes, &dependencies);
    let mut states = [TaskRuntimeState::default(); 4];
    let mut table = TaskStateTable::new(&graph, &mut states).map_err(|_| "state table rejected")?;
    assert_eq!(table.cancel(&graph, TaskId::new(1)), Ok(()));
    assert_eq!(table.propagate_blocked(&graph), Ok(1));
    let status = |id: u64| table.state(&graph, TaskId::new(id)).map(|state| state.status);
    assert_eq!(status(2), Some(TaskStatus::Blocked));
    assert_eq!(status(3), Some(TaskStatus::Pending));
    assert_eq!(status(4), Some(TaskStatus::Pending));
    Ok(())
}
