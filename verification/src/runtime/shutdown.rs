//! Bounded cooperative shutdown of the application's host workers, as the
//! decisions between the host's blocking operations.
//!
//! Shutdown asks the Hub worker to stop, stops the inference runtime, then
//! joins the runtime worker thread and the Hub worker thread. Every step runs
//! even after an earlier one failed; the first failure is the result.

use vstd::prelude::*;

use super::errors::RuntimeReceiveError;

verus! {

/// Host worker whose shutdown did not finish in time.
#[derive(Clone, Copy, Debug, PartialEq, Eq, Structural)]
pub enum ApplicationWorker {
    /// The inference runtime worker.
    Inference,
    /// The Hub artifact-resolution worker.
    Hub,
}

/// One blocking step of the shutdown, performed by the host.
#[derive(Clone, Copy, Debug, PartialEq, Eq, Structural)]
pub enum ShutdownStep {
    /// Ask the Hub worker to stop.
    RequestHubShutdown,
    /// Submit the runtime shutdown command and await its acknowledgement.
    ShutdownRuntime,
    /// Wait for the runtime worker thread and join it.
    JoinRuntimeWorker,
    /// Wait for the Hub worker thread and join it.
    JoinHubWorker,
}

/// Number of steps in a shutdown.
pub const SHUTDOWN_STEPS: usize = 4;

/// The step performed after `completed` steps.
pub open spec fn step_after(completed: int) -> ShutdownStep {
    if completed == 0 {
        ShutdownStep::RequestHubShutdown
    } else if completed == 1 {
        ShutdownStep::ShutdownRuntime
    } else if completed == 2 {
        ShutdownStep::JoinRuntimeWorker
    } else {
        ShutdownStep::JoinHubWorker
    }
}

/// Where a shutdown stands.
pub enum ShutdownState<E> {
    /// Shutdown has not been requested.
    Idle,
    /// `completed` steps have run; `first_error` is the first that failed.
    Running { completed: usize, first_error: Option<E> },
    /// Shutdown has returned its result.
    Finished,
}

/// What the host reports.
pub enum ShutdownEvent<E> {
    /// Shutdown was requested; `already_shutting_down` tells whether the
    /// application had already begun shutting down.
    Requested { already_shutting_down: bool },
    /// The last step requested has finished with this outcome.
    StepCompleted(Result<(), E>),
}

/// What the host does next.
pub enum ShutdownAction<E> {
    /// Perform this step and report its outcome.
    Perform(ShutdownStep),
    /// Shutdown is over with this result.
    Return(Result<(), E>),
}

/// Keeps the first error: `candidate` is recorded only when none was yet.
pub fn record_first_error<E>(first: &mut Option<E>, candidate: Option<E>)
    ensures
        (*old(first)) is Some ==> *final(first) == *old(first),
        (*old(first)) is None ==> *final(first) == candidate,
{
    if first.is_none() {
        *first = candidate;
    }
}

/// The error of a failed outcome.
pub open spec fn failure_of<E>(outcome: Result<(), E>) -> Option<E> {
    match outcome {
        Ok(()) => None,
        Err(error) => Some(error),
    }
}

/// The result that reports `first_error`.
pub open spec fn result_of<E>(first_error: Option<E>) -> Result<(), E> {
    match first_error {
        Some(error) => Err(error),
        None => Ok(()),
    }
}

/// Events the shutdown accepts in each state.
pub open spec fn accepts<E>(state: ShutdownState<E>, event: ShutdownEvent<E>) -> bool {
    match state {
        ShutdownState::Idle => event is Requested,
        ShutdownState::Running { completed, .. } => completed < SHUTDOWN_STEPS && event is StepCompleted,
        ShutdownState::Finished => false,
    }
}

/// The next state and action.
pub open spec fn shutdown_transition<E>(state: ShutdownState<E>, event: ShutdownEvent<E>) -> (
    ShutdownState<E>,
    ShutdownAction<E>,
) {
    match (state, event) {
        (ShutdownState::Running { completed, first_error }, ShutdownEvent::StepCompleted(outcome)) => {
            let first = if first_error is Some {
                first_error
            } else {
                failure_of(outcome)
            };
            if completed + 1 == SHUTDOWN_STEPS {
                (ShutdownState::Finished, ShutdownAction::Return(result_of(first)))
            } else {
                (
                    ShutdownState::Running { completed: (completed + 1) as usize, first_error: first },
                    ShutdownAction::Perform(step_after(completed + 1)),
                )
            }
        },
        (_, ShutdownEvent::Requested { already_shutting_down }) => if already_shutting_down {
            (ShutdownState::Finished, ShutdownAction::Return(Ok(())))
        } else {
            (
                ShutdownState::Running { completed: 0, first_error: None },
                ShutdownAction::Perform(ShutdownStep::RequestHubShutdown),
            )
        },
        (other, ShutdownEvent::StepCompleted(_)) => (ShutdownState::Finished, ShutdownAction::Return(Ok(()))),
    }
}

/// Decides the next shutdown step from the current state and what the host
/// reports: a repeated request while shutting down succeeds at once;
/// otherwise the four steps run in order, each after the previous one has
/// finished whatever its outcome, and the first failure is returned.
pub fn shutdown<E>(state: ShutdownState<E>, event: ShutdownEvent<E>) -> (next: (
    ShutdownState<E>,
    ShutdownAction<E>,
))
    requires
        accepts(state, event),
    ensures
        next == shutdown_transition(state, event),
{
    match event {
        ShutdownEvent::Requested { already_shutting_down } => {
            if already_shutting_down {
                (ShutdownState::Finished, ShutdownAction::Return(Ok(())))
            } else {
                (
                    ShutdownState::Running { completed: 0, first_error: None },
                    ShutdownAction::Perform(ShutdownStep::RequestHubShutdown),
                )
            }
        },
        ShutdownEvent::StepCompleted(outcome) => match state {
            ShutdownState::Running { completed, first_error } => {
                let mut first = first_error;
                record_first_error(&mut first, outcome.err());
                let done = completed + 1;
                if done == SHUTDOWN_STEPS {
                    let result = match first {
                        Some(error) => Err(error),
                        None => Ok(()),
                    };
                    (ShutdownState::Finished, ShutdownAction::Return(result))
                } else {
                    let step = if done == 1 {
                        ShutdownStep::ShutdownRuntime
                    } else if done == 2 {
                        ShutdownStep::JoinRuntimeWorker
                    } else {
                        ShutdownStep::JoinHubWorker
                    };
                    (
                        ShutdownState::Running { completed: done, first_error: first },
                        ShutdownAction::Perform(step),
                    )
                }
            },
            _ => (ShutdownState::Finished, ShutdownAction::Return(Ok(()))),
        },
    }
}


/// The first failure among `outcomes`, in order; success when none failed.
pub open spec fn first_failure<E>(outcomes: Seq<Result<(), E>>) -> Result<(), E>
    decreases outcomes.len(),
{
    if outcomes.len() == 0 {
        Ok(())
    } else {
        match outcomes[0] {
            Err(error) => Err(error),
            Ok(()) => first_failure(outcomes.drop_first()),
        }
    }
}

/// A requested shutdown performs all four steps in order, whatever their
/// outcomes, and returns the first failure among them; a request while
/// already shutting down returns success without performing any step.
pub proof fn lemma_shutdown_runs_every_step_and_reports_first_failure<E>(
    outcomes: Seq<Result<(), E>>,
)
    requires
        outcomes.len() == SHUTDOWN_STEPS,
    ensures
        shutdown_transition(
            ShutdownState::<E>::Idle,
            ShutdownEvent::Requested { already_shutting_down: true },
        ) == (ShutdownState::<E>::Finished, ShutdownAction::<E>::Return(Ok(()))),
        ({
            let (s0, a0) = shutdown_transition(
                ShutdownState::<E>::Idle,
                ShutdownEvent::Requested { already_shutting_down: false },
            );
            let (s1, a1) = shutdown_transition(s0, ShutdownEvent::StepCompleted(outcomes[0]));
            let (s2, a2) = shutdown_transition(s1, ShutdownEvent::StepCompleted(outcomes[1]));
            let (s3, a3) = shutdown_transition(s2, ShutdownEvent::StepCompleted(outcomes[2]));
            let (s4, a4) = shutdown_transition(s3, ShutdownEvent::StepCompleted(outcomes[3]));
            &&& a0 == ShutdownAction::<E>::Perform(ShutdownStep::RequestHubShutdown)
            &&& accepts(s0, ShutdownEvent::StepCompleted(outcomes[0]))
            &&& a1 == ShutdownAction::<E>::Perform(ShutdownStep::ShutdownRuntime)
            &&& accepts(s1, ShutdownEvent::StepCompleted(outcomes[1]))
            &&& a2 == ShutdownAction::<E>::Perform(ShutdownStep::JoinRuntimeWorker)
            &&& accepts(s2, ShutdownEvent::StepCompleted(outcomes[2]))
            &&& a3 == ShutdownAction::<E>::Perform(ShutdownStep::JoinHubWorker)
            &&& accepts(s3, ShutdownEvent::StepCompleted(outcomes[3]))
            &&& s4 == ShutdownState::<E>::Finished
            &&& a4 == ShutdownAction::<E>::Return(first_failure(outcomes))
        }),
{
    reveal_with_fuel(first_failure, 5);
    let o = outcomes;
    assert(o.drop_first()[0] == o[1]);
    assert(o.drop_first().drop_first()[0] == o[2]);
    assert(o.drop_first().drop_first().drop_first()[0] == o[3]);
    assert(o.drop_first().drop_first().drop_first().drop_first().len() == 0);
}


/// How an attempt to submit the runtime shutdown command went.
#[derive(Clone, Copy, Debug, PartialEq, Eq, Structural)]
pub enum SubmissionOutcome {
    /// The command was queued.
    Accepted,
    /// The bounded command queue is full.
    QueueFull,
    /// The runtime worker has stopped.
    Disconnected,
}

/// What the runtime step does after a submission attempt.
#[derive(Clone, Copy, Debug, PartialEq, Eq, Structural)]
pub enum SubmissionDecision {
    /// Wait for the worker to acknowledge the command.
    AwaitAcknowledgement,
    /// The worker is gone: mark it disconnected; the step succeeds.
    WorkerStopped,
    /// The deadline passed with the queue still full: the step fails as busy.
    Busy,
    /// Yield and submit the same command again.
    Retry,
}

/// Decides what follows a submission attempt of the runtime shutdown command.
pub fn decide_submission(outcome: SubmissionOutcome, deadline_reached: bool) -> (decision: SubmissionDecision)
    ensures
        outcome == SubmissionOutcome::Accepted ==> decision == SubmissionDecision::AwaitAcknowledgement,
        outcome == SubmissionOutcome::Disconnected ==> decision == SubmissionDecision::WorkerStopped,
        outcome == SubmissionOutcome::QueueFull && deadline_reached ==> decision == SubmissionDecision::Busy,
        outcome == SubmissionOutcome::QueueFull && !deadline_reached ==> decision == SubmissionDecision::Retry,
{
    match outcome {
        SubmissionOutcome::Accepted => SubmissionDecision::AwaitAcknowledgement,
        SubmissionOutcome::Disconnected => SubmissionDecision::WorkerStopped,
        SubmissionOutcome::QueueFull => if deadline_reached {
            SubmissionDecision::Busy
        } else {
            SubmissionDecision::Retry
        },
    }
}

/// What the runtime step does after waiting for an event.
#[derive(Clone, Copy, Debug, PartialEq, Eq, Structural)]
pub enum ReplyDecision {
    /// The worker acknowledged this shutdown: mark it disconnected; the step
    /// has the acknowledgement's result.
    Acknowledged,
    /// Nothing relevant arrived: wait again while the deadline allows.
    KeepWaiting,
    /// The worker is gone: mark it disconnected; the step succeeds.
    WorkerStopped,
}

/// Decides what follows one wait for the shutdown acknowledgement with ticket
/// `ticket`. `received` is the ticket of a received shutdown acknowledgement,
/// `None` for any other event, or the receive failure.
pub fn decide_reply(ticket: u64, received: Result<Option<u64>, RuntimeReceiveError>) -> (decision: ReplyDecision)
    ensures
        received == Ok::<Option<u64>, RuntimeReceiveError>(Some(ticket)) ==> decision == ReplyDecision::Acknowledged,
        received == Err::<Option<u64>, RuntimeReceiveError>(RuntimeReceiveError::Disconnected) ==> decision == ReplyDecision::WorkerStopped,
        (received == Err::<Option<u64>, RuntimeReceiveError>(RuntimeReceiveError::Timeout) || received == Ok::<Option<u64>, RuntimeReceiveError>(None)
            || (received matches Ok(Some(other)) && other != ticket)) ==> decision == ReplyDecision::KeepWaiting,
{
    match received {
        Ok(Some(acknowledged)) => if acknowledged == ticket {
            ReplyDecision::Acknowledged
        } else {
            ReplyDecision::KeepWaiting
        },
        Ok(None) | Err(RuntimeReceiveError::Timeout) => ReplyDecision::KeepWaiting,
        Err(RuntimeReceiveError::Disconnected) => ReplyDecision::WorkerStopped,
    }
}

} // verus!
