//! Cooperative shutdown decisions.

use llm_app::runtime::errors::{MemoryKind, RuntimeReceiveError, RuntimeSubmitError};
use llm_app::runtime::shutdown::{
    ApplicationWorker, ReplyDecision, ShutdownAction, ShutdownEvent, ShutdownState, ShutdownStep,
    SubmissionDecision, SubmissionOutcome, decide_reply, decide_submission, record_first_error,
    shutdown,
};

fn run(outcomes: [Result<(), ApplicationWorker>; 4]) -> (Vec<ShutdownStep>, Result<(), ApplicationWorker>) {
    let mut performed = Vec::new();
    let (mut state, mut action) = shutdown(
        ShutdownState::Idle,
        ShutdownEvent::Requested {
            already_shutting_down: false,
        },
    );
    let mut outcomes = outcomes.into_iter();
    loop {
        match action {
            ShutdownAction::Perform(step) => {
                performed.push(step);
                let outcome = outcomes.next().expect("one outcome per step");
                let (next_state, next_action) = shutdown(state, ShutdownEvent::StepCompleted(outcome));
                state = next_state;
                action = next_action;
            }
            ShutdownAction::Return(result) => return (performed, result),
        }
    }
}

#[test]
fn every_step_runs_and_the_first_failure_is_returned() {
    let all_steps = vec![
        ShutdownStep::RequestHubShutdown,
        ShutdownStep::ShutdownRuntime,
        ShutdownStep::JoinRuntimeWorker,
        ShutdownStep::JoinHubWorker,
    ];
    assert_eq!(run([Ok(()), Ok(()), Ok(()), Ok(())]), (all_steps.clone(), Ok(())));
    assert_eq!(
        run([
            Ok(()),
            Err(ApplicationWorker::Inference),
            Ok(()),
            Err(ApplicationWorker::Hub)
        ]),
        (all_steps.clone(), Err(ApplicationWorker::Inference))
    );
    assert_eq!(
        run([Err(ApplicationWorker::Hub), Ok(()), Err(ApplicationWorker::Inference), Ok(())]),
        (all_steps, Err(ApplicationWorker::Hub))
    );
}

#[test]
fn repeated_shutdown_returns_immediately() {
    let (state, action) = shutdown::<ApplicationWorker>(
        ShutdownState::Idle,
        ShutdownEvent::Requested {
            already_shutting_down: true,
        },
    );
    assert!(matches!(state, ShutdownState::Finished));
    assert!(matches!(action, ShutdownAction::Return(Ok(()))));
}

#[test]
fn only_the_first_error_is_recorded() {
    let mut first = None;
    record_first_error(&mut first, None);
    assert_eq!(first, None);
    record_first_error(&mut first, Some(1));
    record_first_error(&mut first, Some(2));
    assert_eq!(first, Some(1));
}

#[test]
fn submission_retries_until_the_deadline() {
    assert_eq!(
        decide_submission(SubmissionOutcome::Accepted, true),
        SubmissionDecision::AwaitAcknowledgement
    );
    assert_eq!(
        decide_submission(SubmissionOutcome::QueueFull, false),
        SubmissionDecision::Retry
    );
    assert_eq!(
        decide_submission(SubmissionOutcome::QueueFull, true),
        SubmissionDecision::Busy
    );
    assert_eq!(
        decide_submission(SubmissionOutcome::Disconnected, false),
        SubmissionDecision::WorkerStopped
    );
}

#[test]
fn only_the_matching_acknowledgement_ends_the_wait() {
    assert_eq!(decide_reply(7, Ok(Some(7))), ReplyDecision::Acknowledged);
    assert_eq!(decide_reply(7, Ok(Some(6))), ReplyDecision::KeepWaiting);
    assert_eq!(decide_reply(7, Ok(None)), ReplyDecision::KeepWaiting);
    assert_eq!(
        decide_reply(7, Err(RuntimeReceiveError::Timeout)),
        ReplyDecision::KeepWaiting
    );
    assert_eq!(
        decide_reply(7, Err(RuntimeReceiveError::Disconnected)),
        ReplyDecision::WorkerStopped
    );
}

#[test]
fn runtime_errors_keep_their_payload() {
    let full: RuntimeSubmitError<u8> = RuntimeSubmitError::Full(3);
    assert!(matches!(full, RuntimeSubmitError::Full(3)));
    let gone: RuntimeSubmitError<u8> = RuntimeSubmitError::Disconnected(4);
    assert!(matches!(gone, RuntimeSubmitError::Disconnected(4)));
    assert_ne!(MemoryKind::Host, MemoryKind::Device);
}
