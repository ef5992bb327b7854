use scientific_workflow::runtime::error::RuntimeError;
use scientific_workflow::runtime::execution::{
    conclude_execution, ensemble_progress, execution_end, finish_task, gathering_requirement, panic_reason,
    settle_finished_task, task_exceeded_timeout, tasks_per_replicate, ExecutionEnd, TaskFinish, WorkloadReturn,
};
use scientific_workflow::runtime::resource::ResourceRequirement;

#[test]
fn ensemble_clock_is_not_multiplied_by_member_count() {
    assert_eq!(
        ensemble_progress(&[100; 12], &[Some(36_000); 12]),
        (100, Some(36_000))
    );
}

#[test]
fn early_finished_members_do_not_hold_back_the_clock() {
    assert_eq!(
        ensemble_progress(&[10, 100], &[Some(10), Some(36_000)]),
        (100, Some(36_000))
    );
}

#[test]
fn unknown_targets_remain_unknown() {
    assert_eq!(
        ensemble_progress(&[10, 100], &[Some(36_000), None]),
        (100, None)
    );
}

#[test]
fn completion_timestamp_controls_task_timeout_classification() {
    let started: u128 = 1_000_000;
    let timeout: u128 = 20_000_000;

    assert!(!task_exceeded_timeout(started, started + 19_000_000, timeout));
    assert!(task_exceeded_timeout(started, started + timeout, timeout));
}

#[test]
fn an_empty_ensemble_has_no_target() {
    assert_eq!(ensemble_progress(&[], &[]), (0, None));
}

#[test]
fn panic_reasons_are_bounded_and_default_for_non_text_payloads() {
    assert_eq!(panic_reason(Some("boom")), "boom");
    assert_eq!(panic_reason(None), "non-string panic payload");
    let long = "x".repeat(1_100);
    let reason = panic_reason(Some(&long));
    assert_eq!(reason.chars().count(), 1_025);
    assert!(reason.ends_with('…'));
}

#[test]
fn task_finishes_record_their_reason() {
    assert!(matches!(finish_task(WorkloadReturn::Succeeded, false), TaskFinish::Completed));
    match finish_task(WorkloadReturn::Succeeded, true) {
        TaskFinish::Cancelled { reason } => assert_eq!(reason, "runtime cancellation requested"),
        other => panic!("unexpected {other:?}"),
    }
    match finish_task(WorkloadReturn::Failed { reason: "bad input".to_owned() }, true) {
        TaskFinish::Failed { reason } => assert_eq!(reason, "bad input"),
        other => panic!("unexpected {other:?}"),
    }
    match finish_task(WorkloadReturn::Panicked { message: None }, false) {
        TaskFinish::Panicked { reason } => assert_eq!(reason, "task panicked: non-string panic payload"),
        other => panic!("unexpected {other:?}"),
    }
    match finish_task(WorkloadReturn::Panicked { message: Some("boom".to_owned()) }, false) {
        TaskFinish::Panicked { reason } => assert_eq!(reason, "task panicked: boom"),
        other => panic!("unexpected {other:?}"),
    }
}

#[test]
fn executions_end_cancelled_completed_or_failed() {
    assert_eq!(execution_end(true, false, false), ExecutionEnd::Completed);
    assert_eq!(execution_end(true, false, true), ExecutionEnd::Cancelled);
    assert_eq!(execution_end(false, true, false), ExecutionEnd::Cancelled);
    assert_eq!(execution_end(false, false, false), ExecutionEnd::Failed);
    assert_eq!(tasks_per_replicate(&[2, 0, 5]), 7);
    assert_eq!(tasks_per_replicate(&[]), 0);
}

#[test]
fn gathering_reserves_the_smallest_of_phase_study_and_recording_threads() {
    assert_eq!(gathering_requirement(4, 8, 6), ResourceRequirement::External { threads: 4 });
    assert_eq!(gathering_requirement(8, 3, 6), ResourceRequirement::External { threads: 3 });
    assert_eq!(gathering_requirement(4, 8, 2), ResourceRequirement::External { threads: 2 });
    assert_eq!(gathering_requirement(4, 8, 0), ResourceRequirement::External { threads: 1 });
}

#[test]
fn a_task_past_its_timeout_fails_with_the_timeout_whatever_it_returned() {
    let late: Result<u32, RuntimeError> = settle_finished_task("a".to_owned(), Some(Ok(7)), true, 50);
    assert!(matches!(late, Err(RuntimeError::TaskTimedOut { task, timeout_ns: 50 }) if task == "a"));
    let late_panic: Result<u32, RuntimeError> = settle_finished_task("a".to_owned(), None, true, 50);
    assert!(matches!(late_panic, Err(RuntimeError::TaskTimedOut { .. })));
    let panicked: Result<u32, RuntimeError> = settle_finished_task("b".to_owned(), None, false, 50);
    assert!(matches!(panicked, Err(RuntimeError::TaskPanicked { task }) if task == "b"));
    let done: Result<u32, RuntimeError> = settle_finished_task("c".to_owned(), Some(Ok(7)), false, 50);
    assert!(matches!(done, Ok(7)));
    let failed: Result<u32, RuntimeError> =
        settle_finished_task("d".to_owned(), Some(Err(RuntimeError::TaskCancelled { task: "d".to_owned() })), false, 50);
    assert!(matches!(failed, Err(RuntimeError::TaskCancelled { task }) if task == "d"));
}

#[test]
fn a_cancellation_seen_at_the_end_replaces_the_execution_result() {
    let (end, result) = conclude_execution(Ok::<u32, RuntimeError>(3), true);
    assert_eq!(end, ExecutionEnd::Cancelled);
    assert!(matches!(result, Err(RuntimeError::ExecutionCancelled)));
    let (end, result) = conclude_execution(Ok::<u32, RuntimeError>(3), false);
    assert_eq!(end, ExecutionEnd::Completed);
    assert!(matches!(result, Ok(3)));
    let (end, result) = conclude_execution(Err::<u32, RuntimeError>(RuntimeError::ExecutionCancelled), false);
    assert_eq!(end, ExecutionEnd::Cancelled);
    assert!(matches!(result, Err(RuntimeError::ExecutionCancelled)));
    let failure = RuntimeError::ReplicatePanicked { index: 1 };
    let (end, result) = conclude_execution(Err::<u32, RuntimeError>(failure), false);
    assert_eq!(end, ExecutionEnd::Failed);
    assert!(matches!(result, Err(RuntimeError::ReplicatePanicked { index: 1 })));
}
