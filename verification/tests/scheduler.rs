use scientific_workflow::runtime::resource::{ResourceBudget, ResourceRequirement};
use scientific_workflow::runtime::scheduler::{
    next_admission_after, FailurePolicy, PhaseScheduler, PhaseStop, ReplicateCollector, ReplicateFailure,
    ReplicateOutcome,
};

#[test]
fn admission_respects_concurrency_and_declaration_order() {
    let mut scheduler: PhaseScheduler<&str, &str> = PhaseScheduler::new(3, 2, FailurePolicy::FailFast);
    assert!(scheduler.is_running());
    assert!(scheduler.may_admit());
    assert_eq!(scheduler.start_next(), 0);
    assert_eq!(scheduler.start_next(), 1);
    assert!(!scheduler.may_admit());
    assert_eq!(scheduler.next_task(), Some(2));
    scheduler.task_completed(1, 1, "b");
    assert!(scheduler.may_admit());
    assert_eq!(scheduler.start_next(), 2);
    scheduler.task_completed(2, 2, "c");
    scheduler.task_completed(0, 0, "a");
    assert!(!scheduler.is_running());
    match scheduler.finish() {
        Ok(summaries) => assert_eq!(summaries, vec!["a", "b", "c"]),
        Err(_) => panic!("expected success"),
    }
}

#[test]
fn fail_fast_drops_pending_tasks_and_signals_siblings() {
    let mut scheduler: PhaseScheduler<(), &str> = PhaseScheduler::new(4, 2, FailurePolicy::FailFast);
    scheduler.start_next();
    scheduler.start_next();
    assert!(scheduler.task_failed(0, "boom"));
    assert!(!scheduler.may_admit());
    assert_eq!(scheduler.next_task(), None);
    assert!(scheduler.task_failed(1, "cancelled"));
    assert!(!scheduler.is_running());
    assert!(matches!(scheduler.finish(), Err(PhaseStop::Failed("boom"))));
}

#[test]
fn finish_all_keeps_admitting_pending_work_after_a_failure() {
    let mut scheduler: PhaseScheduler<u32, &str> = PhaseScheduler::new(3, 2, FailurePolicy::FinishAll);
    scheduler.start_next();
    scheduler.start_next();
    assert!(!scheduler.task_failed(0, "first"));
    assert!(scheduler.may_admit());
    scheduler.task_completed(1, 1, 7);
    let third = scheduler.start_next();
    assert!(!scheduler.task_failed(third, "second"));
    assert!(matches!(scheduler.finish(), Err(PhaseStop::Failed("first"))));
}

#[test]
fn cancellation_takes_precedence_over_timeouts_and_failures() {
    let mut scheduler: PhaseScheduler<(), &str> = PhaseScheduler::new(2, 1, FailurePolicy::FinishAll);
    scheduler.start_next();
    assert!(scheduler.deadline_passed(true));
    assert!(scheduler.request_cancellation());
    assert!(!scheduler.request_cancellation());
    scheduler.task_failed(0, "late");
    assert!(matches!(scheduler.finish(), Err(PhaseStop::Cancelled)));
}

#[test]
fn a_deadline_with_nothing_left_does_not_time_out() {
    let mut scheduler: PhaseScheduler<(), &str> = PhaseScheduler::new(1, 1, FailurePolicy::FailFast);
    scheduler.start_next();
    assert!(!scheduler.deadline_passed(false));
    scheduler.task_completed(0, 0, ());
    assert!(scheduler.finish().is_ok());
}

#[test]
fn a_worker_that_does_not_start_decides_the_phase() {
    let mut scheduler: PhaseScheduler<(), &str> = PhaseScheduler::new(2, 2, FailurePolicy::FinishAll);
    let task = scheduler.start_next();
    scheduler.spawn_failed(task, "no thread");
    assert!(!scheduler.is_running());
    assert!(matches!(scheduler.finish(), Err(PhaseStop::Failed("no thread"))));
}

#[test]
fn parallel_replicates_ignore_cancellation_echoes_after_a_fail_fast_failure() {
    let mut collector: ReplicateCollector<u64, &str> = ReplicateCollector::new(FailurePolicy::FailFast);
    assert!(!collector.record_concurrent(2, ReplicateOutcome::Completed(20)));
    assert!(collector.record_concurrent(1, ReplicateOutcome::Failed { source: "boom", cancellation: false }));
    assert!(!collector.record_concurrent(0, ReplicateOutcome::Failed { source: "cancelled", cancellation: true }));
    match collector.finish() {
        Err(ReplicateFailure::Failed { index, source }) => {
            assert_eq!(index, 1);
            assert_eq!(source, "boom");
        }
        _ => panic!("expected the first failure"),
    }
}

#[test]
fn replicate_summaries_are_ordered_by_index() {
    let mut collector: ReplicateCollector<&str, &str> = ReplicateCollector::new(FailurePolicy::FinishAll);
    collector.record_concurrent(2, ReplicateOutcome::Completed("c"));
    collector.record_concurrent(0, ReplicateOutcome::Completed("a"));
    collector.record_concurrent(1, ReplicateOutcome::Completed("b"));
    match collector.finish() {
        Ok(summaries) => assert_eq!(summaries, vec!["a", "b", "c"]),
        Err(_) => panic!("expected success"),
    }
}

#[test]
fn sequential_replicates_stop_at_the_first_fail_fast_failure() {
    let mut collector: ReplicateCollector<u8, &str> = ReplicateCollector::new(FailurePolicy::FailFast);
    assert!(!collector.record_sequential(0, Ok(1)));
    assert!(collector.record_sequential(1, Err("boom")));
    let mut finish_all: ReplicateCollector<u8, &str> = ReplicateCollector::new(FailurePolicy::FinishAll);
    assert!(!finish_all.record_sequential(0, Err("first")));
    assert!(!finish_all.record_sequential(1, Err("second")));
    finish_all.join_panicked(3);
    assert!(matches!(finish_all.finish(), Err(ReplicateFailure::Failed { index: 0, source: "first" })));
}

#[test]
fn a_panicked_replicate_is_reported_by_index() {
    let mut collector: ReplicateCollector<u8, &str> = ReplicateCollector::new(FailurePolicy::FinishAll);
    collector.record_concurrent(4, ReplicateOutcome::Panicked);
    assert!(matches!(collector.finish(), Err(ReplicateFailure::Panicked { index: 4 })));
}

#[test]
fn phase_fail_fast_cancels_an_active_sibling() {
    let mut scheduler: PhaseScheduler<&str, &str> = PhaseScheduler::new(2, 2, FailurePolicy::FailFast);
    assert_eq!(scheduler.start_next(), 0);
    assert_eq!(scheduler.start_next(), 1);
    assert!(scheduler.task_failed(0, "exit 7"));
    assert!(scheduler.is_running());
    scheduler.task_failed(1, "cancelled");
    assert!(matches!(scheduler.finish(), Err(PhaseStop::Failed("exit 7"))));
}

#[test]
fn phase_finish_all_allows_an_active_sibling_to_finish() {
    let mut scheduler: PhaseScheduler<&str, &str> = PhaseScheduler::new(2, 2, FailurePolicy::FinishAll);
    scheduler.start_next();
    scheduler.start_next();
    assert!(!scheduler.task_failed(0, "exit 7"));
    scheduler.task_completed(1, 1, "done");
    assert!(!scheduler.is_running());
    assert!(matches!(scheduler.finish(), Err(PhaseStop::Failed("exit 7"))));
}

#[test]
fn parallel_replicate_fail_fast_cancels_siblings_on_first_observed_failure() {
    let mut collector: ReplicateCollector<&str, &str> = ReplicateCollector::new(FailurePolicy::FailFast);
    assert!(collector.record_concurrent(0, ReplicateOutcome::Failed { source: "exit 9", cancellation: false }));
    assert!(!collector.record_concurrent(1, ReplicateOutcome::Failed { source: "cancelled", cancellation: true }));
    assert!(!collector.record_concurrent(2, ReplicateOutcome::Failed { source: "cancelled", cancellation: true }));
    assert!(matches!(collector.finish(), Err(ReplicateFailure::Failed { index: 0, source: "exit 9" })));
}

#[test]
fn parallel_replicate_finish_all_allows_successful_siblings_to_finish() {
    let mut collector: ReplicateCollector<&str, &str> = ReplicateCollector::new(FailurePolicy::FinishAll);
    assert!(!collector.record_concurrent(0, ReplicateOutcome::Failed { source: "exit 9", cancellation: false }));
    assert!(!collector.record_concurrent(2, ReplicateOutcome::Completed("done")));
    assert!(!collector.record_concurrent(1, ReplicateOutcome::Completed("done")));
    assert!(matches!(collector.finish(), Err(ReplicateFailure::Failed { index: 0, .. })));
}

#[test]
fn sequential_and_parallel_replicate_policies_have_distinct_admission() {
    let mut sequential: ReplicateCollector<u64, &str> = ReplicateCollector::new(FailurePolicy::FailFast);
    assert!(!sequential.record_sequential(0, Ok(0)));
    assert!(!sequential.record_sequential(1, Ok(1)));
    match sequential.finish() {
        Ok(summaries) => assert_eq!(summaries, vec![0, 1]),
        Err(_) => panic!("expected success"),
    }
    let mut parallel: ReplicateCollector<u64, &str> = ReplicateCollector::new(FailurePolicy::FailFast);
    assert!(!parallel.record_concurrent(1, ReplicateOutcome::Completed(1)));
    assert!(!parallel.record_concurrent(0, ReplicateOutcome::Completed(0)));
    match parallel.finish() {
        Ok(summaries) => assert_eq!(summaries, vec![0, 1]),
        Err(_) => panic!("expected success"),
    }
}

#[test]
fn admission_waits_for_the_start_interval_and_the_budget() {
    let mut scheduler: PhaseScheduler<(), &str> = PhaseScheduler::new(3, 3, FailurePolicy::FailFast);
    let mut budget = ResourceBudget::new(2);
    let external = ResourceRequirement::External { threads: 1 };
    let (first, lease) = scheduler.start_next_admitted(&mut budget, external, 0, 0).unwrap();
    assert_eq!(first, 0);
    let next = next_admission_after(0, Some(60));
    assert_eq!(next, 60);
    assert!(scheduler.start_next_admitted(&mut budget, external, 59, next).is_none());
    assert_eq!(scheduler.start_next_admitted(&mut budget, external, 60, next).unwrap().0, 1);
    assert!(scheduler.start_next_admitted(&mut budget, external, 200, 0).is_none());
    assert_eq!(scheduler.next_task(), Some(2));
    budget.release(lease);
    assert_eq!(scheduler.start_next_admitted(&mut budget, external, 200, 0).unwrap().0, 2);
    assert_eq!(next_admission_after(u128::MAX - 1, Some(5)), u128::MAX);
    assert_eq!(next_admission_after(7, None), 7);
}

#[test]
fn every_replicate_once_is_listed_in_full_and_in_index_order() {
    let mut collector: ReplicateCollector<u64, &str> = ReplicateCollector::new(FailurePolicy::FinishAll);
    for index in [3, 0, 4, 1, 2] {
        collector.record_concurrent(index, ReplicateOutcome::Completed(index * 10));
    }
    match collector.finish() {
        Ok(summaries) => assert_eq!(summaries, vec![0, 10, 20, 30, 40]),
        Err(_) => panic!("expected success"),
    }
}
