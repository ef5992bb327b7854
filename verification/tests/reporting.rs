use scientific_workflow::reporting::error::ReportingError;
use scientific_workflow::reporting::progress::{
    resolve_output, OutputMode, ProgressReporterBuilder, RegisteredProgressReporterBuilder, TaskStatus,
};
use scientific_workflow::runtime::phase::{PhaseId, TaskDisplayKind, TaskId, TaskKey};
use scientific_workflow::runtime::reporting::{
    CancellationToken, ProgressRegistry, SlotDeclaration, TaskStatus as RuntimeStatus,
};

fn key(phase: u64, task: &str) -> TaskKey {
    TaskKey::new(PhaseId::new(phase), TaskId::new(task.to_owned()))
}

fn registry() -> ProgressRegistry {
    ProgressRegistry::register(vec![(
        PhaseId::new(1),
        vec![
            SlotDeclaration { key: key(1, "sim"), label: "simulate".to_owned(), kind: TaskDisplayKind::Progress },
            SlotDeclaration { key: key(1, "plot"), label: "plot".to_owned(), kind: TaskDisplayKind::Activity },
        ],
    )])
    .unwrap()
}

#[test]
fn progress_moves_forward_within_its_target() {
    let mut registry = registry();
    let slot = registry.start_progress(&key(1, "sim"), 5, Some(10)).unwrap();
    assert_eq!(registry.status(slot), RuntimeStatus::Running);
    assert!(matches!(
        registry.set_iteration(slot, 11),
        Err(ReportingError::IterationBeyondTarget { iteration: 11, target: 10, .. })
    ));
    registry.set_iteration(slot, 7).unwrap();
    assert!(matches!(
        registry.set_iteration(slot, 6),
        Err(ReportingError::IterationRegressed { current: 7, attempted: 6, .. })
    ));
    assert_eq!(registry.current_iteration(slot), 7);
    assert!(registry.should_continue(slot, 9, false).unwrap());
    assert!(!registry.should_continue(slot, 9, true).unwrap());
    assert!(!registry.should_continue(slot, 10, false).unwrap());
    registry.complete_progress(slot, None).unwrap();
    assert_eq!(registry.status(slot), RuntimeStatus::Completed);
}

#[test]
fn completion_before_the_target_needs_a_reason() {
    let mut registry = registry();
    let slot = registry.start_progress(&key(1, "sim"), 0, Some(10)).unwrap();
    assert!(matches!(
        registry.complete_progress(slot, None),
        Err(ReportingError::TargetIterationNotReached { current: 0, target: 10, .. })
    ));
    assert_eq!(registry.status(slot), RuntimeStatus::Failed);

    let mut registry = self::registry();
    let slot = registry.start_progress(&key(1, "sim"), 0, Some(10)).unwrap();
    registry.complete_progress(slot, Some("converged".to_owned())).unwrap();
    assert_eq!(registry.status(slot), RuntimeStatus::Completed);
}

#[test]
fn tasks_start_once_with_their_own_kind() {
    let mut registry = registry();
    assert!(matches!(
        registry.start_activity(&key(1, "sim")),
        Err(ReportingError::ManagedTaskKindMismatch { requested: "activity", actual: "progress", .. })
    ));
    match registry.start_progress(&key(2, "sim"), 0, None) {
        Err(ReportingError::UnknownManagedTask { task }) => assert_eq!(task, "2/sim"),
        _ => panic!("expected an unknown task"),
    }
    assert!(matches!(
        registry.start_progress(&key(1, "sim"), 3, Some(2)),
        Err(ReportingError::InitialIterationBeyondTarget { initial: 3, target: 2, .. })
    ));
    let activity = registry.start_activity(&key(1, "plot")).unwrap();
    assert!(matches!(registry.start_activity(&key(1, "plot")), Err(ReportingError::TaskAlreadyStarted { .. })));
    registry.interrupt(activity);
    assert_eq!(registry.status(activity), RuntimeStatus::Failed);
}

#[test]
fn summaries_count_every_status_and_success_needs_all_done() {
    let mut registry = registry();
    registry.mark_reused(&key(1, "sim")).unwrap();
    let summary = registry.summary();
    assert_eq!(summary.total(), 2);
    assert_eq!(summary.reused(), 1);
    assert_eq!(summary.pending(), 1);
    assert!(!summary.is_success());
    match registry.check_success() {
        Err(ReportingError::IncompleteProgress { pending, running, failed }) => {
            assert_eq!((pending, running, failed), (1, 0, 0));
        }
        _ => panic!("expected incomplete progress"),
    }
    let activity = registry.start_activity(&key(1, "plot")).unwrap();
    registry.complete_activity(activity);
    let summary = registry.check_success().unwrap();
    assert!(summary.is_success());
    assert_eq!(summary.completed(), 1);
}

#[test]
fn duplicate_phase_ids_are_rejected() {
    let result = ProgressRegistry::register(vec![(PhaseId::new(3), vec![]), (PhaseId::new(3), vec![])]);
    assert!(matches!(result, Err(ReportingError::DuplicatePhaseId { phase: 3 })));
    assert!(matches!(ProgressRegistry::register(vec![]), Err(ReportingError::EmptyPhaseSet)));
}

#[test]
fn statuses_have_stable_names_and_codes() {
    assert_eq!(RuntimeStatus::Reused.as_str(), "reused");
    assert_eq!(RuntimeStatus::decode(RuntimeStatus::Failed.encode()), RuntimeStatus::Failed);
    assert_eq!(TaskStatus::Completed.label(), "completed");
    assert_eq!(TaskStatus::decode(TaskStatus::Running.encode()), TaskStatus::Running);
}

#[test]
fn registered_tasks_reject_duplicates_and_reuse_only_pending_tasks() {
    let builder = RegisteredProgressReporterBuilder::for_registered_tasks(vec!["a".to_owned(), "a".to_owned()]);
    assert!(matches!(builder.build_registry(), Err(ReportingError::DuplicateRegisteredTask { .. })));

    let builder = RegisteredProgressReporterBuilder::for_registered_tasks(vec!["a".to_owned(), "b".to_owned()]).hidden();
    assert_eq!(builder.output(), OutputMode::Hidden);
    let mut registry = builder.build_registry().unwrap();
    registry.mark_registered_reused("a").unwrap();
    assert!(matches!(registry.mark_registered_reused("a"), Err(ReportingError::TaskAlreadyStarted { .. })));
    assert!(matches!(
        registry.start_registered_task("missing", 0, None),
        Err(ReportingError::UnknownRegisteredTask { .. })
    ));
    let slot = registry.start_registered_task("b", 0, Some(1_000)).unwrap();
    registry.set_iteration(slot, 1_000).unwrap();
    registry.complete_progress(slot, None).unwrap();
    let summary = registry.check_success().unwrap();
    assert_eq!(summary.total(), 2);
    assert_eq!(summary.completed(), 2);
    assert!(summary.is_success());
}

#[test]
fn builders_select_output_modes() {
    let builder = ProgressReporterBuilder::new().identify_tasks_by(vec!["temperature".to_owned()]).plain();
    assert_eq!(builder.output(), OutputMode::Plain);
    assert_eq!(ProgressReporterBuilder::new().terminal().output(), OutputMode::Terminal);
    assert_eq!(resolve_output(OutputMode::Auto, true, true), OutputMode::Terminal);
    assert_eq!(resolve_output(OutputMode::Auto, true, false), OutputMode::Plain);
    assert_eq!(resolve_output(OutputMode::Hidden, true, true), OutputMode::Hidden);
}

#[test]
fn cancellation_tokens_share_one_flag() {
    let token = CancellationToken::new();
    let observer = token.share();
    assert!(!observer.is_cancelled());
    token.cancel();
    assert!(observer.is_cancelled());
}
