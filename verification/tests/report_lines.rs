use scientific_workflow::runtime::phase::{PhaseId, TaskDisplayKind, TaskId, TaskKey};
use scientific_workflow::runtime::report_lines::{
    executed, heading_starts, heading_text, run_line, shows_detail, task_line,
};
use scientific_workflow::runtime::reporting::{ProgressRegistry, SlotDeclaration, TaskStatus};

fn key(phase: u64, task: &str) -> TaskKey {
    TaskKey::new(PhaseId::new(phase), TaskId::new(task.to_owned()))
}

fn registry() -> ProgressRegistry {
    ProgressRegistry::register(vec![
        (
            PhaseId::new(1),
            vec![
                SlotDeclaration { key: key(1, "sim:0"), label: "sim a=1".to_owned(), kind: TaskDisplayKind::Progress },
                SlotDeclaration { key: key(1, "sim:1"), label: "sim a=2".to_owned(), kind: TaskDisplayKind::Progress },
            ],
        ),
        (
            PhaseId::new(2),
            vec![SlotDeclaration { key: key(2, "plot:0"), label: "plot".to_owned(), kind: TaskDisplayKind::Activity }],
        ),
    ])
    .unwrap()
}

#[test]
fn task_lines_name_the_key_status_detail_and_progress() {
    assert_eq!(
        task_line("1/sim:0", TaskStatus::Running, "step", 12, Some(40)),
        "[task] identity=1/sim:0 status=running detail=step iteration=12 target=40"
    );
    assert_eq!(
        task_line("2/plot:0", TaskStatus::Reused, "reused", 0, None),
        "[task] identity=2/plot:0 status=reused detail=reused iteration=0 target=unknown"
    );
}

#[test]
fn the_run_line_counts_every_status() {
    let mut registry = registry();
    let sim = registry.start_progress(&key(1, "sim:0"), 0, None).unwrap();
    registry.complete_progress(sim, None).unwrap();
    registry.mark_reused(&key(2, "plot:0")).unwrap();
    let summary = registry.summary();
    assert_eq!(
        run_line(false, &summary, "stopped"),
        "[workflow] status=failed tasks=3 completed=1 reused=1 failed=0 pending=1 message=stopped"
    );
    assert_eq!(heading_text(&summary), "pending · running=0 pending=1 completed=1 reused=1 failed=0");
}

#[test]
fn headings_report_failures_before_running_and_pending_work() {
    let mut registry = registry();
    let first = registry.start_progress(&key(1, "sim:0"), 0, None).unwrap();
    assert!(heading_text(&registry.summary()).starts_with("running ·"));
    registry.fail(first, "boom".to_owned());
    assert!(heading_text(&registry.summary()).starts_with("failed ·"));
}

#[test]
fn details_are_shown_only_when_they_add_something() {
    assert!(!shows_detail(TaskStatus::Pending, "pending"));
    assert!(!shows_detail(TaskStatus::Running, ""));
    assert!(shows_detail(TaskStatus::Running, "warming up"));
    assert!(shows_detail(TaskStatus::Completed, "pending"));
}

#[test]
fn only_started_work_has_executed() {
    assert!(!executed(TaskStatus::Pending));
    assert!(!executed(TaskStatus::Reused));
    assert!(executed(TaskStatus::Running));
    assert!(executed(TaskStatus::Completed));
    assert!(executed(TaskStatus::Failed));
}

#[test]
fn a_heading_starts_wherever_the_phase_label_changes() {
    let labels: Vec<String> = ["simulate", "simulate", "plot", "simulate"].iter().map(|s| s.to_string()).collect();
    assert_eq!(heading_starts(&labels), vec![0, 2, 3]);
    assert!(heading_starts(&[]).is_empty());
}

#[test]
fn registry_rows_expose_key_label_kind_and_detail() {
    let registry = registry();
    assert_eq!(registry.key(2).to_text(), "2/plot:0");
    assert_eq!(registry.label(1), "sim a=2");
    assert_eq!(registry.kind(2), TaskDisplayKind::Activity);
    assert_eq!(registry.detail(0), "pending");
}
