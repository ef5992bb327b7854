use scientific_workflow::reporting::lines::{final_line, plain_message, status_changes, status_text, transition_line};
use scientific_workflow::reporting::progress::{RegisteredProgressReporterBuilder, TaskStatus};
use scientific_workflow::runtime::members::{member_directory_name, records_in_task_directory, MemberTracker};

#[test]
fn member_recordings_are_named_by_index() {
    assert_eq!(member_directory_name(3), "member-000003");
    assert!(records_in_task_directory(1));
    assert!(!records_in_task_directory(2));
}

#[test]
fn the_tracker_sizes_itself_and_summarizes_every_member() {
    let mut tracker = MemberTracker::new();
    tracker.begin(1, 2, "b".to_owned(), "/t/members/member-000001".to_owned(), 5, Some(10));
    assert_eq!(tracker.len(), 2);
    assert_eq!(tracker.progress(), (5, None));
    assert!(tracker.summaries().is_none());
    tracker.begin(0, 2, "a".to_owned(), "/t/members/member-000000".to_owned(), 0, Some(20));
    tracker.step(0, 7, Some(20));
    assert_eq!(tracker.progress(), (7, Some(20)));
    let summaries = tracker.summaries().unwrap();
    assert_eq!(summaries.len(), 2);
    assert_eq!(summaries[0].identity(), "a");
    assert_eq!(summaries[0].final_iteration(), 7);
    assert_eq!(summaries[1].output_directory(), "/t/members/member-000001");
}

#[test]
fn plain_lines_report_transitions_and_the_final_summary() {
    assert_eq!(
        transition_line("sim rate=1", TaskStatus::Running, "warmup", 3, None),
        "[task] identity=sim rate=1 status=running phase=warmup iteration=3 target=unknown"
    );
    assert_eq!(
        transition_line("x", TaskStatus::Completed, "", 10, Some(10)),
        "[task] identity=x status=completed phase= iteration=10 target=10"
    );
    assert_eq!(status_text(TaskStatus::Running, ""), "running");
    assert_eq!(status_text(TaskStatus::Running, "running"), "running");
    assert_eq!(status_text(TaskStatus::Running, "warmup"), "running: warmup");
    assert_eq!(plain_message("hello"), "[progress] hello");
    assert_eq!(
        status_changes(&[TaskStatus::Pending, TaskStatus::Running], &[TaskStatus::Running, TaskStatus::Running]),
        vec![0]
    );
    let registry = RegisteredProgressReporterBuilder::for_registered_tasks(vec!["a".to_owned(), "b".to_owned()])
        .build_registry()
        .unwrap();
    let summary = registry.summary();
    assert_eq!(
        final_line(false, &summary, "stopped"),
        "[workflow] status=failed tasks=2 completed=0 failed=0 pending=2 message=stopped"
    );
}
