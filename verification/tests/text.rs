use scientific_workflow::digest::lowercase_hex;
use scientific_workflow::runtime::error::{phase_error, RuntimeError};
use scientific_workflow::runtime::phase::{PhaseFailurePolicy, PhaseId, TaskDisplayKind, TaskId, TaskKey};
use scientific_workflow::runtime::scheduler::PhaseStop;
use scientific_workflow::runtime::summary::{MemberRunSummary, TaskRunKind, TaskRunSummary};
use scientific_workflow::text::{bounded_text, decimal_text, is_blank_text, trim_owned};

#[test]
fn text_helpers_trim_measure_and_render() {
    assert_eq!(trim_owned("\u{a0} a b \n"), "a b");
    assert!(is_blank_text(" \t\u{2028}"));
    assert!(!is_blank_text(" x "));
    assert_eq!(bounded_text("abcdef", 3), "abc…");
    assert_eq!(bounded_text("abc", 3), "abc");
    assert_eq!(decimal_text(0), "0");
    assert_eq!(decimal_text(18_446_744_073_709_551_615), "18446744073709551615");
    assert_eq!(lowercase_hex(&[0x00, 0xab, 0x7f]), "00ab7f");
}

#[test]
fn identities_render_and_compare() {
    let key = TaskKey::new(PhaseId::new(12), TaskId::new("run".to_owned()));
    assert_eq!(key.phase_id().get(), 12);
    assert_eq!(key.task_id().as_str(), "run");
    assert_eq!(key.to_text(), "12/run");
    assert!(key.same_as(&key.clone()));
    assert_eq!(PhaseId::from(5u64), PhaseId::new(5));
    assert_eq!(PhaseFailurePolicy::default().as_str(), "fail-fast");
    assert_eq!(PhaseFailurePolicy::FinishActive.as_str(), "finish-active");
    assert_eq!(TaskDisplayKind::Activity.as_str(), "activity");
}

#[test]
fn task_summaries_report_the_furthest_member() {
    let members = vec![
        MemberRunSummary::new("a".to_owned(), 10, "m/a".to_owned()),
        MemberRunSummary::new("b".to_owned(), 30, "m/b".to_owned()),
        MemberRunSummary::new("c".to_owned(), 20, "m/c".to_owned()),
    ];
    let task = TaskRunSummary::new(
        "t".to_owned(),
        TaskRunKind::ExecutionUnit { execution_unit: "unit".to_owned(), members },
        "out".to_owned(),
        2,
    );
    assert_eq!(task.final_iteration(), Some(30));
    assert_eq!(task.configuration(), 2);
    let program = TaskRunSummary::new(
        "p".to_owned(),
        TaskRunKind::Program { executable: "/bin/true".to_owned(), python_script: None },
        "out".to_owned(),
        0,
    );
    assert_eq!(program.final_iteration(), None);
}

#[test]
fn phase_stops_become_runtime_errors() {
    assert!(matches!(phase_error(PhaseStop::Cancelled, "p", 5), RuntimeError::ExecutionCancelled));
    match phase_error(PhaseStop::TimedOut, "p", 5) {
        RuntimeError::PhaseTimedOut { phase, timeout_ns } => {
            assert_eq!(phase, "p");
            assert_eq!(timeout_ns, 5);
        }
        _ => panic!("expected a phase timeout"),
    }
    let failure = RuntimeError::TaskPanicked { task: "t".to_owned() };
    assert!(matches!(phase_error(PhaseStop::Failed(failure), "p", 5), RuntimeError::TaskPanicked { .. }));
}
