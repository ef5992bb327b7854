use scientific_workflow::reporting::error::ReportingError;
use scientific_workflow::runtime::execution_plan::{plan_format, ExecutionPlan};
use scientific_workflow::runtime::phase::{PhaseFailurePolicy, PhaseId, TaskDisplayKind, TaskId};
use scientific_workflow::runtime::phase_builder::{
    append_compact_value, render_label, task_id_text, ParameterValue, Phase, PhaseBuilder,
};
use scientific_workflow::runtime::selector::TaskSelector;

fn scalar(json: &str) -> ParameterValue {
    ParameterValue::Scalar { json: json.to_owned() }
}

fn params(entries: &[(&str, &str)]) -> Vec<(String, ParameterValue)> {
    entries.iter().map(|(k, v)| ((*k).to_owned(), scalar(v))).collect()
}

fn two_rates() -> PhaseBuilder {
    Phase::builder(PhaseId::new(2), "Simulate".to_owned())
        .configuration_task("sim".to_owned(), 0, TaskDisplayKind::Progress, params(&[("rate", "1"), ("n", "5")]), false)
        .configuration_task("sim".to_owned(), 1, TaskDisplayKind::Progress, params(&[("rate", "2"), ("n", "5")]), false)
}

#[test]
fn task_ids_join_kind_and_ordinal() {
    assert_eq!(task_id_text("sim", 12), "sim:12");
}

#[test]
fn labels_show_only_the_varying_parameters() {
    let phase = two_rates().build().unwrap();
    let labels: Vec<&str> = phase.tasks().iter().map(|t| t.label()).collect();
    assert_eq!(labels, vec!["sim rate=1", "sim rate=2"]);
    assert_eq!(phase.tasks()[0].display_keys().unwrap(), &["rate".to_owned()][..]);
    assert_eq!(phase.tasks()[0].id(), "sim:0");
    assert_eq!(phase.tasks()[1].key().to_text(), "2/sim:1");
}

#[test]
fn a_single_task_is_labelled_by_its_kind() {
    let phase = Phase::builder(PhaseId::new(1), "Prepare".to_owned())
        .configuration_task("prep".to_owned(), 0, TaskDisplayKind::Activity, params(&[("x", "1")]), false)
        .build()
        .unwrap();
    assert_eq!(phase.tasks()[0].label(), "prep");
}

#[test]
fn identical_parameters_fall_back_to_task_ids() {
    let phase = Phase::builder(PhaseId::new(1), "Repeat".to_owned())
        .configuration_task("run".to_owned(), 0, TaskDisplayKind::Activity, params(&[("x", "1")]), false)
        .configuration_task("run".to_owned(), 1, TaskDisplayKind::Activity, params(&[("x", "1")]), false)
        .build()
        .unwrap();
    assert_eq!(phase.tasks()[0].label(), "run id=run:0");
    assert_eq!(phase.tasks()[1].label(), "run id=run:1");
}

#[test]
fn requested_display_keys_replace_the_varying_keys() {
    let phase = two_rates().display_tasks_by("sim".to_owned(), vec!["n".to_owned(), "rate".to_owned()]).build().unwrap();
    assert_eq!(phase.tasks()[0].label(), "sim n=5 rate=1");
}

#[test]
fn requested_keys_that_do_not_separate_tasks_collide() {
    let err = two_rates().display_tasks_by("sim".to_owned(), vec!["n".to_owned()]).build().unwrap_err();
    match err {
        ReportingError::ManagedTaskDisplayCollision { label, first, second } => {
            assert_eq!(label, "sim n=5");
            assert_eq!(first, "2/sim:0");
            assert_eq!(second, "2/sim:1");
        }
        other => panic!("unexpected error {other:?}"),
    }
}

#[test]
fn display_keys_for_an_unknown_kind_are_rejected() {
    let err = two_rates().display_tasks_by("other".to_owned(), vec!["n".to_owned()]).build().unwrap_err();
    assert!(matches!(err, ReportingError::UnknownManagedTaskKind { kind } if kind == "other"));
}

#[test]
fn repeated_or_missing_display_keys_are_rejected() {
    let err = two_rates().display_tasks_by("sim".to_owned(), vec!["n".to_owned(), "n".to_owned()]).build().unwrap_err();
    assert!(matches!(err, ReportingError::DuplicateIdentityParameter { key } if key == "n"));
    let err = two_rates().display_tasks_by("sim".to_owned(), vec!["missing".to_owned()]).build().unwrap_err();
    assert!(matches!(err, ReportingError::UnknownIdentityParameter { key } if key == "missing"));
}

#[test]
fn tasks_of_one_kind_must_share_parameter_keys() {
    let err = Phase::builder(PhaseId::new(3), "Mixed".to_owned())
        .configuration_task("sim".to_owned(), 0, TaskDisplayKind::Progress, params(&[("a", "1")]), false)
        .configuration_task("sim".to_owned(), 1, TaskDisplayKind::Progress, params(&[("b", "1")]), false)
        .build()
        .unwrap_err();
    assert!(matches!(err, ReportingError::InconsistentManagedTaskParameters { kind, .. } if kind == "sim"));
}

#[test]
fn phase_settings_are_validated_in_order() {
    let err = Phase::builder(PhaseId::new(4), "  ".to_owned()).build().unwrap_err();
    assert!(matches!(err, ReportingError::InvalidPhaseLabel { phase: 4 }));
    let err = Phase::builder(PhaseId::new(4), "Empty".to_owned()).build().unwrap_err();
    assert!(matches!(err, ReportingError::EmptyPhase { phase: 4 }));
    let err = two_rates().max_active_tasks(0).build().unwrap_err();
    assert!(matches!(err, ReportingError::InvalidPhaseWorkloadLimit { phase: 2 }));
    let err = two_rates().prepared_task_queue_capacity(0).build().unwrap_err();
    assert!(matches!(err, ReportingError::InvalidPhaseQueueCapacity { phase: 2 }));
    let err = two_rates().task_timeout(0).build().unwrap_err();
    assert!(matches!(err, ReportingError::InvalidPhaseTiming { phase: 2, setting: "task_timeout" }));
    let err = two_rates().deadline_after(u128::MAX).build().unwrap_err();
    assert!(matches!(err, ReportingError::InvalidPhaseTiming { phase: 2, setting: "deadline_after" }));
}

#[test]
fn duplicate_task_ids_and_blank_kinds_are_rejected() {
    let err = two_rates()
        .configuration_task("sim".to_owned(), 1, TaskDisplayKind::Progress, params(&[("rate", "3"), ("n", "5")]), false)
        .build()
        .unwrap_err();
    assert!(matches!(err, ReportingError::DuplicateManagedTaskId { phase: 2, task } if task == "sim:1"));
    let err = Phase::builder(PhaseId::new(5), "Blank".to_owned())
        .configuration_task(" ".to_owned(), 0, TaskDisplayKind::Activity, Vec::new(), false)
        .build()
        .unwrap_err();
    assert!(matches!(err, ReportingError::InvalidManagedTaskKind { task } if task == " :0"));
}

#[test]
fn self_and_repeated_dependencies_are_cycles() {
    let err = two_rates().depends_on(PhaseId::new(2)).build().unwrap_err();
    assert!(matches!(err, ReportingError::PhaseDependencyCycle { phase: 2 }));
    let err = two_rates().depends_on(PhaseId::new(1)).depends_on(PhaseId::new(1)).build().unwrap_err();
    assert!(matches!(err, ReportingError::PhaseDependencyCycle { phase: 2 }));
}

#[test]
fn built_phases_keep_their_settings() {
    let phase = two_rates()
        .max_active_tasks(3)
        .prepared_task_queue_capacity(4)
        .delay_per_task(10)
        .task_timeout(1_000)
        .depends_on(PhaseId::new(1))
        .failure_policy(PhaseFailurePolicy::FinishActive)
        .require_confirm(true)
        .build()
        .unwrap();
    assert_eq!(phase.id().get(), 2);
    assert_eq!(phase.label(), "Simulate");
    assert_eq!(phase.max_active_tasks(), 3);
    assert_eq!(phase.prepared_task_queue_capacity(), 4);
    assert_eq!(phase.delay_per_task(), Some(10));
    assert_eq!(phase.task_timeout(), Some(1_000));
    assert_eq!(phase.deadline_after(), None);
    assert_eq!(phase.dependencies().len(), 1);
    assert_eq!(phase.failure_policy(), PhaseFailurePolicy::FinishActive);
    assert!(phase.requires_confirmation());
    assert_eq!(phase.task(&TaskId::new("sim:1".to_owned())).unwrap().label(), "sim rate=2");
    assert!(phase.task(&TaskId::new("sim:9".to_owned())).is_none());
}

#[test]
fn arrays_and_objects_are_labelled_by_size_and_digest() {
    let mut out = String::new();
    append_compact_value(&mut out, &ParameterValue::Array { len: 3, json: "[1,2,3]".to_owned() });
    assert_eq!(out, "<array:3:a615eeae>");
    let mut out = String::new();
    append_compact_value(&mut out, &ParameterValue::Object { len: 1, json: "{\"a\":1}".to_owned() });
    assert_eq!(out, "<object:1:015abd7f>");
    let label = render_label("k", &params(&[("s", "\"x\"")]), &vec!["s".to_owned()], "k:0", true);
    assert_eq!(label, "k s=\"x\" id=k:0");
}

#[test]
fn selectors_find_exactly_one_task() {
    let phase = two_rates().build().unwrap();
    let selector = TaskSelector::new().phase(PhaseId::new(2)).kind("sim".to_owned()).parameter("rate".to_owned(), scalar("2"));
    assert_eq!(selector.to_text(), "phase=2, kind=sim, rate=2");
    assert_eq!(phase.unique_task_matching(&selector).unwrap().id(), "sim:1");

    let replaced = selector.parameter("rate".to_owned(), scalar("7"));
    assert_eq!(replaced.to_text(), "phase=2, kind=sim, rate=7");
    match phase.unique_task_matching(&replaced) {
        Err(ReportingError::ManagedTaskNotFound { selector }) => assert_eq!(selector, "phase=2, kind=sim, rate=7"),
        _ => panic!("expected no match"),
    }

    let broad = TaskSelector::new().kind("sim".to_owned());
    match phase.unique_task_matching(&broad) {
        Err(ReportingError::ManagedTaskSelectorAmbiguous { selector, first, second }) => {
            assert_eq!(selector, "kind=sim");
            assert_eq!(first, "2/sim:0");
            assert_eq!(second, "2/sim:1");
        }
        _ => panic!("expected an ambiguous selection"),
    }
}

#[test]
fn the_plan_ranks_only_executable_tasks() {
    let phase = Phase::builder(PhaseId::new(7), "Export".to_owned())
        .configuration_task("exp".to_owned(), 0, TaskDisplayKind::Activity, params(&[("i", "0")]), false)
        .configuration_task("exp".to_owned(), 1, TaskDisplayKind::Activity, params(&[("i", "1")]), true)
        .configuration_task("exp".to_owned(), 2, TaskDisplayKind::Activity, params(&[("i", "2")]), false)
        .delay_per_task(250)
        .depends_on(PhaseId::new(2))
        .build()
        .unwrap();
    let plan = ExecutionPlan::from_phases(&[phase]);
    assert_eq!(plan.format(), plan_format());
    assert_eq!(plan.format(), "scientific-workflow.execution-plan.v1");
    let planned = &plan.phases()[0];
    assert_eq!(planned.id, 7);
    assert_eq!(planned.registration_order, 0);
    assert_eq!(planned.dependencies, vec![2]);
    assert_eq!(planned.failure_policy, "fail-fast");
    let ranks: Vec<Option<usize>> = planned.tasks.iter().map(|t| t.delay_rank).collect();
    assert_eq!(ranks, vec![Some(0), None, Some(1)]);
    let offsets: Vec<Option<u128>> = planned.tasks.iter().map(|t| t.release_offset_ns).collect();
    assert_eq!(offsets, vec![Some(0), None, Some(250)]);
    let statuses: Vec<&str> = planned.tasks.iter().map(|t| t.status).collect();
    assert_eq!(statuses, vec!["pending", "reused", "pending"]);
    assert_eq!(planned.tasks[2].label, "exp i=2");
    assert_eq!(planned.tasks[2].display_kind, "activity");
    assert_eq!(planned.tasks[2].display_parameters, Some(vec!["i".to_owned()]));
}

#[test]
fn phase_and_task_identities_follow_their_numbers_and_texts() {
    assert_eq!(PhaseId::new(4), PhaseId::from(4));
    assert!(PhaseId::new(3) < PhaseId::new(5));
    assert!(PhaseId::new(5) > PhaseId::new(3));
    assert_ne!(PhaseId::new(3), PhaseId::new(5));
    assert_eq!(PhaseId::new(42).to_text(), 42.to_string());
    assert_eq!(TaskId::new("a".to_owned()), TaskId::new("a".to_owned()));
    assert_ne!(TaskId::new("a".to_owned()), TaskId::new("b".to_owned()));
    assert!(TaskId::new("a".to_owned()) < TaskId::new("b".to_owned()));
    assert_eq!(TaskId::new("run".to_owned()).as_str(), "run");
}
