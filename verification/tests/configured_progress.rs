use scientific_workflow::reporting::configured::{
    build_configured, identity_keys, render_identity, ConfiguredProgress, ConfiguredTask, ParameterDeclarations,
};
use scientific_workflow::reporting::error::ReportingError;
use scientific_workflow::reporting::progress::{ProgressReporterBuilder, TaskStatus};
use scientific_workflow::runtime::phase_builder::ParameterValue;

fn scalar(json: &str) -> ParameterValue {
    ParameterValue::Scalar { json: json.to_owned() }
}

fn task(ordinal: u64, rate: &str, seed: &str) -> ConfiguredTask {
    ConfiguredTask {
        ordinal,
        parameters: vec![
            ("rate".to_owned(), scalar(rate)),
            ("seed".to_owned(), scalar(seed)),
            ("model".to_owned(), scalar("\"sir\"")),
        ],
    }
}

fn declarations() -> ParameterDeclarations {
    ParameterDeclarations {
        names: vec!["rate".to_owned(), "seed".to_owned(), "model".to_owned()],
        swept: vec!["rate".to_owned(), "seed".to_owned()],
    }
}

#[test]
fn identities_list_the_chosen_values_as_json() {
    let t = task(0, "0.5", "7");
    assert_eq!(render_identity(&t.parameters, &vec!["rate".to_owned(), "model".to_owned()]), "rate=0.5, model=\"sir\"");
    assert_eq!(render_identity(&t.parameters, &vec![]), "task");
}

#[test]
fn identity_keys_default_to_the_swept_parameters_and_reject_bad_keys() {
    let keys = identity_keys(&declarations(), None).unwrap();
    assert_eq!(keys, vec!["rate".to_owned(), "seed".to_owned()]);
    assert!(matches!(
        identity_keys(&declarations(), Some(vec!["rate".to_owned(), "rate".to_owned()])),
        Err(ReportingError::DuplicateIdentityParameter { key }) if key == "rate"
    ));
    assert!(matches!(
        identity_keys(&declarations(), Some(vec!["rate".to_owned(), "beta".to_owned()])),
        Err(ReportingError::UnknownIdentityParameter { key }) if key == "beta"
    ));
}

#[test]
fn configured_registries_label_tasks_by_identity_and_reject_collisions() {
    let tasks = vec![task(0, "0.5", "1"), task(1, "0.5", "2"), task(2, "0.9", "1")];
    let built = build_configured(&ProgressReporterBuilder::new(), &declarations(), &tasks).unwrap();
    assert_eq!(built.progress().len(), 3);
    assert_eq!(built.progress().label(1), "rate=0.5, seed=2");
    let only_rate = ProgressReporterBuilder::new().identify_tasks_by(vec!["rate".to_owned()]);
    assert!(matches!(
        build_configured(&only_rate, &declarations(), &tasks),
        Err(ReportingError::NonUniqueTaskIdentity { identity, first_ordinal: 0, second_ordinal: 1 })
            if identity == "rate=0.5"
    ));
}

#[test]
fn tasks_start_by_ordinal_only_with_their_registered_identity() {
    let tasks = vec![task(0, "0.5", "1"), task(1, "0.9", "1")];
    let mut built = ConfiguredProgress::build(&tasks, vec!["rate".to_owned()]).unwrap();
    assert!(matches!(
        built.start_task(&task(5, "0.5", "1"), 0, None),
        Err(ReportingError::UnknownTaskOrdinal { task_ordinal: 5 })
    ));
    assert!(matches!(
        built.start_task(&task(1, "0.5", "1"), 0, None),
        Err(ReportingError::TaskIdentityMismatch { task_ordinal: 1 })
    ));
    assert_eq!(built.start_task(&task(1, "0.9", "3"), 2, Some(10)).unwrap(), 1);
    assert_eq!(built.progress().status(1), TaskStatus::Running);
    assert_eq!(built.progress().current_iteration(1), 2);
    assert!(matches!(
        built.start_task(&task(1, "0.9", "1"), 0, None),
        Err(ReportingError::TaskAlreadyStarted { .. })
    ));
}
