use scientific_workflow::observation::error::ObservationError;
use scientific_workflow::observation::plan::ObservationPlan;
use scientific_workflow::observation::session::ObservationSession;
use scientific_workflow::observation::stream::ObservationStream;
use scientific_workflow::state::schema::schema_from_fields;

fn test_schema() -> scientific_workflow::state::schema::SystemStateSchema {
    schema_from_fields(
        "observation-test-state.json",
        &[("first", Some("First value")), ("second", Some("Second value"))],
    )
    .expect("the internal observation test schema is valid")
}

fn schema() -> scientific_workflow::state::schema::SystemStateSchema {
    schema_from_fields(
        "state.json",
        &[(" first ", Some(" the first ")), ("second", None), (" step ", Some("  "))],
    )
    .expect("valid declarations")
}

#[test]
fn binding_restores_schema_order_and_normalizes_names() {
    let schema = schema();
    let stream = ObservationStream::fields(" selected ", &[" step ", " first "]).unwrap();
    assert_eq!(stream.name(), "selected");
    let bound = stream.bind(&schema).unwrap();
    assert_eq!(bound.name(), "selected");
    let names: Vec<&str> = bound.fields().iter().map(|f| f.name()).collect();
    assert_eq!(names, vec!["first", "step"]);
    assert_eq!(bound.every_iterations(), Some(1));
}

#[test]
fn stream_declarations_reject_blank_duplicate_and_empty_selections() {
    assert!(matches!(ObservationStream::all_fields("  "), Err(ObservationError::EmptyStreamName)));
    assert!(matches!(
        ObservationStream::fields("s", &["a", " "]),
        Err(ObservationError::EmptyFieldName { .. })
    ));
    match ObservationStream::fields("s", &["a", " a "]) {
        Err(ObservationError::DuplicateField { stream, field }) => {
            assert_eq!(stream, "s");
            assert_eq!(field, "a");
        }
        _ => panic!("expected a duplicate field"),
    }
    assert!(matches!(
        ObservationStream::fields("s", &[]),
        Err(ObservationError::EmptyFieldSelection { .. })
    ));
    let stream = ObservationStream::all_fields("s").unwrap();
    assert!(matches!(
        stream.every_iterations(0),
        Err(ObservationError::InvalidSamplingInterval { .. })
    ));
}

#[test]
fn binding_rejects_unknown_fields() {
    let schema = schema();
    let stream = ObservationStream::fields("s", &["first", "missing"]).unwrap();
    match stream.bind(&schema) {
        Err(ObservationError::UnknownField { stream, field }) => {
            assert_eq!(stream, "s");
            assert_eq!(field, "missing");
        }
        _ => panic!("expected an unknown field"),
    }
}

#[test]
fn plans_reject_empty_and_duplicate_stream_sets_and_blank_units() {
    assert!(matches!(ObservationPlan::streams(vec![]), Err(ObservationError::EmptyPlan)));
    let a = ObservationStream::all_fields("a").unwrap();
    let b = ObservationStream::all_fields(" a ").unwrap();
    match ObservationPlan::streams(vec![a, b]) {
        Err(ObservationError::DuplicateStreamName { stream }) => assert_eq!(stream, "a"),
        _ => panic!("expected a duplicate stream"),
    }
    let plan = ObservationPlan::all_fields();
    assert!(matches!(
        plan.with_iteration_unit("   "),
        Err(ObservationError::EmptyAxisUnit { axis: "iteration" })
    ));
    let plan = ObservationPlan::all_fields().with_physical_time_unit(" s ").unwrap();
    let bound = plan.bind(&schema()).unwrap();
    assert_eq!(bound.physical_time_unit(), Some("s"));
    assert_eq!(bound.iteration_unit(), None);
    assert_eq!(bound.streams()[0].name(), "state");
    assert_eq!(bound.streams()[0].fields().len(), 3);
}

#[test]
fn binding_normalizes_declarations_and_encodes_in_schema_order() {
    let schema = test_schema();
    let selected = ObservationStream::fields(" selected ", &[" second ", " first "]).unwrap();
    let plan = ObservationPlan::streams(vec![selected])
        .unwrap()
        .with_iteration_unit(" step ")
        .unwrap()
        .with_physical_time_unit(" s ")
        .unwrap();
    let bound = plan.bind(&schema).unwrap();

    assert_eq!(bound.iteration_unit(), Some("step"));
    assert_eq!(bound.physical_time_unit(), Some("s"));
    assert_eq!(bound.streams()[0].name(), "selected");
    assert_eq!(
        bound.streams()[0].fields().iter().map(|field| field.name()).collect::<Vec<_>>(),
        ["first", "second"]
    );

    let mut session = ObservationSession::new(bound);
    let due = session.select(&schema, 0, false).unwrap();
    assert_eq!(due.len(), 1);
    assert_eq!(session.plan().streams()[due[0]].name(), "selected");
    session.commit(&due, 0);

    assert!(matches!(ObservationStream::all_fields("  "), Err(ObservationError::EmptyStreamName)));
    assert!(matches!(
        ObservationStream::fields("state", &["first", " "]),
        Err(ObservationError::EmptyFieldName { stream }) if stream == "state"
    ));
    assert!(matches!(
        ObservationStream::fields("state", &["first", " first "]),
        Err(ObservationError::DuplicateField { stream, field })
            if stream == "state" && field == "first"
    ));
    assert!(matches!(
        ObservationPlan::all_fields().with_physical_time_unit(" "),
        Err(ObservationError::EmptyAxisUnit { axis: "physical_time" })
    ));
}

#[test]
fn sessions_apply_cadence_terminal_deduplication_and_ordering() {
    let schema = test_schema();
    let plan = ObservationPlan::streams(vec![
        ObservationStream::fields("even", &["first"]).unwrap().every_iterations(2).unwrap(),
        ObservationStream::all_fields("thirds").unwrap().every_iterations(3).unwrap(),
    ])
    .unwrap();
    let mut session = ObservationSession::new(plan.bind(&schema).unwrap());

    let initial = session.select(&schema, 0, false).unwrap();
    assert_eq!(
        initial.iter().map(|i| session.plan().streams()[*i].name()).collect::<Vec<_>>(),
        ["even", "thirds"]
    );
    session.commit(&initial, 0);
    assert!(session.select(&schema, 0, false).unwrap().is_empty());

    assert!(session.select(&schema, 1, false).unwrap().is_empty());
    let terminal = session.select(&schema, 1, true).unwrap();
    assert_eq!(terminal.len(), 2);
    session.commit(&terminal, 1);
    assert!(session.select(&schema, 1, true).unwrap().is_empty());

    let due = session.select(&schema, 2, false).unwrap();
    assert_eq!(due.len(), 1);
    assert_eq!(session.plan().streams()[due[0]].name(), "even");
    session.commit(&due, 2);

    assert!(matches!(
        session.select(&schema, 1, false),
        Err(ObservationError::NonIncreasingObservation { stream, previous: 2, next: 1 }) if stream == "even"
    ));

    let foreign_schema = test_schema();
    let bound = ObservationPlan::all_fields().bind(&schema).unwrap();
    let foreign_session = ObservationSession::new(bound);
    assert!(matches!(
        foreign_session.select(&foreign_schema, 2, false),
        Err(ObservationError::SchemaMismatch { iteration: 2 })
    ));
}

#[test]
fn a_selection_that_is_not_committed_leaves_every_marker_unchanged() {
    let schema = test_schema();
    let plan = ObservationPlan::streams(vec![
        ObservationStream::fields("ready", &["first"]).unwrap(),
        ObservationStream::fields("missing", &["second"]).unwrap(),
    ])
    .unwrap();
    let mut session = ObservationSession::new(plan.bind(&schema).unwrap());
    assert_eq!(session.select(&schema, 0, false).unwrap(), vec![0, 1]);
    assert_eq!(session.select(&schema, 0, false).unwrap(), vec![0, 1]);
    session.commit(&[0, 1], 0);
    assert!(session.select(&schema, 0, false).unwrap().is_empty());
}

#[test]
fn boundary_streams_record_the_initial_state_once_and_the_final_state() {
    let schema = test_schema();
    let plan =
        ObservationPlan::streams(vec![ObservationStream::all_fields("bounds").unwrap().initial_and_final()]).unwrap();
    let mut session = ObservationSession::new(plan.bind(&schema).unwrap());
    let initial = session.select(&schema, 0, false).unwrap();
    assert_eq!(initial, vec![0]);
    session.commit(&initial, 0);
    assert!(session.select(&schema, 0, false).unwrap().is_empty());
    assert!(session.select(&schema, 5, false).unwrap().is_empty());
    let last = session.select(&schema, 9, true).unwrap();
    assert_eq!(last, vec![0]);
    session.commit(&last, 9);
    assert!(session.select(&schema, 9, true).unwrap().is_empty());
}

#[test]
fn observation_failures_do_not_advance_any_stream_marker() {
    let schema = test_schema();
    let plan = ObservationPlan::streams(vec![
        ObservationStream::fields("ready", &["first"]).unwrap(),
        ObservationStream::fields("missing", &["second"]).unwrap(),
    ])
    .unwrap();
    let mut session = ObservationSession::new(plan.bind(&schema).unwrap());
    let selected = session.select(&schema, 0, false).unwrap();
    let encoded: Vec<Result<u64, (String, String)>> =
        vec![Ok(10), Err(("missing".to_owned(), "second".to_owned()))];
    assert!(matches!(
        session.settle_encoded(&selected, 0, encoded),
        Err((stream, field)) if stream == "missing" && field == "second"
    ));
    let selected = session.select(&schema, 0, false).unwrap();
    assert_eq!(selected.len(), 2);
    let encoded: Vec<Result<u64, (String, String)>> = vec![Ok(10), Ok(20)];
    assert_eq!(session.settle_encoded(&selected, 0, encoded).unwrap().len(), 2);

    let encoding_schema = test_schema();
    let bound = ObservationPlan::fields(&["first"]).unwrap().bind(&encoding_schema).unwrap();
    let mut encoding_session = ObservationSession::new(bound);
    let selected = encoding_session.select(&encoding_schema, 0, false).unwrap();
    let rejected: Vec<Result<u64, (String, String)>> = vec![Err(("state".to_owned(), "first".to_owned()))];
    assert!(matches!(
        encoding_session.settle_encoded(&selected, 0, rejected),
        Err((stream, field)) if stream == "state" && field == "first"
    ));
    let selected = encoding_session.select(&encoding_schema, 0, false).unwrap();
    let accepted: Vec<Result<u64, (String, String)>> = vec![Ok(30)];
    assert_eq!(encoding_session.settle_encoded(&selected, 0, accepted).unwrap(), vec![30]);
    assert!(encoding_session.select(&encoding_schema, 0, false).unwrap().is_empty());
}

#[test]
fn a_plan_of_fields_is_the_plan_of_one_state_stream() {
    for fields in [&["first", "second"][..], &[" first "][..]] {
        let schema = test_schema();
        let plan = ObservationPlan::fields(fields).unwrap().bind(&schema).unwrap();
        let stream = ObservationStream::fields("state", fields).unwrap();
        let direct = ObservationPlan::streams(vec![stream]).unwrap().bind(&schema).unwrap();
        assert_eq!(plan.streams().len(), 1);
        assert_eq!(direct.streams().len(), 1);
        let (a, b) = (&plan.streams()[0], &direct.streams()[0]);
        assert_eq!(a.name(), b.name());
        assert_eq!(
            a.fields().iter().map(|f| f.name()).collect::<Vec<_>>(),
            b.fields().iter().map(|f| f.name()).collect::<Vec<_>>()
        );
        assert_eq!(a.every_iterations(), b.every_iterations());
    }
    for fields in [&[][..], &["a", " "][..], &["a", " a "][..]] {
        let plan_error = format!("{:?}", ObservationPlan::fields(fields).err().unwrap());
        let stream_error = format!("{:?}", ObservationStream::fields("state", fields).err().unwrap());
        assert_eq!(plan_error, stream_error);
    }
}
