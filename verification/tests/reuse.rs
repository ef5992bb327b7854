use scientific_workflow::persistence::reuse::{
    check_execution_unit, check_legacy_directory, check_member_count, check_member_location, check_member_provenance,
    check_npy_output, check_output_directory, check_program_directory, check_program_output, check_receipt,
    check_workload_kind, receipt_file_name, receipt_format, reuse_source, select_legacy, LegacyCandidate, MemberLedger,
    MemberProvenance, ReceiptFields, ReuseExpectation, ReuseFailure, ReuseSource,
};
use scientific_workflow::runtime::graph::StudyPhase;
use scientific_workflow::runtime::reuse::{plan_reuse, ReusePlanError};

fn expectation(kind: &str, unit: Option<&str>) -> ReuseExpectation {
    ReuseExpectation {
        identity: "simulate/0".to_owned(),
        configuration: 3,
        execution_unit: unit.map(str::to_owned),
        state: unit.map(|_| "ocean".to_owned()),
        parameter_ordinal: unit.map(|_| 7),
        kind: kind.to_owned(),
    }
}

fn candidate(comparable: bool, workload: &str, directory: &str) -> LegacyCandidate {
    LegacyCandidate { comparable, workload: workload.to_owned(), output_directory: directory.to_owned() }
}

#[test]
fn evidence_comes_from_receipts_programs_or_legacy_summaries() {
    assert_eq!(receipt_file_name(), "workflow-result.json");
    assert_eq!(reuse_source(true, true, "npy"), ReuseSource::Receipt);
    assert_eq!(reuse_source(false, false, "program"), ReuseSource::ProgramDirectory);
    assert_eq!(reuse_source(false, false, "npy"), ReuseSource::LegacySummaries);
    assert_eq!(reuse_source(false, true, "execution_unit"), ReuseSource::LegacySummaries);
    assert_eq!(check_program_directory(true), Err(ReuseFailure::NoCommittedResult));
    assert_eq!(check_program_directory(false), Ok(()));
    assert_eq!(ReuseFailure::NoCommittedResult.reason(), "phase has no committed task result");
}

#[test]
fn the_first_matching_legacy_summary_is_authoritative_unless_contradicted() {
    assert_eq!(select_legacy(&[]), Err(ReuseFailure::NoMatchingResult));
    assert_eq!(select_legacy(&[candidate(false, "{}", "/a")]), Err(ReuseFailure::NoMatchingResult));
    let agreeing = [candidate(false, "{\"x\":1}", "/z"), candidate(true, "{}", "/a"), candidate(true, "{}", "/a")];
    assert_eq!(select_legacy(&agreeing), Ok(1));
    let conflicting = [candidate(true, "{}", "/a"), candidate(true, "{}", "/b")];
    assert_eq!(select_legacy(&conflicting), Err(ReuseFailure::AmbiguousLegacy));
    let unrelated = [candidate(true, "{}", "/a"), candidate(false, "{}", "/b")];
    assert_eq!(select_legacy(&unrelated), Ok(0));
    assert_eq!(check_legacy_directory("/a", "/b"), Err(ReuseFailure::LegacyDirectoryMismatch));
}

#[test]
fn receipts_must_describe_the_planned_task() {
    let expected = expectation("program", None);
    let receipt = |identity: &str, configuration: usize| ReceiptFields {
        format: receipt_format().to_owned(),
        identity: identity.to_owned(),
        configuration,
    };
    assert_eq!(check_receipt(&receipt("simulate/0", 3), &expected, true), Ok(()));
    assert_eq!(check_receipt(&receipt("simulate/0", 3), &expected, false), Err(ReuseFailure::PlanMismatch));
    assert_eq!(check_receipt(&receipt("simulate/1", 3), &expected, true), Err(ReuseFailure::PlanMismatch));
    assert_eq!(check_receipt(&receipt("simulate/0", 4), &expected, true), Err(ReuseFailure::PlanMismatch));
    let old_format = ReceiptFields { format: "v0".to_owned(), identity: "simulate/0".to_owned(), configuration: 3 };
    assert_eq!(check_receipt(&old_format, &expected, true), Err(ReuseFailure::PlanMismatch));
    assert_eq!(check_output_directory(true, true, false), Err(ReuseFailure::InvalidOutputDirectory));
    assert_eq!(check_output_directory(true, true, true), Ok(()));
}

#[test]
fn workloads_and_members_are_checked_in_order() {
    let expected = expectation("execution_unit", Some("ocean-model"));
    assert_eq!(check_workload_kind(None, &expected), Err(ReuseFailure::MissingWorkloadKind));
    assert_eq!(check_workload_kind(Some("program"), &expected), Err(ReuseFailure::WorkloadKindMismatch));
    assert_eq!(check_workload_kind(Some("execution_unit"), &expected), Ok(()));
    assert_eq!(check_execution_unit(Some("other"), "ocean-model"), Err(ReuseFailure::ExecutionUnitMismatch));
    assert_eq!(check_execution_unit(None, "ocean-model"), Err(ReuseFailure::ExecutionUnitMismatch));
    assert_eq!(check_member_count(None), Err(ReuseFailure::MissingMemberSummaries));
    assert_eq!(check_member_count(Some(0)), Err(ReuseFailure::NoMembers));
    assert_eq!(check_member_count(Some(2)), Ok(()));

    let mut ledger = MemberLedger::new();
    assert_eq!(ledger.record(None, Some(1)), Err(ReuseFailure::MissingMemberIdentity));
    assert_eq!(ledger.record(Some("m0"), Some(10)), Ok(()));
    assert_eq!(ledger.record(Some("m0"), Some(10)), Err(ReuseFailure::InvalidMember));
    assert_eq!(ledger.record(Some("m1"), None), Err(ReuseFailure::InvalidMember));
    assert_eq!(ledger.record(Some("m1"), Some(4)), Ok(()));
    assert_eq!(check_member_location(true, true, false), Err(ReuseFailure::MemberEscapesTask));

    let provenance = MemberProvenance {
        task_identity: Some("simulate/0".to_owned()),
        execution_unit: Some("ocean-model".to_owned()),
        state: Some("ocean".to_owned()),
        parameter_ordinal: Some(7),
        member_index: Some(1),
        member_identity: Some("m1".to_owned()),
        parameters_match: true,
        constants_match: true,
    };
    assert_eq!(check_member_provenance(None, &expected, "ocean-model", 1, "m1"), Err(ReuseFailure::MissingProvenance));
    assert_eq!(check_member_provenance(Some(&provenance), &expected, "ocean-model", 1, "m1"), Ok(()));
    assert_eq!(
        check_member_provenance(Some(&provenance), &expected, "ocean-model", 0, "m1"),
        Err(ReuseFailure::ProvenanceMismatch)
    );
    let stale = MemberProvenance { constants_match: false, ..provenance };
    assert_eq!(
        check_member_provenance(Some(&stale), &expected, "ocean-model", 1, "m1"),
        Err(ReuseFailure::ProvenanceMismatch)
    );
}

#[test]
fn programs_must_have_completed_successfully() {
    let format = "scientific-workflow-program-v1";
    assert_eq!(check_program_output(Some(format), Some("complete"), Some(0), true), Ok(()));
    assert_eq!(check_program_output(Some(format), Some("failed"), Some(0), true), Err(ReuseFailure::IncompleteProgram));
    assert_eq!(check_program_output(Some(format), Some("complete"), Some(1), true), Err(ReuseFailure::IncompleteProgram));
    assert_eq!(check_program_output(Some(format), Some("complete"), None, true), Err(ReuseFailure::IncompleteProgram));
    assert_eq!(check_program_output(None, Some("complete"), Some(0), true), Err(ReuseFailure::IncompleteProgram));
    assert_eq!(check_program_output(Some(format), Some("complete"), Some(0), false), Err(ReuseFailure::IncompleteProgram));
    assert_eq!(check_npy_output(true, false, true), Err(ReuseFailure::MissingNpyOutput));
}

fn phase(name: &str, dependencies: &[&str]) -> StudyPhase {
    StudyPhase::new(name.to_owned(), dependencies.iter().map(|d| (*d).to_owned()).collect())
}

fn study() -> Vec<StudyPhase> {
    vec![phase("prepare", &[]), phase("simulate", &["prepare"]), phase("export", &["simulate"]), phase("report", &[])]
}

#[test]
fn only_inactive_prerequisites_of_selected_phases_are_reused() {
    let phases = study();
    let order = [0, 1, 2, 3];
    assert_eq!(plan_reuse(&phases, &order, &[false, false, true, false], true).unwrap(), vec![0, 1]);
    assert_eq!(plan_reuse(&phases, &order, &[true, true, true, true], false).unwrap(), Vec::<usize>::new());
    assert_eq!(plan_reuse(&phases, &order, &[false, false, false, true], false).unwrap(), Vec::<usize>::new());
    match plan_reuse(&phases, &order, &[false, true, false, false], false) {
        Err(ReusePlanError::MissingReuseSource { phase }) => assert_eq!(phase, "prepare"),
        _ => panic!("expected a missing reuse source"),
    }
}

#[test]
fn a_reused_phase_may_not_depend_on_a_rerun() {
    let phases = study();
    let order = [0, 1, 2, 3];
    match plan_reuse(&phases, &order, &[true, false, true, false], true) {
        Err(error @ ReusePlanError::PrerequisiteRerun { .. }) => {
            assert_eq!(error.reason(), "cannot reuse a phase whose prerequisite is selected to run again");
            match error {
                ReusePlanError::PrerequisiteRerun { phase } => assert_eq!(phase, "simulate"),
                _ => unreachable!(),
            }
        }
        _ => panic!("expected a rerun prerequisite"),
    }
}
