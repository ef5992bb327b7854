use scientific_workflow::runtime::graph::{topological_positions, transitive_dependencies, StudyPhase};

fn phase(name: &str, dependencies: &[&str]) -> StudyPhase {
    StudyPhase::new(name.to_owned(), dependencies.iter().map(|d| (*d).to_owned()).collect())
}

#[test]
fn execution_npy_dependency_walk_reaches_every_ancestor_once() {
    let phases = [
        phase("prepare", &[]),
        phase("simulate", &["prepare"]),
        phase("export", &["prepare", "simulate"]),
        phase("$npy", &["export"]),
    ];

    let dependencies = transitive_dependencies(&phases[3], &phases);

    assert_eq!(dependencies.len(), 3);
    assert!(dependencies.contains(&"prepare".to_owned()));
    assert!(dependencies.contains(&"simulate".to_owned()));
    assert!(dependencies.contains(&"export".to_owned()));
}

#[test]
fn mod_npy_dependency_walk_reaches_every_ancestor_once() {
    let phases = [
        phase("prepare", &[]),
        phase("simulate", &["prepare"]),
        phase("export", &["prepare", "simulate"]),
        phase("$npy", &["export"]),
    ];
    let dependencies = transitive_dependencies(&phases[3], &phases);
    assert_eq!(dependencies, vec!["prepare".to_owned(), "simulate".to_owned(), "export".to_owned()]);
}

#[test]
fn phases_run_after_their_prerequisites_in_declaration_order() {
    let phases = [
        phase("report", &["analyze"]),
        phase("simulate", &[]),
        phase("analyze", &["simulate"]),
    ];
    assert_eq!(topological_positions(&phases), vec![1, 2, 0]);
}

#[test]
fn a_phase_without_prerequisites_has_no_ancestors() {
    let phases = [phase("alone", &[])];
    assert!(transitive_dependencies(&phases[0], &phases).is_empty());
}

#[test]
fn prerequisites_are_walked_depth_first_in_their_declared_order() {
    let phases = [phase("merge", &["right", "left"]), phase("left", &[]), phase("right", &[])];
    assert_eq!(topological_positions(&phases), vec![2, 1, 0]);
    let chain = [phase("c", &["b"]), phase("a", &[]), phase("b", &["a"]), phase("d", &[])];
    assert_eq!(topological_positions(&chain), vec![1, 2, 0, 3]);
}
