use scientific_workflow::runtime::output::{
    execution_directory_name, execution_stamp, paths_overlap, replicate_directory_name, task_directory_name,
};

fn components(path: &str) -> Vec<String> {
    path.split('/').filter(|c| !c.is_empty()).map(str::to_owned).collect()
}

#[test]
fn execution_directories_carry_a_stamp_and_a_collision_suffix() {
    let stamp = execution_stamp(2026, 9, 12, 14, 30, 52, 123_456_789);
    assert_eq!(stamp, "20260912T143052.123456789Z");
    assert_eq!(execution_directory_name(&stamp, 0), "execution-20260912T143052.123456789Z");
    assert_eq!(execution_directory_name(&stamp, 1), "execution-20260912T143052.123456789Z-0001");
    assert_eq!(execution_stamp(2026, 1, 2, 3, 4, 5, 6), "20260102T030405.000000006Z");
}

#[test]
fn replicate_and_task_directories_are_zero_padded() {
    assert_eq!(replicate_directory_name(0), "replicate-000000");
    assert_eq!(replicate_directory_name(42), "replicate-000042");
    assert_eq!(task_directory_name(7), "task-000007");
    assert_eq!(task_directory_name(1_234_567), "task-1234567");
}

#[test]
fn cleaning_refuses_overlapping_protected_paths() {
    let root = components("/p/output");
    assert!(paths_overlap(&root, &components("/p/output/execution-1")));
    assert!(paths_overlap(&root, &components("/p")));
    assert!(paths_overlap(&root, &components("/p/output")));
    assert!(!paths_overlap(&root, &components("/p/wf_configs")));
    assert!(!paths_overlap(&root, &components("/p/output2")));
}
