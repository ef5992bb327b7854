use scientific_workflow::runtime::resource::{ResourceBudget, ResourceRequirement};

#[test]
fn in_process_and_external_work_are_mutually_exclusive() {
    let mut budget = ResourceBudget::new(4);
    let first = budget
        .try_acquire(ResourceRequirement::AutoInProcess)
        .expect("in-process work fits an idle budget");
    let second = budget
        .try_acquire(ResourceRequirement::AutoInProcess)
        .expect("in-process tasks may share the fixed pool");
    assert!(budget
        .try_acquire(ResourceRequirement::External { threads: 1 })
        .is_none());
    budget.release(first);
    budget.release(second);

    let external = budget
        .try_acquire(ResourceRequirement::External { threads: 3 })
        .expect("external request fits the idle budget");
    assert!(budget
        .try_acquire(ResourceRequirement::External { threads: 2 })
        .is_none());
    let remaining = budget
        .try_acquire(ResourceRequirement::External { threads: 1 })
        .expect("external requests may consume the remaining permits");
    assert!(budget
        .try_acquire(ResourceRequirement::AutoInProcess)
        .is_none());
    budget.release(external);
    budget.release(remaining);
    assert!(budget
        .try_acquire(ResourceRequirement::AutoInProcess)
        .is_some());
}

#[test]
fn auto_counts_working_tasks_while_isolated_reserves_fixed_threads() {
    let mut auto = ResourceBudget::new(2);
    let first = auto.try_acquire(ResourceRequirement::AutoInProcess).unwrap();
    let second = auto.try_acquire(ResourceRequirement::AutoInProcess).unwrap();
    assert!(auto.try_acquire(ResourceRequirement::AutoInProcess).is_none());
    auto.release(first);
    assert!(auto.try_acquire(ResourceRequirement::AutoInProcess).is_some());
    auto.release(second);

    let mut isolated = ResourceBudget::new(4);
    let fixed = isolated
        .try_acquire(ResourceRequirement::IsolatedInProcess { threads: 3 })
        .unwrap();
    assert!(isolated
        .try_acquire(ResourceRequirement::IsolatedInProcess { threads: 2 })
        .is_none());
    assert_eq!(fixed.threads(), Some(3));
}

#[test]
fn releasing_every_lease_restores_an_idle_budget() {
    let mut budget = ResourceBudget::new(3);
    let lease = budget
        .try_acquire(ResourceRequirement::External { threads: 3 })
        .unwrap();
    assert!(budget.try_acquire(ResourceRequirement::External { threads: 1 }).is_none());
    budget.release(lease);
    let again = budget.try_acquire(ResourceRequirement::External { threads: 3 });
    assert!(again.is_some());
}

#[test]
fn external_thread_requests_share_one_budget_across_parallel_replicates() {
    let mut budget = ResourceBudget::new(2);
    let first = budget.try_acquire(ResourceRequirement::External { threads: 2 }).expect("the first replicate starts");
    assert!(budget.try_acquire(ResourceRequirement::External { threads: 2 }).is_none());
    budget.release(first);
    assert!(budget.try_acquire(ResourceRequirement::External { threads: 2 }).is_some());
}
