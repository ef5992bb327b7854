use scientific_workflow::runtime::compute::{Allocation, ComputeLedger, PoolRequest};
use scientific_workflow::runtime::resource::{ResourceBudget, ResourceRequirement};
use scientific_workflow::runtime::execution::ComputeMode;

fn rebuild(ledger: &mut ComputeLedger) -> Vec<PoolRequest> {
    assert!(ledger.rebuild_is_due());
    let plan = ledger.rebuild_plan();
    ledger.commit_rebuild();
    plan
}

fn allocation(epoch: u64, threads: usize) -> Allocation {
    Allocation { epoch, threads }
}

#[test]
fn auto_allocation_tracks_only_registered_working_tasks_and_rebalances_equally() {
    let mut ledger = ComputeLedger::new(4, ComputeMode::Auto);
    let first = ledger.register(0, 0, None).unwrap();
    assert_eq!(first.required_epoch, 1);
    assert!(first.pool.is_none());
    let plan = rebuild(&mut ledger);
    assert_eq!(plan, vec![PoolRequest { replicate: 0, output_ordinal: 0, threads: 4, epoch: 1 }]);
    assert!(!ledger.must_wait(first.required_epoch));

    let second = ledger.register(0, 1, None).unwrap();
    assert!(ledger.must_wait(second.required_epoch));
    let plan = rebuild(&mut ledger);
    assert_eq!(plan.iter().map(|p| p.threads).collect::<Vec<_>>(), vec![2, 2]);
    assert_eq!(ledger.history(0, 0), vec![allocation(1, 4), allocation(2, 2)]);

    assert!(ledger.release(0, 1));
    rebuild(&mut ledger);
    assert_eq!(ledger.history(0, 0)[2].threads, 4);
    assert!(ledger.history(0, 1).is_empty());
}

#[test]
fn isolated_allocation_remains_fixed_as_other_tasks_start_and_finish() {
    let mut ledger = ComputeLedger::new(8, ComputeMode::Isolated);
    let first = ledger.register(0, 0, Some(3)).unwrap();
    let request = first.pool.unwrap();
    assert_eq!(request, PoolRequest { replicate: 0, output_ordinal: 0, threads: 3, epoch: 1 });
    ledger.pool_built(request);
    let second = ledger.register(0, 1, Some(2)).unwrap();
    let request = second.pool.unwrap();
    assert_eq!(request.threads, 2);
    assert_eq!(request.epoch, 2);
    ledger.pool_built(request);
    assert!(!ledger.release(0, 1));
    assert_eq!(ledger.history(0, 0), vec![allocation(1, 3)]);
    assert_eq!(ledger.mode(), ComputeMode::Isolated);
}

#[test]
fn completed_registration_epoch_is_not_blocked_by_resumed_compute() {
    let mut ledger = ComputeLedger::new(2, ComputeMode::Auto);
    ledger.register(0, 0, None).unwrap();
    rebuild(&mut ledger);
    let newcomer = ledger.register(0, 1, None).unwrap();
    rebuild(&mut ledger);
    ledger.begin_compute(0, 0).unwrap();
    assert!(!ledger.must_wait(newcomer.required_epoch));
    assert_eq!(ledger.history(0, 1), vec![allocation(2, 1)]);
}

#[test]
fn rebuilds_wait_for_compute_steps_and_duplicates_are_refused() {
    let mut ledger = ComputeLedger::new(3, ComputeMode::Auto);
    ledger.register(0, 0, None).unwrap();
    rebuild(&mut ledger);
    ledger.begin_compute(0, 0).unwrap();
    ledger.register(1, 0, None).unwrap();
    assert!(!ledger.rebuild_is_due());
    assert!(ledger.step_must_wait());
    assert!(ledger.end_compute(0, 0));
    let plan = rebuild(&mut ledger);
    assert_eq!(plan.iter().map(|p| p.threads).collect::<Vec<_>>(), vec![2, 1]);
    let duplicate = ledger.register(1, 0, None).unwrap_err();
    assert_eq!(duplicate.reason, "duplicate working task 1/0");
    let lost = ledger.begin_compute(5, 5).unwrap_err();
    assert_eq!(lost.reason, "working task lost its compute allocation");
    ledger.pool_failed("pool build failed".to_owned());
    assert_eq!(ledger.failure().as_deref(), Some("pool build failed"));
    assert_eq!(ledger.begin_compute(0, 0).unwrap_err().reason, "pool build failed");
}

#[test]
fn allocation_reports_follow_rebalancing_and_external_release_across_replicates() {
    let mut budget = ResourceBudget::new(4);
    let mut ledger = ComputeLedger::new(4, ComputeMode::Auto);
    let mut reports: Vec<Vec<usize>> = Vec::new();
    let mut report = |ledger: &ComputeLedger, working: &[(u64, u64, Option<usize>)]| {
        let values = ledger.allocation_values(working);
        assert!(values.iter().sum::<usize>() <= 4);
        reports.push(values);
    };
    report(&ledger, &[]);
    let first = budget.try_acquire(ResourceRequirement::AutoInProcess).unwrap();
    ledger.register(0, 0, None).unwrap();
    rebuild(&mut ledger);
    report(&ledger, &[(0, 0, None)]);
    let second = budget.try_acquire(ResourceRequirement::AutoInProcess).unwrap();
    ledger.register(1, 0, None).unwrap();
    rebuild(&mut ledger);
    report(&ledger, &[(0, 0, None), (1, 0, None)]);
    assert!(ledger.release(0, 0));
    rebuild(&mut ledger);
    budget.release(first);
    report(&ledger, &[(1, 0, None)]);
    ledger.release(1, 0);
    budget.release(second);
    let external = budget.try_acquire(ResourceRequirement::External { threads: 3 }).unwrap();
    report(&ledger, &[(0, 1, Some(3))]);
    budget.release(external);
    report(&ledger, &[]);
    assert_eq!(reports, vec![vec![], vec![4], vec![2, 2], vec![4], vec![3], vec![]]);
}
