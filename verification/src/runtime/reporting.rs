//! The lifecycle registry of first-class phase tasks: which task runs, how
//! far it got, how it ended, and the counts reported when a session ends.
use vstd::prelude::*;
use std::sync::Arc;
use std::sync::atomic::AtomicBool;
use crate::reporting::error::ReportingError;
use super::phase::{PhaseId, TaskKey, TaskDisplayKind, display_kind_name, task_key_text, lemma_phase_id_by_value};

verus! {

/// Lifecycle status of one task.
#[derive(Clone, Copy, Debug, PartialEq, Eq, Structural)]
pub enum TaskStatus {
    /// Registered but not started.
    Pending,
    /// Holding an active handle.
    Running,
    /// Finished successfully.
    Completed,
    /// Previously verified work was reused without executing again.
    Reused,
    /// Failed, or its handle was dropped before it finished.
    Failed,
}

/// The stable name of a status.
pub open spec fn status_name(status: TaskStatus) -> Seq<char> {
    match status {
        TaskStatus::Pending => "pending"@,
        TaskStatus::Running => "running"@,
        TaskStatus::Completed => "completed"@,
        TaskStatus::Reused => "reused"@,
        TaskStatus::Failed => "failed"@,
    }
}

/// The byte that stores a status.
pub open spec fn status_code(status: TaskStatus) -> u8 {
    match status {
        TaskStatus::Pending => 0,
        TaskStatus::Running => 1,
        TaskStatus::Completed => 2,
        TaskStatus::Reused => 4,
        TaskStatus::Failed => 3,
    }
}

impl TaskStatus {
    /// Returns the stable uncolored status name.
    pub fn as_str(self) -> (r: &'static str)
        ensures
            r@ == status_name(self),
    {
        match self {
            TaskStatus::Pending => "pending",
            TaskStatus::Running => "running",
            TaskStatus::Completed => "completed",
            TaskStatus::Reused => "reused",
            TaskStatus::Failed => "failed",
        }
    }

    /// The byte that stores this status.
    pub fn encode(self) -> (r: u8)
        ensures
            r == status_code(self),
    {
        match self {
            TaskStatus::Pending => 0,
            TaskStatus::Running => 1,
            TaskStatus::Completed => 2,
            TaskStatus::Failed => 3,
            TaskStatus::Reused => 4,
        }
    }

    /// The status stored as `value`, which `encode` produced.
    pub fn decode(value: u8) -> (r: Self)
        requires
            value <= 4,
        ensures
            status_code(r) == value,
    {
        match value {
            0 => TaskStatus::Pending,
            1 => TaskStatus::Running,
            2 => TaskStatus::Completed,
            3 => TaskStatus::Failed,
            _ => TaskStatus::Reused,
        }
    }
}

/// Decoding undoes encoding.
pub proof fn law_status_code_round_trip(status: TaskStatus, decoded: TaskStatus)
    requires
        status_code(decoded) == status_code(status),
    ensures
        decoded == status,
{
}

/// Immutable aggregate of task lifecycle counts.
pub struct ProgressSummary {
    total: u64,
    pending: u64,
    running: u64,
    completed: u64,
    reused: u64,
    failed: u64,
}

impl ProgressSummary {
    /// The counts, by status, partition the registered tasks.
    #[verifier::type_invariant]
    spec fn partitions(self) -> bool {
        self.pending + self.running + self.completed + self.reused + self.failed == self.total
    }

    /// Registered tasks.
    pub closed spec fn total_spec(self) -> u64 { self.total }
    /// Tasks never started.
    pub closed spec fn pending_spec(self) -> u64 { self.pending }
    /// Tasks still running.
    pub closed spec fn running_spec(self) -> u64 { self.running }
    /// Tasks completed by execution.
    pub closed spec fn completed_spec(self) -> u64 { self.completed }
    /// Tasks completed by reuse.
    pub closed spec fn reused_spec(self) -> u64 { self.reused }
    /// Tasks failed or interrupted.
    pub closed spec fn failed_spec(self) -> u64 { self.failed }

    /// Every registered task completed, by execution or by reuse.
    pub open spec fn success_spec(self) -> bool {
        &&& self.completed_spec() + self.reused_spec() == self.total_spec()
        &&& self.pending_spec() == 0
        &&& self.running_spec() == 0
        &&& self.failed_spec() == 0
    }

    /// Returns the number of registered tasks.
    pub fn total(&self) -> (r: u64)
        ensures r == self.total_spec(),
    {
        self.total
    }

    /// Returns the number of tasks that never started.
    pub fn pending(&self) -> (r: u64)
        ensures r == self.pending_spec(),
    {
        self.pending
    }

    /// Returns the number of tasks still running at capture time.
    pub fn running(&self) -> (r: u64)
        ensures r == self.running_spec(),
    {
        self.running
    }

    /// Returns the number of successfully completed tasks.
    pub fn completed(&self) -> (r: u64)
        ensures r == self.completed_spec(),
    {
        self.completed
    }

    /// Returns the number of reused tasks.
    pub fn reused(&self) -> (r: u64)
        ensures r == self.reused_spec(),
    {
        self.reused
    }

    /// Returns the number of failed or interrupted tasks.
    pub fn failed(&self) -> (r: u64)
        ensures r == self.failed_spec(),
    {
        self.failed
    }

    /// Reports whether every registered task completed successfully.
    pub fn is_success(&self) -> (r: bool)
        ensures
            r == self.success_spec(),
    {
        proof {
            use_type_invariant(self);
        }
        self.completed + self.reused == self.total && self.pending == 0 && self.running == 0
            && self.failed == 0
    }
}

/// Shared, cheap cancellation observation for embedded schedulers and tasks.
///
/// The flag is shared between threads, so no contract states what a read
/// returns.
pub struct CancellationToken(Arc<AtomicBool>);

impl CancellationToken {
    /// A token on which cancellation was not requested.
    pub fn new() -> Self {
        CancellationToken(Arc::new(AtomicBool::new(false)))
    }

    /// Another token observing the same flag.
    pub fn share(&self) -> (r: Self)
        ensures
            r == *self,
    {
        CancellationToken(crate::handle::share_arc(&self.0))
    }

    /// Reports whether cooperative termination was requested.
    pub fn is_cancelled(&self) -> bool {
        self.0.load(std::sync::atomic::Ordering::Acquire)
    }

    /// Requests cooperative termination.
    pub fn cancel(&self) {
        self.0.store(true, std::sync::atomic::Ordering::Release)
    }
}

/// What the registry knows of one task.
pub struct SlotView {
    /// Owning phase.
    pub phase: u64,
    /// Phase-local task ID.
    pub task: Seq<char>,
    /// Human-facing label.
    pub label: Seq<char>,
    /// Display kind.
    pub kind: TaskDisplayKind,
    /// Lifecycle status.
    pub status: TaskStatus,
    /// Latest reported absolute iteration.
    pub current: u64,
    /// Known absolute target iteration.
    pub target: Option<u64>,
    /// Latest human-readable detail.
    pub detail: Seq<char>,
}

/// One task to register: its key, label, and display kind.
pub struct SlotDeclaration {
    /// The phase-qualified key.
    pub key: TaskKey,
    /// The human-facing label.
    pub label: String,
    /// The display kind.
    pub kind: TaskDisplayKind,
}

struct ProgressSlot {
    key: TaskKey,
    label: String,
    kind: TaskDisplayKind,
    status: TaskStatus,
    current: u64,
    target: Option<u64>,
    detail: String,
}

impl ProgressSlot {
    closed spec fn view(&self) -> SlotView {
        SlotView {
            phase: self.key.phase_spec().value(),
            task: self.key.task_spec(),
            label: self.label@,
            kind: self.kind,
            status: self.status,
            current: self.current,
            target: self.target,
            detail: self.detail@,
        }
    }
}

/// Number of slots with `status`.
pub open spec fn count_status(slots: Seq<SlotView>, status: TaskStatus) -> nat {
    slots.filter(|s: SlotView| s.status == status).len()
}

/// The first slot registered under the key `(phase, task)`.
pub open spec fn find_slot(slots: Seq<SlotView>, phase: u64, task: Seq<char>) -> Option<int> {
    if exists|i: int| 0 <= i < slots.len() && #[trigger] slots[i].phase == phase && slots[i].task == task {
        Some(choose|i: int| 0 <= i < slots.len() && #[trigger] slots[i].phase == phase && slots[i].task == task
            && forall|k: int| 0 <= k < i ==> !(#[trigger] slots[k].phase == phase && slots[k].task == task))
    } else {
        None
    }
}

/// The lifecycle registry of first-class phase tasks.
pub struct ProgressRegistry {
    slots: Vec<ProgressSlot>,
}

impl ProgressRegistry {
    /// The registered tasks, in phase order.
    pub closed spec fn slots_spec(&self) -> Seq<SlotView> {
        self.slots@.map_values(|s: ProgressSlot| s.view())
    }

    /// Registers the tasks of `phases`, in phase order. An empty phase set
    /// and a repeated phase identity are rejected. Every task starts pending.
    pub fn register(phases: Vec<(PhaseId, Vec<SlotDeclaration>)>) -> (r: Result<Self, ReportingError>)
        ensures
            phases@.len() == 0 ==> r matches Err(ReportingError::EmptyPhaseSet),
            r matches Ok(reg) ==> phases@.len() > 0
                && (forall|i: int, j: int| 0 <= i < j < phases@.len() ==> phases@[i].0 != phases@[j].0)
                && forall|i: int| 0 <= i < reg.slots_spec().len() ==> {
                    &&& (#[trigger] reg.slots_spec()[i]).status == TaskStatus::Pending
                    &&& reg.slots_spec()[i].current == 0
                    &&& reg.slots_spec()[i].target is None
                    &&& reg.slots_spec()[i].detail == "pending"@
                },
            r matches Err(ReportingError::DuplicatePhaseId { phase }) ==> exists|i: int, j: int|
                0 <= i < j < phases@.len() && #[trigger] phases@[i].0 == #[trigger] phases@[j].0 && phases@[j].0.value() == phase,
            r is Err ==> (r matches Err(ReportingError::EmptyPhaseSet) || r matches Err(ReportingError::DuplicatePhaseId { .. })),
    {
        if phases.len() == 0 {
            return Err(ReportingError::EmptyPhaseSet);
        }
        let ghost ids = phases@.map_values(|p: (PhaseId, Vec<SlotDeclaration>)| p.0);
        let mut i: usize = 0;
        while i < phases.len()
            invariant
                i <= phases@.len(),
                forall|a: int, b: int| 0 <= a < b < i ==> phases@[a].0 != phases@[b].0,
            decreases phases@.len() - i,
        {
            let mut j: usize = 0;
            while j < i
                invariant
                    i < phases@.len(),
                    j <= i,
                    forall|a: int| 0 <= a < j ==> phases@[a].0 != phases@[i as int].0,
                decreases i - j,
            {
                if phases[j].0.get() == phases[i].0.get() {
                    proof {
                        lemma_phase_id_by_value(phases@[j as int].0, phases@[i as int].0);
                    }
                    return Err(ReportingError::DuplicatePhaseId { phase: phases[i].0.get() });
                }
                assert(phases@[j as int].0 != phases@[i as int].0);
                j = j + 1;
            }
            i = i + 1;
        }
        let ghost distinct = true;
        let mut slots: Vec<ProgressSlot> = Vec::new();
        let mut remaining = phases;
        let pending = "pending";
        while remaining.len() > 0
            invariant
                forall|k: int| 0 <= k < slots@.len() ==> {
                    &&& (#[trigger] slots@[k]).status == TaskStatus::Pending
                    &&& slots@[k].current == 0
                    &&& slots@[k].target is None
                    &&& slots@[k].detail@ == "pending"@
                },
                pending@ == "pending"@,
            decreases remaining@.len(),
        {
            let (_, mut tasks) = remaining.remove(0);
            while tasks.len() > 0
                invariant
                    forall|k: int| 0 <= k < slots@.len() ==> {
                        &&& (#[trigger] slots@[k]).status == TaskStatus::Pending
                        &&& slots@[k].current == 0
                        &&& slots@[k].target is None
                        &&& slots@[k].detail@ == "pending"@
                    },
                    pending@ == "pending"@,
                decreases tasks@.len(),
            {
                let declaration = tasks.remove(0);
                slots.push(ProgressSlot {
                    key: declaration.key,
                    label: declaration.label,
                    kind: declaration.kind,
                    status: TaskStatus::Pending,
                    current: 0,
                    target: None,
                    detail: pending.to_owned(),
                });
            }
        }
        let registry = ProgressRegistry { slots };
        assert forall|k: int| 0 <= k < registry.slots_spec().len() implies {
            &&& (#[trigger] registry.slots_spec()[k]).status == TaskStatus::Pending
            &&& registry.slots_spec()[k].current == 0
            &&& registry.slots_spec()[k].target is None
            &&& registry.slots_spec()[k].detail == "pending"@
        } by {
            assert(registry.slots_spec()[k] == registry.slots@[k].view());
        }
        Ok(registry)
    }

    /// Number of registered tasks.
    pub fn len(&self) -> (r: usize)
        ensures
            r == self.slots_spec().len(),
    {
        self.slots.len()
    }

    /// Finds the first slot registered under `key`.
    fn lookup(&self, key: &TaskKey) -> (r: Result<usize, ReportingError>)
        ensures
            ({
                let found = find_slot(self.slots_spec(), key.phase_spec().value(), key.task_spec());
                &&& r is Ok <==> found is Some
                &&& r matches Ok(i) ==> found == Some(i as int) && i < self.slots_spec().len()
                &&& r matches Err(e) ==> (e matches ReportingError::UnknownManagedTask { task }
                    && task@ == task_key_text(key.phase_spec().value(), key.task_spec()))
            }),
    {
        let ghost view = self.slots_spec();
        let mut i: usize = 0;
        while i < self.slots.len()
            invariant
                view == self.slots_spec(),
                i <= view.len(),
                forall|k: int| 0 <= k < i ==> !(#[trigger] view[k].phase == key.phase_spec().value() && view[k].task == key.task_spec()),
            decreases view.len() - i,
        {
            assert(view[i as int] == self.slots@[i as int].view());
            proof {
                lemma_phase_id_by_value(self.slots@[i as int].key.phase_spec(), key.phase_spec());
            }
            if self.slots[i].key.same_as(key) {
                proof {
                    assert(view[i as int].phase == key.phase_spec().value() && view[i as int].task == key.task_spec());
                    let w = choose|w: int| 0 <= w < view.len() && #[trigger] view[w].phase == key.phase_spec().value()
                        && view[w].task == key.task_spec()
                        && forall|k: int| 0 <= k < w ==> !(#[trigger] view[k].phase == key.phase_spec().value() && view[k].task == key.task_spec());
                    if w < i {
                    } else if w > i {
                    }
                }
                return Ok(i);
            }
            i = i + 1;
        }
        Err(ReportingError::UnknownManagedTask { task: key.to_text() })
    }

    /// Replaces the lifecycle fields of slot `i`.
    fn set_slot(&mut self, i: usize, status: TaskStatus, current: u64, target: Option<u64>, detail: String)
        requires
            i < old(self).slots_spec().len(),
        ensures
            final(self).slots_spec() == old(self).slots_spec().update(i as int, SlotView {
                status,
                current,
                target,
                detail: detail@,
                ..old(self).slots_spec()[i as int]
            }),
    {
        let ghost before = self.slots@;
        self.slots[i].status = status;
        self.slots[i].current = current;
        self.slots[i].target = target;
        self.slots[i].detail = detail;
        proof {
            assert(self.slots@.len() == before.len());
            assert forall|k: int| 0 <= k < before.len() && k != i implies self.slots@[k] == before[k] by {}
            assert(self.slots_spec() =~= old(self).slots_spec().update(i as int, SlotView {
                status,
                current,
                target,
                detail: detail@,
                ..old(self).slots_spec()[i as int]
            }));
        }
    }

    /// Starts the progress task registered under `key` at an absolute
    /// initial iteration, with an optional absolute target, and returns its
    /// slot.
    ///
    /// An unknown key, an activity task, an initial iteration beyond the
    /// target, and a task that already started are rejected, in that order,
    /// without changing the registry.
    pub fn start_progress(&mut self, key: &TaskKey, initial_iteration: u64, target_iteration: Option<u64>)
        -> (r: Result<usize, ReportingError>)
        ensures
            ({
                let slots = old(self).slots_spec();
                let found = find_slot(slots, key.phase_spec().value(), key.task_spec());
                let text = task_key_text(key.phase_spec().value(), key.task_spec());
                &&& r is Err ==> final(self).slots_spec() == slots
                &&& found is None ==> (r matches Err(ReportingError::UnknownManagedTask { task }) && task@ == text)
                &&& found matches Some(i) ==> {
                    let s = slots[i];
                    let beyond = target_iteration matches Some(t) && initial_iteration > t;
                    &&& s.kind != TaskDisplayKind::Progress ==> (r matches Err(ReportingError::ManagedTaskKindMismatch { task, requested, actual })
                        && task@ == text && requested@ == "progress"@ && actual@ == display_kind_name(s.kind))
                    &&& s.kind == TaskDisplayKind::Progress && beyond ==> (r matches Err(ReportingError::InitialIterationBeyondTarget { identity, initial, target })
                        && identity@ == s.label && initial == initial_iteration && Some(target) == target_iteration)
                    &&& s.kind == TaskDisplayKind::Progress && !beyond && s.status != TaskStatus::Pending
                        ==> (r matches Err(ReportingError::TaskAlreadyStarted { identity }) && identity@ == s.label)
                    &&& s.kind == TaskDisplayKind::Progress && !beyond && s.status == TaskStatus::Pending ==> r == Ok::<usize, ReportingError>(i as usize)
                        && final(self).slots_spec() == slots.update(i, SlotView {
                            status: TaskStatus::Running,
                            current: initial_iteration,
                            target: target_iteration,
                            detail: "running"@,
                            ..s
                        })
                }
            }),
    {
        let i = self.lookup(key)?;
        assert(self.slots_spec()[i as int] == self.slots@[i as int].view());
        if self.slots[i].kind != TaskDisplayKind::Progress {
            return Err(ReportingError::ManagedTaskKindMismatch {
                task: key.to_text(),
                requested: "progress",
                actual: self.slots[i].kind.as_str(),
            });
        }
        if let Some(target) = target_iteration {
            if initial_iteration > target {
                return Err(ReportingError::InitialIterationBeyondTarget {
                    identity: self.slots[i].label.clone(),
                    initial: initial_iteration,
                    target,
                });
            }
        }
        if self.slots[i].status != TaskStatus::Pending {
            return Err(ReportingError::TaskAlreadyStarted { identity: self.slots[i].label.clone() });
        }
        self.set_slot(i, TaskStatus::Running, initial_iteration, target_iteration, "running".to_owned());
        Ok(i)
    }

    /// Starts the lifecycle-only activity registered under `key` and
    /// returns its slot. An unknown key, a progress task, and a task that
    /// already started are rejected without changing the registry.
    pub fn start_activity(&mut self, key: &TaskKey) -> (r: Result<usize, ReportingError>)
        ensures
            ({
                let slots = old(self).slots_spec();
                let found = find_slot(slots, key.phase_spec().value(), key.task_spec());
                let text = task_key_text(key.phase_spec().value(), key.task_spec());
                &&& r is Err ==> final(self).slots_spec() == slots
                &&& found is None ==> (r matches Err(ReportingError::UnknownManagedTask { task }) && task@ == text)
                &&& found matches Some(i) ==> {
                    let s = slots[i];
                    &&& s.kind != TaskDisplayKind::Activity ==> (r matches Err(ReportingError::ManagedTaskKindMismatch { task, requested, actual })
                        && task@ == text && requested@ == "activity"@ && actual@ == display_kind_name(s.kind))
                    &&& s.kind == TaskDisplayKind::Activity && s.status != TaskStatus::Pending
                        ==> (r matches Err(ReportingError::TaskAlreadyStarted { identity }) && identity@ == s.label)
                    &&& s.kind == TaskDisplayKind::Activity && s.status == TaskStatus::Pending ==> r == Ok::<usize, ReportingError>(i as usize)
                        && final(self).slots_spec() == slots.update(i, SlotView {
                            status: TaskStatus::Running,
                            target: None,
                            detail: "running"@,
                            ..s
                        })
                }
            }),
    {
        let i = self.lookup(key)?;
        assert(self.slots_spec()[i as int] == self.slots@[i as int].view());
        if self.slots[i].kind != TaskDisplayKind::Activity {
            return Err(ReportingError::ManagedTaskKindMismatch {
                task: key.to_text(),
                requested: "activity",
                actual: self.slots[i].kind.as_str(),
            });
        }
        if self.slots[i].status != TaskStatus::Pending {
            return Err(ReportingError::TaskAlreadyStarted { identity: self.slots[i].label.clone() });
        }
        let current = self.slots[i].current;
        self.set_slot(i, TaskStatus::Running, current, None, "running".to_owned());
        Ok(i)
    }

    /// Marks the task registered under `key` complete through verified
    /// reuse. Only a pending task can be reused.
    pub fn mark_reused(&mut self, key: &TaskKey) -> (r: Result<(), ReportingError>)
        ensures
            ({
                let slots = old(self).slots_spec();
                let found = find_slot(slots, key.phase_spec().value(), key.task_spec());
                let text = task_key_text(key.phase_spec().value(), key.task_spec());
                &&& r is Err ==> final(self).slots_spec() == slots
                &&& found is None ==> (r matches Err(ReportingError::UnknownManagedTask { task }) && task@ == text)
                &&& found matches Some(i) ==> {
                    let s = slots[i];
                    &&& s.status != TaskStatus::Pending ==> (r matches Err(ReportingError::TaskAlreadyStarted { identity }) && identity@ == s.label)
                    &&& s.status == TaskStatus::Pending ==> r is Ok
                        && final(self).slots_spec() == slots.update(i, SlotView { status: TaskStatus::Reused, detail: "reused"@, ..s })
                }
            }),
    {
        let i = self.lookup(key)?;
        assert(self.slots_spec()[i as int] == self.slots@[i as int].view());
        if self.slots[i].status != TaskStatus::Pending {
            return Err(ReportingError::TaskAlreadyStarted { identity: self.slots[i].label.clone() });
        }
        let current = self.slots[i].current;
        let target = self.slots[i].target;
        self.set_slot(i, TaskStatus::Reused, current, target, "reused".to_owned());
        Ok(())
    }

    /// Synchronizes slot `i` to an absolute iteration. Movement beyond a
    /// known target and movement backward are rejected without changing the
    /// counter.
    pub fn set_iteration(&mut self, i: usize, iteration: u64) -> (r: Result<(), ReportingError>)
        requires
            i < old(self).slots_spec().len(),
        ensures
            ({
                let s = old(self).slots_spec()[i as int];
                let beyond = s.target matches Some(t) && iteration > t;
                &&& r is Err ==> final(self).slots_spec() == old(self).slots_spec()
                &&& beyond ==> (r matches Err(ReportingError::IterationBeyondTarget { identity, iteration: it, target })
                    && identity@ == s.label && it == iteration && s.target == Some(target))
                &&& !beyond && iteration < s.current ==> (r matches Err(ReportingError::IterationRegressed { identity, current, attempted })
                    && identity@ == s.label && current == s.current && attempted == iteration)
                &&& !beyond && iteration >= s.current ==> r is Ok
                    && final(self).slots_spec() == old(self).slots_spec().update(i as int, SlotView { current: iteration, ..s })
            }),
    {
        assert(self.slots_spec()[i as int] == self.slots@[i as int].view());
        if let Some(target) = self.slots[i].target {
            if iteration > target {
                return Err(ReportingError::IterationBeyondTarget {
                    identity: self.slots[i].label.clone(),
                    iteration,
                    target,
                });
            }
        }
        let previous = self.slots[i].current;
        if iteration < previous {
            return Err(ReportingError::IterationRegressed {
                identity: self.slots[i].label.clone(),
                current: previous,
                attempted: iteration,
            });
        }
        let ghost before = self.slots@;
        self.slots[i].current = iteration;
        proof {
            assert forall|k: int| 0 <= k < before.len() && k != i implies self.slots@[k] == before[k] by {}
            assert(self.slots_spec() =~= old(self).slots_spec().update(i as int, SlotView { current: iteration, ..old(self).slots_spec()[i as int] }));
        }
        Ok(())
    }

    /// Sets or replaces the absolute target of slot `i`; a target below the
    /// current iteration is rejected.
    pub fn set_target_iteration(&mut self, i: usize, target: u64) -> (r: Result<(), ReportingError>)
        requires
            i < old(self).slots_spec().len(),
        ensures
            ({
                let s = old(self).slots_spec()[i as int];
                &&& s.current > target ==> (r matches Err(ReportingError::InitialIterationBeyondTarget { identity, initial, target: t })
                    && identity@ == s.label && initial == s.current && t == target)
                    && final(self).slots_spec() == old(self).slots_spec()
                &&& s.current <= target ==> r is Ok
                    && final(self).slots_spec() == old(self).slots_spec().update(i as int, SlotView { target: Some(target), ..s })
            }),
    {
        assert(self.slots_spec()[i as int] == self.slots@[i as int].view());
        let current = self.slots[i].current;
        if current > target {
            return Err(ReportingError::InitialIterationBeyondTarget {
                identity: self.slots[i].label.clone(),
                initial: current,
                target,
            });
        }
        let ghost before = self.slots@;
        self.slots[i].target = Some(target);
        proof {
            assert forall|k: int| 0 <= k < before.len() && k != i implies self.slots@[k] == before[k] by {}
            assert(self.slots_spec() =~= old(self).slots_spec().update(i as int, SlotView { target: Some(target), ..old(self).slots_spec()[i as int] }));
        }
        Ok(())
    }

    /// Synchronizes slot `i` to `iteration` and decides whether the task
    /// continues: not when `cancelled` was observed, and not at a known
    /// target.
    pub fn should_continue(&mut self, i: usize, iteration: u64, cancelled: bool) -> (r: Result<bool, ReportingError>)
        requires
            i < old(self).slots_spec().len(),
        ensures
            ({
                let s = old(self).slots_spec()[i as int];
                let beyond = s.target matches Some(t) && iteration > t;
                &&& r is Err <==> beyond || iteration < s.current
                &&& r is Err ==> final(self).slots_spec() == old(self).slots_spec()
                &&& beyond ==> (r matches Err(ReportingError::IterationBeyondTarget { identity, iteration: it, target })
                    && identity@ == s.label && it == iteration && s.target == Some(target))
                &&& !beyond && iteration < s.current ==> (r matches Err(ReportingError::IterationRegressed { identity, current, attempted })
                    && identity@ == s.label && current == s.current && attempted == iteration)
                &&& r matches Ok(go) ==> go == (!cancelled && (s.target matches Some(t) ==> iteration < t))
                    && final(self).slots_spec() == old(self).slots_spec().update(i as int, SlotView { current: iteration, ..s })
            }),
    {
        match self.set_iteration(i, iteration) {
            Ok(()) => {},
            Err(e) => {
                return Err(e);
            },
        }
        assert(self.slots_spec().len() == old(self).slots_spec().len());
        assert(self.slots_spec()[i as int] == self.slots@[i as int].view());
        let go = match self.slots[i].target {
            Some(target) => iteration < target,
            None => true,
        };
        Ok(!cancelled && go)
    }

    /// Finishes the progress task in slot `i`. Without a `reason`, a known
    /// target must have been reached: otherwise the task fails with detail
    /// `target not reached`. With a reason, the task completes early and the
    /// reason becomes its detail.
    pub fn complete_progress(&mut self, i: usize, reason: Option<String>) -> (r: Result<(), ReportingError>)
        requires
            i < old(self).slots_spec().len(),
        ensures
            ({
                let s = old(self).slots_spec()[i as int];
                let missed = reason is None && (s.target matches Some(t) && s.current != t);
                &&& missed ==> (r matches Err(ReportingError::TargetIterationNotReached { identity, current, target })
                    && identity@ == s.label && current == s.current && s.target == Some(target))
                    && final(self).slots_spec() == old(self).slots_spec().update(i as int,
                        SlotView { status: TaskStatus::Failed, detail: "target not reached"@, ..s })
                &&& !missed ==> r is Ok && final(self).slots_spec() == old(self).slots_spec().update(i as int,
                        SlotView {
                            status: TaskStatus::Completed,
                            detail: match reason { Some(text) => text@, None => "completed"@ },
                            ..s
                        })
            }),
    {
        assert(self.slots_spec()[i as int] == self.slots@[i as int].view());
        let current = self.slots[i].current;
        let target = self.slots[i].target;
        if reason.is_none() {
            if let Some(t) = target {
                if current != t {
                    let identity = self.slots[i].label.clone();
                    self.set_slot(i, TaskStatus::Failed, current, target, "target not reached".to_owned());
                    return Err(ReportingError::TargetIterationNotReached { identity, current, target: t });
                }
            }
        }
        let detail = match reason {
            Some(text) => text,
            None => "completed".to_owned(),
        };
        self.set_slot(i, TaskStatus::Completed, current, target, detail);
        Ok(())
    }

    /// Finishes the activity in slot `i` successfully.
    pub fn complete_activity(&mut self, i: usize)
        requires
            i < old(self).slots_spec().len(),
        ensures
            final(self).slots_spec() == old(self).slots_spec().update(i as int,
                SlotView { status: TaskStatus::Completed, detail: "completed"@, ..old(self).slots_spec()[i as int] }),
    {
        assert(self.slots_spec()[i as int] == self.slots@[i as int].view());
        let current = self.slots[i].current;
        let target = self.slots[i].target;
        self.set_slot(i, TaskStatus::Completed, current, target, "completed".to_owned());
    }

    /// Marks slot `i` failed with a concise `reason` as its detail.
    pub fn fail(&mut self, i: usize, reason: String)
        requires
            i < old(self).slots_spec().len(),
        ensures
            final(self).slots_spec() == old(self).slots_spec().update(i as int,
                SlotView { status: TaskStatus::Failed, detail: reason@, ..old(self).slots_spec()[i as int] }),
    {
        assert(self.slots_spec()[i as int] == self.slots@[i as int].view());
        let current = self.slots[i].current;
        let target = self.slots[i].target;
        self.set_slot(i, TaskStatus::Failed, current, target, reason);
    }

    /// The handle of slot `i` was dropped: a task still running is marked
    /// failed with detail `interrupted`; any other task is unchanged.
    pub fn interrupt(&mut self, i: usize)
        requires
            i < old(self).slots_spec().len(),
        ensures
            ({
                let s = old(self).slots_spec()[i as int];
                &&& s.status == TaskStatus::Running ==> final(self).slots_spec() == old(self).slots_spec().update(i as int,
                    SlotView { status: TaskStatus::Failed, detail: "interrupted"@, ..s })
                &&& s.status != TaskStatus::Running ==> final(self).slots_spec() == old(self).slots_spec()
            }),
    {
        assert(self.slots_spec()[i as int] == self.slots@[i as int].view());
        if self.slots[i].status == TaskStatus::Running {
            let current = self.slots[i].current;
            let target = self.slots[i].target;
            self.set_slot(i, TaskStatus::Failed, current, target, "interrupted".to_owned());
        }
    }

    /// The status of slot `i`.
    pub fn status(&self, i: usize) -> (r: TaskStatus)
        requires
            i < self.slots_spec().len(),
        ensures
            r == self.slots_spec()[i as int].status,
    {
        assert(self.slots_spec()[i as int] == self.slots@[i as int].view());
        self.slots[i].status
    }

    /// The latest reported iteration of slot `i`.
    pub fn current_iteration(&self, i: usize) -> (r: u64)
        requires
            i < self.slots_spec().len(),
        ensures
            r == self.slots_spec()[i as int].current,
    {
        assert(self.slots_spec()[i as int] == self.slots@[i as int].view());
        self.slots[i].current
    }

    /// The known target of slot `i`.
    pub fn target_iteration(&self, i: usize) -> (r: Option<u64>)
        requires
            i < self.slots_spec().len(),
        ensures
            r == self.slots_spec()[i as int].target,
    {
        assert(self.slots_spec()[i as int] == self.slots@[i as int].view());
        self.slots[i].target
    }

    /// The phase-qualified key of slot `i`.
    pub fn key(&self, i: usize) -> (r: &TaskKey)
        requires
            i < self.slots_spec().len(),
        ensures
            r.phase_spec().value() == self.slots_spec()[i as int].phase,
            r.task_spec() == self.slots_spec()[i as int].task,
    {
        assert(self.slots_spec()[i as int] == self.slots@[i as int].view());
        &self.slots[i].key
    }

    /// The human-facing label of slot `i`.
    pub fn label(&self, i: usize) -> (r: &str)
        requires
            i < self.slots_spec().len(),
        ensures
            r@ == self.slots_spec()[i as int].label,
    {
        assert(self.slots_spec()[i as int] == self.slots@[i as int].view());
        self.slots[i].label.as_str()
    }

    /// The display kind of slot `i`.
    pub fn kind(&self, i: usize) -> (r: TaskDisplayKind)
        requires
            i < self.slots_spec().len(),
        ensures
            r == self.slots_spec()[i as int].kind,
    {
        assert(self.slots_spec()[i as int] == self.slots@[i as int].view());
        self.slots[i].kind
    }

    /// The latest detail of slot `i`.
    pub fn detail(&self, i: usize) -> (r: &str)
        requires
            i < self.slots_spec().len(),
        ensures
            r@ == self.slots_spec()[i as int].detail,
    {
        assert(self.slots_spec()[i as int] == self.slots@[i as int].view());
        self.slots[i].detail.as_str()
    }

    /// A snapshot of all task lifecycle counts.
    pub fn summary(&self) -> (r: ProgressSummary)
        ensures
            r.total_spec() == self.slots_spec().len(),
            r.pending_spec() == count_status(self.slots_spec(), TaskStatus::Pending),
            r.running_spec() == count_status(self.slots_spec(), TaskStatus::Running),
            r.completed_spec() == count_status(self.slots_spec(), TaskStatus::Completed),
            r.reused_spec() == count_status(self.slots_spec(), TaskStatus::Reused),
            r.failed_spec() == count_status(self.slots_spec(), TaskStatus::Failed),
    {
        let ghost view = self.slots_spec();
        let n = self.slots.len();
        let mut pending: u64 = 0;
        let mut running: u64 = 0;
        let mut completed: u64 = 0;
        let mut reused: u64 = 0;
        let mut failed: u64 = 0;
        let mut i: usize = 0;
        while i < n
            invariant
                n == view.len(),
                view == self.slots_spec(),
                i <= n,
                pending == count_status(view.take(i as int), TaskStatus::Pending),
                running == count_status(view.take(i as int), TaskStatus::Running),
                completed == count_status(view.take(i as int), TaskStatus::Completed),
                reused == count_status(view.take(i as int), TaskStatus::Reused),
                failed == count_status(view.take(i as int), TaskStatus::Failed),
                pending + running + completed + reused + failed == i,
            decreases n - i,
        {
            let status = self.slots[i].status;
            proof {
                assert(view[i as int] == self.slots@[i as int].view());
                assert(view.take(i as int + 1) =~= view.take(i as int).push(view[i as int]));
                lemma_count_push(view.take(i as int), view[i as int]);
            }
            match status {
                TaskStatus::Pending => { pending = pending + 1; },
                TaskStatus::Running => { running = running + 1; },
                TaskStatus::Completed => { completed = completed + 1; },
                TaskStatus::Reused => { reused = reused + 1; },
                TaskStatus::Failed => { failed = failed + 1; },
            }
            i = i + 1;
        }
        proof {
            assert(view.take(n as int) =~= view);
        }
        ProgressSummary { total: n as u64, pending, running, completed, reused, failed }
    }

    /// Checks that a session may end successfully: every task completed or
    /// was reused. Otherwise the counts of unfinished tasks are reported.
    pub fn check_success(&self) -> (r: Result<ProgressSummary, ReportingError>)
        ensures
            ({
                let slots = self.slots_spec();
                let success = count_status(slots, TaskStatus::Pending) == 0 && count_status(slots, TaskStatus::Running) == 0
                    && count_status(slots, TaskStatus::Failed) == 0;
                &&& r is Ok <==> success
                &&& r matches Ok(summary) ==> summary.total_spec() == slots.len()
                    && summary.completed_spec() == count_status(slots, TaskStatus::Completed)
                    && summary.reused_spec() == count_status(slots, TaskStatus::Reused)
                    && summary.success_spec()
                &&& r matches Err(e) ==> (e matches ReportingError::IncompleteProgress { pending, running, failed }
                    && pending == count_status(slots, TaskStatus::Pending)
                    && running == count_status(slots, TaskStatus::Running)
                    && failed == count_status(slots, TaskStatus::Failed))
            }),
    {
        let summary = self.summary();
        proof {
            law_status_counts_partition(self.slots_spec());
        }
        if !summary.is_success() {
            return Err(ReportingError::IncompleteProgress {
                pending: summary.pending(),
                running: summary.running(),
                failed: summary.failed(),
            });
        }
        Ok(summary)
    }
}

/// Counting statuses over a sequence extended by one slot.
proof fn lemma_count_push(slots: Seq<SlotView>, slot: SlotView)
    ensures
        forall|status: TaskStatus| #[trigger] count_status(slots.push(slot), status)
            == count_status(slots, status) + if slot.status == status { 1nat } else { 0nat },
{
    assert forall|status: TaskStatus| #[trigger] count_status(slots.push(slot), status)
        == count_status(slots, status) + if slot.status == status { 1nat } else { 0nat } by {
        slots.lemma_filter_push(slot, |s: SlotView| s.status == status);
    }
}

/// Every task has exactly one status: the five counts add up to the number
/// of registered tasks.
pub proof fn law_status_counts_partition(slots: Seq<SlotView>)
    ensures
        count_status(slots, TaskStatus::Pending) + count_status(slots, TaskStatus::Running)
            + count_status(slots, TaskStatus::Completed) + count_status(slots, TaskStatus::Reused)
            + count_status(slots, TaskStatus::Failed) == slots.len(),
    decreases slots.len(),
{
    if slots.len() == 0 {
        reveal(Seq::filter);
    } else {
        let init = slots.drop_last();
        law_status_counts_partition(init);
        assert(slots =~= init.push(slots.last()));
        lemma_count_push(init, slots.last());
    }
}

} // verus!
