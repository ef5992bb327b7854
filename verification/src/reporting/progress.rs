//! The lifecycle registry of application-registered tasks, identified by
//! exact labels, and the builders that configure how it is presented.
use vstd::prelude::*;
use std::sync::Arc;
use std::sync::atomic::AtomicBool;
use crate::text::string_views;
use super::error::ReportingError;

verus! {

/// Lifecycle status of one independently executing task.
#[derive(Clone, Copy, Debug, PartialEq, Eq, Structural)]
pub enum TaskStatus {
    /// Registered but not started.
    Pending,
    /// Holding an active handle.
    Running,
    /// Evolution, persistence, and caller-defined validation completed.
    Completed,
    /// Failed explicitly, or its handle was dropped prematurely.
    Failed,
}

/// The stable name of a status.
pub open spec fn status_label(status: TaskStatus) -> Seq<char> {
    match status {
        TaskStatus::Pending => "pending"@,
        TaskStatus::Running => "running"@,
        TaskStatus::Completed => "completed"@,
        TaskStatus::Failed => "failed"@,
    }
}

/// The byte that stores a status.
pub open spec fn status_code(status: TaskStatus) -> u8 {
    match status {
        TaskStatus::Pending => 0,
        TaskStatus::Running => 1,
        TaskStatus::Completed => 2,
        TaskStatus::Failed => 3,
    }
}

impl TaskStatus {
    /// The byte that stores this status.
    pub fn encode(self) -> (r: u8)
        ensures
            r == status_code(self),
    {
        match self {
            TaskStatus::Pending => 0,
            TaskStatus::Running => 1,
            TaskStatus::Completed => 2,
            TaskStatus::Failed => 3,
        }
    }

    /// The status stored as `value`, which `encode` produced.
    pub fn decode(value: u8) -> (r: Self)
        requires
            value <= 3,
        ensures
            status_code(r) == value,
    {
        match value {
            0 => TaskStatus::Pending,
            1 => TaskStatus::Running,
            2 => TaskStatus::Completed,
            _ => TaskStatus::Failed,
        }
    }

    /// The stable status name used by line-oriented output.
    pub fn label(self) -> (r: &'static str)
        ensures
            r@ == status_label(self),
    {
        match self {
            TaskStatus::Pending => "pending",
            TaskStatus::Running => "running",
            TaskStatus::Completed => "completed",
            TaskStatus::Failed => "failed",
        }
    }
}

/// Decoding undoes encoding: two statuses stored as the same byte are the
/// same status.
pub proof fn law_status_code_round_trip(status: TaskStatus, decoded: TaskStatus)
    requires
        status_code(decoded) == status_code(status),
    ensures
        decoded == status,
{
}

/// Immutable aggregate captured when reporting ends.
pub struct ProgressSummary {
    total: u64,
    pending: u64,
    running: u64,
    completed: u64,
    failed: u64,
}

impl ProgressSummary {
    /// The counts, by status, partition the registered tasks.
    #[verifier::type_invariant]
    spec fn partitions(self) -> bool {
        self.pending + self.running + self.completed + self.failed == self.total
    }

    /// Registered tasks.
    pub closed spec fn total_spec(self) -> u64 { self.total }
    /// Tasks never started.
    pub closed spec fn pending_spec(self) -> u64 { self.pending }
    /// Tasks still running.
    pub closed spec fn running_spec(self) -> u64 { self.running }
    /// Tasks completed.
    pub closed spec fn completed_spec(self) -> u64 { self.completed }
    /// Tasks failed or interrupted.
    pub closed spec fn failed_spec(self) -> u64 { self.failed }

    /// Every registered task completed.
    pub open spec fn success_spec(self) -> bool {
        &&& self.completed_spec() == self.total_spec()
        &&& self.pending_spec() == 0
        &&& self.running_spec() == 0
        &&& self.failed_spec() == 0
    }

    /// Returns the number of registered tasks.
    pub fn total(&self) -> (r: u64)
        ensures r == self.total_spec(),
    {
        self.total
    }

    /// Returns the number of tasks that never started.
    pub fn pending(&self) -> (r: u64)
        ensures r == self.pending_spec(),
    {
        self.pending
    }

    /// Returns the number of tasks still running at capture time.
    pub fn running(&self) -> (r: u64)
        ensures r == self.running_spec(),
    {
        self.running
    }

    /// Returns the number of successfully completed tasks.
    pub fn completed(&self) -> (r: u64)
        ensures r == self.completed_spec(),
    {
        self.completed
    }

    /// Returns the number of failed or interrupted tasks.
    pub fn failed(&self) -> (r: u64)
        ensures r == self.failed_spec(),
    {
        self.failed
    }

    /// Reports whether every registered task completed successfully.
    pub fn is_success(&self) -> (r: bool)
        ensures
            r == self.success_spec(),
    {
        self.completed == self.total && self.pending == 0 && self.running == 0 && self.failed == 0
    }
}

/// Where reporting output goes.
#[derive(Clone, Copy, Debug, PartialEq, Eq, Structural)]
pub enum OutputMode {
    /// Terminal rendering when both stderr and stdin are terminals, plain
    /// lines otherwise.
    Auto,
    /// Cursor-controlled terminal rendering.
    Terminal,
    /// Stable line-oriented output.
    Plain,
    /// No rendering; tracking continues.
    Hidden,
}

/// The concrete output for a requested mode, given whether stderr and stdin
/// are terminals.
pub open spec fn resolved_output(requested: OutputMode, stderr_terminal: bool, stdin_terminal: bool) -> OutputMode {
    match requested {
        OutputMode::Auto => if stderr_terminal && stdin_terminal { OutputMode::Terminal } else { OutputMode::Plain },
        explicit => explicit,
    }
}

/// Automatic output renders to the terminal only when stderr and stdin are
/// both terminals, and otherwise writes plain lines; an explicitly
/// requested output is kept as requested; the result is never `Auto`.
pub proof fn law_auto_output_needs_two_terminals(requested: OutputMode, stderr_terminal: bool, stdin_terminal: bool)
    ensures
        requested == OutputMode::Auto && stderr_terminal && stdin_terminal
            ==> resolved_output(requested, stderr_terminal, stdin_terminal) == OutputMode::Terminal,
        requested == OutputMode::Auto && !(stderr_terminal && stdin_terminal)
            ==> resolved_output(requested, stderr_terminal, stdin_terminal) == OutputMode::Plain,
        requested != OutputMode::Auto ==> resolved_output(requested, stderr_terminal, stdin_terminal) == requested,
        resolved_output(requested, stderr_terminal, stdin_terminal) != OutputMode::Auto,
{
}

/// Resolves automatic output selection.
pub fn resolve_output(requested: OutputMode, stderr_terminal: bool, stdin_terminal: bool) -> (r: OutputMode)
    ensures
        r == resolved_output(requested, stderr_terminal, stdin_terminal),
{
    match requested {
        OutputMode::Auto => if stderr_terminal && stdin_terminal { OutputMode::Terminal } else { OutputMode::Plain },
        explicit => explicit,
    }
}

/// Builder for one progress-reporting session over a project's tasks.
pub struct ProgressReporterBuilder {
    identity_keys: Option<Vec<String>>,
    output: OutputMode,
}

impl ProgressReporterBuilder {
    /// The requested output.
    pub closed spec fn output_spec(&self) -> OutputMode {
        self.output
    }

    /// The selected identity keys, if any were selected.
    pub closed spec fn identity_keys_spec(&self) -> Option<Seq<Seq<char>>> {
        match self.identity_keys {
            Some(keys) => Some(string_views(keys@)),
            None => None,
        }
    }

    /// A builder with automatic output and the default identity.
    pub fn new() -> (r: Self)
        ensures
            r.output_spec() == OutputMode::Auto,
            r.identity_keys_spec() is None,
    {
        ProgressReporterBuilder { identity_keys: None, output: OutputMode::Auto }
    }

    /// Selects the exact parameter combination used to identify every task.
    pub fn identify_tasks_by(self, keys: Vec<String>) -> (r: Self)
        ensures
            r.output_spec() == self.output_spec(),
            r.identity_keys_spec() == Some(string_views(keys@)),
    {
        ProgressReporterBuilder { identity_keys: Some(keys), ..self }
    }

    /// A copy of the selected identity keys.
    pub fn selected_keys(&self) -> (r: Option<Vec<String>>)
        ensures
            match r {
                Some(v) => self.identity_keys_spec() == Some(string_views(v@)),
                None => self.identity_keys_spec() is None,
            },
    {
        match &self.identity_keys {
            Some(keys) => {
                let mut out: Vec<String> = Vec::new();
                let mut i: usize = 0;
                while i < keys.len()
                    invariant
                        i <= keys@.len(),
                        string_views(out@) == string_views(keys@).take(i as int),
                    decreases keys@.len() - i,
                {
                    let ghost before = out@;
                    out.push(keys[i].clone());
                    proof {
                        assert(string_views(out@) =~= string_views(before).push(keys@[i as int]@));
                        assert(string_views(keys@).take(i as int + 1)
                            =~= string_views(keys@).take(i as int).push(keys@[i as int]@));
                    }
                    i = i + 1;
                }
                assert(string_views(keys@).take(keys@.len() as int) =~= string_views(keys@));
                Some(out)
            },
            None => None,
        }
    }

    /// Forces cursor-controlled terminal rendering.
    pub fn terminal(self) -> (r: Self)
        ensures
            r.output_spec() == OutputMode::Terminal,
            r.identity_keys_spec() == self.identity_keys_spec(),
    {
        ProgressReporterBuilder { output: OutputMode::Terminal, ..self }
    }

    /// Forces stable line-oriented output suitable for logs.
    pub fn plain(self) -> (r: Self)
        ensures
            r.output_spec() == OutputMode::Plain,
            r.identity_keys_spec() == self.identity_keys_spec(),
    {
        ProgressReporterBuilder { output: OutputMode::Plain, ..self }
    }

    /// Suppresses rendering while retaining counters and lifecycle validation.
    pub fn hidden(self) -> (r: Self)
        ensures
            r.output_spec() == OutputMode::Hidden,
            r.identity_keys_spec() == self.identity_keys_spec(),
    {
        ProgressReporterBuilder { output: OutputMode::Hidden, ..self }
    }

    /// The requested output.
    pub fn output(&self) -> (r: OutputMode)
        ensures
            r == self.output_spec(),
    {
        self.output
    }
}

/// Builder for an application-owned registry of labelled tasks.
pub struct RegisteredProgressReporterBuilder {
    labels: Vec<String>,
    output: OutputMode,
}

impl RegisteredProgressReporterBuilder {
    /// The requested output.
    pub closed spec fn output_spec(&self) -> OutputMode {
        self.output
    }

    /// The task labels, in registration order.
    pub closed spec fn labels_spec(&self) -> Seq<Seq<char>> {
        string_views(self.labels@)
    }

    /// Registers one ordered set of task labels, with automatic output.
    pub fn for_registered_tasks(labels: Vec<String>) -> (r: Self)
        ensures
            r.output_spec() == OutputMode::Auto,
            r.labels_spec() == string_views(labels@),
    {
        RegisteredProgressReporterBuilder { labels, output: OutputMode::Auto }
    }

    /// Forces cursor-controlled isolated-screen rendering.
    pub fn terminal(self) -> (r: Self)
        ensures
            r.output_spec() == OutputMode::Terminal,
            r.labels_spec() == self.labels_spec(),
    {
        RegisteredProgressReporterBuilder { output: OutputMode::Terminal, ..self }
    }

    /// Forces stable line-oriented output.
    pub fn plain(self) -> (r: Self)
        ensures
            r.output_spec() == OutputMode::Plain,
            r.labels_spec() == self.labels_spec(),
    {
        RegisteredProgressReporterBuilder { output: OutputMode::Plain, ..self }
    }

    /// Suppresses rendering while retaining progress state.
    pub fn hidden(self) -> (r: Self)
        ensures
            r.output_spec() == OutputMode::Hidden,
            r.labels_spec() == self.labels_spec(),
    {
        RegisteredProgressReporterBuilder { output: OutputMode::Hidden, ..self }
    }

    /// The requested output.
    pub fn output(&self) -> (r: OutputMode)
        ensures
            r == self.output_spec(),
    {
        self.output
    }

    /// Builds the registry of the registered labels; a repeated label is
    /// rejected.
    pub fn build_registry(self) -> (r: Result<RegisteredProgress, ReportingError>)
        ensures
            ({
                let labels = self.labels_spec();
                &&& r is Ok <==> labels_distinct(labels)
                &&& r matches Ok(reg) ==> reg.slots_spec().len() == labels.len()
                    && forall|i: int| 0 <= i < labels.len() ==> {
                        &&& (#[trigger] reg.slots_spec()[i]).label == labels[i]
                        &&& reg.slots_spec()[i].status == TaskStatus::Pending
                        &&& reg.slots_spec()[i].current == 0
                        &&& reg.slots_spec()[i].target is None
                        &&& reg.slots_spec()[i].detail == "pending"@
                    }
                &&& r matches Err(e) ==> (e matches ReportingError::DuplicateRegisteredTask { identity }
                    && exists|i: int, j: int| 0 <= i < j < labels.len() && #[trigger] labels[i] == #[trigger] labels[j]
                        && identity@ == labels[j])
            }),
    {
        RegisteredProgress::register(self.labels)
    }
}

/// No label appears twice.
pub open spec fn labels_distinct(labels: Seq<Seq<char>>) -> bool {
    forall|i: int, j: int| 0 <= i < j < labels.len() ==> labels[i] != labels[j]
}

/// Shared, cheap cancellation observation for embedded schedulers and tasks.
///
/// The flag is shared between threads, so no contract states what a read
/// returns.
pub struct CancellationToken(Arc<AtomicBool>);

impl CancellationToken {
    /// A token on which cancellation was not requested.
    pub fn new() -> Self {
        CancellationToken(Arc::new(AtomicBool::new(false)))
    }

    /// Another token observing the same flag.
    pub fn share(&self) -> (r: Self)
        ensures
            r == *self,
    {
        CancellationToken(crate::handle::share_arc(&self.0))
    }

    /// Reports whether cooperative termination was requested.
    pub fn is_cancelled(&self) -> bool {
        self.0.load(std::sync::atomic::Ordering::Acquire)
    }

    /// Requests cooperative termination.
    pub fn cancel(&self) {
        self.0.store(true, std::sync::atomic::Ordering::Release)
    }
}

/// What the registry knows of one task.
pub struct SlotView {
    /// Exact label.
    pub label: Seq<char>,
    /// Lifecycle status.
    pub status: TaskStatus,
    /// Latest reported absolute iteration.
    pub current: u64,
    /// Known absolute target iteration.
    pub target: Option<u64>,
    /// Latest human-readable phase of the task.
    pub detail: Seq<char>,
}

struct ProgressSlot {
    label: String,
    status: TaskStatus,
    current: u64,
    target: Option<u64>,
    detail: String,
}

impl ProgressSlot {
    closed spec fn view(&self) -> SlotView {
        SlotView { label: self.label@, status: self.status, current: self.current, target: self.target, detail: self.detail@ }
    }
}

/// Number of slots with `status`.
pub open spec fn count_status(slots: Seq<SlotView>, status: TaskStatus) -> nat {
    slots.filter(|s: SlotView| s.status == status).len()
}

/// The first slot with `label`.
pub open spec fn find_label(slots: Seq<SlotView>, label: Seq<char>) -> Option<int> {
    if exists|i: int| 0 <= i < slots.len() && #[trigger] slots[i].label == label {
        Some(choose|i: int| 0 <= i < slots.len() && #[trigger] slots[i].label == label
            && forall|k: int| 0 <= k < i ==> #[trigger] slots[k].label != label)
    } else {
        None
    }
}

/// The lifecycle registry of application-registered tasks.
pub struct RegisteredProgress {
    slots: Vec<ProgressSlot>,
}

impl RegisteredProgress {
    /// The registered tasks, in registration order.
    pub closed spec fn slots_spec(&self) -> Seq<SlotView> {
        self.slots@.map_values(|s: ProgressSlot| s.view())
    }

    /// Registers `labels` in order; a repeated label is rejected.
    fn register(labels: Vec<String>) -> (r: Result<Self, ReportingError>)
        ensures
            ({
                let ls = string_views(labels@);
                &&& r is Ok <==> labels_distinct(ls)
                &&& r matches Ok(reg) ==> reg.slots_spec().len() == ls.len()
                    && forall|i: int| 0 <= i < ls.len() ==> {
                        &&& (#[trigger] reg.slots_spec()[i]).label == ls[i]
                        &&& reg.slots_spec()[i].status == TaskStatus::Pending
                        &&& reg.slots_spec()[i].current == 0
                        &&& reg.slots_spec()[i].target is None
                        &&& reg.slots_spec()[i].detail == "pending"@
                    }
                &&& r matches Err(e) ==> (e matches ReportingError::DuplicateRegisteredTask { identity }
                    && exists|i: int, j: int| 0 <= i < j < ls.len() && #[trigger] ls[i] == #[trigger] ls[j]
                        && identity@ == ls[j])
            }),
    {
        let ghost ls = string_views(labels@);
        let mut slots: Vec<ProgressSlot> = Vec::new();
        let mut i: usize = 0;
        while i < labels.len()
            invariant
                ls == string_views(labels@),
                i <= labels@.len(),
                labels_distinct(ls.take(i as int)),
                slots@.len() == i,
                forall|k: int| 0 <= k < i ==> {
                    &&& (#[trigger] slots@[k]).label@ == ls[k]
                    &&& slots@[k].status == TaskStatus::Pending
                    &&& slots@[k].current == 0
                    &&& slots@[k].target is None
                    &&& slots@[k].detail@ == "pending"@
                },
            decreases labels@.len() - i,
        {
            let mut j: usize = 0;
            while j < i
                invariant
                    ls == string_views(labels@),
                    i < labels@.len(),
                    j <= i,
                    forall|k: int| 0 <= k < j ==> ls[k] != ls[i as int],
                decreases i - j,
            {
                assert(ls[j as int] == labels@[j as int]@ && ls[i as int] == labels@[i as int]@);
                if labels[j] == labels[i] {
                    proof {
                        assert(ls[j as int] == ls[i as int]);
                    }
                    return Err(ReportingError::DuplicateRegisteredTask { identity: labels[i].clone() });
                }
                j = j + 1;
            }
            slots.push(ProgressSlot {
                label: labels[i].clone(),
                status: TaskStatus::Pending,
                current: 0,
                target: None,
                detail: "pending".to_owned(),
            });
            proof {
                assert forall|a: int, b: int| 0 <= a < b < ls.take(i as int + 1).len()
                    implies #[trigger] ls.take(i as int + 1)[a] != #[trigger] ls.take(i as int + 1)[b] by {
                    if b < i {
                        assert(ls.take(i as int)[a] != ls.take(i as int)[b]);
                    }
                }
            }
            i = i + 1;
        }
        let registry = RegisteredProgress { slots };
        proof {
            assert(ls.take(ls.len() as int) =~= ls);
            assert forall|k: int| 0 <= k < ls.len() implies {
                &&& (#[trigger] registry.slots_spec()[k]).label == ls[k]
                &&& registry.slots_spec()[k].status == TaskStatus::Pending
                &&& registry.slots_spec()[k].current == 0
                &&& registry.slots_spec()[k].target is None
                &&& registry.slots_spec()[k].detail == "pending"@
            } by {
                assert(registry.slots_spec()[k] == registry.slots@[k].view());
            }
        }
        Ok(registry)
    }

    /// Number of registered tasks.
    pub fn len(&self) -> (r: usize)
        ensures
            r == self.slots_spec().len(),
    {
        self.slots.len()
    }

    /// Finds the first slot with `label`.
    fn lookup(&self, label: &str) -> (r: Result<usize, ReportingError>)
        ensures
            ({
                let found = find_label(self.slots_spec(), label@);
                &&& r is Ok <==> found is Some
                &&& r matches Ok(i) ==> found == Some(i as int) && i < self.slots_spec().len()
                &&& r matches Err(e) ==> (e matches ReportingError::UnknownRegisteredTask { identity } && identity@ == label@)
            }),
    {
        let ghost view = self.slots_spec();
        let wanted = label.to_owned();
        let mut i: usize = 0;
        while i < self.slots.len()
            invariant
                view == self.slots_spec(),
                wanted@ == label@,
                i <= view.len(),
                forall|k: int| 0 <= k < i ==> #[trigger] view[k].label != label@,
            decreases view.len() - i,
        {
            assert(view[i as int] == self.slots@[i as int].view());
            if self.slots[i].label == wanted {
                proof {
                    assert(view[i as int].label == label@);
                    let w = choose|w: int| 0 <= w < view.len() && #[trigger] view[w].label == label@
                        && forall|k: int| 0 <= k < w ==> #[trigger] view[k].label != label@;
                    if w < i {
                    } else if w > i {
                    }
                }
                return Ok(i);
            }
            i = i + 1;
        }
        Err(ReportingError::UnknownRegisteredTask { identity: wanted })
    }

    /// Starts the task registered under `label` at an absolute initial
    /// iteration, with an optional absolute target, and returns its slot.
    /// An unknown label, an initial iteration beyond the target, and a task
    /// that already started are rejected, in that order, without changing
    /// the registry.
    pub fn start_registered_task(&mut self, label: &str, initial_iteration: u64, target_iteration: Option<u64>)
        -> (r: Result<usize, ReportingError>)
        ensures
            ({
                let slots = old(self).slots_spec();
                let found = find_label(slots, label@);
                &&& r is Err ==> final(self).slots_spec() == slots
                &&& found is None ==> (r matches Err(ReportingError::UnknownRegisteredTask { identity }) && identity@ == label@)
                &&& found matches Some(i) ==> {
                    let s = slots[i];
                    let beyond = target_iteration matches Some(t) && initial_iteration > t;
                    &&& beyond ==> (r matches Err(ReportingError::InitialIterationBeyondTarget { identity, initial, target })
                        && identity@ == s.label && initial == initial_iteration && Some(target) == target_iteration)
                    &&& !beyond && s.status != TaskStatus::Pending
                        ==> (r matches Err(ReportingError::TaskAlreadyStarted { identity }) && identity@ == s.label)
                    &&& !beyond && s.status == TaskStatus::Pending ==> r == Ok::<usize, ReportingError>(i as usize)
                        && final(self).slots_spec() == slots.update(i, SlotView {
                            status: TaskStatus::Running,
                            current: initial_iteration,
                            target: target_iteration,
                            detail: "running"@,
                            ..s
                        })
                }
            }),
    {
        let i = self.lookup(label)?;
        assert(self.slots_spec()[i as int] == self.slots@[i as int].view());
        if let Some(target) = target_iteration {
            if initial_iteration > target {
                return Err(ReportingError::InitialIterationBeyondTarget {
                    identity: self.slots[i].label.clone(),
                    initial: initial_iteration,
                    target,
                });
            }
        }
        if self.slots[i].status != TaskStatus::Pending {
            return Err(ReportingError::TaskAlreadyStarted { identity: self.slots[i].label.clone() });
        }
        self.set_slot(i, TaskStatus::Running, initial_iteration, target_iteration, "running".to_owned());
        Ok(i)
    }

    /// Marks the task registered under `label` complete through verified
    /// reuse: a pending task becomes completed with phase `reused`.
    pub fn mark_registered_reused(&mut self, label: &str) -> (r: Result<(), ReportingError>)
        ensures
            ({
                let slots = old(self).slots_spec();
                let found = find_label(slots, label@);
                &&& r is Err ==> final(self).slots_spec() == slots
                &&& found is None ==> (r matches Err(ReportingError::UnknownRegisteredTask { identity }) && identity@ == label@)
                &&& found matches Some(i) ==> {
                    let s = slots[i];
                    &&& s.status != TaskStatus::Pending ==> (r matches Err(ReportingError::TaskAlreadyStarted { identity }) && identity@ == s.label)
                    &&& s.status == TaskStatus::Pending ==> r is Ok
                        && final(self).slots_spec() == slots.update(i, SlotView { status: TaskStatus::Completed, detail: "reused"@, ..s })
                }
            }),
    {
        let i = self.lookup(label)?;
        assert(self.slots_spec()[i as int] == self.slots@[i as int].view());
        if self.slots[i].status != TaskStatus::Pending {
            return Err(ReportingError::TaskAlreadyStarted { identity: self.slots[i].label.clone() });
        }
        let current = self.slots[i].current;
        let target = self.slots[i].target;
        self.set_slot(i, TaskStatus::Completed, current, target, "reused".to_owned());
        Ok(())
    }

    /// Replaces the lifecycle fields of slot `i`.
    fn set_slot(&mut self, i: usize, status: TaskStatus, current: u64, target: Option<u64>, detail: String)
        requires
            i < old(self).slots_spec().len(),
        ensures
            final(self).slots_spec() == old(self).slots_spec().update(i as int, SlotView {
                status,
                current,
                target,
                detail: detail@,
                ..old(self).slots_spec()[i as int]
            }),
    {
        let ghost before = self.slots@;
        self.slots[i].status = status;
        self.slots[i].current = current;
        self.slots[i].target = target;
        self.slots[i].detail = detail;
        proof {
            assert(self.slots@.len() == before.len());
            assert forall|k: int| 0 <= k < before.len() && k != i implies self.slots@[k] == before[k] by {}
            assert(self.slots_spec() =~= old(self).slots_spec().update(i as int, SlotView {
                status,
                current,
                target,
                detail: detail@,
                ..old(self).slots_spec()[i as int]
            }));
        }
    }

    /// Synchronizes slot `i` to an absolute iteration. Movement beyond a
    /// known target and movement backward are rejected without changing the
    /// counter.
    pub fn set_iteration(&mut self, i: usize, iteration: u64) -> (r: Result<(), ReportingError>)
        requires
            i < old(self).slots_spec().len(),
        ensures
            ({
                let s = old(self).slots_spec()[i as int];
                let beyond = s.target matches Some(t) && iteration > t;
                &&& r is Err ==> final(self).slots_spec() == old(self).slots_spec()
                &&& beyond ==> (r matches Err(ReportingError::IterationBeyondTarget { identity, iteration: it, target })
                    && identity@ == s.label && it == iteration && s.target == Some(target))
                &&& !beyond && iteration < s.current ==> (r matches Err(ReportingError::IterationRegressed { identity, current, attempted })
                    && identity@ == s.label && current == s.current && attempted == iteration)
                &&& !beyond && iteration >= s.current ==> r is Ok
                    && final(self).slots_spec() == old(self).slots_spec().update(i as int, SlotView { current: iteration, ..s })
            }),
    {
        assert(self.slots_spec()[i as int] == self.slots@[i as int].view());
        if let Some(target) = self.slots[i].target {
            if iteration > target {
                return Err(ReportingError::IterationBeyondTarget {
                    identity: self.slots[i].label.clone(),
                    iteration,
                    target,
                });
            }
        }
        let previous = self.slots[i].current;
        if iteration < previous {
            return Err(ReportingError::IterationRegressed {
                identity: self.slots[i].label.clone(),
                current: previous,
                attempted: iteration,
            });
        }
        let ghost before = self.slots@;
        self.slots[i].current = iteration;
        proof {
            assert forall|k: int| 0 <= k < before.len() && k != i implies self.slots@[k] == before[k] by {}
            assert(self.slots_spec() =~= old(self).slots_spec().update(i as int, SlotView { current: iteration, ..old(self).slots_spec()[i as int] }));
        }
        Ok(())
    }

    /// Sets or replaces the absolute target of slot `i`; a target below the
    /// current iteration is rejected.
    pub fn set_target_iteration(&mut self, i: usize, target: u64) -> (r: Result<(), ReportingError>)
        requires
            i < old(self).slots_spec().len(),
        ensures
            ({
                let s = old(self).slots_spec()[i as int];
                &&& s.current > target ==> (r matches Err(ReportingError::InitialIterationBeyondTarget { identity, initial, target: t })
                    && identity@ == s.label && initial == s.current && t == target)
                    && final(self).slots_spec() == old(self).slots_spec()
                &&& s.current <= target ==> r is Ok
                    && final(self).slots_spec() == old(self).slots_spec().update(i as int, SlotView { target: Some(target), ..s })
            }),
    {
        assert(self.slots_spec()[i as int] == self.slots@[i as int].view());
        let current = self.slots[i].current;
        if current > target {
            return Err(ReportingError::InitialIterationBeyondTarget {
                identity: self.slots[i].label.clone(),
                initial: current,
                target,
            });
        }
        let ghost before = self.slots@;
        self.slots[i].target = Some(target);
        proof {
            assert forall|k: int| 0 <= k < before.len() && k != i implies self.slots@[k] == before[k] by {}
            assert(self.slots_spec() =~= old(self).slots_spec().update(i as int, SlotView { target: Some(target), ..old(self).slots_spec()[i as int] }));
        }
        Ok(())
    }

    /// Synchronizes slot `i` to `iteration` and decides whether the task
    /// continues: not when `cancelled` was observed, and not at a known
    /// target.
    pub fn should_continue(&mut self, i: usize, iteration: u64, cancelled: bool) -> (r: Result<bool, ReportingError>)
        requires
            i < old(self).slots_spec().len(),
        ensures
            ({
                let s = old(self).slots_spec()[i as int];
                let beyond = s.target matches Some(t) && iteration > t;
                &&& r is Err <==> beyond || iteration < s.current
                &&& r is Err ==> final(self).slots_spec() == old(self).slots_spec()
                &&& beyond ==> (r matches Err(ReportingError::IterationBeyondTarget { identity, iteration: it, target })
                    && identity@ == s.label && it == iteration && s.target == Some(target))
                &&& !beyond && iteration < s.current ==> (r matches Err(ReportingError::IterationRegressed { identity, current, attempted })
                    && identity@ == s.label && current == s.current && attempted == iteration)
                &&& r matches Ok(go) ==> go == (!cancelled && (s.target matches Some(t) ==> iteration < t))
                    && final(self).slots_spec() == old(self).slots_spec().update(i as int, SlotView { current: iteration, ..s })
            }),
    {
        match self.set_iteration(i, iteration) {
            Ok(()) => {},
            Err(e) => {
                return Err(e);
            },
        }
        assert(self.slots_spec().len() == old(self).slots_spec().len());
        assert(self.slots_spec()[i as int] == self.slots@[i as int].view());
        let go = match self.slots[i].target {
            Some(target) => iteration < target,
            None => true,
        };
        Ok(!cancelled && go)
    }

    /// Finishes the progress task in slot `i`. Without a `reason`, a known
    /// target must have been reached: otherwise the task fails with detail
    /// `target not reached`. With a reason, the task completes early and the
    /// reason becomes its detail.
    pub fn complete_progress(&mut self, i: usize, reason: Option<String>) -> (r: Result<(), ReportingError>)
        requires
            i < old(self).slots_spec().len(),
        ensures
            ({
                let s = old(self).slots_spec()[i as int];
                let missed = reason is None && (s.target matches Some(t) && s.current != t);
                &&& missed ==> (r matches Err(ReportingError::TargetIterationNotReached { identity, current, target })
                    && identity@ == s.label && current == s.current && s.target == Some(target))
                    && final(self).slots_spec() == old(self).slots_spec().update(i as int,
                        SlotView { status: TaskStatus::Failed, detail: "target not reached"@, ..s })
                &&& !missed ==> r is Ok && final(self).slots_spec() == old(self).slots_spec().update(i as int,
                        SlotView {
                            status: TaskStatus::Completed,
                            detail: match reason { Some(text) => text@, None => "completed"@ },
                            ..s
                        })
            }),
    {
        assert(self.slots_spec()[i as int] == self.slots@[i as int].view());
        let current = self.slots[i].current;
        let target = self.slots[i].target;
        if reason.is_none() {
            if let Some(t) = target {
                if current != t {
                    let identity = self.slots[i].label.clone();
                    self.set_slot(i, TaskStatus::Failed, current, target, "target not reached".to_owned());
                    return Err(ReportingError::TargetIterationNotReached { identity, current, target: t });
                }
            }
        }
        let detail = match reason {
            Some(text) => text,
            None => "completed".to_owned(),
        };
        self.set_slot(i, TaskStatus::Completed, current, target, detail);
        Ok(())
    }

    /// Finishes slot `i` successfully without a target check.
    pub fn complete_unchecked(&mut self, i: usize)
        requires
            i < old(self).slots_spec().len(),
        ensures
            final(self).slots_spec() == old(self).slots_spec().update(i as int,
                SlotView { status: TaskStatus::Completed, detail: "completed"@, ..old(self).slots_spec()[i as int] }),
    {
        assert(self.slots_spec()[i as int] == self.slots@[i as int].view());
        let current = self.slots[i].current;
        let target = self.slots[i].target;
        self.set_slot(i, TaskStatus::Completed, current, target, "completed".to_owned());
    }

    /// Marks slot `i` failed with a concise `reason` as its detail.
    pub fn fail(&mut self, i: usize, reason: String)
        requires
            i < old(self).slots_spec().len(),
        ensures
            final(self).slots_spec() == old(self).slots_spec().update(i as int,
                SlotView { status: TaskStatus::Failed, detail: reason@, ..old(self).slots_spec()[i as int] }),
    {
        assert(self.slots_spec()[i as int] == self.slots@[i as int].view());
        let current = self.slots[i].current;
        let target = self.slots[i].target;
        self.set_slot(i, TaskStatus::Failed, current, target, reason);
    }

    /// The handle of slot `i` was dropped: a task still running is marked
    /// failed with detail `interrupted`; any other task is unchanged.
    pub fn interrupt(&mut self, i: usize)
        requires
            i < old(self).slots_spec().len(),
        ensures
            ({
                let s = old(self).slots_spec()[i as int];
                &&& s.status == TaskStatus::Running ==> final(self).slots_spec() == old(self).slots_spec().update(i as int,
                    SlotView { status: TaskStatus::Failed, detail: "interrupted"@, ..s })
                &&& s.status != TaskStatus::Running ==> final(self).slots_spec() == old(self).slots_spec()
            }),
    {
        assert(self.slots_spec()[i as int] == self.slots@[i as int].view());
        if self.slots[i].status == TaskStatus::Running {
            let current = self.slots[i].current;
            let target = self.slots[i].target;
            self.set_slot(i, TaskStatus::Failed, current, target, "interrupted".to_owned());
        }
    }

    /// The label of slot `i`.
    pub fn label(&self, i: usize) -> (r: &str)
        requires
            i < self.slots_spec().len(),
        ensures
            r@ == self.slots_spec()[i as int].label,
    {
        assert(self.slots_spec()[i as int] == self.slots@[i as int].view());
        self.slots[i].label.as_str()
    }

    /// The latest phase text of slot `i`.
    pub fn detail(&self, i: usize) -> (r: &str)
        requires
            i < self.slots_spec().len(),
        ensures
            r@ == self.slots_spec()[i as int].detail,
    {
        assert(self.slots_spec()[i as int] == self.slots@[i as int].view());
        self.slots[i].detail.as_str()
    }

    /// The status of slot `i`.
    pub fn status(&self, i: usize) -> (r: TaskStatus)
        requires
            i < self.slots_spec().len(),
        ensures
            r == self.slots_spec()[i as int].status,
    {
        assert(self.slots_spec()[i as int] == self.slots@[i as int].view());
        self.slots[i].status
    }

    /// The latest reported iteration of slot `i`.
    pub fn current_iteration(&self, i: usize) -> (r: u64)
        requires
            i < self.slots_spec().len(),
        ensures
            r == self.slots_spec()[i as int].current,
    {
        assert(self.slots_spec()[i as int] == self.slots@[i as int].view());
        self.slots[i].current
    }

    /// The known target of slot `i`.
    pub fn target_iteration(&self, i: usize) -> (r: Option<u64>)
        requires
            i < self.slots_spec().len(),
        ensures
            r == self.slots_spec()[i as int].target,
    {
        assert(self.slots_spec()[i as int] == self.slots@[i as int].view());
        self.slots[i].target
    }

    /// A snapshot of all task lifecycle counts.
    pub fn summary(&self) -> (r: ProgressSummary)
        ensures
            r.total_spec() == self.slots_spec().len(),
            r.pending_spec() == count_status(self.slots_spec(), TaskStatus::Pending),
            r.running_spec() == count_status(self.slots_spec(), TaskStatus::Running),
            r.completed_spec() == count_status(self.slots_spec(), TaskStatus::Completed),
            r.failed_spec() == count_status(self.slots_spec(), TaskStatus::Failed),
    {
        let ghost view = self.slots_spec();
        let n = self.slots.len();
        let mut pending: u64 = 0;
        let mut running: u64 = 0;
        let mut completed: u64 = 0;
        let mut failed: u64 = 0;
        let mut i: usize = 0;
        while i < n
            invariant
                n == view.len(),
                view == self.slots_spec(),
                i <= n,
                pending == count_status(view.take(i as int), TaskStatus::Pending),
                running == count_status(view.take(i as int), TaskStatus::Running),
                completed == count_status(view.take(i as int), TaskStatus::Completed),
                failed == count_status(view.take(i as int), TaskStatus::Failed),
                pending + running + completed + failed == i,
            decreases n - i,
        {
            let status = self.slots[i].status;
            proof {
                assert(view[i as int] == self.slots@[i as int].view());
                assert(view.take(i as int + 1) =~= view.take(i as int).push(view[i as int]));
                lemma_count_push(view.take(i as int), view[i as int]);
            }
            match status {
                TaskStatus::Pending => { pending = pending + 1; },
                TaskStatus::Running => { running = running + 1; },
                TaskStatus::Completed => { completed = completed + 1; },
                TaskStatus::Failed => { failed = failed + 1; },
            }
            i = i + 1;
        }
        proof {
            assert(view.take(n as int) =~= view);
        }
        ProgressSummary { total: n as u64, pending, running, completed, failed }
    }

    /// Checks that a session may end successfully: every task completed.
    /// Otherwise the counts of unfinished tasks are reported.
    pub fn check_success(&self) -> (r: Result<ProgressSummary, ReportingError>)
        ensures
            ({
                let slots = self.slots_spec();
                let success = count_status(slots, TaskStatus::Pending) == 0 && count_status(slots, TaskStatus::Running) == 0
                    && count_status(slots, TaskStatus::Failed) == 0;
                &&& r is Ok <==> success
                &&& r matches Ok(summary) ==> summary.total_spec() == slots.len()
                    && summary.completed_spec() == slots.len() && summary.success_spec()
                &&& r matches Err(e) ==> (e matches ReportingError::IncompleteProgress { pending, running, failed }
                    && pending == count_status(slots, TaskStatus::Pending)
                    && running == count_status(slots, TaskStatus::Running)
                    && failed == count_status(slots, TaskStatus::Failed))
            }),
    {
        let summary = self.summary();
        proof {
            law_status_counts_partition(self.slots_spec());
        }
        if !summary.is_success() {
            return Err(ReportingError::IncompleteProgress {
                pending: summary.pending(),
                running: summary.running(),
                failed: summary.failed(),
            });
        }
        Ok(summary)
    }
}

/// Counting statuses over a sequence extended by one slot.
proof fn lemma_count_push(slots: Seq<SlotView>, slot: SlotView)
    ensures
        forall|status: TaskStatus| #[trigger] count_status(slots.push(slot), status)
            == count_status(slots, status) + if slot.status == status { 1nat } else { 0nat },
{
    assert forall|status: TaskStatus| #[trigger] count_status(slots.push(slot), status)
        == count_status(slots, status) + if slot.status == status { 1nat } else { 0nat } by {
        slots.lemma_filter_push(slot, |s: SlotView| s.status == status);
    }
}

/// Every task has exactly one status: the four counts add up to the number
/// of registered tasks.
pub proof fn law_status_counts_partition(slots: Seq<SlotView>)
    ensures
        count_status(slots, TaskStatus::Pending) + count_status(slots, TaskStatus::Running)
            + count_status(slots, TaskStatus::Completed) + count_status(slots, TaskStatus::Failed) == slots.len(),
    decreases slots.len(),
{
    if slots.len() == 0 {
        reveal(Seq::filter);
    } else {
        let init = slots.drop_last();
        law_status_counts_partition(init);
        assert(slots =~= init.push(slots.last()));
        lemma_count_push(init, slots.last());
    }
}

} // verus!
