//! Phase and task identities, and the phase failure policy.
use vstd::prelude::*;
use vstd::string::StringExecFns;
use crate::text::{append_decimal, decimal_spec};
use core::cmp::Ordering;
use vstd::std_specs::cmp::PartialOrdSpec;

verus! {

/// Stable numeric identity of one execution phase.
#[derive(Clone, Copy, Debug, PartialEq, Eq, Structural, Hash, Ord)]
pub struct PhaseId(u64);

impl PhaseId {
    /// The numeric identity.
    pub closed spec fn value(self) -> u64 {
        self.0
    }

    /// Creates a phase identity suitable for selections such as `[2, 4, 5]`.
    pub fn new(value: u64) -> (r: Self)
        ensures
            r.value() == value,
    {
        PhaseId(value)
    }

    /// Returns the exact numeric phase identity.
    pub fn get(self) -> (r: u64)
        ensures
            r == self.value(),
    {
        self.0
    }

    /// The decimal text of the identity.
    pub fn to_text(self) -> (r: String)
        ensures
            r@ == decimal_spec(self.value() as nat),
    {
        crate::text::decimal_text(self.0)
    }
}

/// A phase identity is determined by its number.
pub proof fn lemma_phase_id_by_value(a: PhaseId, b: PhaseId)
    ensures
        (a.value() == b.value()) == (a == b),
{
}

/// Phase identities compare as their numbers.
pub open spec fn compare_phase_numbers(a: u64, b: u64) -> Option<Ordering> {
    if a < b {
        Some(Ordering::Less)
    } else if a == b {
        Some(Ordering::Equal)
    } else {
        Some(Ordering::Greater)
    }
}

impl PartialOrd for PhaseId {
    fn partial_cmp(&self, other: &Self) -> (r: Option<Ordering>) {
        if self.0 < other.0 {
            Some(Ordering::Less)
        } else if self.0 == other.0 {
            Some(Ordering::Equal)
        } else {
            Some(Ordering::Greater)
        }
    }
}

impl vstd::std_specs::cmp::PartialOrdSpecImpl for PhaseId {
    open spec fn obeys_partial_cmp_spec() -> bool {
        true
    }

    open spec fn partial_cmp_spec(&self, other: &Self) -> Option<Ordering> {
        compare_phase_numbers(self.value(), other.value())
    }
}

/// A phase identity made from a number, by `new` or by `from`, is the one
/// identity with that number; identities are equal and ordered exactly as
/// their numbers are, and their text is the number's decimal text.
pub proof fn law_phase_ids_follow_their_numbers(a: PhaseId, b: PhaseId)
    ensures
        (a == b) == (a.value() == b.value()),
        PartialOrdSpec::partial_cmp_spec(&a, &b) == compare_phase_numbers(a.value(), b.value()),
{
}

impl From<u64> for PhaseId {
    fn from(value: u64) -> (r: Self)
        ensures
            r.value() == value,
    {
        PhaseId(value)
    }
}

impl vstd::std_specs::convert::FromSpecImpl<u64> for PhaseId {
    open spec fn obeys_from_spec() -> bool {
        true
    }

    closed spec fn from_spec(v: u64) -> Self {
        PhaseId(v)
    }
}

/// Stable task identity scoped to one phase.
#[derive(Debug, Eq, PartialOrd, Ord, Hash)]
pub struct TaskId(String);

impl TaskId {
    /// The identity text.
    pub closed spec fn text(&self) -> Seq<char> {
        self.0@
    }

    /// Creates a task ID. Blank IDs are rejected when the owning phase is
    /// built, keeping task construction infallible.
    pub fn new(value: String) -> (r: Self)
        ensures
            r.text() == value@,
    {
        TaskId(value)
    }

    /// Borrows the exact ID text.
    pub fn as_str(&self) -> (r: &str)
        ensures
            r@ == self.text(),
    {
        self.0.as_str()
    }

    /// Whether two IDs have the same text.
    pub fn same_text(&self, other: &TaskId) -> (r: bool)
        ensures
            r == (self.text() == other.text()),
    {
        self.0 == other.0
    }
}

impl PartialEq for TaskId {
    fn eq(&self, other: &Self) -> (r: bool) {
        self.0 == other.0
    }
}

impl vstd::std_specs::cmp::PartialEqSpecImpl for TaskId {
    open spec fn obeys_eq_spec() -> bool {
        true
    }

    open spec fn eq_spec(&self, other: &Self) -> bool {
        self.text() == other.text()
    }
}

/// Task identities are equal exactly when their texts are.
pub proof fn law_task_ids_are_equal_by_text(a: TaskId, b: TaskId)
    ensures
        vstd::std_specs::cmp::PartialEqSpec::eq_spec(&a, &b) == (a.text() == b.text()),
{
}

impl Clone for TaskId {
    fn clone(&self) -> (r: Self)
        ensures
            r.text() == self.text(),
    {
        TaskId(self.0.clone())
    }
}

/// Exact runtime task lookup key.
#[derive(Debug)]
pub struct TaskKey {
    phase: PhaseId,
    task: TaskId,
}

/// The text of a task key: the phase number, a slash, and the task ID.
pub open spec fn task_key_text(phase: u64, task: Seq<char>) -> Seq<char> {
    decimal_spec(phase as nat) + seq!['/'] + task
}

impl TaskKey {
    /// The owning phase.
    pub closed spec fn phase_spec(&self) -> PhaseId {
        self.phase
    }

    /// The phase-local task ID text.
    pub closed spec fn task_spec(&self) -> Seq<char> {
        self.task.text()
    }

    /// Creates one phase-qualified task key.
    pub fn new(phase: PhaseId, task: TaskId) -> (r: Self)
        ensures
            r.phase_spec() == phase,
            r.task_spec() == task.text(),
    {
        TaskKey { phase, task }
    }

    /// Returns the owning phase ID.
    pub fn phase_id(&self) -> (r: PhaseId)
        ensures
            r == self.phase_spec(),
    {
        self.phase
    }

    /// Borrows the phase-local task ID.
    pub fn task_id(&self) -> (r: &TaskId)
        ensures
            r.text() == self.task_spec(),
    {
        &self.task
    }

    /// Whether two keys name the same task.
    pub fn same_as(&self, other: &TaskKey) -> (r: bool)
        ensures
            r == (self.phase_spec() == other.phase_spec() && self.task_spec() == other.task_spec()),
    {
        self.phase.0 == other.phase.0 && self.task.0 == other.task.0
    }

    /// The key as `phase/task` text.
    pub fn to_text(&self) -> (r: String)
        ensures
            r@ == task_key_text(self.phase_spec().value(), self.task_spec()),
    {
        let mut out = String::new();
        append_decimal(&mut out, self.phase.0);
        let slash = "/";
        proof {
            reveal_strlit("/");
        }
        out.append(slash);
        out.append(self.task.0.as_str());
        assert(out@ =~= task_key_text(self.phase_spec().value(), self.task_spec()));
        out
    }
}

impl Clone for TaskKey {
    fn clone(&self) -> (r: Self)
        ensures
            r.phase_spec() == self.phase_spec(),
            r.task_spec() == self.task_spec(),
    {
        TaskKey { phase: self.phase, task: self.task.clone() }
    }
}

/// Reporting shape of one task.
#[derive(Clone, Copy, Debug, PartialEq, Eq, Structural)]
pub enum TaskDisplayKind {
    /// Iterative work with an optional target supplied when execution starts.
    Progress,
    /// One-shot lifecycle work without an artificial iteration counter.
    Activity,
}

/// The name of a display kind.
pub open spec fn display_kind_name(kind: TaskDisplayKind) -> Seq<char> {
    match kind {
        TaskDisplayKind::Progress => "progress"@,
        TaskDisplayKind::Activity => "activity"@,
    }
}

impl TaskDisplayKind {
    /// The stable name of the kind.
    pub fn as_str(self) -> (r: &'static str)
        ensures
            r@ == display_kind_name(self),
    {
        match self {
            TaskDisplayKind::Progress => "progress",
            TaskDisplayKind::Activity => "activity",
        }
    }
}

/// Scheduling behavior after the first workload failure in a phase.
#[derive(Clone, Copy, Debug, PartialEq, Eq, Structural)]
pub enum PhaseFailurePolicy {
    /// Stop new work and cooperatively cancel active workloads.
    FailFast,
    /// Stop new work but allow already active workloads to finish.
    FinishActive,
}

/// The stable name of a policy.
pub open spec fn policy_name(policy: PhaseFailurePolicy) -> Seq<char> {
    match policy {
        PhaseFailurePolicy::FailFast => "fail-fast"@,
        PhaseFailurePolicy::FinishActive => "finish-active"@,
    }
}

impl PhaseFailurePolicy {
    /// Returns the stable uncolored policy name used by plain output.
    pub fn as_str(self) -> (r: &'static str)
        ensures
            r@ == policy_name(self),
    {
        match self {
            PhaseFailurePolicy::FailFast => "fail-fast",
            PhaseFailurePolicy::FinishActive => "finish-active",
        }
    }

    /// The policy that fails fast, the default.
    pub fn default_policy() -> (r: Self)
        ensures
            r == PhaseFailurePolicy::FailFast,
    {
        PhaseFailurePolicy::FailFast
    }
}

impl Default for PhaseFailurePolicy {
    fn default() -> (r: Self)
        ensures
            r == PhaseFailurePolicy::FailFast,
    {
        PhaseFailurePolicy::FailFast
    }
}

} // verus!
