//! The deterministic, read-only plan of the phases and tasks registered
//! with one runtime.
use vstd::prelude::*;
use vstd::string::StringExecFns;
use crate::text::string_views;
use super::phase::{PhaseId, display_kind_name, policy_name};
use super::phase_builder::{Phase, PhaseView, Task, ParameterValue, params_shape, copy_parameters};

verus! {

/// The name and version of the plan format.
pub fn plan_format() -> (r: &'static str)
    ensures
        r@ == "scientific-workflow.execution-plan.v1"@,
{
    "scientific-workflow.execution-plan.v1"
}

/// The planned view of one task.
#[derive(Debug)]
pub struct ExecutionPlanTask {
    /// Phase-local ID.
    pub id: String,
    /// Kind.
    pub kind: String,
    /// Display label.
    pub label: String,
    /// Position within its phase.
    pub registration_order: usize,
    /// Originating configuration ordinal.
    pub configuration_ordinal: u64,
    /// `progress` or `activity`.
    pub display_kind: &'static str,
    /// `reused` or `pending`.
    pub status: &'static str,
    /// Position among the phase's executable tasks; absent for reused ones.
    pub delay_rank: Option<usize>,
    /// Earliest start offset imposed by the phase's delay, saturating.
    pub release_offset_ns: Option<u128>,
    /// Keys shown in the label.
    pub display_parameters: Option<Vec<String>>,
    /// The task's parameters.
    pub configuration: Vec<(String, ParameterValue)>,
}

/// The planned view of one phase.
#[derive(Debug)]
pub struct ExecutionPlanPhase {
    /// Phase number.
    pub id: u64,
    /// Heading.
    pub label: String,
    /// Position among the registered phases.
    pub registration_order: usize,
    /// Numbers of the predecessor phases.
    pub dependencies: Vec<u64>,
    /// Concurrent workload ceiling.
    pub max_active_tasks: usize,
    /// Prepared workload ceiling.
    pub prepared_task_queue_capacity: usize,
    /// Minimum interval between task starts.
    pub delay_per_task_ns: Option<u128>,
    /// Running-time limit of each task.
    pub task_timeout_ns: Option<u128>,
    /// Phase deadline from its start.
    pub deadline_after_ns: Option<u128>,
    /// Name of the failure policy.
    pub failure_policy: &'static str,
    /// Whether the next phase waits for confirmation.
    pub requires_confirmation: bool,
    /// Planned tasks, in order.
    pub tasks: Vec<ExecutionPlanTask>,
}

/// Complete plan of the phase and task graph registered with one runtime.
#[derive(Debug)]
pub struct ExecutionPlan {
    format: &'static str,
    phases: Vec<ExecutionPlanPhase>,
}

/// The number of executable (not reused) tasks before position `i`.
pub open spec fn executable_before(tasks: Seq<Task>, i: int) -> nat
    decreases i,
{
    if i <= 0 {
        0
    } else {
        executable_before(tasks, i - 1) + if tasks[i - 1].reused_spec() { 0nat } else { 1nat }
    }
}

/// A product capped at the largest `u128`.
pub open spec fn saturating_product(a: u128, b: nat) -> u128 {
    if a * b > u128::MAX { u128::MAX } else { (a * b) as u128 }
}

/// Record `rec` plans task `i` of `tasks` in a phase with `delay`.
pub open spec fn plans_task(rec: ExecutionPlanTask, tasks: Seq<Task>, i: int, delay: Option<u128>) -> bool {
    let t = tasks[i];
    let rank = executable_before(tasks, i);
    &&& rec.id@ == t.id_spec()
    &&& rec.kind@ == t.kind_spec()
    &&& rec.label@ == t.label_text()
    &&& rec.registration_order == i
    &&& rec.configuration_ordinal == t.ordinal_spec()
    &&& rec.display_kind@ == display_kind_name(t.display_kind_spec())
    &&& rec.status@ == if t.reused_spec() { "reused"@ } else { "pending"@ }
    &&& rec.delay_rank == if t.reused_spec() { None } else { Some(rank as usize) }
    &&& rec.release_offset_ns == if t.reused_spec() || delay is None { None } else {
        Some(saturating_product(delay->0, rank))
    }
    &&& (match rec.display_parameters {
        Some(keys) => t.display_keys_spec() == Some(string_views(keys@)),
        None => t.display_keys_spec() is None,
    })
    &&& params_shape(rec.configuration@) == params_shape(t.params_spec())
}

/// The numbers of a list of phases.
pub open spec fn phase_numbers(ids: Seq<PhaseId>) -> Seq<u64> {
    ids.map_values(|p: PhaseId| p.value())
}

/// Record `rec` plans phase `v`, registered at position `order`.
pub open spec fn plans_phase(rec: ExecutionPlanPhase, v: PhaseView, order: int) -> bool {
    &&& rec.id == v.id.value()
    &&& rec.label@ == v.label
    &&& rec.registration_order == order
    &&& rec.dependencies@ == phase_numbers(v.dependencies)
    &&& rec.max_active_tasks == v.max_active_tasks
    &&& rec.prepared_task_queue_capacity == v.queue_capacity
    &&& rec.delay_per_task_ns == v.delay_per_task_ns
    &&& rec.task_timeout_ns == v.task_timeout_ns
    &&& rec.deadline_after_ns == v.deadline_after_ns
    &&& rec.failure_policy@ == policy_name(v.failure_policy)
    &&& rec.requires_confirmation == v.require_confirm
    &&& rec.tasks@.len() == v.tasks.len()
    &&& forall|i: int| 0 <= i < v.tasks.len() ==> #[trigger] plans_task(rec.tasks@[i], v.tasks, i, v.delay_per_task_ns)
}

/// The saturating product of a delay and a rank.
fn release_offset(delay: u128, rank: usize) -> (r: u128)
    ensures
        r == saturating_product(delay, rank as nat),
{
    match delay.checked_mul(rank as u128) {
        Some(v) => v,
        None => u128::MAX,
    }
}

/// Copies a list of keys.
fn copy_keys(keys: &[String]) -> (r: Vec<String>)
    ensures
        string_views(r@) == string_views(keys@),
{
    let mut out: Vec<String> = Vec::new();
    let mut i: usize = 0;
    while i < keys.len()
        invariant
            i <= keys@.len(),
            out@.len() == i,
            forall|k: int| 0 <= k < i ==> (#[trigger] out@[k])@ == keys@[k]@,
        decreases keys@.len() - i,
    {
        out.push(keys[i].clone());
        i = i + 1;
    }
    assert(string_views(out@) =~= string_views(keys@));
    out
}

/// Plans the tasks of one phase: executable tasks take consecutive delay
/// ranks; reused tasks take none.
fn plan_tasks(tasks: &[Task], delay: Option<u128>) -> (r: Vec<ExecutionPlanTask>)
    ensures
        r@.len() == tasks@.len(),
        forall|i: int| 0 <= i < tasks@.len() ==> #[trigger] plans_task(r@[i], tasks@, i, delay),
{
    let mut out: Vec<ExecutionPlanTask> = Vec::new();
    let mut rank: usize = 0;
    let mut i: usize = 0;
    while i < tasks.len()
        invariant
            i <= tasks@.len(),
            rank == executable_before(tasks@, i as int),
            rank <= i,
            out@.len() == i,
            forall|k: int| 0 <= k < i ==> #[trigger] plans_task(out@[k], tasks@, k, delay),
        decreases tasks@.len() - i,
    {
        let task = &tasks[i];
        let reused = task.is_reused();
        let delay_rank = if reused { None } else { Some(rank) };
        let release_offset_ns = if reused {
            None
        } else {
            match delay {
                Some(d) => Some(release_offset(d, rank)),
                None => None,
            }
        };
        let display_parameters = match task.display_keys() {
            Some(keys) => Some(copy_keys(keys)),
            None => None,
        };
        let status = if reused { "reused" } else { "pending" };
        let rec = ExecutionPlanTask {
            id: task.id().to_owned(),
            kind: task.kind().to_owned(),
            label: task.label().to_owned(),
            registration_order: i,
            configuration_ordinal: task.configuration_ordinal(),
            display_kind: task.display_kind().as_str(),
            status,
            delay_rank,
            release_offset_ns,
            display_parameters,
            configuration: copy_parameters(task.parameters()),
        };
        out.push(rec);
        proof {
            assert(plans_task(out@[i as int], tasks@, i as int, delay));
        }
        if !reused {
            rank = rank + 1;
        }
        i = i + 1;
    }
    out
}

impl ExecutionPlan {
    /// The format name.
    pub closed spec fn format_spec(&self) -> Seq<char> {
        self.format@
    }

    /// The planned phases.
    pub closed spec fn phases_spec(&self) -> Seq<ExecutionPlanPhase> {
        self.phases@
    }

    /// Plans the registered phases, in registration order.
    pub fn from_phases(phases: &[Phase]) -> (r: Self)
        ensures
            r.format_spec() == "scientific-workflow.execution-plan.v1"@,
            r.phases_spec().len() == phases@.len(),
            forall|p: int| 0 <= p < phases@.len() ==> #[trigger] plans_phase(r.phases_spec()[p], phases@[p].view(), p),
    {
        let mut out: Vec<ExecutionPlanPhase> = Vec::new();
        let mut p: usize = 0;
        while p < phases.len()
            invariant
                p <= phases@.len(),
                out@.len() == p,
                forall|k: int| 0 <= k < p ==> #[trigger] plans_phase(out@[k], phases@[k].view(), k),
            decreases phases@.len() - p,
        {
            let phase = &phases[p];
            let deps = phase.dependencies();
            let mut dependencies: Vec<u64> = Vec::new();
            let mut d: usize = 0;
            while d < deps.len()
                invariant
                    d <= deps@.len(),
                    dependencies@.len() == d,
                    forall|k: int| 0 <= k < d ==> #[trigger] dependencies@[k] == deps@[k].value(),
                decreases deps@.len() - d,
            {
                dependencies.push(deps[d].get());
                d = d + 1;
            }
            assert(dependencies@ =~= phase_numbers(deps@));
            let rec = ExecutionPlanPhase {
                id: phase.id().get(),
                label: phase.label().to_owned(),
                registration_order: p,
                dependencies,
                max_active_tasks: phase.max_active_tasks(),
                prepared_task_queue_capacity: phase.prepared_task_queue_capacity(),
                delay_per_task_ns: phase.delay_per_task(),
                task_timeout_ns: phase.task_timeout(),
                deadline_after_ns: phase.deadline_after(),
                failure_policy: phase.failure_policy().as_str(),
                requires_confirmation: phase.requires_confirmation(),
                tasks: plan_tasks(phase.tasks(), phase.delay_per_task()),
            };
            out.push(rec);
            proof {
                assert(plans_phase(out@[p as int], phases@[p as int].view(), p as int));
            }
            p = p + 1;
        }
        ExecutionPlan { format: plan_format(), phases: out }
    }

    /// The format name.
    pub fn format(&self) -> (r: &'static str)
        ensures r@ == self.format_spec(),
    {
        self.format
    }

    /// The planned phases, in registration order.
    pub fn phases(&self) -> (r: &[ExecutionPlanPhase])
        ensures r@ == self.phases_spec(),
    {
        self.phases.as_slice()
    }
}

} // verus!
