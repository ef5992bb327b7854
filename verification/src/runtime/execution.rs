//! Scheduling decisions of the runtime: progress aggregation over ensemble
//! members, timeout classification, and task admission requirements.
use vstd::prelude::*;
use super::resource::ResourceRequirement;
use super::error::RuntimeError;
use vstd::string::StringExecFns;
use crate::text::{bounded_spec, bounded_text};

verus! {

/// Largest element of `s`, or zero when empty.
pub open spec fn seq_max(s: Seq<u64>) -> u64
    decreases s.len(),
{
    if s.len() == 0 {
        0
    } else {
        let rest = seq_max(s.drop_last());
        if s.last() > rest { s.last() } else { rest }
    }
}

/// Whether every member reported a target.
pub open spec fn all_targets_known(targets: Seq<Option<u64>>) -> bool {
    forall|i: int| 0 <= i < targets.len() ==> #[trigger] targets[i] is Some
}

/// The known targets, unwrapped.
pub open spec fn known_targets(targets: Seq<Option<u64>>) -> Seq<u64> {
    targets.map_values(|t: Option<u64>| t->0)
}

/// The ensemble target: the largest member target when every member has
/// one (and there is at least one member), otherwise unknown.
pub open spec fn ensemble_target(targets: Seq<Option<u64>>) -> Option<u64> {
    if targets.len() > 0 && all_targets_known(targets) {
        Some(seq_max(known_targets(targets)))
    } else {
        None
    }
}

/// The ensemble clock is the furthest member iteration: no member is
/// ahead of it, and, with at least one member, some member is exactly at it
/// (it is never a sum over members).
pub proof fn law_ensemble_clock_is_furthest_member(iterations: Seq<u64>)
    ensures
        forall|i: int| 0 <= i < iterations.len() ==> #[trigger] iterations[i] <= seq_max(iterations),
        iterations.len() > 0 ==> exists|i: int| 0 <= i < iterations.len() && #[trigger] iterations[i] == seq_max(iterations),
    decreases iterations.len(),
{
    if iterations.len() > 0 {
        let rest = iterations.drop_last();
        law_ensemble_clock_is_furthest_member(rest);
        assert forall|i: int| 0 <= i < iterations.len() implies #[trigger] iterations[i] <= seq_max(iterations) by {
            if i < iterations.len() - 1 {
                assert(iterations[i] == rest[i]);
            }
        }
        if iterations.last() > seq_max(rest) || rest.len() == 0 {
            assert(iterations[iterations.len() - 1] == seq_max(iterations));
        } else {
            let k = choose|k: int| 0 <= k < rest.len() && #[trigger] rest[k] == seq_max(rest);
            assert(iterations[k] == seq_max(iterations));
        }
    }
}

/// One ensemble clock shared by all members: the furthest member iteration
/// and, when every member has a target, the furthest target.
///
/// The clock is not multiplied by the member count, early-finished members
/// do not hold it back, and one unknown target makes the whole target unknown.
pub fn ensemble_progress(iterations: &[u64], targets: &[Option<u64>]) -> (r: (u64, Option<u64>))
    ensures
        r.0 == seq_max(iterations@),
        r.1 == ensemble_target(targets@),
{
    let mut iteration: u64 = 0;
    let mut i: usize = 0;
    while i < iterations.len()
        invariant
            i <= iterations@.len(),
            iteration == seq_max(iterations@.take(i as int)),
        decreases iterations@.len() - i,
    {
        assert(iterations@.take(i as int + 1).drop_last() =~= iterations@.take(i as int));
        if iterations[i] > iteration {
            iteration = iterations[i];
        }
        i = i + 1;
    }
    assert(iterations@.take(iterations@.len() as int) =~= iterations@);

    let mut target: u64 = 0;
    let mut all_known = true;
    let mut j: usize = 0;
    while j < targets.len()
        invariant
            j <= targets@.len(),
            all_known == all_targets_known(targets@.take(j as int)),
            all_known ==> target == seq_max(known_targets(targets@.take(j as int))),
        decreases targets@.len() - j,
    {
        assert(targets@.take(j as int + 1).drop_last() =~= targets@.take(j as int));
        assert(known_targets(targets@.take(j as int + 1)).drop_last()
            =~= known_targets(targets@.take(j as int)));
        match targets[j] {
            Some(t) => {
                if t > target {
                    target = t;
                }
            },
            None => {
                all_known = false;
                assert(!all_targets_known(targets@.take(j as int + 1))) by {
                    assert(targets@.take(j as int + 1)[j as int] is None);
                }
            },
        }
        if !all_known {
            assert(!all_targets_known(targets@.take(j as int + 1))) by {
                let k = choose|k: int| 0 <= k < j && !(targets@.take(j as int)[k] is Some);
                if 0 <= k < j {
                    assert(targets@.take(j as int + 1)[k] == targets@.take(j as int)[k]);
                }
            }
        }
        j = j + 1;
    }
    assert(targets@.take(targets@.len() as int) =~= targets@);
    let known = if all_known && targets.len() > 0 { Some(target) } else { None };
    (iteration, known)
}

/// Whether a task that started at `started` and finished at `finished`
/// (monotonic nanoseconds) exceeded `timeout` nanoseconds. The completion
/// timestamp decides: finishing exactly at the limit is a timeout.
pub fn task_exceeded_timeout(started: u128, finished: u128, timeout: u128) -> (r: bool)
    ensures
        r == (if finished >= started { finished - started >= timeout } else { 0 >= timeout }),
{
    finished.saturating_sub(started) >= timeout
}

/// How a phase's execution units share the study's compute.
#[derive(Clone, Copy, Debug, PartialEq, Eq, Structural)]
pub enum ComputeMode {
    /// Equal dynamic shares among working tasks.
    Auto,
    /// Fixed per-task thread reservations.
    Isolated,
}

/// What runs for a task.
#[derive(Clone, Copy, Debug, PartialEq, Eq, Structural)]
pub enum TaskWorkload {
    /// A registered in-process execution unit, with its own thread request
    /// when the study isolates compute.
    ExecutionUnit { requested_threads: Option<usize> },
    /// An external program with its thread allowance.
    Program { threads: usize },
}

/// The compute request of a task under the study's compute mode.
pub open spec fn requirement_of(workload: TaskWorkload, mode: ComputeMode) -> ResourceRequirement {
    match workload {
        TaskWorkload::ExecutionUnit { requested_threads } => match mode {
            ComputeMode::Auto => ResourceRequirement::AutoInProcess,
            ComputeMode::Isolated => ResourceRequirement::IsolatedInProcess { threads: requested_threads->0 },
        },
        TaskWorkload::Program { threads } => ResourceRequirement::External { threads },
    }
}

/// The compute a task asks for: under isolated compute an execution unit
/// reserves exactly the threads it requested in process; under automatic
/// compute it joins the shared automatic work; a program always reserves
/// its own thread allowance outside the process. Only the automatic mode
/// gives the shared automatic request.
pub proof fn law_requirements_follow_the_compute_mode(workload: TaskWorkload, mode: ComputeMode, threads: usize)
    ensures
        requirement_of(TaskWorkload::ExecutionUnit { requested_threads: Some(threads) }, ComputeMode::Isolated)
            == (ResourceRequirement::IsolatedInProcess { threads }),
        workload is ExecutionUnit ==> (requirement_of(workload, ComputeMode::Auto) == ResourceRequirement::AutoInProcess),
        requirement_of(TaskWorkload::Program { threads }, mode) == (ResourceRequirement::External { threads }),
        requirement_of(workload, mode) == ResourceRequirement::AutoInProcess ==> mode == ComputeMode::Auto,
{
}

/// The compute request made before a task may start.
pub fn task_resource_requirement(workload: TaskWorkload, mode: ComputeMode) -> (r: ResourceRequirement)
    requires
        mode == ComputeMode::Isolated ==> (workload matches TaskWorkload::ExecutionUnit { requested_threads } ==> requested_threads is Some),
    ensures
        r == requirement_of(workload, mode),
{
    match workload {
        TaskWorkload::ExecutionUnit { requested_threads } => match mode {
            ComputeMode::Auto => ResourceRequirement::AutoInProcess,
            ComputeMode::Isolated => ResourceRequirement::IsolatedInProcess { threads: requested_threads.unwrap() },
        },
        TaskWorkload::Program { threads } => ResourceRequirement::External { threads },
    }
}

/// The smallest of three counts.
pub open spec fn min3(a: int, b: int, c: int) -> int {
    let ab = if a < b { a } else { b };
    if ab < c { ab } else { c }
}

/// The reservation of a task that gathers the recordings of its
/// dependencies: one external thread per distinct recording directory (at
/// least one), capped by the gathering phase's own thread allowance and by
/// the study's threads.
pub fn gathering_requirement(phase_threads: usize, study_threads: usize, recording_directories: usize) -> (r: ResourceRequirement)
    ensures
        r == (ResourceRequirement::External {
            threads: min3(
                phase_threads as int,
                study_threads as int,
                if recording_directories == 0 { 1 } else { recording_directories as int },
            ) as usize,
        }),
{
    let count = if recording_directories == 0 { 1 } else { recording_directories };
    let allowance = if phase_threads < study_threads { phase_threads } else { study_threads };
    ResourceRequirement::External { threads: if allowance < count { allowance } else { count } }
}

/// Threads a task is told it may use: the study's threads for an execution
/// unit, its own allowance for a program.
pub fn task_effective_threads(workload: TaskWorkload, study_threads: usize) -> (r: usize)
    ensures
        r == match workload {
            TaskWorkload::ExecutionUnit { .. } => study_threads,
            TaskWorkload::Program { threads } => threads,
        },
{
    match workload {
        TaskWorkload::ExecutionUnit { .. } => study_threads,
        TaskWorkload::Program { threads } => threads,
    }
}

/// Longest panic message, in characters, carried into a failure reason.
pub const MAX_PANIC_CHARS: usize = 1024;

/// The failure reason recorded for a panicking task: its string payload cut
/// to 1024 characters (with an ellipsis when cut), or a fixed note when the
/// payload was not a string.
pub fn panic_reason(message: Option<&str>) -> (r: String)
    ensures
        message is Some ==> r@ == bounded_spec(message->0@, MAX_PANIC_CHARS as nat),
        message is None ==> r@ == "non-string panic payload"@,
{
    match message {
        Some(message) => bounded_text(message, MAX_PANIC_CHARS),
        None => {
            let note = "non-string panic payload";
            proof {
                reveal_strlit("non-string panic payload");
            }
            note.to_owned()
        },
    }
}

/// How a task's workload returned.
#[derive(Debug)]
pub enum WorkloadReturn {
    /// It returned success.
    Succeeded,
    /// It returned an error with this message.
    Failed { reason: String },
    /// It panicked, with this payload when the payload was a string.
    Panicked { message: Option<String> },
}

/// How a task finished, with the reason recorded for an unsuccessful one.
#[derive(Debug)]
pub enum TaskFinish {
    /// The task completed.
    Completed,
    /// The workload returned an error.
    Failed { reason: String },
    /// The workload panicked.
    Panicked { reason: String },
    /// The workload returned after cancellation was requested.
    Cancelled { reason: String },
}

/// The reason recorded for a panicked task.
pub open spec fn panicked_reason(message: Option<String>) -> Seq<char> {
    "task panicked: "@ + match message {
        Some(m) => bounded_spec(m@, MAX_PANIC_CHARS as nat),
        None => "non-string panic payload"@,
    }
}

/// Classifies a finished task: an error or a panic of the workload stands;
/// a successful return counts as cancelled when cancellation was requested.
pub fn finish_task(returned: WorkloadReturn, cancellation_requested: bool) -> (r: TaskFinish)
    ensures
        match returned {
            WorkloadReturn::Failed { reason } => r matches TaskFinish::Failed { reason: x } && x@ == reason@,
            WorkloadReturn::Panicked { message } => r matches TaskFinish::Panicked { reason: x } && x@ == panicked_reason(message),
            WorkloadReturn::Succeeded => if cancellation_requested {
                r matches TaskFinish::Cancelled { reason: x } && x@ == "runtime cancellation requested"@
            } else {
                r is Completed
            },
        },
{
    match returned {
        WorkloadReturn::Failed { reason } => TaskFinish::Failed { reason },
        WorkloadReturn::Panicked { message } => {
            let detail = match &message {
                Some(m) => panic_reason(Some(m.as_str())),
                None => panic_reason(None),
            };
            let mut reason = "task panicked: ".to_owned();
            reason.append(detail.as_str());
            TaskFinish::Panicked { reason }
        },
        WorkloadReturn::Succeeded => {
            if cancellation_requested {
                TaskFinish::Cancelled { reason: "runtime cancellation requested".to_owned() }
            } else {
                TaskFinish::Completed
            }
        },
    }
}

/// How a whole execution ends.
#[derive(Debug, Clone, Copy, PartialEq, Eq, Structural)]
pub enum ExecutionEnd {
    /// Every replicate completed.
    Completed,
    /// The run was cancelled.
    Cancelled,
    /// A replicate failed.
    Failed,
}

/// Decides how an execution ends: a cancellation request seen at the end
/// overrides the replicates' result; a failure caused by cancellation also
/// counts as cancelled.
pub fn execution_end(succeeded: bool, failed_by_cancellation: bool, cancellation_requested: bool) -> (r: ExecutionEnd)
    ensures
        r == (if cancellation_requested || (!succeeded && failed_by_cancellation) {
            ExecutionEnd::Cancelled
        } else if succeeded {
            ExecutionEnd::Completed
        } else {
            ExecutionEnd::Failed
        }),
{
    if cancellation_requested {
        ExecutionEnd::Cancelled
    } else if succeeded {
        ExecutionEnd::Completed
    } else if failed_by_cancellation {
        ExecutionEnd::Cancelled
    } else {
        ExecutionEnd::Failed
    }
}

/// Concludes an execution: a cancellation request seen at the end replaces
/// the replicates' result by the cancellation, and decides how the
/// execution is reported to have ended.
pub fn conclude_execution<S>(result: Result<S, RuntimeError>, cancellation_requested: bool) -> (r: (ExecutionEnd, Result<S, RuntimeError>))
    ensures
        r.0 == (if cancellation_requested || result matches Err(RuntimeError::ExecutionCancelled) {
            ExecutionEnd::Cancelled
        } else if result is Ok {
            ExecutionEnd::Completed
        } else {
            ExecutionEnd::Failed
        }),
        cancellation_requested ==> r.1 matches Err(RuntimeError::ExecutionCancelled),
        !cancellation_requested ==> r.1 == result,
{
    let failed_by_cancellation = match &result {
        Err(RuntimeError::ExecutionCancelled) => true,
        _ => false,
    };
    let end = execution_end(result.is_ok(), failed_by_cancellation, cancellation_requested);
    let result = if cancellation_requested { Err(RuntimeError::ExecutionCancelled) } else { result };
    (end, result)
}

/// The result of a task whose worker has finished: a task that ran past
/// its timeout fails with the timeout whatever it returned; otherwise a
/// worker that panicked (`None`) fails as panicked, and a returned result
/// stands.
pub fn settle_finished_task<S>(
    identity: String,
    returned: Option<Result<S, RuntimeError>>,
    timed_out: bool,
    timeout_ns: u128,
) -> (r: Result<S, RuntimeError>)
    ensures
        timed_out ==> (r matches Err(RuntimeError::TaskTimedOut { task, timeout_ns: t })
            && task@ == identity@ && t == timeout_ns),
        !timed_out && returned is None ==> (r matches Err(RuntimeError::TaskPanicked { task }) && task@ == identity@),
        !timed_out && returned is Some ==> r == returned->0,
{
    if timed_out {
        return Err(RuntimeError::TaskTimedOut { task: identity, timeout_ns });
    }
    match returned {
        Some(result) => result,
        None => Err(RuntimeError::TaskPanicked { task: identity }),
    }
}

/// The number of tasks each replicate plans: the sum of the phases' task
/// counts.
pub open spec fn total_tasks(counts: Seq<usize>) -> int
    decreases counts.len(),
{
    if counts.len() == 0 { 0 } else { total_tasks(counts.drop_last()) + counts.last() }
}

/// Sums the phases' task counts.
pub fn tasks_per_replicate(counts: &[usize]) -> (r: usize)
    requires
        total_tasks(counts@) <= usize::MAX,
    ensures
        r == total_tasks(counts@),
{
    let mut sum: usize = 0;
    let mut i: usize = 0;
    while i < counts.len()
        invariant
            i <= counts@.len(),
            sum == total_tasks(counts@.take(i as int)),
            total_tasks(counts@) <= usize::MAX,
        decreases counts@.len() - i,
    {
        proof {
            assert(counts@.take(i as int + 1).drop_last() =~= counts@.take(i as int));
            lemma_total_prefix(counts@, i as int + 1);
        }
        sum = sum + counts[i];
        i = i + 1;
    }
    assert(counts@.take(counts@.len() as int) =~= counts@);
    sum
}

/// A prefix never counts more tasks than the whole.
proof fn lemma_total_prefix(counts: Seq<usize>, k: int)
    requires
        0 <= k <= counts.len(),
    ensures
        total_tasks(counts.take(k)) <= total_tasks(counts),
    decreases counts.len() - k,
{
    if k < counts.len() {
        lemma_total_prefix(counts, k + 1);
        assert(counts.take(k + 1).drop_last() =~= counts.take(k));
    } else {
        assert(counts.take(k) =~= counts);
    }
}

} // verus!
