//! The text of the phase-task reporter: plain task transitions, the phase
//! heading, the detail shown beside a task, and the final run line.
use vstd::prelude::*;
use vstd::string::StringExecFns;
use crate::text::{append_decimal, decimal_spec, same_str};
use crate::reporting::lines::target_text;
use super::reporting::{TaskStatus, ProgressSummary, status_name};

verus! {

/// The plain line reporting that the task `identity` reached `status`.
pub open spec fn task_line_spec(identity: Seq<char>, status: TaskStatus, detail: Seq<char>, iteration: u64, target: Option<u64>) -> Seq<char> {
    "[task] identity="@ + identity + " status="@ + status_name(status) + " detail="@ + detail
        + " iteration="@ + decimal_spec(iteration as nat) + " target="@ + target_text(target)
}

/// Renders the plain line of a task transition.
pub fn task_line(identity: &str, status: TaskStatus, detail: &str, iteration: u64, target: Option<u64>) -> (r: String)
    ensures
        r@ == task_line_spec(identity@, status, detail@, iteration, target),
{
    let mut out = "[task] identity=".to_owned();
    out.append(identity);
    out.append(" status=");
    out.append(status.as_str());
    out.append(" detail=");
    out.append(detail);
    out.append(" iteration=");
    append_decimal(&mut out, iteration);
    out.append(" target=");
    match target {
        Some(t) => append_decimal(&mut out, t),
        None => out.append("unknown"),
    }
    assert(out@ =~= task_line_spec(identity@, status, detail@, iteration, target));
    out
}

/// The plain line that ends a run.
pub open spec fn run_line_spec(success: bool, summary: ProgressSummary, message: Seq<char>) -> Seq<char> {
    "[workflow] status="@ + (if success { "completed"@ } else { "failed"@ }) + " tasks="@
        + decimal_spec(summary.total_spec() as nat) + " completed="@ + decimal_spec(summary.completed_spec() as nat)
        + " reused="@ + decimal_spec(summary.reused_spec() as nat) + " failed="@
        + decimal_spec(summary.failed_spec() as nat) + " pending="@ + decimal_spec(summary.pending_spec() as nat)
        + " message="@ + message
}

/// Renders the line that ends a run.
pub fn run_line(success: bool, summary: &ProgressSummary, message: &str) -> (r: String)
    ensures
        r@ == run_line_spec(success, *summary, message@),
{
    let mut out = "[workflow] status=".to_owned();
    out.append(if success { "completed" } else { "failed" });
    out.append(" tasks=");
    append_decimal(&mut out, summary.total());
    out.append(" completed=");
    append_decimal(&mut out, summary.completed());
    out.append(" reused=");
    append_decimal(&mut out, summary.reused());
    out.append(" failed=");
    append_decimal(&mut out, summary.failed());
    out.append(" pending=");
    append_decimal(&mut out, summary.pending());
    out.append(" message=");
    out.append(message);
    assert(out@ =~= run_line_spec(success, *summary, message@));
    out
}

/// The word that sums up a set of tasks: any failure makes it failed,
/// otherwise any running task running, otherwise any pending task pending.
pub open spec fn overall_word(summary: ProgressSummary) -> Seq<char> {
    if summary.failed_spec() > 0 {
        "failed"@
    } else if summary.running_spec() > 0 {
        "running"@
    } else if summary.pending_spec() > 0 {
        "pending"@
    } else {
        "completed"@
    }
}

/// The text of a phase heading.
pub open spec fn heading_spec(summary: ProgressSummary) -> Seq<char> {
    overall_word(summary) + " · running="@ + decimal_spec(summary.running_spec() as nat)
        + " pending="@ + decimal_spec(summary.pending_spec() as nat)
        + " completed="@ + decimal_spec(summary.completed_spec() as nat)
        + " reused="@ + decimal_spec(summary.reused_spec() as nat)
        + " failed="@ + decimal_spec(summary.failed_spec() as nat)
}

/// Renders the text of a phase heading.
pub fn heading_text(summary: &ProgressSummary) -> (r: String)
    ensures
        r@ == heading_spec(*summary),
{
    let mut out = if summary.failed() > 0 {
        "failed".to_owned()
    } else if summary.running() > 0 {
        "running".to_owned()
    } else if summary.pending() > 0 {
        "pending".to_owned()
    } else {
        "completed".to_owned()
    };
    out.append(" · running=");
    append_decimal(&mut out, summary.running());
    out.append(" pending=");
    append_decimal(&mut out, summary.pending());
    out.append(" completed=");
    append_decimal(&mut out, summary.completed());
    out.append(" reused=");
    append_decimal(&mut out, summary.reused());
    out.append(" failed=");
    append_decimal(&mut out, summary.failed());
    assert(out@ =~= heading_spec(*summary));
    out
}

/// Whether a task's detail is shown after its status name: it says
/// something and is not just that name.
pub open spec fn detail_shown(status: TaskStatus, detail: Seq<char>) -> bool {
    detail.len() > 0 && detail != status_name(status)
}

/// Decides whether `detail` is shown after the status name of a task.
pub fn shows_detail(status: TaskStatus, detail: &str) -> (r: bool)
    ensures
        r == detail_shown(status, detail@),
{
    detail.unicode_len() > 0 && !same_str(detail, status.as_str())
}

/// A task has begun executing: it is neither waiting nor reused.
pub open spec fn has_executed(status: TaskStatus) -> bool {
    status != TaskStatus::Pending && status != TaskStatus::Reused
}

/// Decides whether a task has begun executing, so that its elapsed time
/// counts execution rather than queueing.
pub fn executed(status: TaskStatus) -> (r: bool)
    ensures
        r == has_executed(status),
{
    match status {
        TaskStatus::Pending | TaskStatus::Reused => false,
        _ => true,
    }
}

/// The rows at which a new phase heading starts: the first row, and every
/// row whose phase label differs from the row before it.
pub fn heading_starts(labels: &[String]) -> (r: Vec<usize>)
    ensures
        r@ == Seq::new(labels@.len(), |i: int| i as usize).filter(
            |i: usize| i == 0 || labels@[i as int]@ != labels@[i - 1]@,
        ),
{
    let ghost pred = |i: usize| i == 0 || labels@[i as int]@ != labels@[i - 1]@;
    let mut out: Vec<usize> = Vec::new();
    let mut i: usize = 0;
    while i < labels.len()
        invariant
            i <= labels@.len(),
            pred == (|i: usize| i == 0 || labels@[i as int]@ != labels@[i - 1]@),
            out@ == Seq::new(i as nat, |x: int| x as usize).filter(pred),
        decreases labels@.len() - i,
    {
        proof {
            assert(Seq::new(i as nat + 1, |x: int| x as usize) =~= Seq::new(i as nat, |x: int| x as usize).push(i));
            Seq::new(i as nat, |x: int| x as usize).lemma_filter_push(i, pred);
        }
        if i == 0 || !same_str(labels[i].as_str(), labels[i - 1].as_str()) {
            out.push(i);
        }
        i = i + 1;
    }
    proof {
        assert(Seq::new(labels@.len(), |x: int| x as usize) =~= Seq::new(i as nat, |x: int| x as usize));
    }
    out
}

} // verus!
