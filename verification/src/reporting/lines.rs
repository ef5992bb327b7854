//! The text of plain progress output: task transitions, the final summary,
//! and the status shown beside a task.
use vstd::prelude::*;
use vstd::string::StringExecFns;
use crate::text::{append_decimal, decimal_spec, same_str};
use super::progress::{TaskStatus, ProgressSummary, status_label};

verus! {

/// The text of an optional target.
pub open spec fn target_text(target: Option<u64>) -> Seq<char> {
    match target {
        Some(t) => decimal_spec(t as nat),
        None => "unknown"@,
    }
}

/// The plain line reporting that a task reached `status`.
pub open spec fn transition_spec(identity: Seq<char>, status: TaskStatus, phase: Seq<char>, iteration: u64, target: Option<u64>) -> Seq<char> {
    "[task] identity="@ + identity + " status="@ + status_label(status) + " phase="@ + phase + " iteration="@
        + decimal_spec(iteration as nat) + " target="@ + target_text(target)
}

/// Renders the plain line of a task transition.
pub fn transition_line(identity: &str, status: TaskStatus, phase: &str, iteration: u64, target: Option<u64>) -> (r: String)
    ensures
        r@ == transition_spec(identity@, status, phase@, iteration, target),
{
    let mut out = "[task] identity=".to_owned();
    out.append(identity);
    out.append(" status=");
    out.append(status.label());
    out.append(" phase=");
    out.append(phase);
    out.append(" iteration=");
    append_decimal(&mut out, iteration);
    out.append(" target=");
    match target {
        Some(t) => append_decimal(&mut out, t),
        None => out.append("unknown"),
    }
    assert(out@ =~= transition_spec(identity@, status, phase@, iteration, target));
    out
}

/// The plain line that ends a report.
pub open spec fn final_spec(success: bool, summary: ProgressSummary, message: Seq<char>) -> Seq<char> {
    "[workflow] status="@ + (if success { "completed"@ } else { "failed"@ }) + " tasks="@
        + decimal_spec(summary.total_spec() as nat) + " completed="@ + decimal_spec(summary.completed_spec() as nat)
        + " failed="@ + decimal_spec(summary.failed_spec() as nat) + " pending="@
        + decimal_spec(summary.pending_spec() as nat) + " message="@ + message
}

/// Renders the line that ends a report.
pub fn final_line(success: bool, summary: &ProgressSummary, message: &str) -> (r: String)
    ensures
        r@ == final_spec(success, *summary, message@),
{
    let mut out = "[workflow] status=".to_owned();
    out.append(if success { "completed" } else { "failed" });
    out.append(" tasks=");
    append_decimal(&mut out, summary.total());
    out.append(" completed=");
    append_decimal(&mut out, summary.completed());
    out.append(" failed=");
    append_decimal(&mut out, summary.failed());
    out.append(" pending=");
    append_decimal(&mut out, summary.pending());
    out.append(" message=");
    out.append(message);
    assert(out@ =~= final_spec(success, *summary, message@));
    out
}

/// The status shown beside a task: its status name, followed by its
/// current phase when that says more.
pub open spec fn status_text_spec(status: TaskStatus, phase: Seq<char>) -> Seq<char> {
    if phase.len() == 0 || phase == status_label(status) {
        status_label(status)
    } else {
        status_label(status) + ": "@ + phase
    }
}

/// Renders the status shown beside a task.
pub fn status_text(status: TaskStatus, phase: &str) -> (r: String)
    ensures
        r@ == status_text_spec(status, phase@),
{
    let label = status.label();
    if phase.unicode_len() == 0 || same_str(phase, label) {
        label.to_owned()
    } else {
        let mut out = label.to_owned();
        out.append(": ");
        out.append(phase);
        out
    }
}

/// A plain progress message.
pub fn plain_message(message: &str) -> (r: String)
    ensures
        r@ == "[progress] "@ + message@,
{
    let mut out = "[progress] ".to_owned();
    out.append(message);
    out
}

/// The positions whose status changed since the last plain report.
pub fn status_changes(previous: &[TaskStatus], current: &[TaskStatus]) -> (r: Vec<usize>)
    requires
        previous@.len() == current@.len(),
    ensures
        r@ == Seq::new(current@.len(), |i: int| i as usize).filter(|i: usize| previous@[i as int] != current@[i as int]),
{
    let ghost pred = |i: usize| previous@[i as int] != current@[i as int];
    let mut out: Vec<usize> = Vec::new();
    let mut i: usize = 0;
    while i < current.len()
        invariant
            i <= current@.len(),
            previous@.len() == current@.len(),
            pred == (|i: usize| previous@[i as int] != current@[i as int]),
            out@ == Seq::new(i as nat, |x: int| x as usize).filter(pred),
        decreases current@.len() - i,
    {
        proof {
            assert(Seq::new(i as nat + 1, |x: int| x as usize) =~= Seq::new(i as nat, |x: int| x as usize).push(i));
            Seq::new(i as nat, |x: int| x as usize).lemma_filter_push(i, pred);
        }
        if previous[i] != current[i] {
            out.push(i);
        }
        i = i + 1;
    }
    proof {
        assert(Seq::new(current@.len(), |x: int| x as usize) =~= Seq::new(i as nat, |x: int| x as usize));
    }
    out
}

} // verus!
