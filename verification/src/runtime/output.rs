//! Names of the inferred output directories of a run, and the scope rule
//! of cleaning an output root.
use vstd::prelude::*;
use vstd::string::StringExecFns;
use crate::text::{append_padded_decimal, padded_decimal_spec};

verus! {

/// How many suffixed names are tried for one execution stamp.
pub const MAX_EXECUTION_ATTEMPTS: u64 = 1024;

/// A UTC timestamp as `YYYYMMDDTHHMMSS.NNNNNNNNNZ`.
pub open spec fn stamp_spec(year: u32, month: u8, day: u8, hour: u8, minute: u8, second: u8, nanosecond: u32) -> Seq<char> {
    padded_decimal_spec(year as nat, 4) + padded_decimal_spec(month as nat, 2) + padded_decimal_spec(day as nat, 2)
        + "T"@ + padded_decimal_spec(hour as nat, 2) + padded_decimal_spec(minute as nat, 2)
        + padded_decimal_spec(second as nat, 2) + "."@ + padded_decimal_spec(nanosecond as nat, 9) + "Z"@
}

/// Formats the execution timestamp of a run.
pub fn execution_stamp(year: u32, month: u8, day: u8, hour: u8, minute: u8, second: u8, nanosecond: u32) -> (r: String)
    ensures
        r@ == stamp_spec(year, month, day, hour, minute, second, nanosecond),
{
    let mut out = String::new();
    append_padded_decimal(&mut out, year as u64, 4);
    append_padded_decimal(&mut out, month as u64, 2);
    append_padded_decimal(&mut out, day as u64, 2);
    out.append("T");
    append_padded_decimal(&mut out, hour as u64, 2);
    append_padded_decimal(&mut out, minute as u64, 2);
    append_padded_decimal(&mut out, second as u64, 2);
    out.append(".");
    append_padded_decimal(&mut out, nanosecond as u64, 9);
    out.append("Z");
    assert(out@ =~= stamp_spec(year, month, day, hour, minute, second, nanosecond));
    out
}

/// The name of attempt `sequence` for an execution directory: the first
/// attempt is unsuffixed, later ones carry a four-digit suffix.
pub open spec fn execution_name_spec(stamp: Seq<char>, sequence: u64) -> Seq<char> {
    "execution-"@ + stamp + if sequence == 0 { Seq::empty() } else { "-"@ + padded_decimal_spec(sequence as nat, 4) }
}

/// Names attempt `sequence` of an execution directory.
pub fn execution_directory_name(stamp: &str, sequence: u64) -> (r: String)
    ensures
        r@ == execution_name_spec(stamp@, sequence),
{
    let mut out = String::new();
    out.append("execution-");
    out.append(stamp);
    if sequence > 0 {
        out.append("-");
        append_padded_decimal(&mut out, sequence, 4);
    }
    assert(out@ =~= execution_name_spec(stamp@, sequence));
    out
}

/// The name of the directory of replicate `index`.
pub fn replicate_directory_name(index: u64) -> (r: String)
    ensures
        r@ == "replicate-"@ + padded_decimal_spec(index as nat, 6),
{
    let mut out = String::new();
    out.append("replicate-");
    append_padded_decimal(&mut out, index, 6);
    out
}

/// The name of the directory of the task with output ordinal `ordinal`.
pub fn task_directory_name(ordinal: u64) -> (r: String)
    ensures
        r@ == "task-"@ + padded_decimal_spec(ordinal as nat, 6),
{
    let mut out = String::new();
    out.append("task-");
    append_padded_decimal(&mut out, ordinal, 6);
    out
}

/// Path `a`, as components, begins with the components of `b`.
pub open spec fn starts_with(a: Seq<Seq<char>>, b: Seq<Seq<char>>) -> bool {
    b.len() <= a.len() && forall|i: int| 0 <= i < b.len() ==> #[trigger] a[i] == b[i]
}

/// Whether `a` begins with the components of `b`.
fn begins_with(a: &[String], b: &[String]) -> (r: bool)
    ensures
        r == starts_with(a@.map_values(|s: String| s@), b@.map_values(|s: String| s@)),
{
    if b.len() > a.len() {
        return false;
    }
    let mut i: usize = 0;
    while i < b.len()
        invariant
            b@.len() <= a@.len(),
            i <= b@.len(),
            forall|k: int| 0 <= k < i ==> #[trigger] a@[k]@ == b@[k]@,
        decreases b@.len() - i,
    {
        if a[i] != b[i] {
            assert(a@.map_values(|s: String| s@)[i as int] != b@.map_values(|s: String| s@)[i as int]);
            return false;
        }
        i = i + 1;
    }
    true
}

/// Whether cleaning `root` would touch `protected`, both given as the
/// components of canonical paths: one lies within the other.
pub fn paths_overlap(root: &[String], protected: &[String]) -> (r: bool)
    ensures
        ({
            let a = root@.map_values(|s: String| s@);
            let b = protected@.map_values(|s: String| s@);
            r == (starts_with(b, a) || starts_with(a, b))
        }),
{
    begins_with(protected, root) || begins_with(root, protected)
}

} // verus!
