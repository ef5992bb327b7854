//! Whether completed work may be reused: where its evidence comes from,
//! which legacy summary is authoritative, and the checks every piece of
//! evidence must pass. Reading the evidence from disk is left to callers,
//! which hand each check the values they read.
use vstd::prelude::*;
use crate::text::same_str;

verus! {

/// Format name of a completed-task receipt.
pub fn receipt_format() -> (r: &'static str)
    ensures
        r@ == "scientific-workflow-task-result.v1"@,
{
    "scientific-workflow-task-result.v1"
}

/// File name of a completed-task receipt inside a task directory.
pub fn receipt_file_name() -> (r: &'static str)
    ensures
        r@ == "workflow-result.json"@,
{
    "workflow-result.json"
}

/// Format name of a program status document.
pub fn program_format() -> (r: &'static str)
    ensures
        r@ == "scientific-workflow-program-v1"@,
{
    "scientific-workflow-program-v1"
}

/// Why completed work cannot be reused.
#[derive(Debug, Clone, Copy, PartialEq, Eq, Structural)]
pub enum ReuseFailure {
    /// A task directory of a newer execution has no receipt.
    NoCommittedResult,
    /// Neither a receipt nor a matching legacy summary exists.
    NoMatchingResult,
    /// Matching legacy summaries disagree.
    AmbiguousLegacy,
    /// The legacy summary points at another task directory.
    LegacyDirectoryMismatch,
    /// The completed task was planned differently.
    PlanMismatch,
    /// The completed output is not an existing absolute UTF-8 directory.
    InvalidOutputDirectory,
    /// The completed workload names no kind.
    MissingWorkloadKind,
    /// The completed workload is of another kind.
    WorkloadKindMismatch,
    /// The completed execution unit was registered under another key.
    ExecutionUnitMismatch,
    /// The completed execution unit lists no member summaries.
    MissingMemberSummaries,
    /// The completed execution unit has no members.
    NoMembers,
    /// A member summary has no identity.
    MissingMemberIdentity,
    /// A member identity repeats, or a member has no final iteration.
    InvalidMember,
    /// A member recording lies outside its task directory.
    MemberEscapesTask,
    /// A member recording carries no workflow provenance.
    MissingProvenance,
    /// A member recording was made from other scientific inputs.
    ProvenanceMismatch,
    /// The program did not complete successfully.
    IncompleteProgram,
    /// The NumPy output directory is missing.
    MissingNpyOutput,
}

/// The message of a failure.
pub open spec fn failure_reason(f: ReuseFailure) -> Seq<char> {
    match f {
        ReuseFailure::NoCommittedResult => "phase has no committed task result"@,
        ReuseFailure::NoMatchingResult => "no committed result or matching legacy dependent-program summary"@,
        ReuseFailure::AmbiguousLegacy => "ambiguous legacy completed-task summaries"@,
        ReuseFailure::LegacyDirectoryMismatch => "legacy task directory does not match the planned output ordinal"@,
        ReuseFailure::PlanMismatch => "completed task identity or captured study inputs differ from this plan"@,
        ReuseFailure::InvalidOutputDirectory => "completed output must be an existing absolute UTF-8 directory"@,
        ReuseFailure::MissingWorkloadKind => "missing workload kind"@,
        ReuseFailure::WorkloadKindMismatch => "completed workload kind differs from this plan"@,
        ReuseFailure::ExecutionUnitMismatch => "completed execution-unit registration differs"@,
        ReuseFailure::MissingMemberSummaries => "missing member summaries"@,
        ReuseFailure::NoMembers => "completed execution unit has no members"@,
        ReuseFailure::MissingMemberIdentity => "missing member identity"@,
        ReuseFailure::InvalidMember => "invalid member identity or final iteration"@,
        ReuseFailure::MemberEscapesTask => "member recording escapes its task directory"@,
        ReuseFailure::MissingProvenance => "completed recording has no Workflow provenance"@,
        ReuseFailure::ProvenanceMismatch => "completed member provenance differs from the planned scientific inputs"@,
        ReuseFailure::IncompleteProgram => "program output is missing or did not complete successfully"@,
        ReuseFailure::MissingNpyOutput => "completed NumPy output is missing"@,
    }
}

impl ReuseFailure {
    /// The message of the failure.
    pub fn reason(self) -> (r: &'static str)
        ensures
            r@ == failure_reason(self),
    {
        match self {
            ReuseFailure::NoCommittedResult => "phase has no committed task result",
            ReuseFailure::NoMatchingResult => "no committed result or matching legacy dependent-program summary",
            ReuseFailure::AmbiguousLegacy => "ambiguous legacy completed-task summaries",
            ReuseFailure::LegacyDirectoryMismatch => "legacy task directory does not match the planned output ordinal",
            ReuseFailure::PlanMismatch => "completed task identity or captured study inputs differ from this plan",
            ReuseFailure::InvalidOutputDirectory => "completed output must be an existing absolute UTF-8 directory",
            ReuseFailure::MissingWorkloadKind => "missing workload kind",
            ReuseFailure::WorkloadKindMismatch => "completed workload kind differs from this plan",
            ReuseFailure::ExecutionUnitMismatch => "completed execution-unit registration differs",
            ReuseFailure::MissingMemberSummaries => "missing member summaries",
            ReuseFailure::NoMembers => "completed execution unit has no members",
            ReuseFailure::MissingMemberIdentity => "missing member identity",
            ReuseFailure::InvalidMember => "invalid member identity or final iteration",
            ReuseFailure::MemberEscapesTask => "member recording escapes its task directory",
            ReuseFailure::MissingProvenance => "completed recording has no Workflow provenance",
            ReuseFailure::ProvenanceMismatch => "completed member provenance differs from the planned scientific inputs",
            ReuseFailure::IncompleteProgram => "program output is missing or did not complete successfully",
            ReuseFailure::MissingNpyOutput => "completed NumPy output is missing",
        }
    }
}

/// Where the evidence of a completed task is read from.
#[derive(Debug, Clone, Copy, PartialEq, Eq, Structural)]
pub enum ReuseSource {
    /// The task's own receipt.
    Receipt,
    /// The status document of a program run by an older execution.
    ProgramDirectory,
    /// Summaries that older executions handed to dependent programs.
    LegacySummaries,
}

/// Chooses the evidence: a receipt when one exists; otherwise the program
/// directory of a plain program; otherwise legacy summaries (execution units
/// and NumPy conversions).
pub fn reuse_source(receipt_exists: bool, execution_unit: bool, kind: &str) -> (r: ReuseSource)
    ensures
        r == (if receipt_exists {
            ReuseSource::Receipt
        } else if !execution_unit && kind@ != "npy"@ {
            ReuseSource::ProgramDirectory
        } else {
            ReuseSource::LegacySummaries
        }),
{
    if receipt_exists {
        ReuseSource::Receipt
    } else if !execution_unit && !same_str(kind, "npy") {
        ReuseSource::ProgramDirectory
    } else {
        ReuseSource::LegacySummaries
    }
}

/// A program directory is evidence only when it was written by an
/// execution that predates phase selection.
pub fn check_program_directory(snapshot_has_active_phases: bool) -> (r: Result<(), ReuseFailure>)
    ensures
        r is Ok <==> !snapshot_has_active_phases,
        r matches Err(f) ==> f == ReuseFailure::NoCommittedResult,
{
    if snapshot_has_active_phases {
        Err(ReuseFailure::NoCommittedResult)
    } else {
        Ok(())
    }
}

/// One legacy summary recorded under the task's identity.
pub struct LegacyCandidate {
    /// Whether its captured study inputs match the planned ones.
    pub comparable: bool,
    /// Canonical JSON text of its workload summary.
    pub workload: String,
    /// Normalized text of its output directory.
    pub output_directory: String,
}

/// Candidate `a` is the first with matching study inputs.
pub open spec fn first_comparable(cands: Seq<LegacyCandidate>, a: int) -> bool {
    &&& 0 <= a < cands.len()
    &&& cands[a].comparable
    &&& forall|j: int| 0 <= j < a ==> !(#[trigger] cands[j]).comparable
}

/// A later comparable candidate disagrees with candidate `a`.
pub open spec fn disagrees_after(cands: Seq<LegacyCandidate>, a: int) -> bool {
    exists|b: int| a < b < cands.len() && (#[trigger] cands[b]).comparable
        && (cands[b].workload@ != cands[a].workload@ || cands[b].output_directory@ != cands[a].output_directory@)
}

/// Selects the authoritative legacy summary: the first whose study inputs
/// match; any later match that disagrees on workload or directory makes the
/// evidence ambiguous.
pub fn select_legacy(cands: &[LegacyCandidate]) -> (r: Result<usize, ReuseFailure>)
    ensures
        (forall|j: int| 0 <= j < cands@.len() ==> !(#[trigger] cands@[j]).comparable)
            ==> r == Err::<usize, ReuseFailure>(ReuseFailure::NoMatchingResult),
        forall|a: int| #[trigger] first_comparable(cands@, a) ==> r == (if disagrees_after(cands@, a) {
            Err::<usize, ReuseFailure>(ReuseFailure::AmbiguousLegacy)
        } else {
            Ok::<usize, ReuseFailure>(a as usize)
        }),
{
    let mut a: usize = 0;
    while a < cands.len() && !cands[a].comparable
        invariant
            a <= cands@.len(),
            forall|j: int| 0 <= j < a ==> !(#[trigger] cands@[j]).comparable,
        decreases cands@.len() - a,
    {
        a = a + 1;
    }
    if a == cands.len() {
        return Err(ReuseFailure::NoMatchingResult);
    }
    proof {
        assert forall|x: int| #[trigger] first_comparable(cands@, x) implies x == a by {
            if x < a {
                assert(!cands@[x].comparable);
            } else if x > a {
                assert(!cands@[a as int].comparable);
            }
        }
    }
    let mut b: usize = a + 1;
    while b < cands.len()
        invariant
            a < b <= cands@.len(),
            cands@[a as int].comparable,
            forall|j: int| a < j < b ==> !((#[trigger] cands@[j]).comparable
                && (cands@[j].workload@ != cands@[a as int].workload@
                || cands@[j].output_directory@ != cands@[a as int].output_directory@)),
        decreases cands@.len() - b,
    {
        if cands[b].comparable
            && (cands[b].workload != cands[a].workload || cands[b].output_directory != cands[a].output_directory) {
            return Err(ReuseFailure::AmbiguousLegacy);
        }
        b = b + 1;
    }
    Ok(a)
}

/// A legacy summary must point at the task directory being planned.
pub fn check_legacy_directory(summary_directory: &str, task_directory: &str) -> (r: Result<(), ReuseFailure>)
    ensures
        r is Ok <==> summary_directory@ == task_directory@,
        r matches Err(f) ==> f == ReuseFailure::LegacyDirectoryMismatch,
{
    if same_str(summary_directory, task_directory) {
        Ok(())
    } else {
        Err(ReuseFailure::LegacyDirectoryMismatch)
    }
}

/// What the plan expects of a completed task.
pub struct ReuseExpectation {
    /// Task identity.
    pub identity: String,
    /// Configuration ordinal.
    pub configuration: usize,
    /// Execution-unit registration key, for execution-unit tasks.
    pub execution_unit: Option<String>,
    /// Member state name, for execution-unit tasks.
    pub state: Option<String>,
    /// Parameter ordinal, for execution-unit tasks.
    pub parameter_ordinal: Option<u64>,
    /// Workload kind.
    pub kind: String,
}

/// The identifying fields of a completed-task receipt.
pub struct ReceiptFields {
    /// Receipt format name.
    pub format: String,
    /// Task identity.
    pub identity: String,
    /// Configuration ordinal.
    pub configuration: usize,
}

/// The receipt names this plan's task and its captured inputs match.
pub open spec fn receipt_matches(r: ReceiptFields, expected: ReuseExpectation, snapshot_matches: bool) -> bool {
    &&& r.format@ == "scientific-workflow-task-result.v1"@
    &&& r.identity@ == expected.identity@
    &&& r.configuration == expected.configuration
    &&& snapshot_matches
}

/// Checks that a receipt describes the planned task.
pub fn check_receipt(receipt: &ReceiptFields, expected: &ReuseExpectation, snapshot_matches: bool) -> (r: Result<(), ReuseFailure>)
    ensures
        r is Ok <==> receipt_matches(*receipt, *expected, snapshot_matches),
        r matches Err(f) ==> f == ReuseFailure::PlanMismatch,
{
    if same_str(receipt.format.as_str(), receipt_format()) && same_str(receipt.identity.as_str(), expected.identity.as_str())
        && receipt.configuration == expected.configuration && snapshot_matches {
        Ok(())
    } else {
        Err(ReuseFailure::PlanMismatch)
    }
}

/// Checks that the completed output is an existing absolute UTF-8
/// directory.
pub fn check_output_directory(absolute: bool, utf8: bool, is_dir: bool) -> (r: Result<(), ReuseFailure>)
    ensures
        r is Ok <==> absolute && utf8 && is_dir,
        r matches Err(f) ==> f == ReuseFailure::InvalidOutputDirectory,
{
    if absolute && utf8 && is_dir {
        Ok(())
    } else {
        Err(ReuseFailure::InvalidOutputDirectory)
    }
}

/// Checks the kind recorded in the workload summary.
pub fn check_workload_kind(kind: Option<&str>, expected: &ReuseExpectation) -> (r: Result<(), ReuseFailure>)
    ensures
        r is Ok <==> (kind matches Some(k) && k@ == expected.kind@),
        kind is None ==> r == Err::<(), ReuseFailure>(ReuseFailure::MissingWorkloadKind),
        (kind matches Some(k) && k@ != expected.kind@) ==> r == Err::<(), ReuseFailure>(ReuseFailure::WorkloadKindMismatch),
{
    match kind {
        None => Err(ReuseFailure::MissingWorkloadKind),
        Some(k) => {
            if same_str(k, expected.kind.as_str()) {
                Ok(())
            } else {
                Err(ReuseFailure::WorkloadKindMismatch)
            }
        },
    }
}

/// Checks the execution-unit key recorded in the workload summary.
pub fn check_execution_unit(recorded: Option<&str>, unit: &str) -> (r: Result<(), ReuseFailure>)
    ensures
        r is Ok <==> (recorded matches Some(u) && u@ == unit@),
        r matches Err(f) ==> f == ReuseFailure::ExecutionUnitMismatch,
{
    match recorded {
        Some(u) => {
            if same_str(u, unit) {
                Ok(())
            } else {
                Err(ReuseFailure::ExecutionUnitMismatch)
            }
        },
        None => Err(ReuseFailure::ExecutionUnitMismatch),
    }
}

/// Checks that the workload summary lists members, and at least one.
pub fn check_member_count(count: Option<usize>) -> (r: Result<(), ReuseFailure>)
    ensures
        r is Ok <==> (count matches Some(n) && n > 0),
        count is None ==> r == Err::<(), ReuseFailure>(ReuseFailure::MissingMemberSummaries),
        count == Some(0usize) ==> r == Err::<(), ReuseFailure>(ReuseFailure::NoMembers),
{
    match count {
        None => Err(ReuseFailure::MissingMemberSummaries),
        Some(n) => {
            if n == 0 {
                Err(ReuseFailure::NoMembers)
            } else {
                Ok(())
            }
        },
    }
}

/// The member identities recorded so far, in member order.
pub struct MemberLedger {
    seen: Vec<String>,
}

/// No identity occurs twice.
pub open spec fn all_distinct(ids: Seq<Seq<char>>) -> bool {
    forall|a: int, b: int| 0 <= a < b < ids.len() ==> #[trigger] ids[a] != #[trigger] ids[b]
}

impl MemberLedger {
    /// The recorded identities.
    pub closed spec fn identities(&self) -> Seq<Seq<char>> {
        self.seen@.map_values(|s: String| s@)
    }

    /// Each member identity is recorded once.
    #[verifier::type_invariant]
    spec fn recorded_once(&self) -> bool {
        all_distinct(self.identities())
    }

    /// Starts with no members recorded.
    pub fn new() -> (r: Self)
        ensures
            r.identities() == Seq::<Seq<char>>::empty(),
            all_distinct(r.identities()),
    {
        let r = MemberLedger { seen: Vec::new() };
        assert(r.identities() =~= Seq::<Seq<char>>::empty());
        r
    }

    /// Records the next member summary: it needs an identity no earlier
    /// member had and a final iteration.
    pub fn record(&mut self, identity: Option<&str>, final_iteration: Option<u64>) -> (r: Result<(), ReuseFailure>)
        ensures
            identity is None ==> r == Err::<(), ReuseFailure>(ReuseFailure::MissingMemberIdentity),
            identity matches Some(id) ==> (r is Ok <==> !old(self).identities().contains(id@) && final_iteration is Some),
            (identity is Some && r is Err) ==> r == Err::<(), ReuseFailure>(ReuseFailure::InvalidMember),
            r matches Ok(_) ==> final(self).identities() == old(self).identities().push(identity->0@),
            r is Err ==> final(self).identities() == old(self).identities(),
            all_distinct(final(self).identities()),
    {
        proof {
            use_type_invariant(&*self);
        }
        let id = match identity {
            None => {
                return Err(ReuseFailure::MissingMemberIdentity);
            },
            Some(id) => id,
        };
        let ghost before = self.identities();
        let mut i: usize = 0;
        while i < self.seen.len()
            invariant
                i <= self.seen@.len(),
                before == self.identities(),
                before == old(self).identities(),
                all_distinct(before),
                identity == Some(id),
                forall|k: int| 0 <= k < i ==> #[trigger] self.seen@[k]@ != id@,
            decreases self.seen@.len() - i,
        {
            if same_str(self.seen[i].as_str(), id) {
                proof {
                    assert(self.identities()[i as int] == id@);
                }
                return Err(ReuseFailure::InvalidMember);
            }
            i = i + 1;
        }
        proof {
            assert forall|k: int| 0 <= k < before.len() implies before[k] != id@ by {
                assert(before[k] == self.seen@[k]@);
            }
        }
        if final_iteration.is_none() {
            return Err(ReuseFailure::InvalidMember);
        }
        proof {
            assert forall|a: int, b: int| 0 <= a < b < before.push(id@).len()
                implies #[trigger] before.push(id@)[a] != #[trigger] before.push(id@)[b] by {
                if b == before.len() {
                    assert(before.push(id@)[a] == before[a]);
                }
            }
        }
        let mut seen = Vec::new();
        std::mem::swap(&mut seen, &mut self.seen);
        seen.push(id.to_owned());
        proof {
            assert(seen@.map_values(|s: String| s@) =~= before.push(id@));
        }
        self.seen = seen;
        Ok(())
    }
}

/// Checks where a member recording lies.
pub fn check_member_location(absolute: bool, utf8: bool, within_task: bool) -> (r: Result<(), ReuseFailure>)
    ensures
        r is Ok <==> absolute && utf8 && within_task,
        r matches Err(f) ==> f == ReuseFailure::MemberEscapesTask,
{
    if absolute && utf8 && within_task {
        Ok(())
    } else {
        Err(ReuseFailure::MemberEscapesTask)
    }
}

/// The workflow provenance stored with a member recording.
pub struct MemberProvenance {
    /// Task identity.
    pub task_identity: Option<String>,
    /// Execution-unit key.
    pub execution_unit: Option<String>,
    /// Member state name.
    pub state: Option<String>,
    /// Parameter ordinal.
    pub parameter_ordinal: Option<u64>,
    /// Member position.
    pub member_index: Option<u64>,
    /// Member identity.
    pub member_identity: Option<String>,
    /// Whether the stored parameters equal the planned ones.
    pub parameters_match: bool,
    /// Whether the stored constants equal the planned ones.
    pub constants_match: bool,
}

/// Two optional texts are equal.
pub open spec fn same_opt(a: Option<String>, b: Option<Seq<char>>) -> bool {
    match (a, b) {
        (Some(x), Some(y)) => x@ == y,
        (None, None) => true,
        _ => false,
    }
}

/// The view of an optional text.
pub open spec fn opt_view(a: Option<String>) -> Option<Seq<char>> {
    match a {
        Some(x) => Some(x@),
        None => None,
    }
}

/// The provenance matches the plan for member `index` named `identity`.
pub open spec fn provenance_matches(p: MemberProvenance, expected: ReuseExpectation, unit: Seq<char>, index: u64, identity: Seq<char>) -> bool {
    &&& same_opt(p.task_identity, Some(expected.identity@))
    &&& same_opt(p.execution_unit, Some(unit))
    &&& same_opt(p.state, opt_view(expected.state))
    &&& p.parameter_ordinal == expected.parameter_ordinal
    &&& p.member_index == Some(index)
    &&& same_opt(p.member_identity, Some(identity))
    &&& p.parameters_match
    &&& p.constants_match
}

/// Whether two optional texts are equal.
fn same_option(a: &Option<String>, b: Option<&str>) -> (r: bool)
    ensures
        r == same_opt(*a, match b { Some(x) => Some(x@), None => None }),
{
    match (a, b) {
        (Some(x), Some(y)) => same_str(x.as_str(), y),
        (None, None) => true,
        _ => false,
    }
}

/// Checks the provenance of member `index` named `identity`.
pub fn check_member_provenance(
    provenance: Option<&MemberProvenance>,
    expected: &ReuseExpectation,
    unit: &str,
    index: u64,
    identity: &str,
) -> (r: Result<(), ReuseFailure>)
    ensures
        provenance is None ==> r == Err::<(), ReuseFailure>(ReuseFailure::MissingProvenance),
        provenance matches Some(p) ==> r == (if provenance_matches(*p, *expected, unit@, index, identity@) {
            Ok::<(), ReuseFailure>(())
        } else {
            Err::<(), ReuseFailure>(ReuseFailure::ProvenanceMismatch)
        }),
{
    let p = match provenance {
        None => {
            return Err(ReuseFailure::MissingProvenance);
        },
        Some(p) => p,
    };
    let state = match &expected.state {
        Some(s) => Some(s.as_str()),
        None => None,
    };
    if same_option(&p.task_identity, Some(expected.identity.as_str()))
        && same_option(&p.execution_unit, Some(unit))
        && same_option(&p.state, state)
        && p.parameter_ordinal == expected.parameter_ordinal
        && p.member_index == Some(index)
        && same_option(&p.member_identity, Some(identity))
        && p.parameters_match
        && p.constants_match {
        Ok(())
    } else {
        Err(ReuseFailure::ProvenanceMismatch)
    }
}

/// Checks the status document of a completed program: this format, a
/// complete status, exit code zero, and an artifacts directory.
pub fn check_program_output(format: Option<&str>, status: Option<&str>, exit_code: Option<i64>, artifacts_dir: bool)
    -> (r: Result<(), ReuseFailure>)
    ensures
        r is Ok <==> (format matches Some(f) && f@ == "scientific-workflow-program-v1"@)
            && (status matches Some(s) && s@ == "complete"@)
            && exit_code == Some(0i64) && artifacts_dir,
        r matches Err(f) ==> f == ReuseFailure::IncompleteProgram,
{
    let format_ok = match format {
        Some(f) => same_str(f, program_format()),
        None => false,
    };
    let status_ok = match status {
        Some(s) => same_str(s, "complete"),
        None => false,
    };
    if format_ok && status_ok && exit_code == Some(0i64) && artifacts_dir {
        Ok(())
    } else {
        Err(ReuseFailure::IncompleteProgram)
    }
}

/// Checks the processed directory of a completed NumPy conversion.
pub fn check_npy_output(absolute: bool, utf8: bool, is_dir: bool) -> (r: Result<(), ReuseFailure>)
    ensures
        r is Ok <==> absolute && utf8 && is_dir,
        r matches Err(f) ==> f == ReuseFailure::MissingNpyOutput,
{
    if absolute && utf8 && is_dir {
        Ok(())
    } else {
        Err(ReuseFailure::MissingNpyOutput)
    }
}

} // verus!
