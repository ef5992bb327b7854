//! Read-only summaries of successful runs.
use vstd::prelude::*;
use super::execution::seq_max;

verus! {

/// Successful completion facts for one member inside an execution unit.
pub struct MemberRunSummary {
    identity: String,
    final_iteration: u64,
    output_directory: String,
}

impl MemberRunSummary {
    /// Member identity.
    pub closed spec fn identity_spec(&self) -> Seq<char> { self.identity@ }
    /// Final scientific iteration.
    pub closed spec fn final_iteration_spec(&self) -> u64 { self.final_iteration }
    /// Recording directory.
    pub closed spec fn output_directory_spec(&self) -> Seq<char> { self.output_directory@ }

    /// Summarizes one completed member.
    pub fn new(identity: String, final_iteration: u64, output_directory: String) -> (r: Self)
        ensures
            r.identity_spec() == identity@,
            r.final_iteration_spec() == final_iteration,
            r.output_directory_spec() == output_directory@,
    {
        MemberRunSummary { identity, final_iteration, output_directory }
    }

    /// Returns the stable member identity supplied by the execution unit.
    pub fn identity(&self) -> (r: &str)
        ensures r@ == self.identity_spec(),
    {
        self.identity.as_str()
    }

    /// Returns this member's final scientific iteration.
    pub fn final_iteration(&self) -> (r: u64)
        ensures r == self.final_iteration_spec(),
    {
        self.final_iteration
    }

    /// Returns this member's completed recording directory.
    pub fn output_directory(&self) -> (r: &str)
        ensures r@ == self.output_directory_spec(),
    {
        self.output_directory.as_str()
    }
}

/// Successful result of the workload completed by a task.
pub enum TaskRunKind {
    /// A registered scientific execution-unit invocation and its members.
    ExecutionUnit { execution_unit: String, members: Vec<MemberRunSummary> },
    /// An external executable or Python program invocation.
    Program { executable: String, python_script: Option<String> },
    /// The reserved conversion of prerequisite recordings to NumPy arrays.
    Npy { launcher: String, processed_directory: String },
}

/// The final iterations of the members, in order.
pub open spec fn member_iterations(members: Seq<MemberRunSummary>) -> Seq<u64> {
    members.map_values(|m: MemberRunSummary| m.final_iteration_spec())
}

/// Successful completion facts for one task.
pub struct TaskRunSummary {
    identity: String,
    kind: TaskRunKind,
    output_directory: String,
    configuration: usize,
}

impl TaskRunSummary {
    /// Task identity.
    pub closed spec fn identity_spec(&self) -> Seq<char> { self.identity@ }
    /// Completed workload.
    pub closed spec fn kind_spec(&self) -> TaskRunKind { self.kind }
    /// Output directory.
    pub closed spec fn output_directory_spec(&self) -> Seq<char> { self.output_directory@ }
    /// Configuration ordinal.
    pub closed spec fn configuration_spec(&self) -> usize { self.configuration }

    /// The furthest member iteration of an execution unit with members.
    pub open spec fn final_iteration_spec(&self) -> Option<u64> {
        match self.kind_spec() {
            TaskRunKind::ExecutionUnit { members, .. } =>
                if members@.len() == 0 { None } else { Some(seq_max(member_iterations(members@))) },
            _ => None,
        }
    }

    /// Summarizes one completed task.
    pub fn new(identity: String, kind: TaskRunKind, output_directory: String, configuration: usize) -> (r: Self)
        ensures
            r.identity_spec() == identity@,
            r.kind_spec() == kind,
            r.output_directory_spec() == output_directory@,
            r.configuration_spec() == configuration,
    {
        TaskRunSummary { identity, kind, output_directory, configuration }
    }

    /// Returns the study-inferred task identity.
    pub fn identity(&self) -> (r: &str)
        ensures r@ == self.identity_spec(),
    {
        self.identity.as_str()
    }

    /// Returns the completed workload and its variant-specific result.
    pub fn kind(&self) -> (r: &TaskRunKind)
        ensures *r == self.kind_spec(),
    {
        &self.kind
    }

    /// Returns the task output root or program workspace directory.
    pub fn output_directory(&self) -> (r: &str)
        ensures r@ == self.output_directory_spec(),
    {
        self.output_directory.as_str()
    }

    /// The furthest final iteration of the members of an execution unit;
    /// `None` for programs and for a unit without members.
    pub fn final_iteration(&self) -> (r: Option<u64>)
        ensures
            r == self.final_iteration_spec(),
    {
        match &self.kind {
            TaskRunKind::ExecutionUnit { members, .. } => {
                if members.len() == 0 {
                    return None;
                }
                let ghost its = member_iterations(members@);
                let mut best: u64 = 0;
                let mut i: usize = 0;
                while i < members.len()
                    invariant
                        i <= members@.len(),
                        its == member_iterations(members@),
                        best == seq_max(its.take(i as int)),
                    decreases members@.len() - i,
                {
                    assert(its.take(i as int + 1).drop_last() =~= its.take(i as int));
                    let value = members[i].final_iteration();
                    if value > best {
                        best = value;
                    }
                    i = i + 1;
                }
                assert(its.take(its.len() as int) =~= its);
                Some(best)
            },
            _ => None,
        }
    }

    /// Returns the configuration ordinal the task ran.
    pub fn configuration(&self) -> (r: usize)
        ensures r == self.configuration_spec(),
    {
        self.configuration
    }
}

/// Successful completion facts for one phase.
pub struct PhaseRunSummary {
    name: String,
    tasks: Vec<TaskRunSummary>,
}

impl PhaseRunSummary {
    /// Phase key.
    pub closed spec fn name_spec(&self) -> Seq<char> { self.name@ }
    /// Task summaries in plan order.
    pub closed spec fn tasks_spec(&self) -> Seq<TaskRunSummary> { self.tasks@ }

    /// Summarizes one completed phase.
    pub fn new(name: String, tasks: Vec<TaskRunSummary>) -> (r: Self)
        ensures
            r.name_spec() == name@,
            r.tasks_spec() == tasks@,
    {
        PhaseRunSummary { name, tasks }
    }

    /// Returns the stable phase key.
    pub fn name(&self) -> (r: &str)
        ensures r@ == self.name_spec(),
    {
        self.name.as_str()
    }

    /// Returns task summaries in deterministic plan order.
    pub fn tasks(&self) -> (r: &[TaskRunSummary])
        ensures r@ == self.tasks_spec(),
    {
        self.tasks.as_slice()
    }
}

/// Successful completion facts for one replicate.
pub struct ReplicateRunSummary {
    index: u64,
    output_directory: String,
    phases: Vec<PhaseRunSummary>,
}

impl ReplicateRunSummary {
    /// Replicate index.
    pub closed spec fn index_spec(&self) -> u64 { self.index }
    /// Replicate output directory.
    pub closed spec fn output_directory_spec(&self) -> Seq<char> { self.output_directory@ }
    /// Phase summaries in execution order.
    pub closed spec fn phases_spec(&self) -> Seq<PhaseRunSummary> { self.phases@ }

    /// Summarizes one completed replicate.
    pub fn new(index: u64, output_directory: String, phases: Vec<PhaseRunSummary>) -> (r: Self)
        ensures
            r.index_spec() == index,
            r.output_directory_spec() == output_directory@,
            r.phases_spec() == phases@,
    {
        ReplicateRunSummary { index, output_directory, phases }
    }

    /// Returns the zero-based replicate index.
    pub fn index(&self) -> (r: u64)
        ensures r == self.index_spec(),
    {
        self.index
    }

    /// Returns the isolated replicate output directory.
    pub fn output_directory(&self) -> (r: &str)
        ensures r@ == self.output_directory_spec(),
    {
        self.output_directory.as_str()
    }

    /// Returns phase summaries in dependency execution order.
    pub fn phases(&self) -> (r: &[PhaseRunSummary])
        ensures r@ == self.phases_spec(),
    {
        self.phases.as_slice()
    }
}

/// Successful completion facts for one run.
pub struct RunSummary {
    output_directory: String,
    replicates: Vec<ReplicateRunSummary>,
}

impl RunSummary {
    /// Execution output directory.
    pub closed spec fn output_directory_spec(&self) -> Seq<char> { self.output_directory@ }
    /// Replicate summaries in ascending index order.
    pub closed spec fn replicates_spec(&self) -> Seq<ReplicateRunSummary> { self.replicates@ }

    /// Summarizes one completed run.
    pub fn new(output_directory: String, replicates: Vec<ReplicateRunSummary>) -> (r: Self)
        ensures
            r.output_directory_spec() == output_directory@,
            r.replicates_spec() == replicates@,
    {
        RunSummary { output_directory, replicates }
    }

    /// Returns the uniquely inferred execution output directory.
    pub fn output_directory(&self) -> (r: &str)
        ensures r@ == self.output_directory_spec(),
    {
        self.output_directory.as_str()
    }

    /// Returns successful replicate summaries in ascending index order.
    pub fn replicates(&self) -> (r: &[ReplicateRunSummary])
        ensures r@ == self.replicates_spec(),
    {
        self.replicates.as_slice()
    }
}

} // verus!
