//! Bookkeeping of the members of one execution-unit task: their latest
//! iterations and targets, their identities and recording directories,
//! the shared progress clock, and the summaries of a completed ensemble.
use vstd::prelude::*;
use vstd::string::StringExecFns;
use crate::text::{append_padded_decimal, padded_decimal_spec};
use super::execution::{ensemble_progress, seq_max, ensemble_target};
use super::summary::MemberRunSummary;

verus! {

/// The name of the recording directory of member `index` of a multi-member
/// ensemble, inside the task's `members` directory.
pub fn member_directory_name(index: u64) -> (r: String)
    ensures
        r@ == "member-"@ + padded_decimal_spec(index as nat, 6),
{
    let mut out = "member-".to_owned();
    append_padded_decimal(&mut out, index, 6);
    out
}

/// A lone member records into the task's own directory.
pub fn records_in_task_directory(member_count: usize) -> (r: bool)
    ensures
        r == (member_count == 1),
{
    member_count == 1
}

/// What is known of each member, by member index.
pub struct MemberTracker {
    iterations: Vec<u64>,
    targets: Vec<Option<u64>>,
    identities: Vec<Option<String>>,
    directories: Vec<Option<String>>,
}

/// The text of an optional string.
pub open spec fn opt_text(s: Option<String>) -> Option<Seq<char>> {
    match s {
        Some(t) => Some(t@),
        None => None,
    }
}

impl MemberTracker {
    /// Latest iteration of each member.
    pub closed spec fn iterations_spec(&self) -> Seq<u64> {
        self.iterations@
    }

    /// Latest target of each member.
    pub closed spec fn targets_spec(&self) -> Seq<Option<u64>> {
        self.targets@
    }

    /// Identity of each member that began.
    pub closed spec fn identities_spec(&self) -> Seq<Option<Seq<char>>> {
        self.identities@.map_values(|s: Option<String>| opt_text(s))
    }

    /// Recording directory of each member that began.
    pub closed spec fn directories_spec(&self) -> Seq<Option<Seq<char>>> {
        self.directories@.map_values(|s: Option<String>| opt_text(s))
    }

    /// One entry per member in every list.
    pub open spec fn wf(&self) -> bool {
        &&& self.targets_spec().len() == self.iterations_spec().len()
        &&& self.identities_spec().len() == self.iterations_spec().len()
        &&& self.directories_spec().len() == self.iterations_spec().len()
    }

    /// Knows no member yet.
    pub fn new() -> (r: Self)
        ensures
            r.wf(),
            r.iterations_spec().len() == 0,
    {
        let r = MemberTracker { iterations: Vec::new(), targets: Vec::new(), identities: Vec::new(), directories: Vec::new() };
        assert(r.identities_spec() =~= Seq::<Option<Seq<char>>>::empty());
        assert(r.directories_spec() =~= Seq::<Option<Seq<char>>>::empty());
        r
    }

    /// The number of members known.
    pub fn len(&self) -> (r: usize)
        ensures
            r == self.iterations_spec().len(),
    {
        self.iterations.len()
    }

    /// Records that member `index` of `member_count` began at `iteration`
    /// with `target`, recording into `directory`. The first member to begin
    /// sizes the lists; unknown members start at iteration zero.
    pub fn begin(&mut self, index: usize, member_count: usize, identity: String, directory: String, iteration: u64,
        target: Option<u64>)
        requires
            old(self).wf(),
            index < member_count,
            old(self).iterations_spec().len() == 0 || old(self).iterations_spec().len() == member_count,
        ensures
            final(self).wf(),
            ({
                let n = member_count as int;
                let before_empty = old(self).iterations_spec().len() == 0;
                &&& final(self).iterations_spec().len() == n
                &&& forall|i: int| 0 <= i < n && i != index ==> {
                    &&& #[trigger] final(self).iterations_spec()[i] == if before_empty { 0u64 } else { old(self).iterations_spec()[i] }
                    &&& final(self).targets_spec()[i] == if before_empty { None } else { old(self).targets_spec()[i] }
                    &&& final(self).identities_spec()[i] == if before_empty { None } else { old(self).identities_spec()[i] }
                    &&& final(self).directories_spec()[i] == if before_empty { None } else { old(self).directories_spec()[i] }
                }
                &&& final(self).iterations_spec()[index as int] == iteration
                &&& final(self).targets_spec()[index as int] == target
                &&& final(self).identities_spec()[index as int] == Some(identity@)
                &&& final(self).directories_spec()[index as int] == Some(directory@)
            }),
    {
        if self.iterations.len() == 0 {
            let mut k: usize = 0;
            while k < member_count
                invariant
                    k <= member_count,
                    self.iterations@.len() == k,
                    self.targets@.len() == k,
                    self.identities@.len() == k,
                    self.directories@.len() == k,
                    forall|i: int| 0 <= i < k ==> #[trigger] self.iterations@[i] == 0u64,
                    forall|i: int| 0 <= i < k ==> #[trigger] self.targets@[i] is None,
                    forall|i: int| 0 <= i < k ==> #[trigger] self.identities@[i] is None,
                    forall|i: int| 0 <= i < k ==> #[trigger] self.directories@[i] is None,
                decreases member_count - k,
            {
                self.iterations.push(0);
                self.targets.push(None);
                self.identities.push(None);
                self.directories.push(None);
                k = k + 1;
            }
        }
        let ghost mid_ids = self.identities@;
        let ghost mid_dirs = self.directories@;
        let ghost mid_its = self.iterations@;
        let ghost mid_tgs = self.targets@;
        let ghost id_view = identity@;
        let ghost dir_view = directory@;
        self.iterations.set(index, iteration);
        self.targets.set(index, target);
        self.identities.set(index, Some(identity));
        self.directories.set(index, Some(directory));
        proof {
            assert forall|i: int| 0 <= i < member_count && i != index implies
                self.identities_spec()[i] == opt_text(mid_ids[i]) && self.directories_spec()[i] == opt_text(mid_dirs[i]) by {
                assert(self.identities@[i] == mid_ids[i]);
                assert(self.directories@[i] == mid_dirs[i]);
            }
            assert(self.identities_spec()[index as int] == Some(id_view));
            assert(self.directories_spec()[index as int] == Some(dir_view));
        }
    }

    /// Records the latest iteration and target of member `index`.
    pub fn step(&mut self, index: usize, iteration: u64, target: Option<u64>)
        requires
            old(self).wf(),
            index < old(self).iterations_spec().len(),
        ensures
            final(self).wf(),
            final(self).iterations_spec() == old(self).iterations_spec().update(index as int, iteration),
            final(self).targets_spec() == old(self).targets_spec().update(index as int, target),
            final(self).identities_spec() == old(self).identities_spec(),
            final(self).directories_spec() == old(self).directories_spec(),
    {
        self.iterations.set(index, iteration);
        self.targets.set(index, target);
    }

    /// The ensemble's progress: the furthest member iteration and, when
    /// every member has a target, the furthest target.
    pub fn progress(&self) -> (r: (u64, Option<u64>))
        requires
            self.wf(),
        ensures
            r.0 == seq_max(self.iterations_spec()),
            r.1 == ensemble_target(self.targets_spec()),
    {
        ensemble_progress(self.iterations.as_slice(), self.targets.as_slice())
    }

    /// The summaries of a completed ensemble, one per member in index
    /// order; nothing while a member never began.
    pub fn summaries(&self) -> (r: Option<Vec<MemberRunSummary>>)
        requires
            self.wf(),
        ensures
            r is None <==> exists|i: int| 0 <= i < self.iterations_spec().len()
                && (#[trigger] self.identities_spec()[i] is None || self.directories_spec()[i] is None),
            r matches Some(v) ==> v@.len() == self.iterations_spec().len()
                && forall|i: int| 0 <= i < v@.len() ==> {
                    &&& Some((#[trigger] v@[i]).identity_spec()) == self.identities_spec()[i]
                    &&& v@[i].final_iteration_spec() == self.iterations_spec()[i]
                    &&& Some(v@[i].output_directory_spec()) == self.directories_spec()[i]
                },
    {
        let mut out: Vec<MemberRunSummary> = Vec::new();
        let mut i: usize = 0;
        while i < self.iterations.len()
            invariant
                self.wf(),
                i <= self.iterations_spec().len(),
                out@.len() == i,
                forall|k: int| 0 <= k < i ==> {
                    &&& Some((#[trigger] out@[k]).identity_spec()) == self.identities_spec()[k]
                    &&& out@[k].final_iteration_spec() == self.iterations_spec()[k]
                    &&& Some(out@[k].output_directory_spec()) == self.directories_spec()[k]
                },
            decreases self.iterations_spec().len() - i,
        {
            assert(self.identities_spec()[i as int] == opt_text(self.identities@[i as int]));
            assert(self.directories_spec()[i as int] == opt_text(self.directories@[i as int]));
            let identity = match &self.identities[i] {
                Some(s) => s.clone(),
                None => {
                    return None;
                },
            };
            let directory = match &self.directories[i] {
                Some(s) => s.clone(),
                None => {
                    return None;
                },
            };
            out.push(MemberRunSummary::new(identity, self.iterations[i], directory));
            i = i + 1;
        }
        proof {
            assert forall|k: int| 0 <= k < self.iterations_spec().len() implies
                !(#[trigger] self.identities_spec()[k] is None || self.directories_spec()[k] is None) by {
                assert(Some(out@[k].identity_spec()) == self.identities_spec()[k]);
            }
        }
        Some(out)
    }
}

} // verus!
