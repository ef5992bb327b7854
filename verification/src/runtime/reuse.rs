//! Which prerequisite phases a partial run reuses from an earlier
//! execution instead of running again.
use vstd::prelude::*;
use crate::text::string_views;
use super::graph::{StudyPhase, phases_wf, is_ancestor_name, transitive_dependencies};

verus! {

/// Why the selected phases cannot run on reused prerequisites.
#[derive(Debug)]
pub enum ReusePlanError {
    /// Inactive prerequisites exist but no earlier execution was named.
    MissingReuseSource { phase: String },
    /// A phase to reuse depends on a phase selected to run again.
    PrerequisiteRerun { phase: String },
}

impl ReusePlanError {
    /// The message of the failure.
    pub fn reason(&self) -> (r: &'static str)
        ensures
            self is MissingReuseSource ==> r@ == "inactive prerequisite phases require an explicit reuse_from execution directory"@,
            self is PrerequisiteRerun ==> r@ == "cannot reuse a phase whose prerequisite is selected to run again"@,
    {
        match self {
            ReusePlanError::MissingReuseSource { .. } =>
                "inactive prerequisite phases require an explicit reuse_from execution directory",
            ReusePlanError::PrerequisiteRerun { .. } =>
                "cannot reuse a phase whose prerequisite is selected to run again",
        }
    }
}

/// A selected phase needs `name`: it is a direct or transitive prerequisite
/// of a phase selected to run.
pub open spec fn needed_by_selection(phases: Seq<StudyPhase>, order: Seq<usize>, active: Seq<bool>, name: Seq<char>) -> bool {
    exists|j: int| 0 <= j < order.len() && active[j]
        && #[trigger] is_ancestor_name(phases, phases[order[j] as int], name)
}

/// Position `i` of the execution order holds an inactive phase that a
/// selected phase needs.
pub open spec fn reused_position(phases: Seq<StudyPhase>, order: Seq<usize>, active: Seq<bool>, i: usize) -> bool {
    !active[i as int] && needed_by_selection(phases, order, active, phases[order[i as int] as int].name_spec())
}

/// The positions of the phases to reuse, in execution order.
pub open spec fn reused_positions(phases: Seq<StudyPhase>, order: Seq<usize>, active: Seq<bool>) -> Seq<usize> {
    Seq::new(order.len(), |i: int| i as usize).filter(|i: usize| reused_position(phases, order, active, i))
}

/// The phase at position `i` has a prerequisite selected to run.
pub open spec fn reruns_prerequisite(phases: Seq<StudyPhase>, order: Seq<usize>, active: Seq<bool>, i: int) -> bool {
    exists|j: int| 0 <= j < order.len() && active[j]
        && #[trigger] is_ancestor_name(phases, phases[order[i] as int], phases[order[j] as int].name_spec())
}

/// Whether `name` is among `items`.
fn contains_name(items: &Vec<String>, name: &str) -> (r: bool)
    ensures
        r == string_views(items@).contains(name@),
{
    let wanted = name.to_owned();
    let mut i: usize = 0;
    while i < items.len()
        invariant
            i <= items@.len(),
            wanted@ == name@,
            forall|k: int| 0 <= k < i ==> (#[trigger] items@[k])@ != name@,
        decreases items@.len() - i,
    {
        if items[i] == wanted {
            assert(string_views(items@)[i as int] == name@);
            return true;
        }
        i = i + 1;
    }
    proof {
        if string_views(items@).contains(name@) {
            let k = choose|k: int| 0 <= k < items@.len() && string_views(items@)[k] == name@;
            assert(items@[k]@ == name@);
        }
    }
    false
}

/// Whether any of `names` is among `items`.
fn any_listed(names: &Vec<String>, items: &Vec<String>) -> (r: bool)
    ensures
        r == exists|x: int| 0 <= x < names@.len() && string_views(items@).contains(#[trigger] names@[x]@),
{
    let mut q: usize = 0;
    while q < names.len()
        invariant
            q <= names@.len(),
            forall|x: int| 0 <= x < q ==> !string_views(items@).contains(#[trigger] names@[x]@),
        decreases names@.len() - q,
    {
        if contains_name(items, names[q].as_str()) {
            return true;
        }
        q = q + 1;
    }
    false
}

/// The first reused phase with a selected prerequisite is unique.
proof fn lemma_first_rerun(ps: Seq<StudyPhase>, os: Seq<usize>, acts: Seq<bool>, rp: Seq<usize>, k: int)
    requires
        0 <= k < rp.len(),
        reruns_prerequisite(ps, os, acts, rp[k] as int),
        forall|m: int| 0 <= m < k ==> !reruns_prerequisite(ps, os, acts, #[trigger] rp[m] as int),
    ensures
        forall|kk: int| 0 <= kk < rp.len()
            && reruns_prerequisite(ps, os, acts, #[trigger] rp[kk] as int)
            && (forall|m: int| 0 <= m < kk ==> !reruns_prerequisite(ps, os, acts, rp[m] as int))
            ==> kk == k,
{
    assert forall|kk: int| 0 <= kk < rp.len()
        && reruns_prerequisite(ps, os, acts, #[trigger] rp[kk] as int)
        && (forall|m: int| 0 <= m < kk ==> !reruns_prerequisite(ps, os, acts, rp[m] as int))
        implies kk == k by {
        if kk < k {
            assert(!reruns_prerequisite(ps, os, acts, rp[kk] as int));
        } else if kk > k {
            assert(reruns_prerequisite(ps, os, acts, rp[k] as int));
        }
    }
}

/// Decides which phases to reuse: every inactive phase that a selected
/// phase needs, in execution order. Reusing any requires an earlier
/// execution to reuse from, and no reused phase may depend on a phase
/// selected to run again.
pub fn plan_reuse(phases: &[StudyPhase], order: &[usize], active: &[bool], has_source: bool)
    -> (r: Result<Vec<usize>, ReusePlanError>)
    requires
        phases_wf(phases@),
        active@.len() == order@.len(),
        forall|i: int| 0 <= i < order@.len() ==> #[trigger] order@[i] < phases@.len(),
    ensures
        ({
            let rp = reused_positions(phases@, order@, active@);
            &&& r matches Ok(v) ==> v@ == rp
            &&& r is Ok <==> (rp.len() == 0 || (has_source
                && forall|k: int| 0 <= k < rp.len() ==> !reruns_prerequisite(phases@, order@, active@, #[trigger] rp[k] as int)))
            &&& (rp.len() > 0 && !has_source) ==> (r matches Err(ReusePlanError::MissingReuseSource { phase })
                && phase@ == phases@[order@[rp[0] as int] as int].name_spec())
            &&& (rp.len() > 0 && has_source) ==> forall|k: int| 0 <= k < rp.len()
                && reruns_prerequisite(phases@, order@, active@, #[trigger] rp[k] as int)
                && (forall|m: int| 0 <= m < k ==> !reruns_prerequisite(phases@, order@, active@, rp[m] as int))
                ==> (r matches Err(ReusePlanError::PrerequisiteRerun { phase })
                    && phase@ == phases@[order@[rp[k] as int] as int].name_spec())
        }),
{
    let ghost ps = phases@;
    let ghost os = order@;
    let ghost acts = active@;
    // Names needed by the selected phases.
    let mut needed: Vec<String> = Vec::new();
    let mut j: usize = 0;
    while j < order.len()
        invariant
            j <= os.len(),
            ps == phases@,
            os == order@,
            acts == active@,
            acts.len() == os.len(),
            phases_wf(ps),
            forall|i: int| 0 <= i < os.len() ==> #[trigger] os[i] < ps.len(),
            forall|name: Seq<char>| string_views(needed@).contains(name) <==>
                exists|jj: int| 0 <= jj < j && acts[jj] && #[trigger] is_ancestor_name(ps, ps[os[jj] as int], name),
        decreases os.len() - j,
    {
        if active[j] {
            let phase = &phases[order[j]];
            proof {
                assert(super::graph::dependencies_resolve(ps, ps[os[j as int] as int]));
            }
            let names = transitive_dependencies(phase, phases);
            let ghost before = string_views(needed@);
            let mut k: usize = 0;
            while k < names.len()
                invariant
                    k <= names@.len(),
                    string_views(needed@) == before + string_views(names@).take(k as int),
                decreases names@.len() - k,
            {
                let ghost prev = string_views(needed@);
                let name = names[k].clone();
                needed.push(name);
                proof {
                    assert(string_views(needed@) =~= prev.push(names@[k as int]@));
                    assert(string_views(names@).take(k as int + 1) =~= string_views(names@).take(k as int).push(names@[k as int]@));
                    assert(string_views(needed@) =~= before + string_views(names@).take(k as int + 1));
                }
                k = k + 1;
            }
            proof {
                assert(string_views(names@).take(names@.len() as int) =~= string_views(names@));
                assert forall|name: Seq<char>| string_views(needed@).contains(name) <==>
                    exists|jj: int| 0 <= jj < j + 1 && acts[jj] && #[trigger] is_ancestor_name(ps, ps[os[jj] as int], name) by {
                    if string_views(needed@).contains(name) {
                        let w = choose|w: int| 0 <= w < string_views(needed@).len() && string_views(needed@)[w] == name;
                        if w >= before.len() {
                            let q = w - before.len();
                            assert(names@[q]@ == name);
                            assert(is_ancestor_name(ps, ps[os[j as int] as int], names@[q]@));
                        } else {
                            assert(before.contains(name));
                        }
                    }
                    if exists|jj: int| 0 <= jj < j + 1 && acts[jj] && #[trigger] is_ancestor_name(ps, ps[os[jj] as int], name) {
                        let jj = choose|jj: int| 0 <= jj < j + 1 && acts[jj] && #[trigger] is_ancestor_name(ps, ps[os[jj] as int], name);
                        if jj == j {
                            let v = choose|v: int| #![trigger ps[v].name_spec()]
                                0 <= v < ps.len() && super::graph::is_ancestor(ps, ps[os[j as int] as int], v) && ps[v].name_spec() == name;
                            let kk = choose|kk: int| #![trigger names@[kk]] 0 <= kk < names@.len() && names@[kk]@ == ps[v].name_spec();
                            assert(string_views(needed@)[before.len() + kk] == name);
                        } else {
                            assert(before.contains(name));
                            let w = choose|w: int| 0 <= w < before.len() && before[w] == name;
                            assert(string_views(needed@)[w] == name);
                        }
                    }
                }
            }
        } else {
            proof {
                assert forall|name: Seq<char>| string_views(needed@).contains(name) <==>
                    exists|jj: int| 0 <= jj < j + 1 && acts[jj] && #[trigger] is_ancestor_name(ps, ps[os[jj] as int], name) by {
                    if exists|jj: int| 0 <= jj < j + 1 && acts[jj] && #[trigger] is_ancestor_name(ps, ps[os[jj] as int], name) {
                        let jj = choose|jj: int| 0 <= jj < j + 1 && acts[jj] && #[trigger] is_ancestor_name(ps, ps[os[jj] as int], name);
                        assert(jj < j);
                    }
                }
            }
        }
        j = j + 1;
    }
    // Inactive phases that are needed, in execution order.
    let ghost pred = |i: usize| reused_position(ps, os, acts, i);
    let mut skipped: Vec<usize> = Vec::new();
    let mut i: usize = 0;
    while i < order.len()
        invariant
            i <= os.len(),
            ps == phases@,
            os == order@,
            acts == active@,
            acts.len() == os.len(),
            forall|x: int| 0 <= x < os.len() ==> #[trigger] os[x] < ps.len(),
            forall|name: Seq<char>| string_views(needed@).contains(name) <==> needed_by_selection(ps, os, acts, name),
            pred == (|i: usize| reused_position(ps, os, acts, i)),
            skipped@ == Seq::new(i as nat, |x: int| x as usize).filter(pred),
        decreases os.len() - i,
    {
        proof {
            assert(Seq::new(i as nat + 1, |x: int| x as usize) =~= Seq::new(i as nat, |x: int| x as usize).push(i));
            Seq::new(i as nat, |x: int| x as usize).lemma_filter_push(i, pred);
        }
        if !active[i] && contains_name(&needed, phases[order[i]].name()) {
            skipped.push(i);
        }
        i = i + 1;
    }
    proof {
        assert(Seq::new(os.len(), |x: int| x as usize) =~= Seq::new(i as nat, |x: int| x as usize));
        assert(skipped@ == reused_positions(ps, os, acts));
    }
    let ghost rp = skipped@;
    proof {
        let idx = Seq::new(os.len(), |x: int| x as usize);
        assert forall|k: int| 0 <= k < rp.len() implies (#[trigger] rp[k]) < os.len() by {
            assert(rp.contains(rp[k]));
            idx.lemma_filter_contains_rev(pred, rp[k]);
        }
    }
    if skipped.len() == 0 {
        return Ok(skipped);
    }
    if !has_source {
        let name = phases[order[skipped[0]]].name().to_owned();
        return Err(ReusePlanError::MissingReuseSource { phase: name });
    }
    // Names of the selected phases.
    let mut selected: Vec<String> = Vec::new();
    let mut j: usize = 0;
    while j < order.len()
        invariant
            j <= os.len(),
            ps == phases@,
            os == order@,
            acts == active@,
            acts.len() == os.len(),
            forall|x: int| 0 <= x < os.len() ==> #[trigger] os[x] < ps.len(),
            forall|name: Seq<char>| string_views(selected@).contains(name) <==>
                exists|jj: int| 0 <= jj < j && acts[jj] && #[trigger] ps[os[jj] as int].name_spec() == name,
        decreases os.len() - j,
    {
        let ghost before = string_views(selected@);
        if active[j] {
            selected.push(phases[order[j]].name().to_owned());
            proof {
                assert(string_views(selected@) =~= before.push(ps[os[j as int] as int].name_spec()));
                assert forall|name: Seq<char>| string_views(selected@).contains(name) <==>
                    exists|jj: int| 0 <= jj < j + 1 && acts[jj] && #[trigger] ps[os[jj] as int].name_spec() == name by {
                    if string_views(selected@).contains(name) {
                        let w = choose|w: int| 0 <= w < string_views(selected@).len() && string_views(selected@)[w] == name;
                        if w < before.len() {
                            assert(before[w] == name);
                            assert(before.contains(name));
                        }
                    }
                    if exists|jj: int| 0 <= jj < j + 1 && acts[jj] && #[trigger] ps[os[jj] as int].name_spec() == name {
                        let jj = choose|jj: int| 0 <= jj < j + 1 && acts[jj] && #[trigger] ps[os[jj] as int].name_spec() == name;
                        if jj == j {
                            assert(string_views(selected@)[before.len() as int] == name);
                        } else {
                            assert(before.contains(name));
                            let w = choose|w: int| 0 <= w < before.len() && before[w] == name;
                            assert(string_views(selected@)[w] == name);
                        }
                    }
                }
            }
        } else {
            proof {
                assert forall|name: Seq<char>| string_views(selected@).contains(name) <==>
                    exists|jj: int| 0 <= jj < j + 1 && acts[jj] && #[trigger] ps[os[jj] as int].name_spec() == name by {
                    if exists|jj: int| 0 <= jj < j + 1 && acts[jj] && #[trigger] ps[os[jj] as int].name_spec() == name {
                        let jj = choose|jj: int| 0 <= jj < j + 1 && acts[jj] && #[trigger] ps[os[jj] as int].name_spec() == name;
                        assert(jj < j);
                    }
                }
            }
        }
        j = j + 1;
    }
    // No reused phase may depend on a selected phase.
    let mut k: usize = 0;
    while k < skipped.len()
        invariant
            k <= rp.len(),
            rp == skipped@,
            rp == reused_positions(ps, os, acts),
            has_source,
            ps == phases@,
            os == order@,
            acts == active@,
            acts.len() == os.len(),
            phases_wf(ps),
            forall|x: int| 0 <= x < os.len() ==> #[trigger] os[x] < ps.len(),
            forall|x: int| 0 <= x < rp.len() ==> (#[trigger] rp[x]) < os.len(),
            forall|name: Seq<char>| string_views(selected@).contains(name) <==>
                exists|jj: int| 0 <= jj < os.len() && acts[jj] && #[trigger] ps[os[jj] as int].name_spec() == name,
            forall|m: int| 0 <= m < k ==> !reruns_prerequisite(ps, os, acts, #[trigger] rp[m] as int),
        decreases rp.len() - k,
    {
        let s = skipped[k];
        let phase = &phases[order[s]];
        proof {
            assert(super::graph::dependencies_resolve(ps, ps[os[s as int] as int]));
        }
        let names = transitive_dependencies(phase, phases);
        if any_listed(&names, &selected) {
            proof {
                let x = choose|x: int| 0 <= x < names@.len() && string_views(selected@).contains(#[trigger] names@[x]@);
                let name = names@[x]@;
                let jj = choose|jj: int| 0 <= jj < os.len() && acts[jj] && #[trigger] ps[os[jj] as int].name_spec() == name;
                assert(is_ancestor_name(ps, ps[os[s as int] as int], ps[os[jj] as int].name_spec()));
                assert(reruns_prerequisite(ps, os, acts, rp[k as int] as int));
                lemma_first_rerun(ps, os, acts, rp, k as int);
            }
            let name = phase.name().to_owned();
            return Err(ReusePlanError::PrerequisiteRerun { phase: name });
        }
        proof {
            if reruns_prerequisite(ps, os, acts, s as int) {
                let jj = choose|jj: int| 0 <= jj < os.len() && acts[jj]
                    && #[trigger] is_ancestor_name(ps, ps[os[s as int] as int], ps[os[jj] as int].name_spec());
                let name = ps[os[jj] as int].name_spec();
                let v = choose|v: int| #![trigger ps[v].name_spec()]
                    0 <= v < ps.len() && super::graph::is_ancestor(ps, ps[os[s as int] as int], v) && ps[v].name_spec() == name;
                let x = choose|x: int| #![trigger names@[x]] 0 <= x < names@.len() && names@[x]@ == ps[v].name_spec();
                assert(string_views(selected@).contains(names@[x]@));
            }
        }
        k = k + 1;
    }
    Ok(skipped)
}

} // verus!
