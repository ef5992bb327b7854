//! Phase dependency graphs: deterministic execution order and transitive
//! prerequisites.
use vstd::prelude::*;

verus! {

/// The dependency facts of one study phase: its stable name and the names of
/// the phases it runs after.
pub struct StudyPhase {
    name: String,
    dependencies: Vec<String>,
}

impl StudyPhase {
    /// Declares a phase by name with its prerequisite phase names.
    pub fn new(name: String, dependencies: Vec<String>) -> (r: Self)
        ensures
            r.name_spec() == name@,
            r.dependencies_spec() == dependencies@.map_values(|d: String| d@),
    {
        StudyPhase { name, dependencies }
    }

    /// The phase name.
    pub closed spec fn name_spec(&self) -> Seq<char> {
        self.name@
    }

    /// The prerequisite names in declared order.
    pub closed spec fn dependencies_spec(&self) -> Seq<Seq<char>> {
        self.dependencies@.map_values(|d: String| d@)
    }

    /// Returns the stable phase name.
    pub fn name(&self) -> (r: &str)
        ensures
            r@ == self.name_spec(),
    {
        self.name.as_str()
    }

    /// Returns the prerequisite phase names in declared order.
    pub fn dependencies(&self) -> (r: &[String])
        ensures
            r@.map_values(|d: String| d@) == self.dependencies_spec(),
    {
        self.dependencies.as_slice()
    }
}

/// Phase names are unique.
pub open spec fn names_unique(phases: Seq<StudyPhase>) -> bool {
    forall|a: int, b: int|
        0 <= a < phases.len() && 0 <= b < phases.len() && a != b
            ==> #[trigger] phases[a].name_spec() != #[trigger] phases[b].name_spec()
}

/// `name` names some phase.
pub open spec fn resolves(phases: Seq<StudyPhase>, name: Seq<char>) -> bool {
    exists|i: int| 0 <= i < phases.len() && #[trigger] phases[i].name_spec() == name
}

/// Every dependency of `phase` names some phase.
pub open spec fn dependencies_resolve(phases: Seq<StudyPhase>, phase: StudyPhase) -> bool {
    forall|j: int| 0 <= j < phase.dependencies_spec().len()
        ==> resolves(phases, #[trigger] phase.dependencies_spec()[j])
}

/// A well-formed phase set: unique names and resolvable dependencies.
pub open spec fn phases_wf(phases: Seq<StudyPhase>) -> bool {
    &&& names_unique(phases)
    &&& forall|i: int| 0 <= i < phases.len() ==> dependencies_resolve(phases, #[trigger] phases[i])
}

/// A ranking in which every phase is ranked above each of its prerequisites,
/// witnessing that the dependency graph has no cycle.
pub open spec fn ranks_phases(phases: Seq<StudyPhase>, rank: Seq<nat>) -> bool {
    &&& rank.len() == phases.len()
    &&& forall|a: int, b: int, j: int|
        0 <= a < phases.len() && 0 <= b < phases.len() && 0 <= j < phases[a].dependencies_spec().len()
            && #[trigger] phases[a].dependencies_spec()[j] == #[trigger] phases[b].name_spec()
            ==> rank[b] < rank[a]
}

/// Index form of the dependency lists: entry `[i][j]` is the position of the
/// phase named by the `j`-th dependency of phase `i`.
pub open spec fn resolved(phases: Seq<StudyPhase>, deps: Seq<Seq<usize>>) -> bool {
    &&& deps.len() == phases.len()
    &&& forall|i: int| 0 <= i < phases.len()
        ==> (#[trigger] deps[i]).len() == phases[i].dependencies_spec().len()
    &&& forall|i: int, j: int| 0 <= i < phases.len() && 0 <= j < deps[i].len()
        ==> (#[trigger] deps[i][j]) < phases.len()
            && phases[deps[i][j] as int].name_spec() == phases[i].dependencies_spec()[j]
}

/// Finds the position of the phase named `name`.
fn position_of(phases: &[StudyPhase], name: &String) -> (r: usize)
    requires
        resolves(phases@, name@),
    ensures
        r < phases@.len(),
        phases@[r as int].name_spec() == name@,
{
    let mut i: usize = 0;
    while i < phases.len()
        invariant
            i <= phases@.len(),
            forall|k: int| 0 <= k < i ==> phases@[k].name_spec() != name@,
            resolves(phases@, name@),
        decreases phases@.len() - i,
    {
        if phases[i].name == *name {
            return i;
        }
        i = i + 1;
    }
    proof {
        let k = choose|k: int| 0 <= k < phases@.len() && #[trigger] phases@[k].name_spec() == name@;
        assert(phases@[k].name_spec() != name@);
    }
    0
}

/// Resolves every dependency name to a phase position.
fn resolve_dependencies(phases: &[StudyPhase]) -> (r: Vec<Vec<usize>>)
    requires
        phases_wf(phases@),
    ensures
        resolved(phases@, r@.map_values(|v: Vec<usize>| v@)),
{
    let mut all: Vec<Vec<usize>> = Vec::new();
    let mut i: usize = 0;
    while i < phases.len()
        invariant
            i <= phases@.len(),
            all@.len() == i,
            phases_wf(phases@),
            forall|a: int| 0 <= a < i ==> (#[trigger] all@[a])@.len() == phases@[a].dependencies_spec().len(),
            forall|a: int, j: int| 0 <= a < i && 0 <= j < all@[a]@.len()
                ==> (#[trigger] all@[a]@[j]) < phases@.len()
                    && phases@[all@[a]@[j] as int].name_spec() == phases@[a].dependencies_spec()[j],
        decreases phases@.len() - i,
    {
        let phase = &phases[i];
        let mut row: Vec<usize> = Vec::new();
        let mut j: usize = 0;
        assert(dependencies_resolve(phases@, phases@[i as int]));
        while j < phase.dependencies.len()
            invariant
                j <= phase.dependencies@.len(),
                row@.len() == j,
                phase == phases@[i as int],
                dependencies_resolve(phases@, phases@[i as int]),
                forall|k: int| 0 <= k < j ==> (#[trigger] row@[k]) < phases@.len()
                    && phases@[row@[k] as int].name_spec() == phase.dependencies_spec()[k],
            decreases phase.dependencies@.len() - j,
        {
            assert(phase.dependencies_spec()[j as int] == phase.dependencies@[j as int]@);
            let position = position_of(phases, &phase.dependencies[j]);
            row.push(position);
            j = j + 1;
        }
        all.push(row);
        i = i + 1;
    }
    let ghost deps = all@.map_values(|v: Vec<usize>| v@);
    assert forall|a: int| 0 <= a < phases@.len() implies (#[trigger] deps[a]).len() == phases@[a].dependencies_spec().len() by {
        assert(deps[a] == all@[a]@);
    }
    assert forall|a: int, j: int| 0 <= a < phases@.len() && 0 <= j < deps[a].len()
        implies (#[trigger] deps[a][j]) < phases@.len()
            && phases@[deps[a][j] as int].name_spec() == phases@[a].dependencies_spec()[j] by {
        assert(deps[a] == all@[a]@);
    }
    all
}

/// Invariant of the depth-first walk: `placed[v]` is the position of `v` in
/// `order` (or negative when unvisited), and every placed phase follows all
/// of its prerequisites.
pub open spec fn walk_inv(deps: Seq<Seq<usize>>, visited: Seq<bool>, order: Seq<usize>, placed: Seq<int>) -> bool {
    let n = deps.len();
    &&& visited.len() == n
    &&& placed.len() == n
    &&& forall|v: int| 0 <= v < n ==> (#[trigger] visited[v] <==> 0 <= placed[v])
    &&& forall|v: int| 0 <= v < n && visited[v] ==> #[trigger] placed[v] < order.len() && order[placed[v]] == v
    &&& forall|k: int| 0 <= k < order.len() ==> (#[trigger] order[k]) < n && placed[order[k] as int] == k
    &&& forall|k: int, j: int| 0 <= k < order.len() && 0 <= j < deps[order[k] as int].len()
        ==> 0 <= placed[#[trigger] deps[order[k] as int][j] as int] < k
}

/// Every dependency index is in range and ranked below its dependent.
pub open spec fn ranked(deps: Seq<Seq<usize>>, rank: Seq<nat>) -> bool {
    &&& rank.len() == deps.len()
    &&& forall|i: int, j: int| 0 <= i < deps.len() && 0 <= j < deps[i].len()
        ==> (#[trigger] deps[i][j]) < deps.len() && rank[deps[i][j] as int] < rank[i]
}

/// The depth-first walk from phase `v`, as a pair of the visited marks and
/// the order so far: an unvisited phase first walks its prerequisites in
/// declared order, then takes the next place. `fuel` bounds the depth; the
/// walks below give each phase more than its rank, which is always enough.
pub open spec fn walk_from(d: Seq<Seq<usize>>, v: int, st: (Seq<bool>, Seq<usize>), fuel: nat) -> (Seq<bool>, Seq<usize>)
    decreases fuel, 0int,
{
    if fuel == 0 || st.0[v] {
        st
    } else {
        let s = walk_list(d, v, 0, st, (fuel - 1) as nat);
        (s.0.update(v, true), s.1.push(v as usize))
    }
}

/// The walks from the prerequisites of `v`, from the `j`-th on, in order.
pub open spec fn walk_list(d: Seq<Seq<usize>>, v: int, j: int, st: (Seq<bool>, Seq<usize>), fuel: nat) -> (Seq<bool>, Seq<usize>)
    decreases fuel, d[v].len() - j,
{
    if 0 <= j < d[v].len() {
        walk_list(d, v, j + 1, walk_from(d, d[v][j] as int, st, fuel), fuel)
    } else {
        st
    }
}

/// The walks from phases `i`, `i + 1`, … in declaration order.
pub open spec fn walk_top(d: Seq<Seq<usize>>, rank: Seq<nat>, i: int, st: (Seq<bool>, Seq<usize>)) -> (Seq<bool>, Seq<usize>)
    decreases d.len() - i,
{
    if 0 <= i < d.len() {
        walk_top(d, rank, i + 1, walk_from(d, i, st, rank[i] + 1))
    } else {
        st
    }
}

/// The order in which the depth-first walk places the phases: phases are
/// visited in declaration order, each prerequisite list recursively in its
/// declared order, and each phase is placed once, after its prerequisites.
pub open spec fn dfs_post_order(phases: Seq<StudyPhase>) -> Seq<usize> {
    let d = choose|d: Seq<Seq<usize>>| resolved(phases, d);
    let rank = choose|rank: Seq<nat>| ranks_phases(phases, rank);
    walk_top(d, rank, 0, (Seq::new(phases.len(), |v: int| false), Seq::empty())).1
}

/// The dependency lists as sequences.
pub open spec fn index_lists(deps: Seq<Vec<usize>>) -> Seq<Seq<usize>> {
    deps.map_values(|v: Vec<usize>| v@)
}

/// With unique names, the index form of the dependency lists is unique.
proof fn lemma_resolved_unique(phases: Seq<StudyPhase>, d1: Seq<Seq<usize>>, d2: Seq<Seq<usize>>)
    requires
        names_unique(phases),
        resolved(phases, d1),
        resolved(phases, d2),
    ensures
        d1 == d2,
{
    assert forall|i: int| 0 <= i < d1.len() implies d1[i] =~= d2[i] by {
        assert forall|j: int| 0 <= j < d1[i].len() implies d1[i][j] == d2[i][j] by {
            let a = d1[i][j] as int;
            let b = d2[i][j] as int;
            assert(phases[a].name_spec() == phases[b].name_spec());
        }
    }
    assert(d1 =~= d2);
}

fn visit(
    index: usize,
    deps: &Vec<Vec<usize>>,
    visited: &mut Vec<bool>,
    order: &mut Vec<usize>,
    Ghost(rank): Ghost<Seq<nat>>,
    Ghost(placed_in): Ghost<Seq<int>>,
) -> (placed_out: Ghost<Seq<int>>)
    requires
        index < deps@.len(),
        ranked(deps@.map_values(|v: Vec<usize>| v@), rank),
        walk_inv(deps@.map_values(|v: Vec<usize>| v@), old(visited)@, old(order)@, placed_in),
    ensures
        walk_inv(deps@.map_values(|v: Vec<usize>| v@), final(visited)@, final(order)@, placed_out@),
        final(visited)@[index as int],
        old(order)@.len() <= final(order)@.len(),
        final(order)@.take(old(order)@.len() as int) == old(order)@,
        forall|v: int| 0 <= v < deps@.len() && old(visited)@[v] ==> #[trigger] final(visited)@[v]
            && placed_out@[v] == placed_in[v],
        forall|v: int| 0 <= v < deps@.len() && #[trigger] final(visited)@[v] && !old(visited)@[v]
            ==> rank[v] <= rank[index as int],
        forall|f: nat| f > rank[index as int] ==> #[trigger] walk_from(index_lists(deps@),
            index as int, (old(visited)@, old(order)@), f) == (final(visited)@, final(order)@),
    decreases rank[index as int],
{
    let ghost d = deps@.map_values(|v: Vec<usize>| v@);
    if visited[index] {
        assert forall|f: nat| f > rank[index as int] implies #[trigger] walk_from(d, index as int,
            (visited@, order@), f) == (visited@, order@) by {}
        return Ghost(placed_in);
    }
    let ghost mut placed = placed_in;
    let ghost entry_visited = visited@;
    let ghost entry_order = order@;
    let ghost entry_placed = placed;
    let row = &deps[index];
    assert(row@ == d[index as int]);
    let mut j: usize = 0;
    while j < row.len()
        invariant
            j <= row@.len(),
            index < deps@.len(),
            row@ == d[index as int],
            d == deps@.map_values(|v: Vec<usize>| v@),
            ranked(d, rank),
            walk_inv(d, visited@, order@, placed),
            !visited@[index as int],
            entry_visited.len() == d.len(),
            !entry_visited[index as int],
            entry_order.len() <= order@.len(),
            order@.take(entry_order.len() as int) == entry_order,
            forall|v: int| 0 <= v < d.len() && entry_visited[v] ==> #[trigger] visited@[v]
                && placed[v] == entry_placed[v],
            forall|v: int| 0 <= v < d.len() && #[trigger] visited@[v] && !entry_visited[v]
                ==> rank[v] < rank[index as int],
            forall|k: int| 0 <= k < j ==> #[trigger] visited@[row@[k] as int],
            forall|f: nat| f > rank[index as int] ==> #[trigger] walk_list(d, index as int, 0,
                (entry_visited, entry_order), (f - 1) as nat)
                == walk_list(d, index as int, j as int, (visited@, order@), (f - 1) as nat),
        decreases row@.len() - j,
    {
        let dependency = row[j];
        assert(d[index as int][j as int] == dependency);
        let ghost before_visited = visited@;
        let ghost before_order = order@;
        let ghost before_placed = placed;
        let Ghost(after) = visit(dependency, deps, visited, order, Ghost(rank), Ghost(placed));
        proof {
            placed = after;
            assert forall|f: nat| f > rank[index as int] implies #[trigger] walk_list(d, index as int, 0,
                (entry_visited, entry_order), (f - 1) as nat)
                == walk_list(d, index as int, j + 1, (visited@, order@), (f - 1) as nat) by {
                let g = (f - 1) as nat;
                assert(rank[dependency as int] < rank[index as int]);
                assert(d == index_lists(deps@));
                assert(g > rank[dependency as int]);
                assert(walk_from(d, dependency as int, (before_visited, before_order), g) == (visited@, order@));
                assert(walk_list(d, index as int, j as int, (before_visited, before_order), g)
                    == walk_list(d, index as int, j + 1, walk_from(d, d[index as int][j as int] as int,
                        (before_visited, before_order), g), g));
            }
        }
        assert(order@.take(entry_order.len() as int) =~= entry_order) by {
            assert(order@.take(before_order.len() as int) == before_order);
            assert forall|k: int| 0 <= k < entry_order.len() implies order@[k] == entry_order[k] by {
                assert(order@.take(before_order.len() as int)[k] == order@[k]);
                assert(before_order.take(entry_order.len() as int)[k] == before_order[k]);
            }
        }
        assert forall|k: int| 0 <= k < j + 1 implies #[trigger] visited@[row@[k] as int] by {
            if k < j {
                assert(before_visited[row@[k] as int]);
            }
        }
        j = j + 1;
    }
    let ghost mid_order = order@;
    let ghost mid_visited = visited@;
    assert forall|f: nat| f > rank[index as int] implies #[trigger] walk_list(d, index as int, 0,
        (entry_visited, entry_order), (f - 1) as nat) == (mid_visited, mid_order) by {
        assert(walk_list(d, index as int, j as int, (mid_visited, mid_order), (f - 1) as nat) == (mid_visited, mid_order));
    }
    let position = order.len();
    proof {
        placed = placed.update(index as int, position as int);
    }
    visited.set(index, true);
    order.push(index);
    proof {
        let nv = visited@;
        let no = order@;
        let np = placed;
        assert(no.take(mid_order.len() as int) =~= mid_order);
        assert forall|v: int| 0 <= v < d.len() implies (#[trigger] nv[v] <==> 0 <= np[v]) by {
            if v != index as int {
                assert(nv[v] == mid_visited[v]);
            }
        }
        assert forall|k: int| 0 <= k < no.len() implies (#[trigger] no[k]) < d.len() && np[no[k] as int] == k by {
            if k < mid_order.len() {
                assert(no[k] == mid_order[k]);
                assert(no[k] != index) by {
                    assert(!mid_visited[index as int]);
                }
            }
        }
        assert forall|k: int, jj: int| 0 <= k < no.len() && 0 <= jj < d[no[k] as int].len()
            implies 0 <= np[#[trigger] d[no[k] as int][jj] as int] < k by {
            if k < mid_order.len() {
                assert(no[k] == mid_order[k]);
            } else {
                assert(no[k] == index);
                assert(visited@[row@[jj] as int]);
            }
        }
        assert(order@.take(entry_order.len() as int) =~= entry_order) by {
            assert forall|k: int| 0 <= k < entry_order.len() implies no[k] == entry_order[k] by {
                assert(mid_order.take(entry_order.len() as int)[k] == mid_order[k]);
            }
        }
        assert forall|f: nat| f > rank[index as int] implies #[trigger] walk_from(d, index as int,
            (entry_visited, entry_order), f) == (nv, no) by {
            assert(walk_list(d, index as int, 0, (entry_visited, entry_order), (f - 1) as nat) == (mid_visited, mid_order));
            assert(nv == mid_visited.update(index as int, true));
            assert(no == mid_order.push(index));
        }
    }
    Ghost(placed)
}

/// Phase positions in deterministic dependency order: phases are visited in
/// declaration order and each prerequisite list recursively in its declared
/// order; a phase takes its place once all of its prerequisites have theirs.
///
/// The result is exactly that walk's order (`dfs_post_order`): a
/// permutation of the phase positions in which every phase follows each of
/// its prerequisites.
pub fn topological_positions(phases: &[StudyPhase]) -> (r: Vec<usize>)
    requires
        phases_wf(phases@),
        exists|rank: Seq<nat>| ranks_phases(phases@, rank),
    ensures
        r@.len() == phases@.len(),
        forall|k: int| 0 <= k < r@.len() ==> (#[trigger] r@[k]) < phases@.len(),
        forall|a: int, b: int| 0 <= a < b < r@.len() ==> r@[a] != r@[b],
        forall|v: int| 0 <= v < phases@.len() ==> #[trigger] r@.contains(v as usize),
        forall|k: int, j: int, b: int|
            0 <= k < r@.len() && 0 <= b < r@.len()
                && 0 <= j < phases@[r@[k] as int].dependencies_spec().len()
                && #[trigger] phases@[r@[k] as int].dependencies_spec()[j] == #[trigger] phases@[r@[b] as int].name_spec()
                ==> b < k,
        r@ == dfs_post_order(phases@),
{
    let deps = resolve_dependencies(phases);
    let ghost d = deps@.map_values(|v: Vec<usize>| v@);
    let ghost rank = choose|rank: Seq<nat>| ranks_phases(phases@, rank);
    assert(ranked(d, rank)) by {
        assert forall|i: int, j: int| 0 <= i < d.len() && 0 <= j < d[i].len()
            implies (#[trigger] d[i][j]) < d.len() && rank[d[i][j] as int] < rank[i] by {
            let b = d[i][j] as int;
            assert(phases@[i].dependencies_spec()[j] == phases@[b].name_spec());
        }
    }
    let n = phases.len();
    let mut visited: Vec<bool> = Vec::new();
    let mut k: usize = 0;
    while k < n
        invariant
            k <= n,
            n == phases@.len(),
            visited@.len() == k,
            forall|v: int| 0 <= v < k ==> !(#[trigger] visited@[v]),
        decreases n - k,
    {
        visited.push(false);
        k = k + 1;
    }
    let mut order: Vec<usize> = Vec::new();
    let ghost init = (Seq::new(n as nat, |v: int| false), Seq::<usize>::empty());
    assert(init == (visited@, order@)) by {
        assert(visited@ =~= init.0);
        assert(order@ =~= init.1);
    }
    let ghost mut placed: Seq<int> = Seq::new(n as nat, |v: int| -1int);
    let mut index: usize = 0;
    while index < n
        invariant
            index <= n,
            n == phases@.len(),
            d == deps@.map_values(|v: Vec<usize>| v@),
            d.len() == n,
            ranked(d, rank),
            walk_inv(d, visited@, order@, placed),
            forall|v: int| 0 <= v < index ==> #[trigger] visited@[v],
            walk_top(d, rank, 0, init) == walk_top(d, rank, index as int, (visited@, order@)),
        decreases n - index,
    {
        let ghost before = (visited@, order@);
        let Ghost(after) = visit(index, &deps, &mut visited, &mut order, Ghost(rank), Ghost(placed));
        proof {
            placed = after;
            assert(d == index_lists(deps@));
            assert(walk_from(d, index as int, before, rank[index as int] + 1) == (visited@, order@));
            assert(walk_top(d, rank, index as int, before)
                == walk_top(d, rank, index + 1, walk_from(d, index as int, before, rank[index as int] + 1)));
        }
        index = index + 1;
    }
    proof {
        assert(walk_top(d, rank, n as int, (visited@, order@)) == (visited@, order@));
        let dd = choose|dd: Seq<Seq<usize>>| resolved(phases@, dd);
        assert(resolved(phases@, d));
        lemma_resolved_unique(phases@, dd, d);
        assert(order@ == dfs_post_order(phases@));
        assert forall|v: int| 0 <= v < n implies #[trigger] order@.contains(v as usize) by {
            assert(visited@[v]);
            assert(order@[placed[v]] == v);
        }
        assert forall|a: int, b: int| 0 <= a < b < order@.len() implies order@[a] != order@[b] by {
            assert(placed[order@[a] as int] == a);
            assert(placed[order@[b] as int] == b);
        }
        assert(order@.len() == n) by {
            // `placed` maps the n visited phases injectively into the order, and
            // every order entry is one of them.
            assert forall|kk: int| 0 <= kk < order@.len() implies (#[trigger] order@[kk]) < n by {}
            lemma_injective_len(order@, n as nat);
        }
        assert forall|kk: int, j: int, b: int|
            0 <= kk < order@.len() && 0 <= b < order@.len()
                && 0 <= j < phases@[order@[kk] as int].dependencies_spec().len()
                && #[trigger] phases@[order@[kk] as int].dependencies_spec()[j] == #[trigger] phases@[order@[b] as int].name_spec()
            implies b < kk by {
            let v = order@[kk] as int;
            let w = d[v][j] as int;
            assert(phases@[w].name_spec() == phases@[v].dependencies_spec()[j]);
            assert(0 <= placed[w] < kk);
            assert(placed[order@[b] as int] == b);
            if order@[b] as int != w {
                assert(names_unique(phases@));
            }
        }
    }
    order
}

/// `found` contains the prerequisites of `phase` and is closed under
/// prerequisites: the phases named by any member's dependencies are members.
pub open spec fn closed_over(phases: Seq<StudyPhase>, phase: StudyPhase, found: Set<int>) -> bool {
    &&& forall|j: int, b: int| 0 <= j < phase.dependencies_spec().len() && 0 <= b < phases.len()
        && #[trigger] phase.dependencies_spec()[j] == #[trigger] phases[b].name_spec() ==> found.contains(b)
    &&& forall|a: int, j: int, b: int| found.contains(a) && 0 <= a < phases.len() && 0 <= b < phases.len()
        && 0 <= j < phases[a].dependencies_spec().len()
        && #[trigger] phases[a].dependencies_spec()[j] == #[trigger] phases[b].name_spec() ==> found.contains(b)
}

/// Phase `v` is a direct or transitive prerequisite of `phase`: it belongs to
/// every prerequisite-closed set.
pub open spec fn is_ancestor(phases: Seq<StudyPhase>, phase: StudyPhase, v: int) -> bool {
    forall|s: Set<int>| #[trigger] closed_over(phases, phase, s) ==> s.contains(v)
}

/// The set of phases marked in `found`.
pub open spec fn marked(found: Seq<bool>) -> Set<int> {
    Set::new(|v: int| 0 <= v < found.len() && found[v])
}

/// `name` names a direct or transitive prerequisite of `phase`.
pub open spec fn is_ancestor_name(phases: Seq<StudyPhase>, phase: StudyPhase, name: Seq<char>) -> bool {
    exists|v: int| #![trigger phases[v].name_spec()]
        0 <= v < phases.len() && is_ancestor(phases, phase, v) && phases[v].name_spec() == name
}

/// Names of every direct and transitive prerequisite of `phase`, each once,
/// in phase declaration order.
pub fn transitive_dependencies(phase: &StudyPhase, phases: &[StudyPhase]) -> (r: Vec<String>)
    requires
        phases_wf(phases@),
        dependencies_resolve(phases@, *phase),
    ensures
        forall|k: int| 0 <= k < r@.len() ==> #[trigger] is_ancestor_name(phases@, *phase, r@[k]@),
        forall|v: int| 0 <= v < phases@.len() && #[trigger] is_ancestor(phases@, *phase, v)
            ==> exists|k: int| #![trigger r@[k]] 0 <= k < r@.len() && r@[k]@ == phases@[v].name_spec(),
        forall|a: int, b: int| 0 <= a < b < r@.len() ==> r@[a]@ != r@[b]@,
{
    let deps = resolve_dependencies(phases);
    let ghost d = deps@.map_values(|v: Vec<usize>| v@);
    let n = phases.len();
    let mut found: Vec<bool> = Vec::new();
    let mut k: usize = 0;
    while k < n
        invariant
            k <= n,
            n == phases@.len(),
            found@.len() == k,
            forall|v: int| 0 <= v < k ==> !(#[trigger] found@[v]),
        decreases n - k,
    {
        found.push(false);
        k = k + 1;
    }
    // The direct prerequisites.
    let mut j: usize = 0;
    while j < phase.dependencies.len()
        invariant
            j <= phase.dependencies@.len(),
            n == phases@.len(),
            phases_wf(phases@),
            dependencies_resolve(phases@, *phase),
            found@.len() == n,
            forall|v: int| 0 <= v < n && #[trigger] found@[v] ==> is_ancestor(phases@, *phase, v),
            forall|i: int, b: int| 0 <= i < j && 0 <= b < n
                && #[trigger] phase.dependencies_spec()[i] == #[trigger] phases@[b].name_spec() ==> found@[b],
        decreases phase.dependencies@.len() - j,
    {
        assert(phase.dependencies_spec()[j as int] == phase.dependencies@[j as int]@);
        let position = position_of(phases, &phase.dependencies[j]);
        proof {
            let b = position as int;
            assert forall|s: Set<int>| #[trigger] closed_over(phases@, *phase, s) implies s.contains(b) by {
                assert(phase.dependencies_spec()[j as int] == phases@[b].name_spec());
            }
        }
        found.set(position, true);
        proof {
            assert forall|i: int, b: int| 0 <= i < j + 1 && 0 <= b < n
                && #[trigger] phase.dependencies_spec()[i] == #[trigger] phases@[b].name_spec() implies found@[b] by {
                if i == j {
                    if b != position as int {
                        assert(phases@[b].name_spec() == phases@[position as int].name_spec());
                    }
                }
            }
        }
        j = j + 1;
    }
    // Sweep until no prerequisite of a found phase is missing.
    loop
        invariant_except_break
            n == phases@.len(),
            phases_wf(phases@),
            resolved(phases@, d),
            d == deps@.map_values(|v: Vec<usize>| v@),
            found@.len() == n,
            forall|v: int| 0 <= v < n && #[trigger] found@[v] ==> is_ancestor(phases@, *phase, v),
            forall|i: int, b: int| 0 <= i < phase.dependencies_spec().len() && 0 <= b < n
                && #[trigger] phase.dependencies_spec()[i] == #[trigger] phases@[b].name_spec() ==> found@[b],
        ensures
            n == phases@.len(),
            found@.len() == n,
            forall|v: int| 0 <= v < n && #[trigger] found@[v] ==> is_ancestor(phases@, *phase, v),
            closed_over(phases@, *phase, marked(found@)),
        decreases count_unfound(found@, n as int),
    {
        let ghost start = found@;
        let mut changed = false;
        let mut a: usize = 0;
        while a < n
            invariant
                a <= n,
                n == phases@.len(),
                resolved(phases@, d),
                d == deps@.map_values(|v: Vec<usize>| v@),
                found@.len() == n,
                start.len() == n,
                forall|v: int| 0 <= v < n && #[trigger] found@[v] ==> is_ancestor(phases@, *phase, v),
                forall|v: int| 0 <= v < n && #[trigger] start[v] ==> found@[v],
                !changed ==> found@ == start,
                changed ==> count_unfound(found@, n as int) < count_unfound(start, n as int),
                !changed ==> forall|x: int, y: int| 0 <= x < a && found@[x] && 0 <= y < d[x].len()
                    ==> #[trigger] found@[d[x][y] as int],
            decreases n - a,
        {
            if found[a] {
                let row = &deps[a];
                assert(row@ == d[a as int]);
                let mut y: usize = 0;
                while y < row.len()
                    invariant
                        y <= row@.len(),
                        a < n,
                        row@ == d[a as int],
                        found@[a as int],
                        n == phases@.len(),
                        resolved(phases@, d),
                        found@.len() == n,
                        start.len() == n,
                        forall|v: int| 0 <= v < n && #[trigger] found@[v] ==> is_ancestor(phases@, *phase, v),
                        forall|v: int| 0 <= v < n && #[trigger] start[v] ==> found@[v],
                        !changed ==> found@ == start,
                        changed ==> count_unfound(found@, n as int) < count_unfound(start, n as int),
                        forall|z: int| 0 <= z < y ==> #[trigger] found@[row@[z] as int],
                        !changed ==> forall|x: int, yy: int| 0 <= x < a && found@[x] && 0 <= yy < d[x].len()
                            ==> #[trigger] found@[d[x][yy] as int],
                    decreases row@.len() - y,
                {
                    let next = row[y];
                    if !found[next] {
                        proof {
                            lemma_ancestor_step(phases@, *phase, d, a as int, y as int);
                        }
                        let ghost before = found@;
                        found.set(next, true);
                        proof {
                            lemma_count_unfound_set(before, n as int, next as int);
                            lemma_count_unfound_mono(start, before, n as int);
                        }
                        changed = true;
                    }
                    y = y + 1;
                }
                proof {
                    if !changed {
                        assert forall|x: int, yy: int| 0 <= x < a + 1 && found@[x] && 0 <= yy < d[x].len()
                            implies #[trigger] found@[d[x][yy] as int] by {
                            if x == a as int {
                                assert(found@[row@[yy] as int]);
                            }
                        }
                    }
                }
            }
            a = a + 1;
        }
        if !changed {
            proof {
                let m = marked(found@);
                assert forall|a2: int, jj: int, b: int| m.contains(a2) && 0 <= a2 < phases@.len() && 0 <= b < phases@.len()
                    && 0 <= jj < phases@[a2].dependencies_spec().len()
                    && #[trigger] phases@[a2].dependencies_spec()[jj] == #[trigger] phases@[b].name_spec()
                    implies m.contains(b) by {
                    let w = d[a2][jj] as int;
                    assert(found@[w]);
                    if w != b {
                        assert(phases@[w].name_spec() == phases@[b].name_spec());
                    }
                }
            }
            break;
        }
    }
    proof {
        assert forall|v: int| 0 <= v < n && #[trigger] is_ancestor(phases@, *phase, v) implies found@[v] by {
            assert(marked(found@).contains(v));
        }
    }
    let mut names: Vec<String> = Vec::new();
    let ghost mut picked: Seq<int> = Seq::empty();
    let mut v: usize = 0;
    while v < n
        invariant
            v <= n,
            n == phases@.len(),
            phases_wf(phases@),
            found@.len() == n,
            forall|w: int| 0 <= w < n && #[trigger] found@[w] ==> is_ancestor(phases@, *phase, w),
            forall|w: int| 0 <= w < n && #[trigger] is_ancestor(phases@, *phase, w) ==> found@[w],
            picked.len() == names@.len(),
            forall|k2: int| 0 <= k2 < picked.len() ==> 0 <= #[trigger] picked[k2] < v && found@[picked[k2]]
                && names@[k2]@ == phases@[picked[k2]].name_spec(),
            forall|a2: int, b2: int| 0 <= a2 < b2 < picked.len() ==> picked[a2] < picked[b2],
            forall|w: int| 0 <= w < v && found@[w] ==> exists|k2: int| 0 <= k2 < picked.len() && #[trigger] picked[k2] == w,
        decreases n - v,
    {
        if found[v] {
            names.push(phases[v].name.clone());
            proof {
                let old_picked = picked;
                picked = picked.push(v as int);
                assert forall|w: int| 0 <= w < v + 1 && found@[w] implies exists|k2: int| 0 <= k2 < picked.len() && #[trigger] picked[k2] == w by {
                    if w < v {
                        let k2 = choose|k2: int| 0 <= k2 < old_picked.len() && #[trigger] old_picked[k2] == w;
                        assert(picked[k2] == w);
                    } else {
                        assert(picked[picked.len() - 1] == w);
                    }
                }
            }
        }
        v = v + 1;
    }
    proof {
        assert forall|k2: int| 0 <= k2 < names@.len() implies #[trigger] is_ancestor_name(phases@, *phase, names@[k2]@) by {
            let w = picked[k2];
            assert(0 <= w < v && found@[w]);
            assert(is_ancestor(phases@, *phase, w));
            assert(names@[k2]@ == phases@[w].name_spec());
        }
        assert forall|w: int| 0 <= w < phases@.len() && #[trigger] is_ancestor(phases@, *phase, w)
            implies exists|k2: int| #![trigger names@[k2]] 0 <= k2 < names@.len() && names@[k2]@ == phases@[w].name_spec() by {
            let k2 = choose|k2: int| 0 <= k2 < picked.len() && #[trigger] picked[k2] == w;
            assert(names@[k2]@ == phases@[w].name_spec());
        }
        assert forall|a2: int, b2: int| 0 <= a2 < b2 < names@.len() implies names@[a2]@ != names@[b2]@ by {
            assert(picked[a2] < picked[b2]);
            assert(names_unique(phases@));
            assert(phases@[picked[a2]].name_spec() != phases@[picked[b2]].name_spec());
        }
    }
    names
}

/// Marking more phases never adds unfound ones.
proof fn lemma_count_unfound_mono(a: Seq<bool>, b: Seq<bool>, n: int)
    requires
        0 <= n <= a.len(),
        n <= b.len(),
        forall|i: int| 0 <= i < n && #[trigger] a[i] ==> b[i],
    ensures
        count_unfound(b, n) <= count_unfound(a, n),
    decreases n,
{
    if n > 0 {
        lemma_count_unfound_mono(a, b, n - 1);
    }
}

/// Number of unfound phases below `n`.
pub open spec fn count_unfound(found: Seq<bool>, n: int) -> nat
    decreases n,
{
    if n <= 0 {
        0
    } else if found[n - 1] {
        count_unfound(found, n - 1)
    } else {
        count_unfound(found, n - 1) + 1
    }
}

proof fn lemma_count_unfound_set(found: Seq<bool>, n: int, v: int)
    requires
        0 <= v < n <= found.len(),
        !found[v],
    ensures
        count_unfound(found.update(v, true), n) + 1 == count_unfound(found, n),
    decreases n,
{
    if n - 1 != v {
        lemma_count_unfound_set(found, n - 1, v);
    } else {
        lemma_count_unfound_same(found, found.update(v, true), n - 1);
    }
}

proof fn lemma_count_unfound_same(a: Seq<bool>, b: Seq<bool>, n: int)
    requires
        0 <= n <= a.len(),
        n <= b.len(),
        forall|i: int| 0 <= i < n ==> a[i] == b[i],
    ensures
        count_unfound(a, n) == count_unfound(b, n),
    decreases n,
{
    if n > 0 {
        lemma_count_unfound_same(a, b, n - 1);
    }
}

/// A prerequisite of an ancestor is an ancestor.
proof fn lemma_ancestor_step(phases: Seq<StudyPhase>, phase: StudyPhase, d: Seq<Seq<usize>>, a: int, j: int)
    requires
        resolved(phases, d),
        0 <= a < phases.len(),
        0 <= j < d[a].len(),
        is_ancestor(phases, phase, a),
    ensures
        is_ancestor(phases, phase, d[a][j] as int),
{
    let b = d[a][j] as int;
    assert forall|s: Set<int>| #[trigger] closed_over(phases, phase, s) implies s.contains(b) by {
        assert(s.contains(a));
        assert(phases[a].dependencies_spec()[j] == phases[b].name_spec());
    }
}

/// A duplicate-free sequence of values below `n` has at most `n` entries, and
/// exactly `n` when it contains each of them.
proof fn lemma_injective_len(s: Seq<usize>, n: nat)
    requires
        n <= usize::MAX,
        forall|k: int| 0 <= k < s.len() ==> (#[trigger] s[k]) < n,
        forall|a: int, b: int| 0 <= a < b < s.len() ==> s[a] != s[b],
        forall|v: int| 0 <= v < n ==> #[trigger] s.contains(v as usize),
    ensures
        s.len() == n,
{
    let set_s = s.to_set();
    assert(s.no_duplicates()) by {
        assert forall|a: int, b: int| 0 <= a < s.len() && 0 <= b < s.len() && a != b implies s[a] != s[b] by {
            if a < b {} else {}
        }
    }
    s.unique_seq_to_set();
    let full = Set::new(|v: usize| v < n);
    assert(set_s =~= full) by {
        assert forall|v: usize| set_s.contains(v) <==> full.contains(v) by {
            if v < n {
                assert(s.contains(v as usize));
            }
            if set_s.contains(v) {
                let k = choose|k: int| 0 <= k < s.len() && s[k] == v;
                assert(s[k] < n);
            }
        }
    }
    lemma_range_set_len(n);
}

/// The set of naturals below `n`, as `usize`, has `n` elements.
proof fn lemma_range_set_len(n: nat)
    requires
        n <= usize::MAX,
    ensures
        Set::new(|v: usize| v < n).finite(),
        Set::new(|v: usize| v < n).len() == n,
    decreases n,
{
    let full = Set::new(|v: usize| v < n);
    if n == 0 {
        assert(full =~= Set::empty());
    } else {
        lemma_range_set_len((n - 1) as nat);
        let smaller = Set::new(|v: usize| v < (n - 1) as nat);
        let top = (n - 1) as usize;
        assert(!smaller.contains(top));
        assert(full =~= smaller.insert(top));
    }
}

} // verus!
