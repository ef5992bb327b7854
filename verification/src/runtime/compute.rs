//! Fair compute allocation among the working execution units of a study:
//! which task gets how many threads, when allocations are rebuilt, and the
//! allocation history each task records. Building the thread pools and
//! waiting for a rebuild are left to the caller.
use vstd::prelude::*;
use vstd::string::StringExecFns;
use crate::text::{append_decimal, decimal_spec};
use super::execution::ComputeMode;

verus! {

/// Threads granted to one task from one allocation epoch on.
#[derive(Clone, Copy, Debug, PartialEq, Eq, Structural)]
pub struct Allocation {
    /// The allocation epoch.
    pub epoch: u64,
    /// Threads granted.
    pub threads: usize,
}

/// A thread pool the caller must build for one task.
#[derive(Clone, Copy, Debug, PartialEq, Eq, Structural)]
pub struct PoolRequest {
    /// Replicate of the task.
    pub replicate: u64,
    /// Output ordinal of the task.
    pub output_ordinal: u64,
    /// Threads of the pool.
    pub threads: usize,
    /// Epoch the pool belongs to.
    pub epoch: u64,
}

/// The outcome of registering a working task.
#[derive(Debug)]
pub struct Registration {
    /// The epoch whose allocation includes the task.
    pub required_epoch: u64,
    /// The pool to build now, for an isolated task.
    pub pool: Option<PoolRequest>,
}

/// Why compute could not be allocated.
#[derive(Debug)]
pub struct ComputeError {
    /// What went wrong.
    pub reason: String,
}

/// One working task.
struct Slot {
    replicate: u64,
    output_ordinal: u64,
    fixed_threads: Option<usize>,
    in_compute: bool,
    history: Vec<Allocation>,
}

/// What the ledger knows of one working task.
pub struct SlotView {
    /// Replicate and output ordinal.
    pub key: (u64, u64),
    /// Threads reserved by an isolated task.
    pub fixed_threads: Option<usize>,
    /// Whether the task is inside a compute step.
    pub in_compute: bool,
    /// Its allocations, oldest first.
    pub history: Seq<Allocation>,
}

impl Slot {
    spec fn view(self) -> SlotView {
        SlotView {
            key: (self.replicate, self.output_ordinal),
            fixed_threads: self.fixed_threads,
            in_compute: self.in_compute,
            history: self.history@,
        }
    }
}

/// Allocation state of all working tasks.
pub struct ComputeLedger {
    total_threads: usize,
    mode: ComputeMode,
    slots: Vec<Slot>,
    rebalancing: bool,
    epoch: u64,
    failure: Option<String>,
}

/// What the ledger holds.
pub struct LedgerView {
    /// Threads shared by automatic tasks.
    pub total_threads: usize,
    /// Automatic or isolated allocation.
    pub mode: ComputeMode,
    /// Working tasks in key order.
    pub slots: Seq<SlotView>,
    /// Whether a rebuild of the automatic allocation is pending.
    pub rebalancing: bool,
    /// The current allocation epoch.
    pub epoch: u64,
    /// The failure that stopped allocation, if any.
    pub failure: Option<Seq<char>>,
}

/// Key order: by replicate, then by output ordinal.
pub open spec fn key_lt(a: (u64, u64), b: (u64, u64)) -> bool {
    a.0 < b.0 || (a.0 == b.0 && a.1 < b.1)
}

/// Slots are in strictly increasing key order.
pub open spec fn keys_sorted(slots: Seq<SlotView>) -> bool {
    forall|i: int, j: int| 0 <= i < j < slots.len() ==> key_lt(#[trigger] slots[i].key, #[trigger] slots[j].key)
}

/// The threads the task with `key` currently holds: those of its latest
/// allocation, or zero without one.
pub open spec fn current_allocation(slots: Seq<SlotView>, key: (u64, u64)) -> usize {
    if has_key(slots, key) {
        let h = slots[choose|i: int| 0 <= i < slots.len() && #[trigger] slots[i].key == key].history;
        if h.len() > 0 { h.last().threads } else { 0 }
    } else {
        0
    }
}

/// Some slot has `key`.
pub open spec fn has_key(slots: Seq<SlotView>, key: (u64, u64)) -> bool {
    exists|i: int| 0 <= i < slots.len() && #[trigger] slots[i].key == key
}

/// No task is inside a compute step.
pub open spec fn all_idle(slots: Seq<SlotView>) -> bool {
    forall|i: int| 0 <= i < slots.len() ==> !(#[trigger] slots[i]).in_compute
}

/// The equal share of task `i` among `count`: the quotient, plus one for
/// the first `total % count` tasks.
pub open spec fn fair_share(total: nat, count: nat, i: int) -> nat {
    total / count + if i < total % count { 1nat } else { 0nat }
}

/// The sum of the first `k` equal shares.
pub open spec fn shares_sum(total: nat, count: nat, k: nat) -> nat
    decreases k,
{
    if k == 0 { 0 } else { shares_sum(total, count, (k - 1) as nat) + fair_share(total, count, k - 1) }
}

/// The history of a task after an automatic rebuild grants `threads` in
/// `epoch`: unchanged when its latest allocation already grants them.
pub open spec fn rebuilt_history(history: Seq<Allocation>, epoch: u64, threads: usize) -> Seq<Allocation> {
    if history.len() > 0 && history.last().threads == threads {
        history
    } else {
        history.push(Allocation { epoch, threads })
    }
}

/// The failure message for a duplicate registration.
pub open spec fn duplicate_reason(replicate: u64, output_ordinal: u64) -> Seq<char> {
    "duplicate working task "@ + decimal_spec(replicate as nat) + "/"@ + decimal_spec(output_ordinal as nat)
}

/// Equal shares hand out every thread, and no two shares differ by more
/// than one.
pub proof fn law_fair_shares_are_equal(total: nat, count: nat)
    requires
        count > 0,
    ensures
        shares_sum(total, count, count) == total,
        forall|i: int, j: int| 0 <= i < count && 0 <= j < count
            ==> #[trigger] fair_share(total, count, i) <= #[trigger] fair_share(total, count, j) + 1,
{
    let q = total / count;
    let r = total % count;
    assert(total == q * count + r) by (nonlinear_arith)
        requires
            count > 0,
            q == total / count,
            r == total % count,
    ;
    lemma_shares_prefix(total, count, count);
    assert(r < count);
    assert(shares_sum(total, count, count) == count * q + r);
    assert(count * q == q * count) by (nonlinear_arith);
}

/// The first `k` shares sum to `k` quotients plus the extra threads among
/// them.
proof fn lemma_shares_prefix(total: nat, count: nat, k: nat)
    requires
        count > 0,
    ensures
        shares_sum(total, count, k) == k * (total / count) + if k < total % count { k } else { total % count },
    decreases k,
{
    if k > 0 {
        lemma_shares_prefix(total, count, (k - 1) as nat);
        let q = total / count;
        let j = (k - 1) as nat;
        assert(k * q == j * q + q) by (nonlinear_arith)
            requires
                k > 0,
                j == k - 1,
        ;
        let r = total % count;
        assert(shares_sum(total, count, k) == shares_sum(total, count, j) + fair_share(total, count, j as int));
        assert(shares_sum(total, count, j) == j * q + if j < r { j } else { r });
        assert(fair_share(total, count, j as int) == q + if j < r { 1nat } else { 0nat });
        if j < r {
            assert(shares_sum(total, count, k) == k * q + k);
        } else {
            assert(shares_sum(total, count, k) == k * q + r);
        }
    } else {
        assert(k * (total / count) == 0) by (nonlinear_arith)
            requires
                k == 0,
        ;
    }
}

/// An equal share never exceeds the threads shared.
proof fn lemma_share_fits(total: nat, count: nat, i: int)
    requires
        count > 0,
        0 <= i,
    ensures
        fair_share(total, count, i) <= total,
{
    let q = total / count;
    let r = total % count;
    assert(q * count + r == total && q <= q * count) by (nonlinear_arith)
        requires
            count > 0,
            q == total / count,
            r == total % count,
    ;
    assert(q + r <= total);
    if i < r {
        assert(q + 1 <= total);
    }
    assert(fair_share(total, count, i) == q + if i < r { 1nat } else { 0nat });
}

/// Finds the slot of `key`.
fn find_slot(slots: &Vec<Slot>, replicate: u64, output_ordinal: u64) -> (r: Option<usize>)
    ensures
        r is None <==> !has_key(slots@.map_values(|s: Slot| s.view()), (replicate, output_ordinal)),
        r matches Some(i) ==> i < slots@.len() && slots@[i as int].view().key == (replicate, output_ordinal),
{
    let ghost v = slots@.map_values(|s: Slot| s.view());
    let mut i: usize = 0;
    while i < slots.len()
        invariant
            i <= slots@.len(),
            v == slots@.map_values(|s: Slot| s.view()),
            forall|k: int| 0 <= k < i ==> (#[trigger] v[k]).key != (replicate, output_ordinal),
        decreases slots@.len() - i,
    {
        if slots[i].replicate == replicate && slots[i].output_ordinal == output_ordinal {
            assert(v[i as int].key == (replicate, output_ordinal));
            return Some(i);
        }
        i = i + 1;
    }
    None
}

/// Whether no slot is inside a compute step.
fn none_in_compute(slots: &Vec<Slot>) -> (r: bool)
    ensures
        r == all_idle(slots@.map_values(|s: Slot| s.view())),
{
    let ghost v = slots@.map_values(|s: Slot| s.view());
    let mut i: usize = 0;
    while i < slots.len()
        invariant
            i <= slots@.len(),
            v == slots@.map_values(|s: Slot| s.view()),
            forall|k: int| 0 <= k < i ==> !(#[trigger] v[k]).in_compute,
        decreases slots@.len() - i,
    {
        if slots[i].in_compute {
            assert(v[i as int].in_compute);
            return false;
        }
        i = i + 1;
    }
    true
}

impl ComputeLedger {
    /// What the ledger holds.
    pub closed spec fn view(&self) -> LedgerView {
        LedgerView {
            total_threads: self.total_threads,
            mode: self.mode,
            slots: self.slots@.map_values(|s: Slot| s.view()),
            rebalancing: self.rebalancing,
            epoch: self.epoch,
            failure: match self.failure {
                Some(f) => Some(f@),
                None => None,
            },
        }
    }

    /// Slots are kept in key order, each key once.
    pub open spec fn wf(&self) -> bool {
        keys_sorted(self.view().slots)
    }

    /// A rebuild of the automatic allocation can run now: no failure, a
    /// rebuild pending, and no task inside a compute step.
    pub open spec fn rebuild_due(&self) -> bool {
        &&& self.view().failure is None
        &&& self.view().rebalancing
        &&& all_idle(self.view().slots)
    }

    /// Starts with no working tasks in epoch zero.
    pub fn new(total_threads: usize, mode: ComputeMode) -> (r: Self)
        ensures
            r.wf(),
            r.view() == (LedgerView {
                total_threads,
                mode,
                slots: Seq::empty(),
                rebalancing: false,
                epoch: 0,
                failure: None,
            }),
    {
        let r = ComputeLedger { total_threads, mode, slots: Vec::new(), rebalancing: false, epoch: 0, failure: None };
        assert(r.view().slots =~= Seq::<SlotView>::empty());
        r
    }

    /// Registers a working task. A repeated key, or an exhausted epoch
    /// counter, is refused. An automatic task waits for the next epoch's
    /// rebuild; an isolated task opens a new epoch with its own pool.
    pub fn register(&mut self, replicate: u64, output_ordinal: u64, fixed_threads: Option<usize>)
        -> (r: Result<Registration, ComputeError>)
        requires
            old(self).wf(),
            old(self).view().mode == ComputeMode::Isolated ==> fixed_threads is Some,
        ensures
            final(self).wf(),
            ({
                let before = old(self).view();
                let after = final(self).view();
                let key = (replicate, output_ordinal);
                &&& has_key(before.slots, key) ==> (r matches Err(e) && e.reason@ == duplicate_reason(replicate, output_ordinal)
                    && after == before)
                &&& (!has_key(before.slots, key) && before.epoch == u64::MAX) ==> (r matches Err(e)
                    && e.reason@ == "automatic compute allocation epoch overflow"@ && after == before)
                &&& (!has_key(before.slots, key) && before.epoch < u64::MAX) ==> {
                    &&& r matches Ok(reg) && reg.required_epoch == before.epoch + 1
                    &&& after.slots.len() == before.slots.len() + 1
                    &&& exists|p: int| 0 <= p <= before.slots.len() && after.slots == before.slots.insert(p,
                        SlotView { key, fixed_threads, in_compute: false, history: Seq::empty() })
                    &&& after.total_threads == before.total_threads && after.mode == before.mode
                    &&& after.failure == before.failure
                    &&& before.mode == ComputeMode::Auto ==> after.rebalancing && after.epoch == before.epoch
                        && (r matches Ok(reg) && reg.pool is None)
                    &&& before.mode == ComputeMode::Isolated ==> after.rebalancing == before.rebalancing
                        && after.epoch == before.epoch + 1
                        && (r matches Ok(reg) && reg.pool == Some(PoolRequest {
                            replicate, output_ordinal, threads: fixed_threads->0, epoch: (before.epoch + 1) as u64 }))
                }
            }),
    {
        let ghost before = self.view();
        if find_slot(&self.slots, replicate, output_ordinal).is_some() {
            let mut reason = "duplicate working task ".to_owned();
            append_decimal(&mut reason, replicate);
            reason.append("/");
            append_decimal(&mut reason, output_ordinal);
            assert(reason@ =~= duplicate_reason(replicate, output_ordinal));
            return Err(ComputeError { reason });
        }
        if self.epoch == u64::MAX {
            return Err(ComputeError { reason: "automatic compute allocation epoch overflow".to_owned() });
        }
        let required_epoch = self.epoch + 1;
        let mut p: usize = 0;
        while p < self.slots.len()
            && (self.slots[p].replicate < replicate
                || (self.slots[p].replicate == replicate && self.slots[p].output_ordinal < output_ordinal))
            invariant
                p <= self.slots@.len(),
                before == self.view(),
                keys_sorted(before.slots),
                forall|k: int| 0 <= k < p ==> key_lt(#[trigger] before.slots[k].key, (replicate, output_ordinal)),
            decreases self.slots@.len() - p,
        {
            p = p + 1;
        }
        let slot = Slot { replicate, output_ordinal, fixed_threads, in_compute: false, history: Vec::new() };
        let ghost new_view = slot.view();
        self.slots.insert(p, slot);
        proof {
            let key = (replicate, output_ordinal);
            assert(new_view == SlotView { key, fixed_threads, in_compute: false, history: Seq::empty() });
            assert(self.view().slots =~= before.slots.insert(p as int, new_view));
            if p < before.slots.len() {
                assert(before.slots[p as int].key != key);
                assert(key_lt(key, before.slots[p as int].key));
            }
            let after = self.view().slots;
            assert forall|i: int, j: int| 0 <= i < j < after.len() implies key_lt(#[trigger] after[i].key, #[trigger] after[j].key) by {
                if i < p && j == p {
                } else if i == p && j > p {
                    assert(after[j] == before.slots[j - 1]);
                    assert(key_lt(key, before.slots[p as int].key));
                    if j - 1 > p {
                        assert(key_lt(before.slots[p as int].key, before.slots[j - 1].key));
                    }
                } else if i < p && j > p {
                    assert(after[j] == before.slots[j - 1]);
                } else if i > p {
                    assert(after[i] == before.slots[i - 1]);
                    assert(after[j] == before.slots[j - 1]);
                }
            }
        }
        match self.mode {
            ComputeMode::Auto => {
                self.rebalancing = true;
                Ok(Registration { required_epoch, pool: None })
            },
            ComputeMode::Isolated => {
                self.epoch = required_epoch;
                let threads = match fixed_threads {
                    Some(t) => t,
                    None => 0,
                };
                Ok(Registration {
                    required_epoch,
                    pool: Some(PoolRequest { replicate, output_ordinal, threads, epoch: required_epoch }),
                })
            },
        }
    }

    /// Records that the pool of an isolated task was built.
    pub fn pool_built(&mut self, request: PoolRequest)
        requires
            old(self).wf(),
        ensures
            final(self).wf(),
            ({
                let before = old(self).view();
                let after = final(self).view();
                let key = (request.replicate, request.output_ordinal);
                &&& after.slots.len() == before.slots.len()
                &&& forall|i: int| 0 <= i < before.slots.len() ==> (#[trigger] after.slots[i]) == if before.slots[i].key == key {
                    SlotView { history: before.slots[i].history.push(Allocation { epoch: request.epoch, threads: request.threads }),
                        ..before.slots[i] }
                } else {
                    before.slots[i]
                }
                &&& after == (LedgerView { slots: after.slots, ..before })
            }),
    {
        let ghost before = self.view();
        match find_slot(&self.slots, request.replicate, request.output_ordinal) {
            None => {
                assert(self.view().slots =~= before.slots);
            },
            Some(i) => {
                let mut slot = self.slots.remove(i);
                slot.history.push(Allocation { epoch: request.epoch, threads: request.threads });
                self.slots.insert(i, slot);
                proof {
                    let key = (request.replicate, request.output_ordinal);
                    let after = self.view().slots;
                    assert(after.len() == before.slots.len());
                    assert forall|k: int| 0 <= k < before.slots.len() implies (#[trigger] after[k]) == if before.slots[k].key == key {
                        SlotView { history: before.slots[k].history.push(Allocation { epoch: request.epoch, threads: request.threads }),
                            ..before.slots[k] }
                    } else {
                        before.slots[k]
                    } by {
                        if k != i {
                            if before.slots[k].key == key {
                                if k < i {
                                    assert(key_lt(before.slots[k].key, before.slots[i as int].key));
                                } else {
                                    assert(key_lt(before.slots[i as int].key, before.slots[k].key));
                                }
                            }
                        }
                    }
                    assert forall|a: int, b: int| 0 <= a < b < after.len() implies key_lt(#[trigger] after[a].key, #[trigger] after[b].key) by {
                        assert(after[a].key == before.slots[a].key);
                        assert(after[b].key == before.slots[b].key);
                    }
                }
            },
        }
    }

    /// Records that building a pool failed; allocation stops.
    pub fn pool_failed(&mut self, reason: String)
        ensures
            final(self).view() == (LedgerView { failure: Some(reason@), ..old(self).view() }),
    {
        self.failure = Some(reason);
    }

    /// Whether a rebuild of the automatic allocation can run now.
    pub fn rebuild_is_due(&self) -> (r: bool)
        ensures
            r == self.rebuild_due(),
    {
        self.failure.is_none() && self.rebalancing && none_in_compute(&self.slots)
    }

    /// The pools of the next automatic allocation: equal shares of the
    /// study's threads, in key order.
    pub fn rebuild_plan(&self) -> (r: Vec<PoolRequest>)
        requires
            self.rebuild_due(),
            self.view().epoch < u64::MAX,
        ensures
            r@.len() == self.view().slots.len(),
            forall|i: int| 0 <= i < r@.len() ==> #[trigger] r@[i] == (PoolRequest {
                replicate: self.view().slots[i].key.0,
                output_ordinal: self.view().slots[i].key.1,
                threads: fair_share(self.view().total_threads as nat, self.view().slots.len(), i) as usize,
                epoch: (self.view().epoch + 1) as u64,
            }),
    {
        let count = self.slots.len();
        let mut out: Vec<PoolRequest> = Vec::new();
        let mut i: usize = 0;
        while i < count
            invariant
                i <= count,
                count == self.slots@.len(),
                self.view().epoch < u64::MAX,
                out@.len() == i,
                forall|k: int| 0 <= k < i ==> #[trigger] out@[k] == (PoolRequest {
                    replicate: self.view().slots[k].key.0,
                    output_ordinal: self.view().slots[k].key.1,
                    threads: fair_share(self.view().total_threads as nat, self.view().slots.len(), k) as usize,
                    epoch: (self.view().epoch + 1) as u64,
                }),
            decreases count - i,
        {
            proof {
                lemma_share_fits(self.total_threads as nat, count as nat, i as int);
            }
            let threads = self.total_threads / count + if i < self.total_threads % count { 1usize } else { 0usize };
            out.push(PoolRequest {
                replicate: self.slots[i].replicate,
                output_ordinal: self.slots[i].output_ordinal,
                threads,
                epoch: self.epoch + 1,
            });
            i = i + 1;
        }
        out
    }

    /// Commits the automatic allocation whose pools were built: a new
    /// epoch, in which each task's history gains its new share unless its
    /// latest allocation already grants it.
    pub fn commit_rebuild(&mut self)
        requires
            old(self).wf(),
            old(self).rebuild_due(),
            old(self).view().epoch < u64::MAX,
        ensures
            final(self).wf(),
            ({
                let before = old(self).view();
                let after = final(self).view();
                let epoch = (before.epoch + 1) as u64;
                &&& after.epoch == epoch
                &&& !after.rebalancing
                &&& after.total_threads == before.total_threads && after.mode == before.mode
                &&& after.failure == before.failure
                &&& after.slots.len() == before.slots.len()
                &&& forall|i: int| 0 <= i < before.slots.len() ==> (#[trigger] after.slots[i]) == (SlotView {
                    history: rebuilt_history(before.slots[i].history, epoch,
                        fair_share(before.total_threads as nat, before.slots.len(), i) as usize),
                    ..before.slots[i]
                })
            }),
    {
        let ghost before = self.view();
        let plan = self.rebuild_plan();
        let epoch = self.epoch + 1;
        let mut i: usize = 0;
        while i < plan.len()
            invariant
                i <= plan@.len(),
                plan@.len() == before.slots.len(),
                self.slots@.len() == before.slots.len(),
                epoch == before.epoch + 1,
                self.view() == (LedgerView { slots: self.view().slots, ..before }),
                forall|k: int| 0 <= k < plan@.len() ==> (#[trigger] plan@[k]).threads
                    == fair_share(before.total_threads as nat, before.slots.len(), k) as usize,
                forall|k: int| 0 <= k < before.slots.len() ==> (#[trigger] self.view().slots[k]) == if k < i {
                    SlotView {
                        history: rebuilt_history(before.slots[k].history, epoch,
                            fair_share(before.total_threads as nat, before.slots.len(), k) as usize),
                        ..before.slots[k]
                    }
                } else {
                    before.slots[k]
                },
            decreases plan@.len() - i,
        {
            let threads = plan[i].threads;
            let ghost orig = self.slots@;
            let ghost orig_view = self.view().slots;
            assert(self.view().slots[i as int] == before.slots[i as int]);
            assert(self.view().slots[i as int] == orig[i as int].view());
            let mut slot = self.slots.remove(i);
            assert(slot.view() == before.slots[i as int]);
            let len = slot.history.len();
            let unchanged = len > 0 && slot.history[len - 1].threads == threads;
            if !unchanged {
                slot.history.push(Allocation { epoch, threads });
            }
            let ghost updated = slot.view();
            proof {
                assert(updated == SlotView {
                    history: rebuilt_history(before.slots[i as int].history, epoch,
                        fair_share(before.total_threads as nat, before.slots.len(), i as int) as usize),
                    ..before.slots[i as int]
                });
            }
            self.slots.insert(i, slot);
            proof {
                assert(self.slots@ =~= orig.update(i as int, self.slots@[i as int]));
                assert forall|k: int| 0 <= k < before.slots.len() implies (#[trigger] self.view().slots[k]) == if k < i + 1 {
                    SlotView {
                        history: rebuilt_history(before.slots[k].history, epoch,
                            fair_share(before.total_threads as nat, before.slots.len(), k) as usize),
                        ..before.slots[k]
                    }
                } else {
                    before.slots[k]
                } by {
                    if k == i {
                        assert(self.view().slots[k] == updated);
                    } else {
                        assert(self.slots@[k] == orig[k]);
                        assert(self.view().slots[k] == orig_view[k]);
                    }
                }
            }
            i = i + 1;
        }
        self.epoch = epoch;
        self.rebalancing = false;
        proof {
            let after = self.view().slots;
            assert forall|a: int, b: int| 0 <= a < b < after.len() implies key_lt(#[trigger] after[a].key, #[trigger] after[b].key) by {
                assert(after[a].key == before.slots[a].key);
                assert(after[b].key == before.slots[b].key);
            }
        }
    }

    /// Enters a compute step of a task, once no rebuild is pending; a
    /// failure or a task without allocation is refused.
    pub fn begin_compute(&mut self, replicate: u64, output_ordinal: u64) -> (r: Result<(), ComputeError>)
        requires
            old(self).wf(),
            !old(self).view().rebalancing || old(self).view().failure is Some,
        ensures
            final(self).wf(),
            ({
                let before = old(self).view();
                let after = final(self).view();
                let key = (replicate, output_ordinal);
                &&& before.failure matches Some(f) ==> (r matches Err(e) && e.reason@ == f && after == before)
                &&& (before.failure is None && !has_key(before.slots, key)) ==> (r matches Err(e)
                    && e.reason@ == "working task lost its compute allocation"@ && after == before)
                &&& (before.failure is None && has_key(before.slots, key)) ==> r is Ok
                    && after == (LedgerView { slots: after.slots, ..before })
                    && after.slots.len() == before.slots.len()
                    && forall|i: int| 0 <= i < before.slots.len() ==> (#[trigger] after.slots[i]) == if before.slots[i].key == key {
                        SlotView { in_compute: true, ..before.slots[i] }
                    } else {
                        before.slots[i]
                    }
            }),
    {
        match &self.failure {
            Some(f) => {
                return Err(ComputeError { reason: f.clone() });
            },
            None => {},
        }
        self.set_in_compute(replicate, output_ordinal, true)
    }

    /// Leaves a compute step of a task; returns whether a pending rebuild
    /// can now run.
    pub fn end_compute(&mut self, replicate: u64, output_ordinal: u64) -> (rebuild: bool)
        requires
            old(self).wf(),
        ensures
            final(self).wf(),
            rebuild == final(self).rebuild_due(),
            ({
                let before = old(self).view();
                let after = final(self).view();
                let key = (replicate, output_ordinal);
                &&& after == (LedgerView { slots: after.slots, ..before })
                &&& after.slots.len() == before.slots.len()
                &&& forall|i: int| 0 <= i < before.slots.len() ==> (#[trigger] after.slots[i]) == if before.slots[i].key == key {
                    SlotView { in_compute: false, ..before.slots[i] }
                } else {
                    before.slots[i]
                }
            }),
    {
        let ghost before = self.view();
        let _ = self.set_in_compute(replicate, output_ordinal, false);
        proof {
            if !has_key(before.slots, (replicate, output_ordinal)) {
                assert(self.view().slots =~= before.slots);
            }
        }
        self.rebuild_is_due()
    }

    /// Sets whether the task of `key` is inside a compute step.
    fn set_in_compute(&mut self, replicate: u64, output_ordinal: u64, value: bool) -> (r: Result<(), ComputeError>)
        requires
            old(self).wf(),
        ensures
            final(self).wf(),
            ({
                let before = old(self).view();
                let after = final(self).view();
                let key = (replicate, output_ordinal);
                &&& !has_key(before.slots, key) ==> (r matches Err(e)
                    && e.reason@ == "working task lost its compute allocation"@ && after == before)
                &&& has_key(before.slots, key) ==> r is Ok
                    && after == (LedgerView { slots: after.slots, ..before })
                    && after.slots.len() == before.slots.len()
                    && forall|i: int| 0 <= i < before.slots.len() ==> (#[trigger] after.slots[i]) == if before.slots[i].key == key {
                        SlotView { in_compute: value, ..before.slots[i] }
                    } else {
                        before.slots[i]
                    }
            }),
    {
        let ghost before = self.view();
        match find_slot(&self.slots, replicate, output_ordinal) {
            None => Err(ComputeError { reason: "working task lost its compute allocation".to_owned() }),
            Some(i) => {
                let mut slot = self.slots.remove(i);
                slot.in_compute = value;
                self.slots.insert(i, slot);
                proof {
                    let key = (replicate, output_ordinal);
                    let after = self.view().slots;
                    assert forall|k: int| 0 <= k < before.slots.len() implies (#[trigger] after[k]) == if before.slots[k].key == key {
                        SlotView { in_compute: value, ..before.slots[k] }
                    } else {
                        before.slots[k]
                    } by {
                        if k != i && before.slots[k].key == key {
                            if k < i {
                                assert(key_lt(before.slots[k].key, before.slots[i as int].key));
                            } else {
                                assert(key_lt(before.slots[i as int].key, before.slots[k].key));
                            }
                        }
                    }
                    assert forall|a: int, b: int| 0 <= a < b < after.len() implies key_lt(#[trigger] after[a].key, #[trigger] after[b].key) by {
                        assert(after[a].key == before.slots[a].key);
                        assert(after[b].key == before.slots[b].key);
                    }
                }
                Ok(())
            },
        }
    }

    /// Releases a finished task. Under automatic allocation the others'
    /// shares are rebuilt; returns whether that rebuild can run now.
    pub fn release(&mut self, replicate: u64, output_ordinal: u64) -> (rebuild: bool)
        requires
            old(self).wf(),
        ensures
            final(self).wf(),
            rebuild == final(self).rebuild_due(),
            ({
                let before = old(self).view();
                let after = final(self).view();
                let key = (replicate, output_ordinal);
                &&& !has_key(after.slots, key)
                &&& forall|i: int| 0 <= i < after.slots.len() ==> before.slots.contains(#[trigger] after.slots[i])
                &&& forall|i: int| 0 <= i < before.slots.len() && before.slots[i].key != key
                    ==> after.slots.contains(#[trigger] before.slots[i])
                &&& after.rebalancing == (before.rebalancing || before.mode == ComputeMode::Auto)
                &&& after == (LedgerView { slots: after.slots, rebalancing: after.rebalancing, ..before })
            }),
    {
        let ghost before = self.view();
        match find_slot(&self.slots, replicate, output_ordinal) {
            None => {
                assert(self.view().slots =~= before.slots);
            },
            Some(i) => {
                let _ = self.slots.remove(i);
                proof {
                    let after = self.view().slots;
                    assert(after =~= before.slots.remove(i as int));
                    assert forall|a: int, b: int| 0 <= a < b < after.len() implies key_lt(#[trigger] after[a].key, #[trigger] after[b].key) by {
                        let ba = if a < i { a } else { a + 1 };
                        let bb = if b < i { b } else { b + 1 };
                        assert(after[a] == before.slots[ba]);
                        assert(after[b] == before.slots[bb]);
                    }
                    let key = (replicate, output_ordinal);
                    if has_key(after, key) {
                        let w = choose|w: int| 0 <= w < after.len() && #[trigger] after[w].key == key;
                        let bw = if w < i { w } else { w + 1 };
                        assert(after[w] == before.slots[bw]);
                        if bw < i {
                            assert(key_lt(before.slots[bw].key, before.slots[i as int].key));
                        } else {
                            assert(key_lt(before.slots[i as int].key, before.slots[bw].key));
                        }
                    }
                    assert forall|k: int| 0 <= k < after.len() implies before.slots.contains(#[trigger] after[k]) by {
                        let bk = if k < i { k } else { k + 1 };
                        assert(after[k] == before.slots[bk]);
                    }
                    assert forall|k: int| 0 <= k < before.slots.len() && before.slots[k].key != key
                        implies after.contains(#[trigger] before.slots[k]) by {
                        if k < i {
                            assert(after[k] == before.slots[k]);
                        } else {
                            assert(k != i);
                            assert(after[k - 1] == before.slots[k]);
                        }
                    }
                }
            },
        }
        match self.mode {
            ComputeMode::Auto => {
                self.rebalancing = true;
            },
            ComputeMode::Isolated => {},
        }
        self.rebuild_is_due()
    }

    /// Whether a task registered for `required_epoch` must still wait for
    /// its allocation.
    pub fn must_wait(&self, required_epoch: u64) -> (r: bool)
        ensures
            r == (self.view().epoch < required_epoch && self.view().failure is None),
    {
        self.epoch < required_epoch && self.failure.is_none()
    }

    /// Whether a compute step must wait for a pending rebuild.
    pub fn step_must_wait(&self) -> (r: bool)
        ensures
            r == (self.view().rebalancing && self.view().failure is None),
    {
        self.rebalancing && self.failure.is_none()
    }

    /// The failure that stopped allocation, if any.
    pub fn failure(&self) -> (r: Option<String>)
        ensures
            match r {
                Some(f) => self.view().failure == Some(f@),
                None => self.view().failure is None,
            },
    {
        match &self.failure {
            Some(f) => Some(f.clone()),
            None => None,
        }
    }

    /// The allocation history of a task, oldest first; empty for an
    /// unknown task.
    pub fn history(&self, replicate: u64, output_ordinal: u64) -> (r: Vec<Allocation>)
        requires
            self.wf(),
        ensures
            !has_key(self.view().slots, (replicate, output_ordinal)) ==> r@ == Seq::<Allocation>::empty(),
            forall|i: int| 0 <= i < self.view().slots.len() && #[trigger] self.view().slots[i].key == (replicate, output_ordinal)
                ==> r@ == self.view().slots[i].history,
    {
        match find_slot(&self.slots, replicate, output_ordinal) {
            None => Vec::new(),
            Some(i) => {
                let h = &self.slots[i].history;
                let mut out: Vec<Allocation> = Vec::new();
                let mut k: usize = 0;
                while k < h.len()
                    invariant
                        k <= h@.len(),
                        out@ == h@.take(k as int),
                    decreases h@.len() - k,
                {
                    out.push(h[k]);
                    k = k + 1;
                    assert(out@ =~= h@.take(k as int));
                }
                assert(h@.take(h@.len() as int) =~= h@);
                proof {
                    assert forall|j: int| 0 <= j < self.view().slots.len() && #[trigger] self.view().slots[j].key == (replicate, output_ordinal)
                        implies out@ == self.view().slots[j].history by {
                        if j != i {
                            assert(self.view().slots[i as int].key == (replicate, output_ordinal));
                        }
                    }
                }
                out
            },
        }
    }

    /// The threads a task currently holds: those of its latest allocation,
    /// or none for a task without one or an unknown task.
    pub fn current_threads(&self, replicate: u64, output_ordinal: u64) -> (r: usize)
        requires
            self.wf(),
        ensures
            r == current_allocation(self.view().slots, (replicate, output_ordinal)),
    {
        match find_slot(&self.slots, replicate, output_ordinal) {
            None => 0,
            Some(i) => {
                proof {
                    let slots = self.view().slots;
                    let key = (replicate, output_ordinal);
                    assert(slots[i as int] == self.slots@[i as int].view());
                    let j = choose|j: int| 0 <= j < slots.len() && #[trigger] slots[j].key == key;
                    if j < i {
                        assert(key_lt(slots[j].key, slots[i as int].key));
                    } else if j > i {
                        assert(key_lt(slots[i as int].key, slots[j].key));
                    }
                }
                let h = &self.slots[i].history;
                if h.len() == 0 {
                    0
                } else {
                    h[h.len() - 1].threads
                }
            },
        }
    }

    /// The threads of each working task, in the order given: the reserved
    /// threads of an external program, otherwise the task's current
    /// allocation.
    pub fn allocation_values(&self, working: &[(u64, u64, Option<usize>)]) -> (r: Vec<usize>)
        requires
            self.wf(),
        ensures
            r@.len() == working@.len(),
            forall|k: int| 0 <= k < working@.len() ==> #[trigger] r@[k] == match working@[k].2 {
                Some(threads) => threads,
                None => current_allocation(self.view().slots, (working@[k].0, working@[k].1)),
            },
    {
        let mut out: Vec<usize> = Vec::new();
        let mut k: usize = 0;
        while k < working.len()
            invariant
                self.wf(),
                k <= working@.len(),
                out@.len() == k,
                forall|q: int| 0 <= q < k ==> #[trigger] out@[q] == match working@[q].2 {
                    Some(threads) => threads,
                    None => current_allocation(self.view().slots, (working@[q].0, working@[q].1)),
                },
            decreases working@.len() - k,
        {
            let (replicate, ordinal, external) = working[k];
            let value = match external {
                Some(threads) => threads,
                None => self.current_threads(replicate, ordinal),
            };
            out.push(value);
            k = k + 1;
        }
        out
    }

    /// The current allocation epoch.
    pub fn epoch(&self) -> (r: u64)
        ensures
            r == self.view().epoch,
    {
        self.epoch
    }

    /// The allocation mode.
    pub fn mode(&self) -> (r: ComputeMode)
        ensures
            r == self.view().mode,
    {
        self.mode
    }
}

} // verus!
