//! Admission and completion decisions for the tasks of one phase.
//!
//! The scheduler decides; the caller acts. It never spawns, waits, or signals
//! by itself: each method returns what the caller must do next (admit a task,
//! signal cancellation to every active task), and the caller reports each
//! outcome back.
use vstd::prelude::*;
use super::resource::{ResourceBudget, ResourceLease, ResourceRequirement};

verus! {

/// How a scope reacts to the first failure of one of its units.
#[derive(Clone, Copy, Debug, PartialEq, Eq, Structural)]
pub enum FailurePolicy {
    /// Stop admitting work and cancel active work.
    FailFast,
    /// Stop admitting work but let active work finish.
    FinishAll,
}

/// Why a phase ended without a summary.
pub enum PhaseStop<E> {
    /// Execution-wide cancellation was requested.
    Cancelled,
    /// The phase deadline passed while work remained.
    TimedOut,
    /// A task failed, or a worker could not be started.
    Failed(E),
}

/// The abstract state of a phase scheduler.
pub struct PhaseState<E> {
    /// First task index still pending; pending tasks are `next..end`.
    pub next: nat,
    /// One past the last pending task index.
    pub end: nat,
    /// Number of tasks in the phase.
    pub task_count: nat,
    /// Greatest number of simultaneously active tasks.
    pub max_concurrency: nat,
    /// Reaction to the first failure.
    pub policy: FailurePolicy,
    /// Indices of admitted tasks that have not reported back.
    pub active: Seq<usize>,
    /// Output ordinals of completed tasks, in non-decreasing order.
    pub ordinals: Seq<u64>,
    /// The error that decides a failed phase.
    pub first_error: Option<E>,
    /// The phase deadline passed while work remained.
    pub timed_out: bool,
    /// Execution-wide cancellation was observed.
    pub cancelled: bool,
}

impl<E> PhaseState<E> {
    /// Some task is pending.
    pub open spec fn has_pending(self) -> bool {
        self.next < self.end
    }

    /// Nothing is pending and nothing is active.
    pub open spec fn is_done(self) -> bool {
        !self.has_pending() && self.active.len() == 0
    }

    /// Admission is closed for good: cancelled, timed out, or failed under
    /// fail-fast.
    pub open spec fn admission_closed(self) -> bool {
        ||| self.cancelled
        ||| self.timed_out
        ||| (self.first_error is Some && self.policy == FailurePolicy::FailFast)
    }

    /// The next pending task may be admitted now.
    pub open spec fn may_admit(self) -> bool {
        &&& !self.timed_out
        &&& !self.cancelled
        &&& (self.first_error is None || self.policy == FailurePolicy::FinishAll)
        &&& self.active.len() < self.max_concurrency
        &&& self.has_pending()
    }

    /// The state invariant.
    pub open spec fn wf(self) -> bool {
        &&& self.next <= self.end <= self.task_count
        &&& self.max_concurrency > 0
        &&& self.active.len() <= self.max_concurrency
        &&& forall|i: int| 0 <= i < self.active.len() ==> (#[trigger] self.active[i]) < self.next
        &&& forall|i: int, j: int| 0 <= i < j < self.active.len() ==> self.active[i] != self.active[j]
        &&& sorted_keys(self.ordinals)
        &&& (self.cancelled || self.timed_out ==> !self.has_pending())
    }

    /// The same state with nothing pending.
    pub open spec fn drained(self) -> Self {
        PhaseState { end: self.next, ..self }
    }
}

/// Position at which `ordinal` joins the sorted `ordinals`: after every
/// equal or smaller one, as a stable sort places it.
pub open spec fn insertion_point(ordinals: Seq<u64>, ordinal: u64) -> int {
    ordinals.filter(|o: u64| o <= ordinal).len() as int
}

/// Admission and completion decisions for the tasks of one phase.
pub struct PhaseScheduler<S, E> {
    next: usize,
    end: usize,
    task_count: usize,
    max_concurrency: usize,
    policy: FailurePolicy,
    active: Vec<usize>,
    ordinals: Vec<u64>,
    summaries: Vec<S>,
    first_error: Option<E>,
    timed_out: bool,
    cancelled: bool,
}

impl<S, E> PhaseScheduler<S, E> {
    /// The abstract state.
    pub closed spec fn state(&self) -> PhaseState<E> {
        PhaseState {
            next: self.next as nat,
            end: self.end as nat,
            task_count: self.task_count as nat,
            max_concurrency: self.max_concurrency as nat,
            policy: self.policy,
            active: self.active@,
            ordinals: self.ordinals@,
            first_error: self.first_error,
            timed_out: self.timed_out,
            cancelled: self.cancelled,
        }
    }

    /// Completed summaries, ordered by output ordinal.
    pub closed spec fn summaries_spec(&self) -> Seq<S> {
        self.summaries@
    }

    /// The state invariant, with one summary per completed ordinal.
    pub open spec fn wf(&self) -> bool {
        &&& self.state().wf()
        &&& self.summaries_spec().len() == self.state().ordinals.len()
    }

    /// Starts scheduling `task_count` tasks in declaration order.
    pub fn new(task_count: usize, max_concurrency: usize, policy: FailurePolicy) -> (r: Self)
        requires
            max_concurrency > 0,
        ensures
            r.wf(),
            r.state() == (PhaseState::<E> {
                next: 0,
                end: task_count as nat,
                task_count: task_count as nat,
                max_concurrency: max_concurrency as nat,
                policy,
                active: Seq::empty(),
                ordinals: Seq::empty(),
                first_error: None,
                timed_out: false,
                cancelled: false,
            }),
            r.summaries_spec() == Seq::<S>::empty(),
    {
        PhaseScheduler {
            next: 0,
            end: task_count,
            task_count,
            max_concurrency,
            policy,
            active: Vec::new(),
            ordinals: Vec::new(),
            summaries: Vec::new(),
            first_error: None,
            timed_out: false,
            cancelled: false,
        }
    }

    /// Whether work remains: a pending task or an active one.
    pub fn is_running(&self) -> (r: bool)
        ensures
            r == !self.state().is_done(),
    {
        self.next < self.end || self.active.len() > 0
    }

    /// Number of active tasks.
    pub fn active_count(&self) -> (r: usize)
        ensures
            r == self.state().active.len(),
    {
        self.active.len()
    }

    /// Observes execution-wide cancellation. The first observation drops all
    /// pending tasks and returns `true`: every active task must be signalled.
    pub fn request_cancellation(&mut self) -> (signal_all: bool)
        requires
            old(self).wf(),
        ensures
            final(self).wf(),
            final(self).summaries_spec() == old(self).summaries_spec(),
            signal_all == !old(self).state().cancelled,
            signal_all ==> final(self).state() == (PhaseState { cancelled: true, ..old(self).state().drained() }),
            !signal_all ==> final(self).state() == old(self).state(),
    {
        if self.cancelled {
            return false;
        }
        self.cancelled = true;
        self.end = self.next;
        true
    }

    /// Observes that the phase deadline has passed. When a task is still
    /// pending or some active task is unfinished, the phase times out: all
    /// pending tasks are dropped and `true` asks to signal every active task.
    pub fn deadline_passed(&mut self, any_active_unfinished: bool) -> (signal_all: bool)
        requires
            old(self).wf(),
        ensures
            final(self).wf(),
            final(self).summaries_spec() == old(self).summaries_spec(),
            signal_all == (old(self).state().has_pending() || any_active_unfinished),
            signal_all ==> final(self).state() == (PhaseState { timed_out: true, ..old(self).state().drained() }),
            !signal_all ==> final(self).state() == old(self).state(),
    {
        if self.next < self.end || any_active_unfinished {
            self.timed_out = true;
            self.end = self.next;
            return true;
        }
        false
    }

    /// Whether the next pending task may be admitted now.
    pub fn may_admit(&self) -> (r: bool)
        requires
            self.wf(),
        ensures
            r == self.state().may_admit(),
    {
        !self.timed_out && !self.cancelled
            && (self.first_error.is_none() || self.policy == FailurePolicy::FinishAll)
            && self.active.len() < self.max_concurrency && self.next < self.end
    }

    /// The index of the next pending task, if any.
    pub fn next_task(&self) -> (r: Option<usize>)
        ensures
            r == (if self.state().has_pending() { Some(self.state().next as usize) } else { None }),
    {
        if self.next < self.end {
            Some(self.next)
        } else {
            None
        }
    }

    /// Admits the next pending task, in declaration order, and returns its
    /// index.
    pub fn start_next(&mut self) -> (task: usize)
        requires
            old(self).wf(),
            old(self).state().may_admit(),
        ensures
            final(self).wf(),
            final(self).summaries_spec() == old(self).summaries_spec(),
            task == old(self).state().next,
            final(self).state() == (PhaseState {
                next: old(self).state().next + 1,
                active: old(self).state().active.push(task),
                ..old(self).state()
            }),
    {
        let task = self.next;
        self.active.push(task);
        self.next = self.next + 1;
        task
    }

    /// Admits the next pending task when the phase may admit one, the start
    /// interval has elapsed (`now_ns` has reached `next_admission_ns`), and
    /// the compute budget admits its `requirement`; returns the task and its
    /// lease. Otherwise nothing changes.
    pub fn start_next_admitted(
        &mut self,
        budget: &mut ResourceBudget,
        requirement: ResourceRequirement,
        now_ns: u128,
        next_admission_ns: u128,
    ) -> (r: Option<(usize, ResourceLease)>)
        requires
            old(self).wf(),
            old(budget)@.wf(),
        ensures
            final(self).wf(),
            final(budget)@.wf(),
            final(self).summaries_spec() == old(self).summaries_spec(),
            r is Some <==> old(self).state().may_admit() && now_ns >= next_admission_ns
                && old(budget)@.admits(requirement),
            r matches Some(a) ==> {
                &&& a.0 == old(self).state().next
                &&& a.1.requirement_spec() == requirement
                &&& final(budget)@ == old(budget)@.acquire(requirement)
                &&& final(self).state() == (PhaseState {
                    next: old(self).state().next + 1,
                    active: old(self).state().active.push(a.0),
                    ..old(self).state()
                })
            },
            r is None ==> final(self).state() == old(self).state() && final(budget)@ == old(budget)@,
    {
        if !self.may_admit() || now_ns < next_admission_ns {
            return None;
        }
        match budget.try_acquire(requirement) {
            Some(lease) => {
                let task = self.start_next();
                Some((task, lease))
            },
            None => None,
        }
    }

    /// Removes `task` from the active set.
    fn retire(&mut self, task: usize)
        requires
            old(self).wf(),
            old(self).state().active.contains(task),
        ensures
            final(self).state() == (PhaseState {
                active: old(self).state().active.remove(old(self).state().active.index_of(task)),
                ..old(self).state()
            }),
            final(self).summaries_spec() == old(self).summaries_spec(),
            final(self).wf(),
    {
        let ghost before = self.active@;
        let mut position: usize = 0;
        while position < self.active.len() && self.active[position] != task
            invariant
                self.active@ == before,
                before.contains(task),
                position <= before.len(),
                forall|k: int| 0 <= k < position ==> before[k] != task,
            decreases before.len() - position,
        {
            position = position + 1;
        }
        proof {
            if position == before.len() {
                let k = choose|k: int| 0 <= k < before.len() && before[k] == task;
                assert(before[k] != task);
            }
            assert(before[position as int] == task);
            assert(before.index_of(task) == position) by {
                before.index_of_first_ensures(task);
            }
        }
        self.active.remove(position);
        proof {
            let after = self.active@;
            assert forall|i: int, j: int| 0 <= i < j < after.len() implies after[i] != after[j] by {
                let bi = if i < position { i } else { i + 1 };
                let bj = if j < position { j } else { j + 1 };
                assert(after[i] == before[bi]);
                assert(after[j] == before[bj]);
            }
            assert forall|i: int| 0 <= i < after.len() implies (#[trigger] after[i]) < self.next by {
                let bi = if i < position { i } else { i + 1 };
                assert(after[i] == before[bi]);
            }
        }
    }

    /// A worker for the admitted `task` could not be started: the error
    /// decides the phase, pending tasks are dropped, and every active task
    /// must be signalled.
    pub fn spawn_failed(&mut self, task: usize, error: E)
        requires
            old(self).wf(),
            old(self).state().active.contains(task),
        ensures
            final(self).wf(),
            final(self).summaries_spec() == old(self).summaries_spec(),
            final(self).state() == (PhaseState {
                active: old(self).state().active.remove(old(self).state().active.index_of(task)),
                first_error: Some(error),
                ..old(self).state().drained()
            }),
    {
        self.retire(task);
        self.first_error = Some(error);
        self.end = self.next;
    }

    /// The active `task` completed with `summary`, to be listed at output
    /// position `ordinal`.
    pub fn task_completed(&mut self, task: usize, ordinal: u64, summary: S)
        requires
            old(self).wf(),
            old(self).state().active.contains(task),
        ensures
            final(self).wf(),
            ({
                let p = insertion_point(old(self).state().ordinals, ordinal);
                &&& final(self).state() == (PhaseState {
                    active: old(self).state().active.remove(old(self).state().active.index_of(task)),
                    ordinals: old(self).state().ordinals.insert(p, ordinal),
                    ..old(self).state()
                })
                &&& final(self).summaries_spec() == old(self).summaries_spec().insert(p, summary)
            }),
    {
        self.retire(task);
        sorted_insert(&mut self.ordinals, &mut self.summaries, ordinal, summary);
    }

    /// The active `task` failed. The first failure decides the phase; under
    /// fail-fast the pending tasks are dropped and `true` asks to signal
    /// every remaining active task.
    pub fn task_failed(&mut self, task: usize, error: E) -> (signal_siblings: bool)
        requires
            old(self).wf(),
            old(self).state().active.contains(task),
        ensures
            final(self).wf(),
            final(self).summaries_spec() == old(self).summaries_spec(),
            signal_siblings == (old(self).state().policy == FailurePolicy::FailFast),
            ({
                let retired = PhaseState {
                    active: old(self).state().active.remove(old(self).state().active.index_of(task)),
                    first_error: if old(self).state().first_error is Some {
                        old(self).state().first_error
                    } else {
                        Some(error)
                    },
                    ..old(self).state()
                };
                final(self).state() == if signal_siblings { retired.drained() } else { retired }
            }),
    {
        self.retire(task);
        if self.first_error.is_none() {
            self.first_error = Some(error);
        }
        if self.policy == FailurePolicy::FailFast {
            self.end = self.next;
            return true;
        }
        false
    }

    /// Ends a phase in which no work remains. Cancellation takes precedence
    /// over a timeout, a timeout over the first error; otherwise the
    /// completed summaries are returned in output-ordinal order.
    pub fn finish(self) -> (r: Result<Vec<S>, PhaseStop<E>>)
        requires
            self.wf(),
            self.state().is_done(),
        ensures
            self.state().cancelled ==> r matches Err(PhaseStop::Cancelled),
            !self.state().cancelled && self.state().timed_out ==> r matches Err(PhaseStop::TimedOut),
            !self.state().cancelled && !self.state().timed_out && self.state().first_error is Some
                ==> r == Err::<Vec<S>, PhaseStop<E>>(PhaseStop::Failed(self.state().first_error->0)),
            r is Ok <==> !self.state().cancelled && !self.state().timed_out && self.state().first_error is None,
            r matches Ok(v) ==> v@ == self.summaries_spec(),
    {
        if self.cancelled {
            return Err(PhaseStop::Cancelled);
        }
        if self.timed_out {
            return Err(PhaseStop::TimedOut);
        }
        match self.first_error {
            Some(error) => Err(PhaseStop::Failed(error)),
            None => Ok(self.summaries),
        }
    }
}

/// The earliest reading at which the next task may start after one started
/// at `now_ns`: the per-task delay later, saturating, or at once without a
/// delay.
pub fn next_admission_after(now_ns: u128, delay_ns: Option<u128>) -> (r: u128)
    ensures
        r == match delay_ns {
            Some(d) => if now_ns + d > u128::MAX { u128::MAX } else { (now_ns + d) as u128 },
            None => now_ns,
        },
{
    match delay_ns {
        Some(d) => now_ns.saturating_add(d),
        None => now_ns,
    }
}

/// The failure that decides a replicate set.
pub enum ReplicateFailure<E> {
    /// Replicate `index` returned `source`.
    Failed { index: u64, source: E },
    /// The worker of replicate `index` panicked.
    Panicked { index: u64 },
}

/// How one replicate ended, as its worker reported it.
pub enum ReplicateOutcome<S, E> {
    /// The replicate finished with a summary.
    Completed(S),
    /// The replicate returned an error; `cancellation` marks the error that
    /// reports an observed execution-wide cancellation.
    Failed { source: E, cancellation: bool },
    /// The replicate's worker panicked.
    Panicked,
}

/// Collects replicate outcomes under a failure policy: the first failure
/// decides, and summaries are returned ordered by replicate index.
pub struct ReplicateCollector<S, E> {
    policy: FailurePolicy,
    indices: Vec<u64>,
    summaries: Vec<S>,
    first_error: Option<ReplicateFailure<E>>,
}

/// The failure a reported outcome stands for, if any.
pub open spec fn outcome_failure<S, E>(index: u64, outcome: ReplicateOutcome<S, E>) -> Option<ReplicateFailure<E>> {
    match outcome {
        ReplicateOutcome::Completed(_) => None,
        ReplicateOutcome::Failed { source, .. } => Some(ReplicateFailure::Failed { index, source }),
        ReplicateOutcome::Panicked => Some(ReplicateFailure::Panicked { index }),
    }
}

impl<S, E> ReplicateCollector<S, E> {
    /// Replicate indices of the collected summaries, in order.
    pub closed spec fn indices_spec(&self) -> Seq<u64> {
        self.indices@
    }

    /// Collected summaries, ordered by replicate index.
    pub closed spec fn summaries_spec(&self) -> Seq<S> {
        self.summaries@
    }

    /// The failure that decides the set, if one was reported.
    pub closed spec fn first_error_spec(&self) -> Option<ReplicateFailure<E>> {
        self.first_error
    }

    /// The failure policy.
    pub closed spec fn policy_spec(&self) -> FailurePolicy {
        self.policy
    }

    /// Indices sorted, one summary per index.
    pub open spec fn wf(&self) -> bool {
        &&& sorted_keys(self.indices_spec())
        &&& self.indices_spec().len() == self.summaries_spec().len()
    }

    /// Starts collecting under `policy`.
    pub fn new(policy: FailurePolicy) -> (r: Self)
        ensures
            r.wf(),
            r.policy_spec() == policy,
            r.indices_spec() == Seq::<u64>::empty(),
            r.first_error_spec() is None,
    {
        ReplicateCollector { policy, indices: Vec::new(), summaries: Vec::new(), first_error: None }
    }

    /// Records the outcome of replicate `index` reported by a concurrent
    /// worker. Under fail-fast, a cancellation reported after the first
    /// failure is the echo of that failure and is ignored. Returns `true`
    /// when the first failure has just been recorded under fail-fast: every
    /// sibling must be cancelled.
    pub fn record_concurrent(&mut self, index: u64, outcome: ReplicateOutcome<S, E>) -> (cancel_siblings: bool)
        requires
            old(self).wf(),
        ensures
            final(self).wf(),
            final(self).policy_spec() == old(self).policy_spec(),
            ({
                let fail_fast = old(self).policy_spec() == FailurePolicy::FailFast;
                let echo = outcome matches ReplicateOutcome::Failed { cancellation: true, .. }
                    && fail_fast && old(self).first_error_spec() is Some;
                let failure = if echo { None } else { outcome_failure(index, outcome) };
                &&& outcome matches ReplicateOutcome::Completed(summary) ==> {
                    let p = insertion_point(old(self).indices_spec(), index);
                    &&& final(self).indices_spec() == old(self).indices_spec().insert(p, index)
                    &&& final(self).summaries_spec() == old(self).summaries_spec().insert(p, summary)
                }
                &&& !(outcome is Completed) ==> final(self).indices_spec() == old(self).indices_spec()
                    && final(self).summaries_spec() == old(self).summaries_spec()
                &&& final(self).first_error_spec() == if old(self).first_error_spec() is Some {
                    old(self).first_error_spec()
                } else {
                    failure
                }
                &&& cancel_siblings == (fail_fast && old(self).first_error_spec() is None && failure is Some)
            }),
    {
        let fail_fast = self.policy == FailurePolicy::FailFast;
        let failure = match outcome {
            ReplicateOutcome::Completed(summary) => {
                sorted_insert(&mut self.indices, &mut self.summaries, index, summary);
                None
            },
            ReplicateOutcome::Failed { source, cancellation } => {
                if cancellation && fail_fast && self.first_error.is_some() {
                    None
                } else {
                    Some(ReplicateFailure::Failed { index, source })
                }
            },
            ReplicateOutcome::Panicked => Some(ReplicateFailure::Panicked { index }),
        };
        match failure {
            Some(error) => {
                if self.first_error.is_none() {
                    self.first_error = Some(error);
                    return fail_fast;
                }
                false
            },
            None => false,
        }
    }

    /// Records the result of replicate `index` run in sequence. Returns
    /// `true` when the sequence must stop: the replicate failed under
    /// fail-fast.
    pub fn record_sequential(&mut self, index: u64, result: Result<S, E>) -> (stop: bool)
        requires
            old(self).wf(),
        ensures
            final(self).wf(),
            final(self).policy_spec() == old(self).policy_spec(),
            result matches Ok(summary) ==> {
                let p = insertion_point(old(self).indices_spec(), index);
                &&& final(self).indices_spec() == old(self).indices_spec().insert(p, index)
                &&& final(self).summaries_spec() == old(self).summaries_spec().insert(p, summary)
                &&& final(self).first_error_spec() == old(self).first_error_spec()
                &&& !stop
            },
            result matches Err(source) ==> {
                &&& final(self).indices_spec() == old(self).indices_spec()
                &&& final(self).summaries_spec() == old(self).summaries_spec()
                &&& final(self).first_error_spec() == if old(self).first_error_spec() is Some {
                    old(self).first_error_spec()
                } else {
                    Some(ReplicateFailure::Failed { index, source })
                }
                &&& stop == (old(self).policy_spec() == FailurePolicy::FailFast)
            },
    {
        match result {
            Ok(summary) => {
                sorted_insert(&mut self.indices, &mut self.summaries, index, summary);
                false
            },
            Err(source) => {
                if self.first_error.is_none() {
                    self.first_error = Some(ReplicateFailure::Failed { index, source });
                }
                self.policy == FailurePolicy::FailFast
            },
        }
    }

    /// A replicate worker panicked while being joined after it reported;
    /// this decides the set only when nothing else failed.
    pub fn join_panicked(&mut self, index: u64)
        requires
            old(self).wf(),
        ensures
            final(self).wf(),
            final(self).policy_spec() == old(self).policy_spec(),
            final(self).indices_spec() == old(self).indices_spec(),
            final(self).summaries_spec() == old(self).summaries_spec(),
            final(self).first_error_spec() == if old(self).first_error_spec() is Some {
                old(self).first_error_spec()
            } else {
                Some(ReplicateFailure::Panicked { index })
            },
    {
        if self.first_error.is_none() {
            self.first_error = Some(ReplicateFailure::Panicked { index });
        }
    }

    /// The first failure, or every summary ordered by replicate index.
    pub fn finish(self) -> (r: Result<Vec<S>, ReplicateFailure<E>>)
        requires
            self.wf(),
        ensures
            r is Err <==> self.first_error_spec() is Some,
            r matches Err(e) ==> self.first_error_spec() == Some(e),
            r matches Ok(v) ==> v@ == self.summaries_spec(),
    {
        match self.first_error {
            Some(e) => Err(e),
            None => Ok(self.summaries),
        }
    }
}

/// A set of replicates in which every index below `n` completed exactly once
/// is listed in full and in index order: the collected indices are exactly
/// `0, 1, ..., n - 1`, with one summary for each.
pub proof fn law_each_replicate_once_lists_all_in_index_order<S, E>(c: ReplicateCollector<S, E>, n: nat)
    requires
        c.wf(),
        c.indices_spec().len() == n,
        c.indices_spec().no_duplicates(),
        forall|i: int| 0 <= i < n ==> c.indices_spec()[i] < n,
    ensures
        c.summaries_spec().len() == n,
        forall|i: int| 0 <= i < n ==> c.indices_spec()[i] == i,
{
    let s = c.indices_spec();
    assert forall|i: int, j: int| 0 <= i < j < s.len() implies s[i] < s[j] by {
        assert(s[i] <= s[j]);
    }
    assert forall|k: int| 0 <= k < n implies s[k] == k by {
        lemma_strictly_increasing_from_zero(s, k);
        lemma_strictly_increasing_below(s, n, k);
    }
}

/// Strictly increasing keys are at least their position.
proof fn lemma_strictly_increasing_from_zero(s: Seq<u64>, k: int)
    requires
        forall|i: int, j: int| 0 <= i < j < s.len() ==> s[i] < s[j],
        0 <= k < s.len(),
    ensures
        s[k] >= k,
    decreases k,
{
    if k > 0 {
        lemma_strictly_increasing_from_zero(s, k - 1);
    }
}

/// Strictly increasing keys below `n`, `n` of them, are at most their position.
proof fn lemma_strictly_increasing_below(s: Seq<u64>, n: nat, k: int)
    requires
        forall|i: int, j: int| 0 <= i < j < s.len() ==> s[i] < s[j],
        s.len() == n,
        forall|i: int| 0 <= i < n ==> s[i] < n,
        0 <= k < n,
    ensures
        s[k] <= k,
    decreases n - k,
{
    if k + 1 < n {
        lemma_strictly_increasing_below(s, n, k + 1);
    }
}

/// Keys in non-decreasing order.
pub open spec fn sorted_keys(keys: Seq<u64>) -> bool {
    forall|i: int, j: int| 0 <= i <= j < keys.len() ==> keys[i] <= keys[j]
}

/// Inserts `value` under `key` after every equal or smaller key, keeping
/// `keys` sorted and `values` aligned with it.
fn sorted_insert<V>(keys: &mut Vec<u64>, values: &mut Vec<V>, key: u64, value: V)
    requires
        sorted_keys(old(keys)@),
        old(keys)@.len() == old(values)@.len(),
    ensures
        sorted_keys(final(keys)@),
        final(keys)@ == old(keys)@.insert(insertion_point(old(keys)@, key), key),
        final(values)@ == old(values)@.insert(insertion_point(old(keys)@, key), value),
{
    let ghost before = keys@;
    let ghost pred = |o: u64| o <= key;
    let mut p: usize = 0;
    while p < keys.len() && keys[p] <= key
        invariant
            keys@ == before,
            p <= before.len(),
            sorted_keys(before),
            forall|k: int| 0 <= k < p ==> before[k] <= key,
            pred == (|o: u64| o <= key),
        decreases before.len() - p,
    {
        p = p + 1;
    }
    proof {
        lemma_sorted_prefix_filter(before, key, p as int, pred);
    }
    keys.insert(p, key);
    values.insert(p, value);
    proof {
        let after = keys@;
        assert forall|i: int, j: int| 0 <= i <= j < after.len() implies after[i] <= after[j] by {
            if i < p && j > p {
                assert(after[j] == before[j - 1]);
                assert(before[j - 1] > key || j - 1 < p);
            }
            if i == p && j > p {
                assert(after[j] == before[j - 1]);
            }
            if i < p && j == p {
                assert(after[i] == before[i]);
            }
            if i > p {
                assert(after[i] == before[i - 1]);
                assert(after[j] == before[j - 1]);
            }
            if j < p {
                assert(after[i] == before[i]);
                assert(after[j] == before[j]);
            }
        }
    }
}

/// In a sorted sequence, when the first `p` items are at most `ordinal` and
/// the rest exceed it, exactly `p` items are at most `ordinal`.
proof fn lemma_sorted_prefix_filter(s: Seq<u64>, ordinal: u64, p: int, pred: spec_fn(u64) -> bool)
    requires
        0 <= p <= s.len(),
        pred == (|o: u64| o <= ordinal),
        forall|i: int, j: int| 0 <= i <= j < s.len() ==> s[i] <= s[j],
        forall|k: int| 0 <= k < p ==> s[k] <= ordinal,
        p < s.len() ==> s[p] > ordinal,
    ensures
        s.filter(pred).len() == p,
    decreases s.len(),
{
    reveal(Seq::filter);
    if s.len() == 0 {
    } else if p == s.len() {
        let t = s.drop_last();
        lemma_sorted_prefix_filter(t, ordinal, p - 1, pred);
    } else {
        let t = s.drop_last();
        assert(s[s.len() - 1] >= s[p]);
        if p < t.len() {
            assert(t[p] == s[p]);
        }
        lemma_sorted_prefix_filter(t, ordinal, p, pred);
    }
}

/// At most `max_concurrency` tasks are ever active at once.
pub proof fn law_concurrency_is_bounded<E>(s: PhaseState<E>)
    requires
        s.wf(),
    ensures
        s.active.len() <= s.max_concurrency,
{
}

/// Once cancelled, timed out, or failed under fail-fast, a phase admits no
/// further task.
pub proof fn law_no_admission_after_stop<E>(s: PhaseState<E>)
    requires
        s.wf(),
        s.admission_closed(),
    ensures
        !s.may_admit(),
{
}

} // verus!
