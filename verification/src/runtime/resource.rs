//! Process-wide compute permits shared by every replicate scheduler.
use vstd::prelude::*;

verus! {

/// The compute a task asks for before it may start.
#[derive(Clone, Copy, Debug, PartialEq, Eq, Structural)]
pub enum ResourceRequirement {
    /// In-process work sharing the study pool with other automatic tasks.
    AutoInProcess,
    /// In-process work reserving a fixed number of threads.
    IsolatedInProcess { threads: usize },
    /// An external program reserving a fixed number of threads.
    External { threads: usize },
}

/// Abstract occupancy of a budget.
pub struct BudgetState {
    pub total: nat,
    pub auto_tasks: nat,
    pub isolated_threads: nat,
    pub external_threads: nat,
}

impl BudgetState {
    /// A budget is positive, never oversubscribed, and never mixes kinds of
    /// work: automatic tasks, isolated reservations, and external programs
    /// exclude one another.
    pub open spec fn wf(self) -> bool {
        &&& self.total > 0
        &&& self.auto_tasks <= self.total
        &&& self.isolated_threads + self.external_threads <= self.total
        &&& self.auto_tasks > 0 ==> self.isolated_threads == 0 && self.external_threads == 0
        &&& self.isolated_threads > 0 ==> self.auto_tasks == 0 && self.external_threads == 0
        &&& self.external_threads > 0 ==> self.auto_tasks == 0 && self.isolated_threads == 0
    }

    /// Whether a request is admitted in this state.
    pub open spec fn admits(self, requirement: ResourceRequirement) -> bool {
        match requirement {
            ResourceRequirement::AutoInProcess => {
                &&& self.external_threads == 0
                &&& self.isolated_threads == 0
                &&& self.auto_tasks < self.total
            },
            ResourceRequirement::IsolatedInProcess { threads } => {
                &&& self.external_threads == 0
                &&& self.auto_tasks == 0
                &&& threads + self.isolated_threads <= self.total - self.external_threads
            },
            ResourceRequirement::External { threads } => {
                &&& self.auto_tasks == 0
                &&& self.isolated_threads == 0
                &&& threads <= self.total - self.external_threads
            },
        }
    }

    /// The state after admitting `requirement`.
    pub open spec fn acquire(self, requirement: ResourceRequirement) -> BudgetState {
        match requirement {
            ResourceRequirement::AutoInProcess => BudgetState {
                auto_tasks: self.auto_tasks + 1,
                ..self
            },
            ResourceRequirement::IsolatedInProcess { threads } => BudgetState {
                isolated_threads: (self.isolated_threads + threads) as nat,
                ..self
            },
            ResourceRequirement::External { threads } => BudgetState {
                external_threads: (self.external_threads + threads) as nat,
                ..self
            },
        }
    }

    /// Whether a lease for `requirement` can be returned to this state.
    pub open spec fn holds(self, requirement: ResourceRequirement) -> bool {
        match requirement {
            ResourceRequirement::AutoInProcess => self.auto_tasks >= 1,
            ResourceRequirement::IsolatedInProcess { threads } => self.isolated_threads >= threads,
            ResourceRequirement::External { threads } => self.external_threads >= threads,
        }
    }

    /// The state after returning a lease for `requirement`.
    pub open spec fn release(self, requirement: ResourceRequirement) -> BudgetState {
        match requirement {
            ResourceRequirement::AutoInProcess => BudgetState {
                auto_tasks: (self.auto_tasks - 1) as nat,
                ..self
            },
            ResourceRequirement::IsolatedInProcess { threads } => BudgetState {
                isolated_threads: (self.isolated_threads - threads) as nat,
                ..self
            },
            ResourceRequirement::External { threads } => BudgetState {
                external_threads: (self.external_threads - threads) as nat,
                ..self
            },
        }
    }
}

/// Returning a lease gives back exactly what admitting it took: a budget
/// that admits a request, admits it into a well-formed state that holds it,
/// and releasing it there restores the budget it came from.
pub proof fn law_release_returns_the_permits(s: BudgetState, requirement: ResourceRequirement)
    requires
        s.wf(),
        s.admits(requirement),
    ensures
        s.acquire(requirement).wf(),
        s.acquire(requirement).holds(requirement),
        s.acquire(requirement).release(requirement) == s,
{
}

/// What a budget admits, for every request: automatic work while no fixed
/// reservation is held and fewer automatic tasks run than there are
/// permits; an isolated reservation of `t` threads while no automatic or
/// external work is held and `t` more isolated threads still fit in the
/// total; an external reservation of `t` threads while no in-process work
/// is held and `t` more external threads still fit. Admitting adds exactly
/// the request to the matching count.
pub proof fn law_admission_fits_the_request_in_the_budget(s: BudgetState, t: usize)
    requires
        s.wf(),
    ensures
        s.admits(ResourceRequirement::AutoInProcess) <==>
            s.isolated_threads == 0 && s.external_threads == 0 && s.auto_tasks + 1 <= s.total,
        s.admits(ResourceRequirement::IsolatedInProcess { threads: t }) <==>
            s.auto_tasks == 0 && s.external_threads == 0 && s.isolated_threads + t <= s.total,
        s.admits(ResourceRequirement::External { threads: t }) <==>
            s.auto_tasks == 0 && s.isolated_threads == 0 && s.external_threads + t <= s.total,
        s.acquire(ResourceRequirement::AutoInProcess).auto_tasks == s.auto_tasks + 1,
        s.acquire(ResourceRequirement::IsolatedInProcess { threads: t }).isolated_threads == s.isolated_threads + t,
        s.acquire(ResourceRequirement::External { threads: t }).external_threads == s.external_threads + t,
{
}

/// Compute permits of one study.
pub struct ResourceBudget {
    total: usize,
    auto_tasks: usize,
    isolated_threads: usize,
    external_threads: usize,
}

/// Proof of one admitted request; returned to the budget when the task ends.
pub struct ResourceLease {
    requirement: ResourceRequirement,
}

impl View for ResourceBudget {
    type V = BudgetState;

    closed spec fn view(&self) -> BudgetState {
        BudgetState {
            total: self.total as nat,
            auto_tasks: self.auto_tasks as nat,
            isolated_threads: self.isolated_threads as nat,
            external_threads: self.external_threads as nat,
        }
    }
}

impl ResourceLease {
    /// The request this lease admitted.
    pub closed spec fn requirement_spec(&self) -> ResourceRequirement {
        self.requirement
    }

    /// Returns the fixed thread reservation, or `None` for automatic work.
    pub fn threads(&self) -> (r: Option<usize>)
        ensures
            r == match self.requirement_spec() {
                ResourceRequirement::AutoInProcess => None::<usize>,
                ResourceRequirement::IsolatedInProcess { threads } => Some(threads),
                ResourceRequirement::External { threads } => Some(threads),
            },
    {
        match self.requirement {
            ResourceRequirement::IsolatedInProcess { threads } => Some(threads),
            ResourceRequirement::External { threads } => Some(threads),
            ResourceRequirement::AutoInProcess => None,
        }
    }
}

impl ResourceBudget {
    /// Creates an idle budget of `total` permits.
    pub fn new(total: usize) -> (r: Self)
        requires
            total > 0,
        ensures
            r@ == (BudgetState { total: total as nat, auto_tasks: 0, isolated_threads: 0, external_threads: 0 }),
            r@.wf(),
    {
        ResourceBudget { total, auto_tasks: 0, isolated_threads: 0, external_threads: 0 }
    }

    /// Admits `requirement` when it fits, returning its lease; otherwise the
    /// budget is unchanged.
    pub fn try_acquire(&mut self, requirement: ResourceRequirement) -> (r: Option<ResourceLease>)
        requires
            old(self)@.wf(),
        ensures
            final(self)@.wf(),
            r.is_some() == old(self)@.admits(requirement),
            r.is_some() ==> final(self)@ == old(self)@.acquire(requirement)
                && r.unwrap().requirement_spec() == requirement,
            r.is_none() ==> final(self)@ == old(self)@,
    {
        let available = self.total - self.external_threads;
        match requirement {
            ResourceRequirement::AutoInProcess => {
                if self.external_threads == 0 && self.isolated_threads == 0
                    && self.auto_tasks < self.total {
                    self.auto_tasks = self.auto_tasks + 1;
                    return Some(ResourceLease { requirement });
                }
            },
            ResourceRequirement::IsolatedInProcess { threads } => {
                if self.external_threads == 0 && self.auto_tasks == 0
                    && self.isolated_threads <= available
                    && threads <= available - self.isolated_threads {
                    self.isolated_threads = self.isolated_threads + threads;
                    return Some(ResourceLease { requirement });
                }
            },
            ResourceRequirement::External { threads } => {
                if self.auto_tasks == 0 && self.isolated_threads == 0 && threads <= available {
                    self.external_threads = self.external_threads + threads;
                    return Some(ResourceLease { requirement });
                }
            },
        }
        None
    }

    /// Returns the permits of a finished task.
    pub fn release(&mut self, lease: ResourceLease)
        requires
            old(self)@.wf(),
            old(self)@.holds(lease.requirement_spec()),
        ensures
            final(self)@.wf(),
            final(self)@ == old(self)@.release(lease.requirement_spec()),
    {
        match lease.requirement {
            ResourceRequirement::AutoInProcess => {
                self.auto_tasks = self.auto_tasks - 1;
            },
            ResourceRequirement::IsolatedInProcess { threads } => {
                self.isolated_threads = self.isolated_threads - threads;
            },
            ResourceRequirement::External { threads } => {
                self.external_threads = self.external_threads - threads;
            },
        }
    }
}

} // verus!
