//! Validated observation sampling policy.
use vstd::prelude::*;

verus! {

/// Which iterations a stream records.
#[derive(Clone, Copy, Debug, PartialEq, Eq, Structural)]
pub enum IterationSampling {
    /// Iteration zero and every positive multiple of the interval.
    Iterations(u64),
    /// Only the initial and the successful final state.
    InitialAndFinal,
}

impl IterationSampling {
    /// The interval of an iteration cadence is positive.
    pub open spec fn wf(self) -> bool {
        self matches IterationSampling::Iterations(n) ==> n > 0
    }

    /// Whether a non-terminal observation at `iteration` is due.
    pub open spec fn includes_spec(self, iteration: u64) -> bool {
        match self {
            IterationSampling::Iterations(n) => iteration % n == 0,
            IterationSampling::InitialAndFinal => false,
        }
    }

    /// Every iteration.
    pub fn every() -> (r: Self)
        ensures
            r == IterationSampling::Iterations(1),
    {
        IterationSampling::Iterations(1)
    }

    /// Every `iterations` iterations.
    pub fn new(iterations: u64) -> (r: Self)
        requires
            iterations > 0,
        ensures
            r == IterationSampling::Iterations(iterations),
    {
        IterationSampling::Iterations(iterations)
    }

    /// The interval, or `None` for boundary-only sampling.
    pub fn get(self) -> (r: Option<u64>)
        ensures
            r == match self {
                IterationSampling::Iterations(n) => Some(n),
                IterationSampling::InitialAndFinal => None::<u64>,
            },
    {
        match self {
            IterationSampling::Iterations(n) => Some(n),
            IterationSampling::InitialAndFinal => None,
        }
    }

    /// Whether a non-terminal observation at `iteration` is due.
    pub fn includes(self, iteration: u64) -> (r: bool)
        requires
            self.wf(),
        ensures
            r == self.includes_spec(iteration),
    {
        match self {
            IterationSampling::Iterations(n) => iteration % n == 0,
            IterationSampling::InitialAndFinal => false,
        }
    }
}

} // verus!
