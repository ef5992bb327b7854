//! Active runtime failures.
use vstd::prelude::*;
use super::scheduler::{ReplicateFailure, PhaseStop};

verus! {

/// A failure while executing a study. Sources that are operating-system or
/// task errors are carried as their message text; durations are carried as
/// nanoseconds.
#[derive(Debug)]
pub enum RuntimeError {
    /// Workflow execution was cancelled by the user.
    ExecutionCancelled,
    /// An inferred output scope could not be created.
    OutputScope { path: String, reason: String },
    /// A task returned an error.
    Task { task: String, reason: String },
    /// A task panicked.
    TaskPanicked { task: String },
    /// A task exceeded its timeout.
    TaskTimedOut { task: String, timeout_ns: u128 },
    /// A task observed cancellation.
    TaskCancelled { task: String },
    /// A phase exceeded its timeout.
    PhaseTimedOut { phase: String, timeout_ns: u128 },
    /// A runtime worker could not be started.
    StartWorker { scope: String, reason: String },
    /// A replicate worker panicked.
    ReplicatePanicked { index: u64 },
    /// A replicate failed.
    Replicate { index: u64, source: Box<RuntimeError> },
}

/// The error a replicate set ends with, from the failure that decided it.
pub fn replicate_error(failure: ReplicateFailure<RuntimeError>) -> (r: RuntimeError)
    ensures
        (failure matches ReplicateFailure::Failed { index, source }
            ==> r == (RuntimeError::Replicate { index, source: Box::new(source) })),
        (failure matches ReplicateFailure::Panicked { index }
            ==> r == (RuntimeError::ReplicatePanicked { index })),
{
    match failure {
        ReplicateFailure::Failed { index, source } => RuntimeError::Replicate { index, source: Box::new(source) },
        ReplicateFailure::Panicked { index } => RuntimeError::ReplicatePanicked { index },
    }
}

/// The error a phase ends with, from the reason it stopped: cancellation
/// ends the execution, a timeout names the phase and its limit, and a
/// failure is returned as it is.
pub fn phase_error(stop: PhaseStop<RuntimeError>, phase: &str, timeout_ns: u128) -> (r: RuntimeError)
    ensures
        (stop matches PhaseStop::Cancelled ==> r == RuntimeError::ExecutionCancelled),
        (stop matches PhaseStop::TimedOut ==> (r matches RuntimeError::PhaseTimedOut { phase: p, timeout_ns: t }
            && p@ == phase@ && t == timeout_ns)),
        (stop matches PhaseStop::Failed(e) ==> r == e),
{
    match stop {
        PhaseStop::Cancelled => RuntimeError::ExecutionCancelled,
        PhaseStop::TimedOut => RuntimeError::PhaseTimedOut { phase: phase.to_owned(), timeout_ns },
        PhaseStop::Failed(e) => e,
    }
}

} // verus!
