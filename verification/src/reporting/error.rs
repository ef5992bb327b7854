//! Failures of task registration and progress reporting.
use vstd::prelude::*;

verus! {

/// A failure while registering tasks or reporting their progress.
#[derive(Debug)]
pub enum ReportingError {
    /// Exclusive terminal ownership is already held.
    TerminalAlreadyOwned,
    /// A phase set contained no phases.
    EmptyPhaseSet,
    /// A phase contained no tasks.
    EmptyPhase { phase: u64 },
    /// A phase label was blank.
    InvalidPhaseLabel { phase: u64 },
    /// A phase allowed no concurrent workloads.
    InvalidPhaseWorkloadLimit { phase: u64 },
    /// A phase queue had no capacity.
    InvalidPhaseQueueCapacity { phase: u64 },
    /// Two phases used the same identity.
    DuplicatePhaseId { phase: u64 },
    /// A phase timing setting was zero or not representable on the clock.
    InvalidPhaseTiming { phase: u64, setting: &'static str },
    /// A phase depends on itself or repeats a dependency.
    PhaseDependencyCycle { phase: u64 },
    /// Display keys were requested for a kind no task of the phase has.
    UnknownManagedTaskKind { kind: String },
    /// Two tasks of one kind have different parameter keys.
    InconsistentManagedTaskParameters { kind: String, first: String, second: String },
    /// Two tasks of one kind received the same display label.
    ManagedTaskDisplayCollision { label: String, first: String, second: String },
    /// A task selector matched no task.
    ManagedTaskNotFound { selector: String },
    /// A task selector matched more than one task.
    ManagedTaskSelectorAmbiguous { selector: String, first: String, second: String },
    /// A task does not contain a parameter.
    UnknownManagedTaskParameter { task: String, key: String },
    /// A task ID was blank.
    InvalidManagedTaskId { phase: u64 },
    /// A task kind was blank.
    InvalidManagedTaskKind { task: String },
    /// Two tasks of one phase used the same ID.
    DuplicateManagedTaskId { phase: u64, task: String },
    /// The reporter holds no task with this key.
    UnknownManagedTask { task: String },
    /// A handle was requested for the wrong display kind.
    ManagedTaskKindMismatch { task: String, requested: &'static str, actual: &'static str },
    /// One identity key was supplied more than once.
    DuplicateIdentityParameter { key: String },
    /// One identity key is absent from the project parameters.
    UnknownIdentityParameter { key: String },
    /// Two generated tasks have the same selected identity.
    NonUniqueTaskIdentity { identity: String, first_ordinal: u64, second_ordinal: u64 },
    /// A task ordinal lies outside the registry.
    UnknownTaskOrdinal { task_ordinal: u64 },
    /// A registered task label was not found.
    UnknownRegisteredTask { identity: String },
    /// A registered task label appeared twice.
    DuplicateRegisteredTask { identity: String },
    /// A task's identity differs from the registered one.
    TaskIdentityMismatch { task_ordinal: u64 },
    /// The task already started or reached a terminal status.
    TaskAlreadyStarted { identity: String },
    /// Initial progress lies beyond a known target.
    InitialIterationBeyondTarget { identity: String, initial: u64, target: u64 },
    /// A progress update moved the iteration backward.
    IterationRegressed { identity: String, current: u64, attempted: u64 },
    /// A progress update exceeded a known target.
    IterationBeyondTarget { identity: String, iteration: u64, target: u64 },
    /// Completion was requested before a known target was reached.
    TargetIterationNotReached { identity: String, current: u64, target: u64 },
    /// The renderer stopped before accepting a message.
    RendererUnavailable,
    /// The renderer thread panicked.
    RendererPanicked,
    /// Success was reported before every task completed.
    IncompleteProgress { pending: u64, running: u64, failed: u64 },
}

} // verus!
