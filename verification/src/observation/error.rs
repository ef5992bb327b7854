//! Observation declaration, binding, and ordering failures.
use vstd::prelude::*;

verus! {

/// A failure while defining, binding, or applying a scientific observation plan.
#[derive(Debug)]
pub enum ObservationError {
    /// A multi-stream observation plan contained no streams.
    EmptyPlan,
    /// A stream name normalized to an empty value.
    EmptyStreamName,
    /// Two streams used the same normalized scientific name.
    DuplicateStreamName { stream: String },
    /// A selected field name normalized to an empty value.
    EmptyFieldName { stream: String },
    /// A stream selected no fields.
    EmptyFieldSelection { stream: String },
    /// A stream selected one normalized field more than once.
    DuplicateField { stream: String, field: String },
    /// A stream selected a field absent from the bound state schema.
    UnknownField { stream: String, field: String },
    /// An iteration sampling interval was zero.
    InvalidSamplingInterval { stream: String },
    /// A scientific axis unit normalized to an empty value.
    EmptyAxisUnit { axis: &'static str },
    /// An observation did not share the descriptor's schema allocation.
    SchemaMismatch { iteration: u64 },
    /// A state observation moved backward relative to an accepted stream value.
    NonIncreasingObservation { stream: String, previous: u64, next: u64 },
}

} // verus!
