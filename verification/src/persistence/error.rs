//! Failures of local recording persistence.
use vstd::prelude::*;

verus! {

/// A failure while configuring, writing, or reading a local recording.
#[derive(Debug)]
pub enum PersistenceError {
    /// A configuration value was rejected.
    InvalidConfiguration { setting: &'static str, reason: String },
    /// Two streams used the same name.
    DuplicateStateStream { stream: String },
    /// A record named a stream the recording does not declare.
    UnknownStateStream { stream: String },
    /// The writer no longer admits records.
    StateWriterClosed,
    /// The recording already reached a terminal status.
    RecordingFinished,
    /// Stored metadata was rejected.
    InvalidMetadata { path: String, reason: String },
    /// A byte or record count does not fit its counter.
    ByteCountOverflow { stream: String },
    /// One record exceeds its stream's whole queue budget.
    RecordTooLarge { stream: String, bytes: u64, limit: u64 },
    /// A record's iteration does not follow the stream's last accepted one.
    OutOfOrderIteration { stream: String, iteration: u64, previous: u64 },
    /// The writer worker stopped after an earlier failure.
    StateWriterTerminated { reason: String },
    /// The writer worker panicked.
    StateWriterPanicked,
    /// The writer queue disconnected before finishing.
    WriterQueueDisconnected,
}

} // verus!
