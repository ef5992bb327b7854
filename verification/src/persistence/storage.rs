//! Stream storage policy, the effective persistence plan, sampling
//! intervals, and recording timing.
use vstd::prelude::*;
use std::time::Duration;
use crate::text::{is_blank, is_blank_text};
use super::error::PersistenceError;

verus! {

/// Filesystem layout for one logical state stream.
#[derive(Clone, Copy, Debug, PartialEq, Eq, Structural)]
pub enum StateStreamLayout {
    /// Accumulate encoded records in memory until the rollover target is met.
    Chunked { target_bytes: u64 },
    /// Publish every encoded record as its own immutable file.
    IndividualFiles,
}

impl StateStreamLayout {
    /// A chunk target is positive.
    pub open spec fn wf(self) -> bool {
        self matches StateStreamLayout::Chunked { target_bytes } ==> target_bytes > 0
    }
}

/// Persistence and backpressure policy for one logical state stream.
#[derive(Clone, Copy, Debug, PartialEq, Eq, Structural)]
pub struct StateStreamStorage {
    layout: StateStreamLayout,
    storage_queue_bytes: u64,
}

impl StateStreamStorage {
    /// The layout.
    pub closed spec fn layout_spec(self) -> StateStreamLayout {
        self.layout
    }

    /// The queue byte budget.
    pub closed spec fn queue_bytes_spec(self) -> u64 {
        self.storage_queue_bytes
    }

    /// A positive chunk target and a positive queue budget.
    pub open spec fn wf(self) -> bool {
        &&& self.layout_spec().wf()
        &&& self.queue_bytes_spec() > 0
    }

    /// Creates an in-memory chunking policy with a strict queue-byte budget.
    pub fn chunked(target_bytes: u64, storage_queue_bytes: u64) -> (r: Self)
        requires
            target_bytes > 0,
            storage_queue_bytes > 0,
        ensures
            r.wf(),
            r.layout_spec() == (StateStreamLayout::Chunked { target_bytes }),
            r.queue_bytes_spec() == storage_queue_bytes,
    {
        StateStreamStorage { layout: StateStreamLayout::Chunked { target_bytes }, storage_queue_bytes }
    }

    /// Creates a one-file-per-record policy with a strict queue-byte budget.
    pub fn individual_files(storage_queue_bytes: u64) -> (r: Self)
        requires
            storage_queue_bytes > 0,
        ensures
            r.wf(),
            r.layout_spec() == StateStreamLayout::IndividualFiles,
            r.queue_bytes_spec() == storage_queue_bytes,
    {
        StateStreamStorage { layout: StateStreamLayout::IndividualFiles, storage_queue_bytes }
    }

    /// Returns the configured on-disk stream layout.
    pub fn layout(self) -> (r: StateStreamLayout)
        ensures
            r == self.layout_spec(),
    {
        self.layout
    }

    /// Returns the strict byte capacity shared by queued records.
    pub fn storage_queue_bytes(self) -> (r: u64)
        ensures
            r == self.queue_bytes_spec(),
    {
        self.storage_queue_bytes
    }
}

/// One immutable, fully defaulted persistence plan.
#[derive(Clone, Copy, Debug, PartialEq, Eq, Structural)]
pub struct PersistencePlan {
    chunk_target_bytes: u64,
    queue_capacity_bytes: u64,
}

impl PersistencePlan {
    /// The chunk rollover target.
    pub closed spec fn chunk_target_spec(self) -> u64 {
        self.chunk_target_bytes
    }

    /// The queue byte capacity.
    pub closed spec fn queue_capacity_spec(self) -> u64 {
        self.queue_capacity_bytes
    }

    /// A plan for local chunked recordings.
    pub fn local(chunk_target_bytes: u64, queue_capacity_bytes: u64) -> (r: Self)
        requires
            chunk_target_bytes > 0,
            queue_capacity_bytes > 0,
        ensures
            r.chunk_target_spec() == chunk_target_bytes,
            r.queue_capacity_spec() == queue_capacity_bytes,
    {
        PersistencePlan { chunk_target_bytes, queue_capacity_bytes }
    }

    /// The chunk rollover target.
    pub fn chunk_target(self) -> (r: u64)
        ensures
            r == self.chunk_target_spec(),
    {
        self.chunk_target_bytes
    }

    /// The queue byte capacity.
    pub fn queue_capacity(self) -> (r: u64)
        ensures
            r == self.queue_capacity_spec(),
    {
        self.queue_capacity_bytes
    }
}

/// Coordinate-aware interval used to select states for one output stream.
#[derive(Clone, Copy, Debug, PartialEq, Eq, Structural)]
pub enum SamplingInterval {
    /// Iteration zero and each iteration divisible by the interval.
    Iterations(u64),
}

impl SamplingInterval {
    /// Creates an iteration interval, returning `None` for zero.
    pub fn iterations(interval: u64) -> (r: Option<Self>)
        ensures
            r == if interval == 0 { None } else { Some(SamplingInterval::Iterations(interval)) },
    {
        if interval == 0 {
            None
        } else {
            Some(SamplingInterval::Iterations(interval))
        }
    }
}

/// Configuration of one stream of a new recording.
pub struct StateStreamStorageConfig {
    stream: String,
    directory: String,
    storage: StateStreamStorage,
}

impl StateStreamStorageConfig {
    /// The stream name.
    pub closed spec fn stream_spec(&self) -> Seq<char> {
        self.stream@
    }

    /// The output directory.
    pub closed spec fn directory_spec(&self) -> Seq<char> {
        self.directory@
    }

    /// The storage policy.
    pub closed spec fn storage_spec(&self) -> StateStreamStorage {
        self.storage
    }

    /// Validates a stream's identity and directory: a blank stream name and
    /// an empty directory are rejected, in that order.
    pub fn new(stream: String, directory: String, storage: StateStreamStorage) -> (r: Result<Self, PersistenceError>)
        ensures
            r is Ok <==> !is_blank(stream@) && directory@.len() > 0,
            r matches Ok(c) ==> c.stream_spec() == stream@ && c.directory_spec() == directory@ && c.storage_spec() == storage,
            is_blank(stream@) ==> (r matches Err(PersistenceError::InvalidConfiguration { setting, .. }) && setting@ == "stream"@),
            !is_blank(stream@) && directory@.len() == 0
                ==> (r matches Err(PersistenceError::InvalidConfiguration { setting, .. }) && setting@ == "directory"@),
    {
        if is_blank_text(stream.as_str()) {
            return Err(PersistenceError::InvalidConfiguration {
                setting: "stream",
                reason: "stream name must not be empty".to_owned(),
            });
        }
        if directory.as_str().is_empty() {
            return Err(PersistenceError::InvalidConfiguration {
                setting: "directory",
                reason: "stream output directory must not be empty".to_owned(),
            });
        }
        StateStreamStorageConfig { stream, directory, storage }.into_ok()
    }

    fn into_ok(self) -> (r: Result<Self, PersistenceError>)
        ensures
            r == Ok::<Self, PersistenceError>(self),
    {
        Ok(self)
    }

    /// The stream name.
    pub fn stream(&self) -> (r: &str)
        ensures
            r@ == self.stream_spec(),
    {
        self.stream.as_str()
    }

    /// The output directory.
    pub fn directory(&self) -> (r: &str)
        ensures
            r@ == self.directory_spec(),
    {
        self.directory.as_str()
    }

    /// The storage policy.
    pub fn storage(&self) -> (r: StateStreamStorage)
        ensures
            r == self.storage_spec(),
    {
        self.storage
    }
}

/// Operational timing of a completed recording, as host facts rather than
/// scientific coordinates.
pub struct RecordingTiming {
    created_at_utc: String,
    finalized_at_utc: String,
    active_duration_ns: u64,
    continuation_count: u64,
}

/// The duration of `nanos` nanoseconds.
pub uninterp spec fn duration_of_nanos(nanos: u64) -> Duration;

/// `Duration::from_nanos`: the duration of `nanos` nanoseconds, which
/// depends on `nanos` alone; the claim is that it is the value named by
/// `duration_of_nanos`.
#[verifier::external_body]
fn duration_from_nanos(nanos: u64) -> (r: Duration)
    ensures
        r == duration_of_nanos(nanos),
{
    Duration::from_nanos(nanos)
}

impl RecordingTiming {
    /// Creation timestamp text.
    pub closed spec fn created_spec(&self) -> Seq<char> { self.created_at_utc@ }
    /// Completion timestamp text.
    pub closed spec fn finalized_spec(&self) -> Seq<char> { self.finalized_at_utc@ }
    /// Active writer nanoseconds.
    pub closed spec fn active_ns_spec(&self) -> u64 { self.active_duration_ns }
    /// Continuation count.
    pub closed spec fn continuation_spec(&self) -> u64 { self.continuation_count }

    /// Converts stored timing into the public view. A completed recording
    /// must carry a finalized timestamp; its absence is reported against
    /// the metadata path.
    pub fn from_stored(
        created_at_utc: String,
        finalized_at_utc: Option<String>,
        active_duration_ns: u64,
        continuation_count: u64,
        metadata_path: &str,
    ) -> (r: Result<Self, PersistenceError>)
        ensures
            r is Ok <==> finalized_at_utc is Some,
            r matches Ok(t) ==> t.created_spec() == created_at_utc@ && t.finalized_spec() == finalized_at_utc->0@
                && t.active_ns_spec() == active_duration_ns && t.continuation_spec() == continuation_count,
            r matches Err(e) ==> (e matches PersistenceError::InvalidMetadata { path, reason }
                && path@ == metadata_path@ && reason@ == "completed recording lacks finalized timestamp"@),
    {
        match finalized_at_utc {
            Some(finalized_at_utc) => Ok(RecordingTiming {
                created_at_utc,
                finalized_at_utc,
                active_duration_ns,
                continuation_count,
            }),
            None => Err(PersistenceError::InvalidMetadata {
                path: metadata_path.to_owned(),
                reason: "completed recording lacks finalized timestamp".to_owned(),
            }),
        }
    }

    /// Returns the original UTC creation timestamp in RFC 3339 form.
    pub fn created_at_utc(&self) -> (r: &str)
        ensures r@ == self.created_spec(),
    {
        self.created_at_utc.as_str()
    }

    /// Returns the successful completion timestamp in UTC RFC 3339 form.
    pub fn finalized_at_utc(&self) -> (r: &str)
        ensures r@ == self.finalized_spec(),
    {
        self.finalized_at_utc.as_str()
    }

    /// Returns the accumulated active writer duration in nanoseconds.
    pub fn active_duration_ns(&self) -> (r: u64)
        ensures r == self.active_ns_spec(),
    {
        self.active_duration_ns
    }

    /// Returns the accumulated active writer duration.
    pub fn active_duration(&self) -> (r: Duration)
        ensures
            r == duration_of_nanos(self.active_ns_spec()),
    {
        duration_from_nanos(self.active_duration_ns)
    }

    /// Returns the stored continuation count.
    pub fn continuation_count(&self) -> (r: u64)
        ensures r == self.continuation_spec(),
    {
        self.continuation_count
    }
}

} // verus!
