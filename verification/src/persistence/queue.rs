//! Admission of encoded records into a recording's bounded writer queue.
//!
//! Each stream has a strict byte budget for queued records, and the whole
//! recording bounds its number of queued records. A record that does not fit
//! yet waits; the caller retries after a release.
use vstd::prelude::*;
use super::error::PersistenceError;
use super::storage::StateStreamStorageConfig;

verus! {

/// Recording-wide bound on queued records.
pub const MAX_OUTSTANDING_RECORDS: usize = 1024;

/// What the queue knows of one stream.
pub struct StreamQueueView {
    /// Stream name.
    pub name: Seq<char>,
    /// Strict byte budget for queued records.
    pub queue_bytes: u64,
    /// Bytes queued and not yet released.
    pub outstanding_bytes: u64,
    /// Iteration of the last accepted record.
    pub last_accepted: Option<u64>,
}

impl StreamQueueView {
    /// The stream after accepting a record of `bytes` bytes at `iteration`.
    pub open spec fn accept(self, bytes: u64, iteration: u64) -> StreamQueueView {
        StreamQueueView {
            outstanding_bytes: (self.outstanding_bytes + bytes) as u64,
            last_accepted: Some(iteration),
            ..self
        }
    }

    /// The stream after the budget of a written record of `bytes` bytes
    /// is released.
    pub open spec fn release_bytes(self, bytes: u64) -> StreamQueueView {
        StreamQueueView { outstanding_bytes: (self.outstanding_bytes - bytes) as u64, ..self }
    }
}

/// The outcome of a submission that was not rejected.
#[derive(Clone, Copy, Debug, PartialEq, Eq, Structural)]
pub enum Admission {
    /// The record was queued.
    Accepted,
    /// The record does not fit yet; retry after a release.
    Full,
}

struct StreamQueueState {
    name: String,
    queue_bytes: u64,
    outstanding_bytes: u64,
    last_accepted: Option<u64>,
}

impl StreamQueueState {
    closed spec fn view(&self) -> StreamQueueView {
        StreamQueueView {
            name: self.name@,
            queue_bytes: self.queue_bytes,
            outstanding_bytes: self.outstanding_bytes,
            last_accepted: self.last_accepted,
        }
    }
}

/// The first stream named `name`.
pub open spec fn find_stream(streams: Seq<StreamQueueView>, name: Seq<char>) -> Option<int> {
    if exists|i: int| 0 <= i < streams.len() && #[trigger] streams[i].name == name {
        Some(choose|i: int| 0 <= i < streams.len() && #[trigger] streams[i].name == name)
    } else {
        None
    }
}

/// Admission facts of one recording's writer queue.
pub struct WriterQueue {
    streams: Vec<StreamQueueState>,
    outstanding_records: usize,
    accepting: bool,
    terminal: Option<String>,
}

impl WriterQueue {
    /// Per-stream admission facts, in configuration order.
    pub closed spec fn streams_spec(&self) -> Seq<StreamQueueView> {
        self.streams@.map_values(|s: StreamQueueState| s.view())
    }

    /// Records queued and not yet released.
    pub closed spec fn outstanding_records_spec(&self) -> nat {
        self.outstanding_records as nat
    }

    /// Whether records are still admitted.
    pub closed spec fn accepting_spec(&self) -> bool {
        self.accepting
    }

    /// The failure that stopped the writer, if any.
    pub closed spec fn terminal_spec(&self) -> Option<Seq<char>> {
        match self.terminal {
            Some(t) => Some(t@),
            None => None,
        }
    }

    /// Budgets are respected and stream names are distinct.
    pub open spec fn wf(&self) -> bool {
        &&& self.outstanding_records_spec() <= MAX_OUTSTANDING_RECORDS
        &&& forall|i: int| 0 <= i < self.streams_spec().len()
            ==> (#[trigger] self.streams_spec()[i]).outstanding_bytes <= self.streams_spec()[i].queue_bytes
        &&& forall|i: int, j: int| 0 <= i < j < self.streams_spec().len()
            ==> (#[trigger] self.streams_spec()[i]).name != (#[trigger] self.streams_spec()[j]).name
    }

    /// An open queue with one empty budget per configured stream.
    pub fn new(configs: &[StateStreamStorageConfig]) -> (r: Self)
        requires
            forall|i: int, j: int| 0 <= i < j < configs@.len()
                ==> (#[trigger] configs@[i]).stream_spec() != (#[trigger] configs@[j]).stream_spec(),
        ensures
            r.wf(),
            r.accepting_spec(),
            r.terminal_spec() is None,
            r.outstanding_records_spec() == 0,
            r.streams_spec().len() == configs@.len(),
            forall|i: int| 0 <= i < configs@.len() ==> {
                &&& (#[trigger] r.streams_spec()[i]).name == configs@[i].stream_spec()
                &&& r.streams_spec()[i].queue_bytes == configs@[i].storage_spec().queue_bytes_spec()
                &&& r.streams_spec()[i].outstanding_bytes == 0
                &&& r.streams_spec()[i].last_accepted is None
            },
    {
        let mut streams: Vec<StreamQueueState> = Vec::new();
        let mut i: usize = 0;
        while i < configs.len()
            invariant
                i <= configs@.len(),
                streams@.len() == i,
                forall|k: int| 0 <= k < i ==> {
                    &&& (#[trigger] streams@[k]).name@ == configs@[k].stream_spec()
                    &&& streams@[k].queue_bytes == configs@[k].storage_spec().queue_bytes_spec()
                    &&& streams@[k].outstanding_bytes == 0
                    &&& streams@[k].last_accepted is None
                },
            decreases configs@.len() - i,
        {
            streams.push(StreamQueueState {
                name: configs[i].stream().to_owned(),
                queue_bytes: configs[i].storage().storage_queue_bytes(),
                outstanding_bytes: 0,
                last_accepted: None,
            });
            i = i + 1;
        }
        let queue = WriterQueue { streams, outstanding_records: 0, accepting: true, terminal: None };
        proof {
            assert forall|k: int| 0 <= k < configs@.len() implies {
                &&& (#[trigger] queue.streams_spec()[k]).name == configs@[k].stream_spec()
                &&& queue.streams_spec()[k].queue_bytes == configs@[k].storage_spec().queue_bytes_spec()
                &&& queue.streams_spec()[k].outstanding_bytes == 0
                &&& queue.streams_spec()[k].last_accepted is None
            } by {
                assert(queue.streams_spec()[k] == queue.streams@[k].view());
            }
            assert forall|a: int, b: int| 0 <= a < b < queue.streams_spec().len()
                implies (#[trigger] queue.streams_spec()[a]).name != (#[trigger] queue.streams_spec()[b]).name by {
                assert(queue.streams_spec()[a] == queue.streams@[a].view());
                assert(queue.streams_spec()[b] == queue.streams@[b].view());
            }
        }
        queue
    }

    /// Finds the stream named `name`.
    fn lookup(&self, name: &str) -> (r: Option<usize>)
        requires
            self.wf(),
        ensures
            r is Some <==> find_stream(self.streams_spec(), name@) is Some,
            r matches Some(i) ==> i < self.streams_spec().len() && self.streams_spec()[i as int].name == name@
                && find_stream(self.streams_spec(), name@) == Some(i as int),
    {
        let ghost view = self.streams_spec();
        let wanted = name.to_owned();
        let mut i: usize = 0;
        while i < self.streams.len()
            invariant
                self.wf(),
                view == self.streams_spec(),
                wanted@ == name@,
                i <= view.len(),
                forall|k: int| 0 <= k < i ==> #[trigger] view[k].name != name@,
            decreases view.len() - i,
        {
            assert(view[i as int] == self.streams@[i as int].view());
            if self.streams[i].name == wanted {
                proof {
                    assert(view[i as int].name == name@);
                    let w = choose|w: int| 0 <= w < view.len() && #[trigger] view[w].name == name@;
                    if w < i {
                        assert(view[w].name != view[i as int].name);
                    } else if w > i {
                        assert(view[i as int].name != view[w].name);
                    }
                }
                return Some(i);
            }
            i = i + 1;
        }
        None
    }

    /// Submits one encoded record of `record_bytes` bytes at `iteration` to
    /// `stream`.
    ///
    /// Rejected, in this order: an unknown stream; a record larger than the
    /// stream's whole budget; a stopped or closed writer; an iteration not
    /// after the stream's last accepted one. Otherwise the record is queued
    /// when both budgets allow it, and `Full` asks the caller to wait.
    pub fn submit(&mut self, stream: &str, record_bytes: u64, iteration: u64) -> (r: Result<Admission, PersistenceError>)
        requires
            old(self).wf(),
        ensures
            final(self).wf(),
            final(self).accepting_spec() == old(self).accepting_spec(),
            final(self).terminal_spec() == old(self).terminal_spec(),
            !(r matches Ok(Admission::Accepted)) ==> final(self).streams_spec() == old(self).streams_spec()
                && final(self).outstanding_records_spec() == old(self).outstanding_records_spec(),
            ({
                let ss = old(self).streams_spec();
                let found = find_stream(ss, stream@);
                &&& found is None ==> (r matches Err(PersistenceError::UnknownStateStream { stream: s }) && s@ == stream@)
                &&& found matches Some(i) ==> {
                    let s = ss[i];
                    let too_large = record_bytes > s.queue_bytes;
                    let stopped = old(self).terminal_spec() is Some || !old(self).accepting_spec();
                    let out_of_order = s.last_accepted matches Some(p) && iteration <= p;
                    let fits = old(self).outstanding_records_spec() < MAX_OUTSTANDING_RECORDS
                        && s.outstanding_bytes + record_bytes <= s.queue_bytes;
                    &&& too_large ==> (r matches Err(PersistenceError::RecordTooLarge { stream: n, bytes, limit })
                        && n@ == stream@ && bytes == record_bytes && limit == s.queue_bytes)
                    &&& !too_large && old(self).terminal_spec() is Some
                        ==> (r matches Err(PersistenceError::StateWriterTerminated { reason: t }) && t@ == old(self).terminal_spec()->0)
                    &&& !too_large && old(self).terminal_spec() is None && !old(self).accepting_spec()
                        ==> (r matches Err(PersistenceError::StateWriterClosed))
                    &&& !too_large && !stopped && out_of_order
                        ==> (r matches Err(PersistenceError::OutOfOrderIteration { stream: n, iteration: it, previous })
                            && n@ == stream@ && it == iteration && s.last_accepted == Some(previous))
                    &&& !too_large && !stopped && !out_of_order && !fits ==> r == Ok::<Admission, PersistenceError>(Admission::Full)
                    &&& !too_large && !stopped && !out_of_order && fits ==> r == Ok::<Admission, PersistenceError>(Admission::Accepted)
                        && final(self).outstanding_records_spec() == old(self).outstanding_records_spec() + 1
                        && final(self).streams_spec() == ss.update(i, s.accept(record_bytes, iteration))
                }
            }),
    {
        let i = match self.lookup(stream) {
            Some(i) => i,
            None => {
                return Err(PersistenceError::UnknownStateStream { stream: stream.to_owned() });
            },
        };
        assert(self.streams_spec()[i as int] == self.streams@[i as int].view());
        let queue_bytes = self.streams[i].queue_bytes;
        if record_bytes > queue_bytes {
            return Err(PersistenceError::RecordTooLarge { stream: stream.to_owned(), bytes: record_bytes, limit: queue_bytes });
        }
        match &self.terminal {
            Some(reason) => {
                return Err(PersistenceError::StateWriterTerminated { reason: reason.clone() });
            },
            None => {},
        }
        if !self.accepting {
            return Err(PersistenceError::StateWriterClosed);
        }
        if let Some(previous) = self.streams[i].last_accepted {
            if iteration <= previous {
                return Err(PersistenceError::OutOfOrderIteration { stream: stream.to_owned(), iteration, previous });
            }
        }
        let outstanding = self.streams[i].outstanding_bytes;
        let fits = outstanding <= queue_bytes - record_bytes;
        if self.outstanding_records < MAX_OUTSTANDING_RECORDS && fits {
            let ghost before = self.streams@;
            self.outstanding_records = self.outstanding_records + 1;
            self.streams[i].outstanding_bytes = outstanding + record_bytes;
            self.streams[i].last_accepted = Some(iteration);
            proof {
                assert forall|k: int| 0 <= k < before.len() && k != i implies self.streams@[k] == before[k] by {}
                assert(self.streams_spec() =~= old(self).streams_spec().update(i as int, StreamQueueView {
                    outstanding_bytes: (outstanding + record_bytes) as u64,
                    last_accepted: Some(iteration),
                    ..old(self).streams_spec()[i as int]
                }));
            }
            return Ok(Admission::Accepted);
        }
        Ok(Admission::Full)
    }

    /// Releases the budget of one written record of `record_bytes` bytes
    /// of stream `i`.
    pub fn release(&mut self, i: usize, record_bytes: u64)
        requires
            old(self).wf(),
            i < old(self).streams_spec().len(),
            old(self).outstanding_records_spec() > 0,
            record_bytes <= old(self).streams_spec()[i as int].outstanding_bytes,
        ensures
            final(self).wf(),
            final(self).accepting_spec() == old(self).accepting_spec(),
            final(self).terminal_spec() == old(self).terminal_spec(),
            final(self).outstanding_records_spec() == old(self).outstanding_records_spec() - 1,
            final(self).streams_spec() == old(self).streams_spec().update(
                i as int,
                old(self).streams_spec()[i as int].release_bytes(record_bytes),
            ),
    {
        assert(self.streams_spec()[i as int] == self.streams@[i as int].view());
        let ghost before = self.streams@;
        self.outstanding_records = self.outstanding_records - 1;
        let outstanding = self.streams[i].outstanding_bytes;
        self.streams[i].outstanding_bytes = outstanding - record_bytes;
        proof {
            assert forall|k: int| 0 <= k < before.len() && k != i implies self.streams@[k] == before[k] by {}
            assert(self.streams_spec() =~= old(self).streams_spec().update(i as int, StreamQueueView {
                outstanding_bytes: (outstanding - record_bytes) as u64,
                ..old(self).streams_spec()[i as int]
            }));
        }
    }

    /// Closes admission; queued records still drain.
    pub fn close(&mut self)
        requires
            old(self).wf(),
        ensures
            final(self).wf(),
            !final(self).accepting_spec(),
            final(self).terminal_spec() == old(self).terminal_spec(),
            final(self).streams_spec() == old(self).streams_spec(),
            final(self).outstanding_records_spec() == old(self).outstanding_records_spec(),
    {
        self.accepting = false;
    }

    /// Records the failure that stopped the writer; the first one is kept.
    pub fn terminate(&mut self, reason: String)
        requires
            old(self).wf(),
        ensures
            final(self).wf(),
            final(self).accepting_spec() == old(self).accepting_spec(),
            final(self).terminal_spec() == if old(self).terminal_spec() is Some { old(self).terminal_spec() } else { Some(reason@) },
            final(self).streams_spec() == old(self).streams_spec(),
            final(self).outstanding_records_spec() == old(self).outstanding_records_spec(),
    {
        if self.terminal.is_none() {
            self.terminal = Some(reason);
        }
    }
}

/// Releasing an accepted record restores the stream's queued bytes: of the
/// acceptance only the stream's last accepted iteration remains, and the
/// stream stays within its budget throughout.
pub proof fn law_release_undoes_acceptance(before: StreamQueueView, record_bytes: u64, iteration: u64)
    requires
        before.outstanding_bytes <= before.queue_bytes,
        before.outstanding_bytes + record_bytes <= before.queue_bytes,
    ensures
        before.accept(record_bytes, iteration).outstanding_bytes <= before.queue_bytes,
        before.accept(record_bytes, iteration).release_bytes(record_bytes)
            == (StreamQueueView { last_accepted: Some(iteration), ..before }),
{
}

} // verus!
