//! Accumulation of one stream's encoded records into sealed chunks.
//!
//! Records are indivisible: a chunk rolls over only between records. A
//! chunked stream seals a chunk once it reaches its byte target, and seals
//! the open chunk early when the next record would carry it past the target;
//! a one-file-per-record stream seals every record on its own.
use vstd::prelude::*;
use vstd::string::StringExecFns;
use crate::digest::{sha256, sha256_of, hex_spec, lowercase_hex};
use super::error::PersistenceError;
use super::storage::StateStreamLayout;

verus! {

/// The checksum text of a chunk payload.
pub open spec fn checksum_text(payload: Seq<u8>) -> Seq<char> {
    "sha256:"@ + hex_spec(sha256_of(payload))
}

/// What the accumulator knows of its open chunk.
pub struct OpenChunkView {
    /// Zero-based chunk ordinal within the stream.
    pub ordinal: u64,
    /// Records appended.
    pub records: u64,
    /// Payload bytes appended.
    pub bytes: u64,
    /// Iteration of the first record.
    pub first_iteration: u64,
    /// Iteration of the last record.
    pub last_iteration: u64,
}

/// The descriptor of a sealed chunk.
pub struct ChunkDescriptor {
    ordinal: u64,
    records: u64,
    bytes: u64,
    checksum: String,
    first_iteration: u64,
    last_iteration: u64,
}

/// What a descriptor states.
pub struct DescriptorView {
    /// Zero-based chunk ordinal within the stream.
    pub ordinal: u64,
    /// Records in the chunk.
    pub records: u64,
    /// Payload bytes.
    pub bytes: u64,
    /// `sha256:` and the lowercase hexadecimal payload digest.
    pub checksum: Seq<char>,
    /// Iteration of the first record.
    pub first_iteration: u64,
    /// Iteration of the last record.
    pub last_iteration: u64,
}

impl ChunkDescriptor {
    /// What this descriptor states.
    pub closed spec fn view(&self) -> DescriptorView {
        DescriptorView {
            ordinal: self.ordinal,
            records: self.records,
            bytes: self.bytes,
            checksum: self.checksum@,
            first_iteration: self.first_iteration,
            last_iteration: self.last_iteration,
        }
    }

    /// The chunk ordinal.
    pub fn ordinal(&self) -> (r: u64)
        ensures r == self.view().ordinal,
    {
        self.ordinal
    }

    /// The number of records.
    pub fn records(&self) -> (r: u64)
        ensures r == self.view().records,
    {
        self.records
    }

    /// The payload byte count.
    pub fn bytes(&self) -> (r: u64)
        ensures r == self.view().bytes,
    {
        self.bytes
    }

    /// The checksum text.
    pub fn checksum(&self) -> (r: &str)
        ensures r@ == self.view().checksum,
    {
        self.checksum.as_str()
    }

    /// The first iteration.
    pub fn first_iteration(&self) -> (r: u64)
        ensures r == self.view().first_iteration,
    {
        self.first_iteration
    }

    /// The last iteration.
    pub fn last_iteration(&self) -> (r: u64)
        ensures r == self.view().last_iteration,
    {
        self.last_iteration
    }
}

/// One sealed chunk: its descriptor and its complete payload.
pub struct SealedChunk {
    /// What the manifest records of the chunk.
    pub descriptor: ChunkDescriptor,
    /// The bytes to publish with a single write.
    pub payload: Vec<u8>,
}

/// The descriptor of the open chunk sealed with `payload`.
pub open spec fn sealed_view(chunk: OpenChunkView, payload: Seq<u8>) -> DescriptorView {
    DescriptorView {
        ordinal: chunk.ordinal,
        records: chunk.records,
        bytes: chunk.bytes,
        checksum: checksum_text(payload),
        first_iteration: chunk.first_iteration,
        last_iteration: chunk.last_iteration,
    }
}

/// The open chunk of a chunked stream must be sealed before a record of
/// `record_bytes` bytes: it holds a record and the new one would carry it
/// past the target.
pub open spec fn rolls_over(layout: StateStreamLayout, open: Option<OpenChunkView>, record_bytes: int) -> bool {
    &&& layout matches StateStreamLayout::Chunked { target_bytes }
    &&& open matches Some(c)
    &&& c.records > 0
    &&& c.bytes + record_bytes > target_bytes
}

/// The payloads of `chunks`, concatenated in order.
pub open spec fn sealed_bytes(chunks: Seq<SealedChunk>) -> Seq<u8>
    decreases chunks.len(),
{
    if chunks.len() == 0 {
        Seq::empty()
    } else {
        sealed_bytes(chunks.drop_last()) + chunks.last().payload@
    }
}

/// Sealing one more chunk appends its payload.
proof fn lemma_sealed_bytes_push(chunks: Seq<SealedChunk>, chunk: SealedChunk)
    ensures
        sealed_bytes(chunks.push(chunk)) == sealed_bytes(chunks) + chunk.payload@,
{
    assert(chunks.push(chunk).drop_last() =~= chunks);
}

/// A chunk that now holds `bytes` bytes is sealed after its record.
pub open spec fn seals_after(layout: StateStreamLayout, bytes: u64) -> bool {
    match layout {
        StateStreamLayout::Chunked { target_bytes } => bytes >= target_bytes,
        StateStreamLayout::IndividualFiles => true,
    }
}

struct OpenChunk {
    ordinal: u64,
    records: u64,
    bytes: u64,
    first_iteration: u64,
    last_iteration: u64,
}

impl OpenChunk {
    closed spec fn view(&self) -> OpenChunkView {
        OpenChunkView {
            ordinal: self.ordinal,
            records: self.records,
            bytes: self.bytes,
            first_iteration: self.first_iteration,
            last_iteration: self.last_iteration,
        }
    }
}

/// Worker-owned accumulation state of one stream.
pub struct ChunkAccumulator {
    stream: String,
    layout: StateStreamLayout,
    next_ordinal: u64,
    buffer: Vec<u8>,
    open: Option<OpenChunk>,
}

/// The outcome of appending one record: the chunks sealed meanwhile, in
/// order, and a counter overflow, if one stopped the append.
pub struct AppendOutcome {
    /// Chunks sealed by this append, in order.
    pub sealed: Vec<SealedChunk>,
    /// The overflow that stopped the append after any early seal.
    pub error: Option<PersistenceError>,
}

impl ChunkAccumulator {
    /// The stream name.
    pub closed spec fn stream_spec(&self) -> Seq<char> {
        self.stream@
    }

    /// The stream layout.
    pub closed spec fn layout_spec(&self) -> StateStreamLayout {
        self.layout
    }

    /// The ordinal of the next chunk to open.
    pub closed spec fn next_ordinal_spec(&self) -> u64 {
        self.next_ordinal
    }

    /// The payload of the open chunk.
    pub closed spec fn buffer_spec(&self) -> Seq<u8> {
        self.buffer@
    }

    /// The open chunk.
    pub closed spec fn open_spec(&self) -> Option<OpenChunkView> {
        match self.open {
            Some(c) => Some(c.view()),
            None => None,
        }
    }

    /// The buffer holds exactly the open chunk's payload, and an open
    /// chunk of a chunked stream is below its target.
    pub open spec fn wf(&self) -> bool {
        &&& self.holds_payload()
        &&& (self.layout_spec() matches StateStreamLayout::Chunked { target_bytes }
            ==> (self.open_spec() matches Some(c) ==> c.bytes < target_bytes))
    }

    /// The buffer holds exactly the open chunk's payload.
    pub open spec fn holds_payload(&self) -> bool {
        &&& self.layout_spec().wf()
        &&& match self.open_spec() {
            Some(c) => c.bytes == self.buffer_spec().len() && c.ordinal < self.next_ordinal_spec(),
            None => self.buffer_spec().len() == 0,
        }
    }

    /// A stream with nothing open that continues at chunk `next_ordinal`.
    pub fn new(stream: String, layout: StateStreamLayout, next_ordinal: u64) -> (r: Self)
        requires
            layout.wf(),
        ensures
            r.wf(),
            r.stream_spec() == stream@,
            r.layout_spec() == layout,
            r.next_ordinal_spec() == next_ordinal,
            r.open_spec() is None,
    {
        ChunkAccumulator { stream, layout, next_ordinal, buffer: Vec::new(), open: None }
    }

    /// Seals the open chunk, if one exists, leaving nothing open.
    pub fn flush(&mut self) -> (r: Option<SealedChunk>)
        requires
            old(self).holds_payload(),
        ensures
            final(self).wf(),
            final(self).layout_spec() == old(self).layout_spec(),
            final(self).stream_spec() == old(self).stream_spec(),
            final(self).next_ordinal_spec() == old(self).next_ordinal_spec(),
            final(self).open_spec() is None,
            r is Some <==> old(self).open_spec() is Some,
            r matches Some(s) ==> s.payload@ == old(self).buffer_spec()
                && s.descriptor.view() == sealed_view(old(self).open_spec()->0, old(self).buffer_spec()),
    {
        match self.open.take() {
            None => None,
            Some(chunk) => {
                let mut payload: Vec<u8> = Vec::new();
                std::mem::swap(&mut payload, &mut self.buffer);
                let digest = sha256(payload.as_slice());
                let mut checksum = "sha256:".to_owned();
                checksum.append(lowercase_hex(digest.as_slice()).as_str());
                let descriptor = ChunkDescriptor {
                    ordinal: chunk.ordinal,
                    records: chunk.records,
                    bytes: chunk.bytes,
                    checksum,
                    first_iteration: chunk.first_iteration,
                    last_iteration: chunk.last_iteration,
                };
                assert(descriptor.view().checksum =~= checksum_text(payload@));
                Some(SealedChunk { descriptor, payload })
            },
        }
    }

    /// Appends one indivisible record observed at `iteration`.
    ///
    /// The open chunk is first sealed when the record would carry it past a
    /// chunked target. A new chunk is opened when none is open. The record
    /// joins the open chunk, which is then sealed when it reached the target,
    /// or always for one-file-per-record streams. No byte is lost or
    /// repeated: the sealed payloads followed by the open buffer are the
    /// previous buffer followed by the whole record, or the previous buffer
    /// alone when a counter overflow refuses the record.
    pub fn append(&mut self, record: &[u8], iteration: u64) -> (r: AppendOutcome)
        requires
            old(self).wf(),
        ensures
            final(self).wf(),
            final(self).layout_spec() == old(self).layout_spec(),
            final(self).stream_spec() == old(self).stream_spec(),
            ({
                let layout = old(self).layout_spec();
                let n = record@.len() as int;
                let early = rolls_over(layout, old(self).open_spec(), n);
                let open_before = if early { None } else { old(self).open_spec() };
                let buffer_before = if early { Seq::<u8>::empty() } else { old(self).buffer_spec() };
                let opens = open_before is None;
                let ordinal_overflow = opens && old(self).next_ordinal_spec() == u64::MAX;
                let chunk = if opens {
                    OpenChunkView { ordinal: old(self).next_ordinal_spec(), records: 0, bytes: 0, first_iteration: iteration, last_iteration: iteration }
                } else {
                    open_before->0
                };
                let count_overflow = !ordinal_overflow && (chunk.bytes + n > u64::MAX || chunk.records + 1 > u64::MAX);
                let grown = OpenChunkView {
                    records: (chunk.records + 1) as u64,
                    bytes: (chunk.bytes + n) as u64,
                    last_iteration: iteration,
                    ..chunk
                };
                let payload = buffer_before + record@;
                let late = !ordinal_overflow && !count_overflow && seals_after(layout, grown.bytes);
                &&& r.error is Some <==> ordinal_overflow || count_overflow
                &&& r.error matches Some(e) ==> (e matches PersistenceError::ByteCountOverflow { stream } && stream@ == old(self).stream_spec())
                &&& r.sealed@.len() == (if early { 1int } else { 0int }) + (if late { 1int } else { 0int })
                &&& early ==> r.sealed@[0].payload@ == old(self).buffer_spec()
                    && r.sealed@[0].descriptor.view() == sealed_view(old(self).open_spec()->0, old(self).buffer_spec())
                &&& late ==> r.sealed@.last().payload@ == payload
                    && r.sealed@.last().descriptor.view() == sealed_view(grown, payload)
                    && final(self).open_spec() is None
                &&& !ordinal_overflow && !count_overflow && !late ==> final(self).open_spec() == Some(grown)
                    && final(self).buffer_spec() == payload
                &&& r.error is None ==> sealed_bytes(r.sealed@) + final(self).buffer_spec()
                    == old(self).buffer_spec() + record@
                &&& r.error is Some ==> sealed_bytes(r.sealed@) + final(self).buffer_spec()
                    == old(self).buffer_spec()
                &&& final(self).next_ordinal_spec() == if opens && !ordinal_overflow {
                    (old(self).next_ordinal_spec() + 1) as u64
                } else {
                    old(self).next_ordinal_spec()
                }
            }),
    {
        let mut sealed: Vec<SealedChunk> = Vec::new();
        let record_bytes = record.len() as u64;
        let roll = match (&self.layout, &self.open) {
            (StateStreamLayout::Chunked { target_bytes }, Some(chunk)) =>
                chunk.records > 0 && (chunk.bytes > u64::MAX - record_bytes || chunk.bytes + record_bytes > *target_bytes),
            _ => false,
        };
        let ghost old_buffer = self.buffer@;
        if roll {
            match self.flush() {
                Some(chunk) => {
                    proof {
                        lemma_sealed_bytes_push(sealed@, chunk);
                    }
                    sealed.push(chunk);
                },
                None => {},
            }
        }
        assert(sealed_bytes(sealed@) + self.buffer@ =~= old_buffer);
        let ghost mid_open = self.open_spec();
        let ghost mid_buffer = self.buffer_spec();
        let ghost mid_next = self.next_ordinal_spec();
        let mut chunk = match self.open.take() {
            Some(chunk) => chunk,
            None => {
                if self.next_ordinal == u64::MAX {
                    return AppendOutcome { sealed, error: Some(PersistenceError::ByteCountOverflow { stream: self.stream.clone() }) };
                }
                let ordinal = self.next_ordinal;
                self.next_ordinal = self.next_ordinal + 1;
                OpenChunk { ordinal, records: 0, bytes: 0, first_iteration: iteration, last_iteration: iteration }
            },
        };
        assert(chunk.ordinal < self.next_ordinal);
        assert(chunk.bytes == self.buffer@.len());
        assert(mid_open is Some ==> chunk.view() == mid_open->0);
        assert(mid_open is None ==> chunk.view() == (OpenChunkView {
            ordinal: mid_next, records: 0, bytes: 0, first_iteration: iteration, last_iteration: iteration
        }));
        if chunk.bytes > u64::MAX - record_bytes || chunk.records == u64::MAX {
            self.open = Some(chunk);
            return AppendOutcome { sealed, error: Some(PersistenceError::ByteCountOverflow { stream: self.stream.clone() }) };
        }
        let ghost before_append = self.buffer@;
        self.buffer.extend_from_slice(record);
        assert(self.buffer@ =~= before_append + record@);
        assert(sealed_bytes(sealed@) + self.buffer@ =~= old_buffer + record@);
        chunk.bytes = chunk.bytes + record_bytes;
        chunk.records = chunk.records + 1;
        chunk.last_iteration = iteration;
        let seal = match self.layout {
            StateStreamLayout::Chunked { target_bytes } => chunk.bytes >= target_bytes,
            StateStreamLayout::IndividualFiles => true,
        };
        self.open = Some(chunk);
        if seal {
            let ghost before_flush = self.buffer@;
            match self.flush() {
                Some(done) => {
                    proof {
                        lemma_sealed_bytes_push(sealed@, done);
                    }
                    sealed.push(done);
                },
                None => {},
            }
            assert(self.buffer@ =~= Seq::<u8>::empty());
            assert(sealed_bytes(sealed@) + self.buffer@ =~= old_buffer + record@);
        }
        AppendOutcome { sealed, error: None }
    }
}

} // verus!
