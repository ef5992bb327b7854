use scientific_workflow::persistence::chunk::ChunkAccumulator;
use scientific_workflow::persistence::decoder::JsonStringDecoder;
use scientific_workflow::persistence::error::PersistenceError;
use scientific_workflow::persistence::queue::{Admission, WriterQueue};
use scientific_workflow::persistence::storage::{
    PersistencePlan, RecordingTiming, SamplingInterval, StateStreamLayout, StateStreamStorage,
    StateStreamStorageConfig,
};
use sha2::{Digest, Sha256};

fn hex(bytes: &[u8]) -> String {
    bytes.iter().map(|b| format!("{b:02x}")).collect()
}

#[test]
fn storage_policies_report_their_settings() {
    let storage = StateStreamStorage::chunked(1_024, 4_096);
    assert_eq!(storage.layout(), StateStreamLayout::Chunked { target_bytes: 1_024 });
    assert_eq!(storage.storage_queue_bytes(), 4_096);
    let plan = PersistencePlan::local(8, 16);
    assert_eq!((plan.chunk_target(), plan.queue_capacity()), (8, 16));
    assert_eq!(SamplingInterval::iterations(0), None);
    assert_eq!(SamplingInterval::iterations(10), Some(SamplingInterval::Iterations(10)));
}

#[test]
fn stream_configurations_reject_blank_names_and_empty_directories() {
    let storage = StateStreamStorage::chunked(1, 1);
    assert!(matches!(
        StateStreamStorageConfig::new(" ".to_owned(), "d".to_owned(), storage),
        Err(PersistenceError::InvalidConfiguration { setting: "stream", .. })
    ));
    assert!(matches!(
        StateStreamStorageConfig::new("s".to_owned(), String::new(), storage),
        Err(PersistenceError::InvalidConfiguration { setting: "directory", .. })
    ));
}

#[test]
fn completed_timing_needs_a_finalized_timestamp() {
    assert!(matches!(
        RecordingTiming::from_stored("t0".to_owned(), None, 5, 0, "m.json"),
        Err(PersistenceError::InvalidMetadata { .. })
    ));
    let timing = RecordingTiming::from_stored("t0".to_owned(), Some("t1".to_owned()), 1_500, 0, "m.json").unwrap();
    assert_eq!(timing.created_at_utc(), "t0");
    assert_eq!(timing.finalized_at_utc(), "t1");
    assert_eq!(timing.active_duration_ns(), 1_500);
    assert_eq!(timing.active_duration(), std::time::Duration::from_nanos(1_500));
    assert_eq!(timing.continuation_count(), 0);
}

#[test]
fn the_queue_bounds_bytes_and_orders_iterations() {
    let configs = vec![
        StateStreamStorageConfig::new("a".to_owned(), "d".to_owned(), StateStreamStorage::chunked(4, 10)).unwrap(),
    ];
    let mut queue = WriterQueue::new(&configs);
    assert!(matches!(queue.submit("b", 1, 0), Err(PersistenceError::UnknownStateStream { .. })));
    assert!(matches!(queue.submit("a", 11, 0), Err(PersistenceError::RecordTooLarge { bytes: 11, limit: 10, .. })));
    assert_eq!(queue.submit("a", 6, 0).unwrap(), Admission::Accepted);
    assert!(matches!(queue.submit("a", 1, 0), Err(PersistenceError::OutOfOrderIteration { iteration: 0, previous: 0, .. })));
    assert_eq!(queue.submit("a", 5, 1).unwrap(), Admission::Full);
    queue.release(0, 6);
    assert_eq!(queue.submit("a", 5, 1).unwrap(), Admission::Accepted);
    queue.close();
    assert!(matches!(queue.submit("a", 1, 2), Err(PersistenceError::StateWriterClosed)));
}

#[test]
fn chunks_roll_over_between_records_and_carry_their_checksum() {
    let mut chunks = ChunkAccumulator::new("s".to_owned(), StateStreamLayout::Chunked { target_bytes: 5 }, 0);
    let first = chunks.append(b"abc", 1);
    assert!(first.error.is_none());
    assert!(first.sealed.is_empty());
    let second = chunks.append(b"defg", 2);
    assert!(second.error.is_none());
    assert_eq!(second.sealed.len(), 1);
    let sealed = &second.sealed[0];
    assert_eq!(sealed.payload, b"abc".to_vec());
    assert_eq!(sealed.descriptor.ordinal(), 0);
    assert_eq!(sealed.descriptor.records(), 1);
    assert_eq!(sealed.descriptor.bytes(), 3);
    assert_eq!(sealed.descriptor.first_iteration(), 1);
    assert_eq!(sealed.descriptor.checksum(), format!("sha256:{}", hex(&Sha256::digest(b"abc"))));
    let third = chunks.append(b"h", 3);
    assert_eq!(third.sealed.len(), 1);
    assert_eq!(third.sealed[0].payload, b"defgh".to_vec());
    assert_eq!(third.sealed[0].descriptor.ordinal(), 1);
    assert_eq!(third.sealed[0].descriptor.last_iteration(), 3);
    assert!(chunks.flush().is_none());
}

#[test]
fn individual_files_seal_every_record() {
    let mut chunks = ChunkAccumulator::new("s".to_owned(), StateStreamLayout::IndividualFiles, 7);
    let outcome = chunks.append(b"x", 0);
    assert_eq!(outcome.sealed.len(), 1);
    assert_eq!(outcome.sealed[0].descriptor.ordinal(), 7);
}

#[test]
fn string_payloads_decode_one_json_string() {
    let decoder = JsonStringDecoder;
    assert_eq!(decoder.decode_json_payload("\"line\\nvalue\"").unwrap(), "line\nvalue");
    assert_eq!(decoder.decode_json_payload("\"\"").unwrap(), "");
    assert!(decoder.decode_json_payload("null").is_err());
    assert!(decoder.decode_json_payload("3").is_err());
}

#[test]
fn sealed_payloads_reassemble_every_record_in_order() {
    let records: [&[u8]; 5] = [b"ab", b"cdefg", b"h", b"ij", b"klm"];
    let mut chunks = ChunkAccumulator::new("s".to_owned(), StateStreamLayout::Chunked { target_bytes: 4 }, 0);
    let mut published: Vec<u8> = Vec::new();
    let mut ordinals = Vec::new();
    for (iteration, record) in records.iter().enumerate() {
        let outcome = chunks.append(record, iteration as u64);
        assert!(outcome.error.is_none());
        for sealed in outcome.sealed {
            ordinals.push(sealed.descriptor.ordinal());
            published.extend_from_slice(&sealed.payload);
        }
    }
    if let Some(last) = chunks.flush() {
        ordinals.push(last.descriptor.ordinal());
        published.extend_from_slice(&last.payload);
    }
    assert_eq!(published, b"abcdefghijklm".to_vec());
    assert_eq!(ordinals, vec![0, 1, 2, 3]);
}
