use scientific_workflow::rng_record::{
    seed_from_digest, seed_message_bytes, ReplicateSeedDeriver, RngRecord, RngRecordError,
};
use sha2::{Digest, Sha256};

fn expected_seed(base: u64, replicate: u64, namespace: &str) -> u64 {
    let mut hasher = Sha256::new();
    hasher.update(b"scientific-workflow.replicate-seed.v1");
    hasher.update([0]);
    hasher.update(base.to_be_bytes());
    hasher.update(replicate.to_be_bytes());
    hasher.update((namespace.len() as u64).to_be_bytes());
    hasher.update(namespace.as_bytes());
    let digest = hasher.finalize();
    u64::from_be_bytes(digest[..8].try_into().unwrap())
}

#[test]
fn derived_seeds_follow_the_versioned_byte_contract() {
    let deriver = ReplicateSeedDeriver::new(42, 3);
    assert_eq!(deriver.base_seed(), 42);
    assert_eq!(deriver.replicate_index(), 3);
    let derived = deriver.derive("matrix").unwrap();
    assert_eq!(derived.value(), expected_seed(42, 3, "matrix"));
    let record = derived.record();
    assert_eq!(record.namespace(), "matrix");
    assert_eq!(record.method(), "sha256-domain-separated");
    assert_eq!(record.version(), "scientific-workflow.replicate-seed.v1");
    assert_eq!(record.key_encoding(), "u64-decimal");
    assert_eq!(record.key(), derived.value().to_string());
    assert_eq!(record.parameters(), "{\"base_seed\":42,\"replicate_index\":3}");
}

#[test]
fn namespaces_and_replicates_are_domain_separated() {
    let a = ReplicateSeedDeriver::new(7, 0).derive("pairing").unwrap().value();
    let b = ReplicateSeedDeriver::new(7, 0).derive("matrix").unwrap().value();
    let c = ReplicateSeedDeriver::new(7, 1).derive("pairing").unwrap().value();
    assert_ne!(a, b);
    assert_ne!(a, c);
    assert_eq!(a, ReplicateSeedDeriver::new(7, 0).derive("pairing").unwrap().value());
}

#[test]
fn blank_namespaces_are_rejected() {
    assert!(matches!(ReplicateSeedDeriver::new(1, 0).derive(" \t"), Err(RngRecordError::EmptySeedNamespace)));
}

#[test]
fn the_message_and_digest_reading_are_exact() {
    let message = seed_message_bytes(1, 2, "ab");
    let mut expected = b"scientific-workflow.replicate-seed.v1".to_vec();
    expected.push(0);
    expected.extend_from_slice(&1u64.to_be_bytes());
    expected.extend_from_slice(&2u64.to_be_bytes());
    expected.extend_from_slice(&2u64.to_be_bytes());
    expected.extend_from_slice(b"ab");
    assert_eq!(message, expected);
    assert_eq!(seed_from_digest(&[0, 0, 0, 0, 0, 0, 1, 2, 9]), 258);
    assert_eq!(seed_from_digest(&[0xff; 8]), u64::MAX);
}

#[test]
fn records_reject_the_first_blank_field_and_mismatched_namespaces() {
    let record = RngRecord::new(
        "ns".to_owned(), " ".to_owned(), "".to_owned(), "hex".to_owned(), "ab".to_owned(), None,
    );
    assert!(matches!(record, Err(RngRecordError::EmptyField { field: "method" })));
    let record = RngRecord::new(
        "ns".to_owned(), "pcg".to_owned(), "1".to_owned(), "hex".to_owned(), "ab".to_owned(), None,
    )
    .unwrap();
    assert_eq!(record.parameters(), "{}");
    match record.accept_stored("other") {
        Err(RngRecordError::NamespaceMismatch { index, record }) => {
            assert_eq!(index, "other");
            assert_eq!(record, "ns");
        }
        _ => panic!("expected a mismatch"),
    }
}
