use n42_node::attestation_store::{
    participants, AggregatedAttestation, AttestationSnapshot, AttestationStore, VerifierRegistry,
    MAX_STORED_ATTESTATIONS,
};

fn make_mock_attestation(block_number: u64) -> AggregatedAttestation {
    AggregatedAttestation {
        block_hash: [block_number as u8; 32],
        block_number,
        receipts_root: [0xAA; 32],
        aggregate_signature: [block_number as u8; 96],
        participant_bitfield: vec![0b00000111],
        participant_count: 3,
        created_at_ms: 1_000_000,
    }
}

fn three_phones() -> AttestationStore {
    let mut store = AttestationStore::new();
    store.register([0x01; 48]);
    store.register([0x02; 48]);
    store.register([0x03; 48]);
    store
}

#[test]
fn test_new_store_empty() {
    let store = AttestationStore::new();
    assert_eq!(store.total_attestations(), 0);
    assert!(store.latest_attestation().is_none());
}

#[test]
fn test_record_and_save() {
    let mut store = three_phones();
    store.record_attestation(&make_mock_attestation(100));
    assert!(store.needs_save());
    let saved = store.snapshot();
    store.saved();
    assert!(!store.needs_save());
    assert_eq!(store.total_attestations(), 1);
    assert!(store.latest_attestation().is_some());
    assert_eq!(store.latest_attestation().unwrap().block_number, 100);

    let store = AttestationStore::from_snapshot(saved);
    assert!(!store.needs_save());
    assert_eq!(store.total_attestations(), 1);
    assert_eq!(store.latest_attestation().unwrap().block_number, 100);
    let pk1_hex = hex::encode([0x01u8; 48]);
    let points = store.get_reward_points(&pk1_hex).unwrap();
    assert_eq!(points.blocks_attested, 1);
    assert_eq!(points.points, 1);
}

#[test]
fn test_reward_points_accumulate() {
    let mut store = three_phones();
    for i in 1..=5u64 {
        store.record_attestation(&make_mock_attestation(i));
    }
    let pk1_hex = hex::encode([0x01u8; 48]);
    let points = store.get_reward_points(&pk1_hex).unwrap();
    assert_eq!(points.blocks_attested, 5);
    assert_eq!(points.points, 5);
    assert_eq!(points.last_attested_block, 5);
}

#[test]
fn test_attestation_ring_buffer() {
    let mut store = AttestationStore::new();
    store.register([0x01; 48]);
    for i in 0..MAX_STORED_ATTESTATIONS + 10 {
        store.record_attestation(&make_mock_attestation(i as u64));
    }
    assert_eq!(store.stats().stored_attestations, MAX_STORED_ATTESTATIONS);
    assert_eq!(store.total_attestations(), (MAX_STORED_ATTESTATIONS + 10) as u64);
    assert_eq!(store.oldest_attestation().unwrap().block_number, 10);
}

#[test]
fn test_get_attestation_by_hash() {
    let mut store = AttestationStore::new();
    store.register([0x01; 48]);
    let att = make_mock_attestation(42);
    store.record_attestation(&att);
    assert!(store.get_attestation(&att.block_hash).is_some());
    assert!(store.get_attestation(&[0u8; 32]).is_none());
}

#[test]
fn test_stats() {
    let mut store = three_phones();
    store.record_attestation(&make_mock_attestation(1));
    let stats = store.stats();
    assert_eq!(stats.stored_attestations, 1);
    assert_eq!(stats.total_attestations, 1);
    assert_eq!(stats.registered_verifiers, 3);
    assert_eq!(stats.verifiers_with_points, 3);
}

#[test]
fn test_save_not_dirty_skips() {
    let mut store = AttestationStore::new();
    assert!(!store.needs_save(), "no file should be created when nothing is dirty");
    store.force_save();
    assert!(store.needs_save());
}

#[test]
fn participants_are_read_from_the_bits() {
    let mut registry = VerifierRegistry::new();
    for i in 0..10u8 {
        assert_eq!(registry.register([i; 48]), i as usize);
    }
    assert_eq!(registry.register([4; 48]), 4, "a phone keeps its index");
    assert_eq!(registry.len(), 10);
    let found = participants(&vec![0b1000_0010, 0b1111_1110], &registry);
    assert_eq!(found, vec![[1; 48], [7; 48], [9; 48]]);
    assert_eq!(registry.pubkey_at(10), None);
}

#[test]
fn only_participants_earn() {
    let mut store = three_phones();
    let mut attestation = make_mock_attestation(9);
    attestation.participant_bitfield = vec![0b101];
    store.record_attestation(&attestation);
    assert!(store.get_reward_points(&hex::encode([0x02u8; 48])).is_none());
    assert_eq!(store.all_reward_points().len(), 2);
    assert_eq!(store.get_reward_points(&hex::encode([0x03u8; 48])).unwrap().points, 1);
}

#[test]
fn snapshots_keep_their_version() {
    let newer = AttestationSnapshot { version: 2, ..AttestationSnapshot::default() };
    assert!(newer.is_newer());
    assert!(!AttestationSnapshot::default().is_newer());
    let store = AttestationStore::from_snapshot(newer);
    assert_eq!(store.snapshot().version, 2);
}

#[test]
fn restoring_registers_each_phone_once() {
    let snapshot = AttestationSnapshot {
        registry: vec![[1; 48], [2; 48], [1; 48]],
        ..AttestationSnapshot::default()
    };
    let store = AttestationStore::from_snapshot(snapshot);
    assert_eq!(store.snapshot().registry, vec![[1; 48], [2; 48]]);
}
