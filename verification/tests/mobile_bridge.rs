use n42_node::attestation_store::{AggregatedAttestation, AttestationStore};
use n42_node::consensus_state::SharedConsensusState;
use n42_node::mobile_bridge::{
    after_offer, min_attestation_threshold, open_verification, AfterOffer, AggregateTask,
    Assessment, FinalizedAttestation, HubAction, HubContext, HubEvent, MobileVerificationBridge,
    Offer, VerificationReceipt,
};

const TEST_RR: [u8; 32] = [0xAA; 32];

fn with_last_byte(byte: u8) -> [u8; 32] {
    let mut hash = [0u8; 32];
    hash[31] = byte;
    hash
}

fn key(n: u64) -> [u8; 48] {
    let mut pubkey = [0u8; 48];
    pubkey[0..8].copy_from_slice(&n.to_le_bytes());
    pubkey[47] = 1;
    pubkey
}

fn receipt_of(block_hash: [u8; 32], block_number: u64, root: [u8; 32], by: u64) -> VerificationReceipt {
    VerificationReceipt {
        block_hash,
        block_number,
        computed_receipts_root: root,
        verifier_pubkey: key(by),
    }
}

/// One block whose receipts are counted.
struct Status {
    block_hash: [u8; 32],
    block_number: u64,
    expected: Option<[u8; 32]>,
    verifiers: Vec<[u8; 48]>,
    valid_count: u32,
    threshold: u32,
}

impl Status {
    fn total_receipts(&self) -> usize {
        self.verifiers.len()
    }

    fn is_attested(&self) -> bool {
        self.valid_count >= self.threshold
    }
}

/// A bridge with the parts around it: who counts receipts, the signatures that
/// are aggregated, the store, and the rewards and events that were sent.
struct Harness {
    bridge: MobileVerificationBridge,
    statuses: Vec<Status>,
    signers: Vec<([u8; 32], Vec<[u8; 48]>)>,
    store: Option<AttestationStore>,
    rewards: Vec<[u8; 48]>,
    events: Vec<([u8; 32], u64, u32)>,
    assessments: Vec<Assessment>,
}

impl Harness {
    fn new(threshold: u32, max_tracked: usize) -> Self {
        Harness {
            bridge: MobileVerificationBridge::new(threshold, max_tracked),
            statuses: Vec::new(),
            signers: Vec::new(),
            store: None,
            rewards: Vec::new(),
            events: Vec::new(),
            assessments: Vec::new(),
        }
    }

    fn with_store(self, store: AttestationStore) -> Self {
        Harness { bridge: self.bridge.with_attestation_store(), store: Some(store), ..self }
    }

    fn register_dispatched_block(
        &mut self,
        block_hash: [u8; 32],
        block_number: u64,
        expected: Option<[u8; 32]>,
    ) {
        if self.get_status(&block_hash).is_none() {
            let threshold = self.bridge.threshold();
            self.statuses.push(Status {
                block_hash,
                block_number,
                expected,
                verifiers: Vec::new(),
                valid_count: 0,
                threshold,
            });
        }
        if let Some(task) = self.bridge.register_dispatched_block(block_hash, block_number, expected)
        {
            self.signers.push((task.block_hash, Vec::new()));
        }
    }

    fn get_status(&self, block_hash: &[u8; 32]) -> Option<&Status> {
        self.statuses.iter().find(|s| s.block_hash == *block_hash)
    }

    fn aggregate(&self, receipt: &VerificationReceipt) -> Option<AggregatedAttestation> {
        let (_, signers) = self.signers.iter().find(|s| s.0 == receipt.block_hash)?;
        let registry = self.store.as_ref()?.registry();
        let mut bits = vec![0u8; registry.len().div_ceil(8)];
        for i in 0..registry.len() {
            if signers.contains(&registry.pubkey_at(i).unwrap()) {
                bits[i / 8] |= 1 << (i % 8);
            }
        }
        if signers.is_empty() {
            return None;
        }
        Some(AggregatedAttestation {
            block_hash: receipt.block_hash,
            block_number: receipt.block_number,
            receipts_root: receipt.computed_receipts_root,
            aggregate_signature: [0x5A; 96],
            participant_bitfield: bits,
            participant_count: signers.len() as u32,
            created_at_ms: 1,
        })
    }

    fn process_receipt(&mut self, receipt: &VerificationReceipt) -> Option<FinalizedAttestation> {
        let expected = self.get_status(&receipt.block_hash).and_then(|s| s.expected);
        let assessment = self.bridge.process_receipt(receipt, true, expected, 1_000);
        self.assessments.push(assessment);
        let Assessment::Assessed { valid, aggregate, .. } = assessment else {
            return None;
        };
        if aggregate {
            let entry = self.signers.iter_mut().find(|s| s.0 == receipt.block_hash).unwrap();
            if !entry.1.contains(&receipt.verifier_pubkey) {
                entry.1.push(receipt.verifier_pubkey);
            }
        }
        let status = self.statuses.iter_mut().find(|s| s.block_hash == receipt.block_hash)?;
        if status.verifiers.contains(&receipt.verifier_pubkey) {
            return None;
        }
        status.verifiers.push(receipt.verifier_pubkey);
        let before = status.is_attested();
        if valid {
            status.valid_count += 1;
        }
        if before || !status.is_attested() {
            return None;
        }
        let valid_count = status.valid_count;
        let attestation = self.aggregate(receipt);
        let nothing = AttestationStore::new();
        let registry = match &self.store {
            Some(store) => store.registry(),
            None => nothing.registry(),
        };
        let finalized = self.bridge.finalize_attestation(
            receipt,
            valid_count,
            attestation.as_ref(),
            registry,
            1_250,
        );
        if let (Some(store), Some(attestation)) = (self.store.as_mut(), attestation.as_ref()) {
            store.record_attestation(attestation);
        }
        self.rewards.extend_from_slice(&finalized.reward_pubkeys);
        self.events.push((
            finalized.event.block_hash,
            finalized.event.block_number,
            finalized.event.valid_count,
        ));
        Some(finalized)
    }
}

#[test]
fn test_bridge_processes_receipts() {
    let mut bridge = Harness::new(2, 100);
    let block_hash = with_last_byte(0x01);
    bridge.register_dispatched_block(block_hash, 1, Some(TEST_RR));
    bridge.process_receipt(&receipt_of(block_hash, 1, TEST_RR, 0));
    assert_eq!(bridge.get_status(&block_hash).unwrap().total_receipts(), 1);
    bridge.process_receipt(&receipt_of(block_hash, 1, TEST_RR, 1));
    let status = bridge.get_status(&block_hash).unwrap();
    assert_eq!(status.total_receipts(), 2);
    assert!(status.is_attested());
}

#[test]
fn test_bridge_attestation_notification() {
    let mut bridge = Harness::new(1, 100);
    let block_hash = with_last_byte(0x03);
    bridge.register_dispatched_block(block_hash, 10, Some(TEST_RR));
    bridge.process_receipt(&receipt_of(block_hash, 10, TEST_RR, 0));
    assert_eq!(bridge.events, vec![(block_hash, 10, 1)]);
}

#[test]
fn test_bridge_multiple_blocks() {
    let mut bridge = Harness::new(2, 100);
    let hash_a = with_last_byte(0x0A);
    let hash_b = with_last_byte(0x0B);
    bridge.register_dispatched_block(hash_a, 10, Some(TEST_RR));
    bridge.register_dispatched_block(hash_b, 11, Some(TEST_RR));
    bridge.process_receipt(&receipt_of(hash_a, 10, TEST_RR, 0));
    bridge.process_receipt(&receipt_of(hash_a, 10, TEST_RR, 1));
    bridge.process_receipt(&receipt_of(hash_b, 11, TEST_RR, 2));
    let status_a = bridge.get_status(&hash_a).unwrap();
    assert_eq!(status_a.total_receipts(), 2);
    assert!(status_a.is_attested());
    let status_b = bridge.get_status(&hash_b).unwrap();
    assert_eq!(status_b.total_receipts(), 1);
    assert!(!status_b.is_attested());
    assert_eq!(bridge.events, vec![(hash_a, 10, 2)]);
}

#[test]
fn test_bridge_duplicate_receipt_ignored() {
    let mut bridge = Harness::new(2, 100);
    let block_hash = with_last_byte(0x0C);
    bridge.register_dispatched_block(block_hash, 20, Some(TEST_RR));
    let receipt = receipt_of(block_hash, 20, TEST_RR, 0);
    bridge.process_receipt(&receipt);
    bridge.process_receipt(&receipt);
    assert_eq!(
        bridge.get_status(&block_hash).unwrap().total_receipts(),
        1,
        "duplicate receipt from same verifier should be ignored"
    );
    assert!(bridge.events.is_empty());
}

#[test]
fn test_bridge_no_attestation_tx() {
    let mut bridge = Harness::new(1, 100);
    let block_hash = with_last_byte(0x0D);
    bridge.register_dispatched_block(block_hash, 30, Some(TEST_RR));
    bridge.process_receipt(&receipt_of(block_hash, 30, TEST_RR, 0));
    assert!(bridge.get_status(&block_hash).unwrap().is_attested());
}

#[test]
fn test_bridge_dynamic_threshold() {
    let mut bridge = Harness::new(2, 100);
    for i in 0..30u64 {
        assert!(bridge.bridge.phone_connected(i, [0u8; 48], false, None, 10));
    }
    assert_eq!(bridge.bridge.threshold(), 20);
    let block_hash = with_last_byte(0xF1);
    bridge.register_dispatched_block(block_hash, 100, Some(TEST_RR));
    bridge.process_receipt(&receipt_of(block_hash, 100, TEST_RR, 0));
    assert!(
        !bridge.get_status(&block_hash).unwrap().is_attested(),
        "with ~20 threshold, 1 receipt should not attest"
    );
}

#[test]
fn test_bridge_invalid_receipt_counts_bounded() {
    let max_tracked = 3;
    let mut bridge = Harness::new(100, max_tracked);
    let wrong_rr = [0xFF; 32];
    for i in 0..4u8 {
        let block_hash = with_last_byte(i);
        bridge.register_dispatched_block(block_hash, i as u64, Some(TEST_RR));
        bridge.process_receipt(&receipt_of(block_hash, i as u64, wrong_rr, i as u64));
    }
    assert_eq!(bridge.bridge.tracked_blocks().1, max_tracked);
    assert!(bridge.bridge.invalid_receipts(&with_last_byte(0)).is_none());
    assert_eq!(bridge.bridge.invalid_receipts(&with_last_byte(1)), Some(1));
    assert_eq!(bridge.bridge.invalid_receipts(&with_last_byte(2)), Some(1));
    assert_eq!(bridge.bridge.invalid_receipts(&with_last_byte(3)), Some(1));
}

#[test]
fn test_bridge_handles_all_event_types() {
    let mut bridge = MobileVerificationBridge::new(2, 100);
    let context = HubContext {
        open: false,
        minimum: 10,
        registered: None,
        signature_valid: true,
        expected_root: None,
        now_ms: 5,
    };
    let receipt = receipt_of(with_last_byte(0x02), 42, TEST_RR, 0);
    let connected = HubEvent::PhoneConnected { session_id: 1, verifier_pubkey: [0u8; 48] };
    assert_eq!(
        bridge.handle_hub_event(connected, &context),
        HubAction::Welcome { session_id: 1, pubkey: [0u8; 48] }
    );
    assert_eq!(bridge.connected(), 1);
    assert_eq!(
        bridge.handle_hub_event(HubEvent::ReceiptReceived { receipt }, &context),
        HubAction::Receipt {
            assessment: Assessment::Assessed { valid: true, alert: false, aggregate: false }
        }
    );
    assert_eq!(
        bridge.handle_hub_event(HubEvent::CacheInventoryReceived { session_id: 1 }, &context),
        HubAction::Nothing
    );
    let gone = HubEvent::PhoneDisconnected { session_id: 1 };
    assert_eq!(
        bridge.handle_hub_event(gone, &context),
        HubAction::Farewell { pubkey: [0u8; 48] }
    );
    assert_eq!(bridge.handle_hub_event(gone, &context), HubAction::Nothing);
    assert_eq!(bridge.connected(), 0);
}

#[test]
fn test_attestation_latency_recorded() {
    let mut bridge = Harness::new(2, 100);
    let block_hash = with_last_byte(0xE1);
    bridge.register_dispatched_block(block_hash, 50, Some(TEST_RR));
    bridge.process_receipt(&receipt_of(block_hash, 50, TEST_RR, 0));
    assert_eq!(bridge.bridge.first_receipt_at(&block_hash), Some(1_000));
    let finalized = bridge.process_receipt(&receipt_of(block_hash, 50, TEST_RR, 1)).unwrap();
    assert!(bridge.get_status(&block_hash).unwrap().is_attested());
    assert_eq!(bridge.bridge.first_receipt_at(&block_hash), Some(1_000));
    assert_eq!(finalized.latency_ms, Some(250));
}

#[test]
fn test_first_receipt_time_bounded() {
    let max_tracked = 3;
    let mut bridge = Harness::new(100, max_tracked);
    for i in 0..4u8 {
        bridge.process_receipt(&receipt_of(with_last_byte(0xF0 + i), i as u64, TEST_RR, i as u64));
    }
    assert_eq!(bridge.bridge.tracked_blocks().0, max_tracked);
    assert!(bridge.bridge.first_receipt_at(&with_last_byte(0xF0)).is_none());
    assert!(bridge.bridge.first_receipt_at(&with_last_byte(0xF1)).is_some());
}

#[test]
fn test_attestation_latency_no_panic_without_first_receipt() {
    let mut bridge = Harness::new(1, 100);
    let block_hash = with_last_byte(0xE2);
    bridge.register_dispatched_block(block_hash, 60, Some(TEST_RR));
    bridge.process_receipt(&receipt_of(block_hash, 60, TEST_RR, 0));
    assert!(bridge.get_status(&block_hash).unwrap().is_attested());
    let mut fresh = MobileVerificationBridge::new(1, 100);
    let store = AttestationStore::new();
    let finalized = fresh.finalize_attestation(
        &receipt_of(block_hash, 60, TEST_RR, 0),
        1,
        None,
        store.registry(),
        9,
    );
    assert_eq!(finalized.latency_ms, None);
}

#[test]
fn test_reward_tx_sends_pubkeys_on_finalized_attestation() {
    let mut store = AttestationStore::new();
    store.register(key(0));
    store.register(key(1));
    let mut bridge = Harness::new(2, 100).with_store(store);
    let block_hash = with_last_byte(0xA1);
    bridge.register_dispatched_block(block_hash, 100, Some(TEST_RR));
    bridge.process_receipt(&receipt_of(block_hash, 100, TEST_RR, 0));
    assert!(bridge.rewards.is_empty(), "no reward before finalization");
    bridge.process_receipt(&receipt_of(block_hash, 100, TEST_RR, 1));
    assert_eq!(bridge.rewards.len(), 2, "only 2 participants");
    assert_ne!(
        bridge.rewards[0], bridge.rewards[1],
        "different participants should have different pubkeys"
    );
    assert_eq!(bridge.rewards, vec![key(0), key(1)]);
}

#[test]
fn test_reward_tx_not_sent_on_invalid_receipt() {
    let mut bridge = Harness::new(1, 100).with_store(AttestationStore::new());
    let block_hash = with_last_byte(0xA2);
    bridge.register_dispatched_block(block_hash, 200, Some(TEST_RR));
    bridge.process_receipt(&receipt_of(block_hash, 200, [0xFF; 32], 0));
    assert!(bridge.rewards.is_empty(), "invalid receipt should not send to reward_tx");
    assert_eq!(
        bridge.assessments,
        vec![Assessment::Assessed { valid: false, alert: true, aggregate: false }]
    );
}

#[test]
fn test_reward_tx_not_sent_before_threshold() {
    let mut bridge = Harness::new(10, 100).with_store(AttestationStore::new());
    let block_hash = with_last_byte(0xA3);
    bridge.register_dispatched_block(block_hash, 300, Some(TEST_RR));
    bridge.process_receipt(&receipt_of(block_hash, 300, TEST_RR, 0));
    bridge.process_receipt(&receipt_of(block_hash, 300, TEST_RR, 1));
    assert!(bridge.rewards.is_empty(), "no reward before threshold reached");
}

#[test]
fn test_no_reward_tx_configured_no_panic() {
    let mut bridge = Harness::new(1, 100);
    let block_hash = with_last_byte(0xA4);
    bridge.register_dispatched_block(block_hash, 400, Some(TEST_RR));
    bridge.process_receipt(&receipt_of(block_hash, 400, TEST_RR, 0));
    assert!(bridge.rewards.is_empty());
}

#[test]
fn test_untracked_block_receipt_dropped() {
    let mut bridge = Harness::new(1, 100);
    let block_hash = with_last_byte(0xB1);
    bridge.process_receipt(&receipt_of(block_hash, 500, TEST_RR, 0));
    assert!(
        bridge.get_status(&block_hash).is_none(),
        "unregistered block must not appear in aggregator"
    );
    assert!(
        bridge.rewards.is_empty(),
        "receipt for untracked block must not trigger reward"
    );
    assert!(bridge.events.is_empty());
}

#[test]
fn test_bridge_builds_aggregate_attestation() {
    let mut store = AttestationStore::new();
    for i in 0..3u64 {
        store.register(key(i));
    }
    let mut bridge = Harness::new(2, 100).with_store(store);
    let block_hash = with_last_byte(0xD1);
    let block_number = 42u64;
    bridge.register_dispatched_block(block_hash, block_number, Some(TEST_RR));
    assert!(bridge.bridge.is_aggregating(&block_hash));
    let mut last = None;
    for i in 0..2u64 {
        last = bridge.process_receipt(&receipt_of(block_hash, block_number, TEST_RR, i));
    }
    let event = last.unwrap().event;
    assert_eq!(event.receipts_root, TEST_RR);
    assert_eq!(event.participant_count, 2);
    assert_eq!(event.packed_participants, vec![0b011]);
    assert_eq!(event.aggregate_signature, [0x5A; 96]);
    let store = bridge.store.as_ref().unwrap();
    assert_eq!(store.total_attestations(), 1, "one aggregate attestation should be stored");
    let att = store.latest_attestation().expect("should have latest attestation");
    assert_eq!(att.block_hash, block_hash);
    assert_eq!(att.block_number, block_number);
    assert_eq!(att.participant_count, 2);
    assert_eq!(att.receipts_root, TEST_RR);
    let pk0_hex = hex::encode(key(0));
    let pk1_hex = hex::encode(key(1));
    let pk2_hex = hex::encode(key(2));
    assert_eq!(store.get_reward_points(&pk0_hex).unwrap().blocks_attested, 1);
    assert_eq!(store.get_reward_points(&pk1_hex).unwrap().blocks_attested, 1);
    assert!(
        store.get_reward_points(&pk2_hex).is_none(),
        "verifier 2 did not participate, should have no points"
    );
    assert!(
        !bridge.bridge.is_aggregating(&block_hash),
        "builder should be removed after finalization"
    );
}

#[test]
fn test_bridge_no_aggregate_without_store() {
    let mut bridge = Harness::new(1, 100);
    let block_hash = with_last_byte(0xD2);
    bridge.register_dispatched_block(block_hash, 1, Some(TEST_RR));
    let finalized = bridge.process_receipt(&receipt_of(block_hash, 1, TEST_RR, 0)).unwrap();
    assert!(bridge.get_status(&block_hash).unwrap().is_attested());
    assert_eq!(finalized.event.participant_count, 0);
    assert!(finalized.event.packed_participants.is_empty());
    assert_eq!(finalized.event.receipts_root, [0u8; 32]);
}

#[test]
fn test_bridge_no_aggregate_without_expected_root() {
    let mut bridge = MobileVerificationBridge::new(1, 100).with_attestation_store();
    let block_hash = with_last_byte(0xD3);
    assert_eq!(bridge.register_dispatched_block(block_hash, 1, None), None);
    assert!(
        !bridge.is_aggregating(&block_hash),
        "no builder should exist when expected_receipts_root is None"
    );
}

#[test]
fn test_bridge_registers_committed_blocks_from_consensus_state() {
    let mut state = SharedConsensusState::new(0, None);
    let mut bridge = Harness::new(1, 100);
    let task = state.notify_block_committed(with_last_byte(0xC1), 77);
    bridge.register_dispatched_block(task.block_hash, task.block_number, None);
    let status = bridge.get_status(&task.block_hash);
    assert!(status.is_some(), "committed block should be registered for receipt tracking");
    assert_eq!(status.unwrap().block_number, 77);
}

#[test]
fn zero_threshold_counts_as_one() {
    assert_eq!(MobileVerificationBridge::new(0, 5).threshold(), 1);
    assert_eq!(MobileVerificationBridge::new(7, 5).threshold(), 7);
}

#[test]
fn unregistered_phones_are_rejected() {
    let mut bridge = MobileVerificationBridge::new(1, 5);
    assert!(!bridge.phone_connected(1, key(1), false, Some(false), 10));
    assert_eq!(bridge.connected(), 0);
    assert!(bridge.phone_connected(2, key(2), true, Some(false), 10));
    assert!(bridge.phone_connected(3, key(3), false, Some(true), 10));
    assert!(bridge.phone_connected(4, key(4), false, None, 10));
    assert_eq!(bridge.connected(), 3);
    assert_eq!(bridge.phone_disconnected(3, 10), Some(key(3)));
    assert_eq!(bridge.phone_disconnected(3, 10), None);
    assert_eq!(bridge.connected(), 2);
    assert_eq!(bridge.threshold(), 10);
}

#[test]
fn bad_signatures_change_nothing() {
    let mut bridge = MobileVerificationBridge::new(1, 5);
    let receipt = receipt_of(with_last_byte(1), 1, [0xFF; 32], 0);
    assert_eq!(bridge.process_receipt(&receipt, false, Some(TEST_RR), 1), Assessment::Dropped);
    assert_eq!(bridge.tracked_blocks(), (0, 0));
}

#[test]
fn a_third_of_the_phones_gives_the_alarm() {
    let mut bridge = MobileVerificationBridge::new(1, 5);
    for i in 0..9 {
        bridge.phone_connected(i, key(i), true, None, 10);
    }
    let mut alerts = Vec::new();
    for i in 0..4 {
        let receipt = receipt_of(with_last_byte(1), 1, [0xFF; 32], i);
        if let Assessment::Assessed { alert, .. } =
            bridge.process_receipt(&receipt, true, Some(TEST_RR), 1)
        {
            alerts.push(alert);
        }
    }
    assert_eq!(alerts, vec![false, false, true, true]);
    assert_eq!(bridge.invalid_receipts(&with_last_byte(1)), Some(4));
}

#[test]
fn a_block_is_aggregated_once() {
    let mut bridge = MobileVerificationBridge::new(1, 5);
    let task = AggregateTask { block_hash: with_last_byte(1), block_number: 3, receipts_root: TEST_RR };
    assert_eq!(bridge.register_dispatched_block(with_last_byte(1), 3, Some(TEST_RR)), Some(task));
    assert_eq!(bridge.register_dispatched_block(with_last_byte(1), 3, Some(TEST_RR)), None);
}

#[test]
fn settings_are_read() {
    assert_eq!(min_attestation_threshold(None), 10);
    assert_eq!(min_attestation_threshold(Some(3)), 3);
    assert!(open_verification(Some("1")));
    assert!(open_verification(Some("true")));
    assert!(open_verification(Some("TrUe")));
    assert!(!open_verification(Some("yes!")));
    assert!(!open_verification(Some("0")));
    assert!(!open_verification(Some("")));
    assert!(!open_verification(Some("truer")));
    assert!(!open_verification(None));
}

#[test]
fn offers_to_channels() {
    assert_eq!(after_offer(Offer::Taken, false), AfterOffer::Next);
    assert_eq!(after_offer(Offer::Full, true), AfterOffer::Wait);
    assert_eq!(after_offer(Offer::Full, false), AfterOffer::Stop);
    assert_eq!(after_offer(Offer::Closed, true), AfterOffer::Stop);
}

#[test]
fn a_large_aggregate_is_rewarded_but_not_carried() {
    let mut store = AttestationStore::new();
    store.register(key(0));
    store.register(key(1));
    let block_hash = with_last_byte(0xD7);
    let aggregate = |participant_count: u32| AggregatedAttestation {
        block_hash,
        block_number: 9,
        receipts_root: TEST_RR,
        aggregate_signature: [0x5A; 96],
        participant_bitfield: vec![0b10],
        participant_count,
        created_at_ms: 1,
    };
    for (count, carried) in [(65_535u32, true), (65_536, false), (u32::MAX, false)] {
        let mut bridge = MobileVerificationBridge::new(1, 100).with_attestation_store();
        bridge.register_dispatched_block(block_hash, 9, Some(TEST_RR));
        let receipt = receipt_of(block_hash, 9, TEST_RR, 1);
        let attestation = aggregate(count);
        let finalized =
            bridge.finalize_attestation(&receipt, 1, Some(&attestation), store.registry(), 9);
        assert_eq!(finalized.reward_pubkeys, vec![key(1)]);
        assert_eq!(finalized.event.participant_count, if carried { 65_535 } else { 0 });
        assert_eq!(finalized.event.packed_participants.is_empty(), !carried);
        assert_eq!(finalized.event.receipts_root, if carried { TEST_RR } else { [0; 32] });
    }
}
