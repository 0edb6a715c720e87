use n42_node::consensus_state::{AttestationState, SharedConsensusState};
use n42_node::orchestrator::chain::QuorumCertificate;

fn make_state() -> SharedConsensusState {
    SharedConsensusState::new(0, None)
}

#[test]
fn test_attestation_state_register_and_record() {
    let mut att = AttestationState::new(3, 100);
    let hash = [0xAA; 32];
    att.register_block(hash, 1);
    let (count, reached) = att.record_attestation(hash, "pk1".to_string()).unwrap();
    assert_eq!(count, 1);
    assert!(!reached);
    let (count, reached) = att.record_attestation(hash, "pk2".to_string()).unwrap();
    assert_eq!(count, 2);
    assert!(!reached);
    let (count, reached) = att.record_attestation(hash, "pk3".to_string()).unwrap();
    assert_eq!(count, 3);
    assert!(reached);
}

#[test]
fn test_attestation_dedup() {
    let mut att = AttestationState::new(3, 100);
    let hash = [0xBB; 32];
    att.register_block(hash, 1);
    att.record_attestation(hash, "pk1".to_string());
    let (count, _) = att.record_attestation(hash, "pk1".to_string()).unwrap();
    assert_eq!(count, 1, "duplicate pubkey should not increase count");
}

#[test]
fn test_attestation_unknown_block() {
    let mut att = AttestationState::new(3, 100);
    assert!(att.record_attestation([0xCC; 32], "pk1".to_string()).is_none());
}

#[test]
fn test_attestation_eviction() {
    let mut att = AttestationState::new(3, 2);
    let h1 = [0x01; 32];
    let h2 = [0x02; 32];
    let h3 = [0x03; 32];
    att.register_block(h1, 1);
    att.register_block(h2, 2);
    att.register_block(h3, 3);
    assert_eq!(att.len(), 2);
    assert!(att.get_attestation_count(&h1).is_none(), "h1 should be evicted");
    assert!(att.get_attestation_count(&h2).is_some());
    assert!(att.get_attestation_count(&h3).is_some());
}

#[test]
fn test_notify_block_committed() {
    let mut state = make_state();
    let hash = [0xDD; 32];
    let task = state.notify_block_committed(hash, 42);
    assert_eq!(task.block_hash, hash);
    assert_eq!(task.block_number, 42);
    assert_eq!(state.attestation_state().get_attestation_count(&hash), Some(0));
}

#[test]
fn consensus_state_test_record_attestation() {
    let mut state = make_state();
    let hash = [0xAA; 32];
    state.record_attestation(hash, 10, 5);
    let record = state.get_block_attestation(&hash).unwrap();
    assert_eq!(record.block_number, 10);
    assert_eq!(record.valid_count, 5);
}

#[test]
fn test_attestation_stats() {
    let mut state = make_state();
    let (total, _, _) = state.attestation_stats();
    assert_eq!(total, 0);
    state.record_attestation([0x01; 32], 1, 3);
    state.record_attestation([0x02; 32], 2, 5);
    let (total, earliest, latest) = state.attestation_stats();
    assert_eq!(total, 2);
    assert_eq!(earliest, Some(1));
    assert_eq!(latest, Some(2));
}

#[test]
fn test_record_equivocation() {
    let mut state = make_state();
    let h1 = [0xAA; 32];
    let h2 = [0xBB; 32];
    state.record_equivocation(5, 2, h1, h2);
    let evs = state.get_equivocations();
    assert_eq!(evs.len(), 1);
    assert_eq!(evs[0].view, 5);
    assert_eq!(evs[0].validator_index, 2);
    assert_eq!(evs[0].hash1, h1);
    assert_eq!(evs[0].hash2, h2);
}

#[test]
fn test_equivocation_log_bounded() {
    let mut state = make_state();
    for i in 0..510u64 {
        state.record_equivocation(i, 0, [0xAA; 32], [0xBB; 32]);
    }
    let evs = state.get_equivocations();
    assert_eq!(evs.len(), 500);
    assert_eq!(evs[0].view, 10, "oldest 10 entries should be evicted");
    assert_eq!(evs[499].view, 509);
}

#[test]
fn test_attestation_state_threshold() {
    let mut att = AttestationState::new(1, 100);
    let hash = [0xEE; 32];
    att.register_block(hash, 1);
    let (count, reached) = att.record_attestation(hash, "pk1".to_string()).unwrap();
    assert_eq!(count, 1);
    assert!(reached, "threshold=1, first attestation should reach it");
}

#[test]
fn test_authorized_verifiers() {
    let mut state = make_state();
    let pubkey = [0x42u8; 48];
    assert!(!state.is_authorized_verifier(&pubkey));
    state.authorize_verifier(pubkey);
    assert!(state.is_authorized_verifier(&pubkey));
    state.deauthorize_verifier(&pubkey);
    assert!(!state.is_authorized_verifier(&pubkey));
}

#[test]
fn test_attestation_history_bounded() {
    let mut state = make_state();
    for i in 0..1010u64 {
        let mut hash = [0u8; 32];
        hash[0..8].copy_from_slice(&i.to_le_bytes());
        state.record_attestation(hash, i, 1);
    }
    let (total, earliest, _) = state.attestation_stats();
    assert_eq!(total, 1000);
    assert_eq!(earliest, Some(10));
}

#[test]
fn what_is_stored_is_loaded() {
    let mut state = SharedConsensusState::new(4, Some(0));
    assert_eq!(state.validator_count(), 4);
    state.update_validator_set(7);
    assert_eq!(state.validator_count(), 7);
    assert!(state.load_committed_qc().is_none());
    state.update_committed_qc(QuorumCertificate {
        view: 3,
        block_hash: [9; 32],
        aggregate_signature: vec![1],
        signers: vec![2],
    });
    let qc = state.load_committed_qc().unwrap();
    assert_eq!((qc.view, qc.block_hash), (3, [9; 32]));
    assert_eq!(state.load_jmt_root(), None);
    state.update_jmt_root(5, [6; 32]);
    assert_eq!(state.load_jmt_root(), Some((5, [6; 32])));
    state.update_zk_proof(8, [7; 32]);
    assert_eq!(state.load_zk_latest_proof(), Some((8, [7; 32])));
    state.record_attestation_at([1; 32], 2, 3, 4);
    assert_eq!(state.get_block_attestation(&[1; 32]).unwrap().timestamp, 4);
    state.record_equivocation_at(1, 2, [3; 32], [4; 32], 5);
    assert_eq!(state.get_equivocations()[0].detected_at, 5);
}

#[test]
fn a_threshold_of_zero_is_one() {
    let mut state = SharedConsensusState::new(4, Some(0));
    state.notify_block_committed([1; 32], 1);
    let attested = state.attestation_state().record_attestation([1; 32], "a".to_string());
    assert_eq!(attested, Some((1, true)));
    let mut usual = SharedConsensusState::new(4, None);
    usual.notify_block_committed([1; 32], 1);
    let attested = usual.attestation_state().record_attestation([1; 32], "a".to_string());
    assert_eq!(attested, Some((1, false)));
}

#[test]
fn each_phone_counts_once_and_enough_is_enough() {
    let mut att = AttestationState::new(2, 100);
    att.register_block([1; 32], 1);
    att.register_block([2; 32], 2);
    let calls = ["a", "a", "b", "a", "b", "c"];
    let expected = [(1, false), (1, false), (2, true), (2, true), (2, true), (3, true)];
    for (key, pair) in calls.iter().zip(expected) {
        assert_eq!(att.record_attestation([1; 32], key.to_string()), Some(pair));
    }
    assert_eq!(att.get_attestation_count(&[1; 32]), Some(3));
    assert_eq!(att.get_attestation_count(&[2; 32]), Some(0), "the other block is as it was");
    assert_eq!(att.record_attestation([3; 32], "a".to_string()), None);
    assert_eq!(att.len(), 2);
    att.register_block([1; 32], 1);
    assert_eq!(att.record_attestation([1; 32], "c".to_string()), Some((3, true)));
}

#[test]
fn one_phone_is_enough_where_none_has_to_attest() {
    let mut att = AttestationState::new(0, 100);
    att.register_block([1; 32], 1);
    assert_eq!(att.get_attestation_count(&[1; 32]), Some(0));
    assert_eq!(att.record_attestation([1; 32], "a".to_string()), Some((1, true)));
}
