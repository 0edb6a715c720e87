use n42_node::epoch_schedule::ValidatorInfo;
use n42_node::orchestrator::chain::QuorumCertificate;
use n42_node::persistence::{consensus_snapshot, ConsensusSnapshot};

fn genesis() -> QuorumCertificate {
    QuorumCertificate {
        view: 0,
        block_hash: [0; 32],
        aggregate_signature: vec![],
        signers: vec![],
    }
}

fn at_view(view: u64) -> QuorumCertificate {
    QuorumCertificate { view, ..genesis() }
}

fn genesis_snapshot(current_view: u64) -> ConsensusSnapshot {
    ConsensusSnapshot {
        version: 1,
        current_view,
        locked_qc: genesis(),
        last_committed_qc: genesis(),
        consecutive_timeouts: 0,
        scheduled_epoch_transition: None,
    }
}

#[test]
fn test_validate_valid_snapshot() {
    assert!(genesis_snapshot(10).validate().is_ok());
}

#[test]
fn test_validate_locked_qc_exceeds_current_view() {
    let snapshot = ConsensusSnapshot {
        current_view: 10,
        locked_qc: at_view(20),
        ..genesis_snapshot(10)
    };
    assert_eq!(snapshot.validate().unwrap_err(), "locked_qc.view (20) > current_view (10)");
}

#[test]
fn test_validate_committed_exceeds_locked() {
    let snapshot = ConsensusSnapshot {
        current_view: 10,
        locked_qc: at_view(5),
        last_committed_qc: at_view(8),
        ..genesis_snapshot(10)
    };
    assert_eq!(snapshot.validate().unwrap_err(), "last_committed_qc.view (8) > locked_qc.view (5)");
}

#[test]
fn test_validate_all_views_equal() {
    let snapshot = ConsensusSnapshot {
        current_view: 5,
        locked_qc: at_view(5),
        last_committed_qc: at_view(5),
        ..genesis_snapshot(5)
    };
    assert!(snapshot.validate().is_ok());
}

#[test]
fn snapshots_hold_what_a_node_knows() {
    let running = consensus_snapshot(42, &at_view(41), &at_view(40), None, None);
    assert_eq!(running.version, 1);
    assert_eq!(running.current_view, 42);
    assert_eq!(running.locked_qc.view, 41);
    assert_eq!(running.last_committed_qc.view, 40);
    assert_eq!(running.consecutive_timeouts, 0);
    assert!(!running.is_newer());
    let validator =
        ValidatorInfo { address: [42; 20], bls_public_key: [1; 48], p2p_peer_id: None };
    let stopped =
        consensus_snapshot(7, &genesis(), &genesis(), Some(3), Some((3, vec![validator], 1)));
    assert_eq!(stopped.consecutive_timeouts, 3);
    let (epoch, validators, ft) = stopped.scheduled_epoch_transition.unwrap();
    assert_eq!((epoch, validators.len(), ft), (3, 1, 1));
    assert_eq!(validators[0].address, [42; 20]);
    let newer = ConsensusSnapshot { version: 2, ..genesis_snapshot(1) };
    assert!(newer.is_newer());
}
