use n42_node::mobile_bridge::AttestationEvent;
use n42_node::mobile_evidence::{
    after_put, has_canonical_participants, tries_again, write_mobile_evidence_once,
    ConsensusEvidence, MobileEvidenceWriteConfig, MobileEvidenceWriteOutcome, StoredEvidence,
    WriteStep,
};

fn sample_consensus_evidence(block_hash: [u8; 32]) -> ConsensusEvidence {
    ConsensusEvidence {
        view: 7,
        block_hash,
        aggregate_signature: [0xAA; 96],
        signer_count: 3,
        packed_signers: vec![0b0000_0111],
        mobile: None,
    }
}

fn sample_event(block_hash: [u8; 32], block_number: u64) -> AttestationEvent {
    AttestationEvent {
        block_hash,
        block_number,
        receipts_root: [0xBB; 32],
        aggregate_signature: [0xCC; 96],
        participant_count: 21,
        packed_participants: vec![0xFF, 0xFF, 0x1F],
        created_at_ms: 1_700_000_000_000,
        valid_count: 21,
    }
}

/// A store of one row, and how often it was asked.
struct Row {
    evidence: Option<ConsensusEvidence>,
    gets: usize,
}

impl Row {
    fn write(
        &mut self,
        event: &AttestationEvent,
        config: &MobileEvidenceWriteConfig,
    ) -> MobileEvidenceWriteOutcome {
        let mut attempt = 1;
        loop {
            self.gets += 1;
            let stored = match self.evidence.take() {
                Some(evidence) => StoredEvidence::Found { evidence },
                None => StoredEvidence::Missing,
            };
            let kept = match &stored {
                StoredEvidence::Found { evidence } => Some(copy(evidence)),
                _ => None,
            };
            let outcome = match write_mobile_evidence_once(event, stored) {
                WriteStep::Put { evidence } => {
                    self.evidence = Some(evidence);
                    after_put(true)
                }
                WriteStep::Done { outcome } => {
                    self.evidence = kept;
                    outcome
                }
            };
            if !tries_again(config, attempt, outcome) {
                return outcome;
            }
            attempt += 1;
        }
    }
}

fn copy(evidence: &ConsensusEvidence) -> ConsensusEvidence {
    ConsensusEvidence {
        view: evidence.view,
        block_hash: evidence.block_hash,
        aggregate_signature: evidence.aggregate_signature,
        signer_count: evidence.signer_count,
        packed_signers: evidence.packed_signers.clone(),
        mobile: evidence.mobile.as_ref().map(|m| n42_node::mobile_evidence::MobileEvidence {
            receipts_root: m.receipts_root,
            aggregate_signature: m.aggregate_signature,
            participant_count: m.participant_count,
            packed_participants: m.packed_participants.clone(),
            created_at_ms: m.created_at_ms,
        }),
    }
}

fn row(block_hash: [u8; 32]) -> Row {
    Row { evidence: Some(sample_consensus_evidence(block_hash)), gets: 0 }
}

fn once() -> MobileEvidenceWriteConfig {
    MobileEvidenceWriteConfig { max_attempts: 1, retry_delay_ms: 1 }
}

#[test]
fn writeback_sets_mobile_and_is_idempotent() {
    let mut store = row([0x11; 32]);
    let event = sample_event([0x11; 32], 42);
    assert_eq!(store.write(&event, &once()), MobileEvidenceWriteOutcome::Written);
    let loaded = store.evidence.as_ref().unwrap();
    let mobile = loaded.mobile.as_ref().expect("mobile evidence should be set");
    assert_eq!(mobile.receipts_root, event.receipts_root);
    assert_eq!(mobile.aggregate_signature, event.aggregate_signature);
    assert_eq!(mobile.participant_count, event.participant_count);
    assert_eq!(mobile.packed_participants, event.packed_participants);
    assert_eq!(mobile.created_at_ms, event.created_at_ms);
    assert_eq!(loaded.view, 7);
    assert_eq!(loaded.packed_signers, vec![0b0000_0111]);
    assert_eq!(store.write(&event, &once()), MobileEvidenceWriteOutcome::AlreadyPresent);
}

#[test]
fn writeback_preserves_sparse_high_registry_index() {
    let mut store = row([0x12; 32]);
    let mut event = sample_event([0x12; 32], 43);
    event.participant_count = 1;
    event.valid_count = 1;
    event.packed_participants = vec![0u8; 1_250];
    event.packed_participants[9_999 / 8] |= 1 << (9_999 % 8);
    assert_eq!(store.write(&event, &once()), MobileEvidenceWriteOutcome::Written);
    let evidence = store.evidence.unwrap();
    let mobile = evidence.mobile.unwrap();
    assert_eq!(mobile.packed_participants, event.packed_participants);
    assert_ne!(mobile.packed_participants[9_999 / 8], 0);
}

#[test]
fn writeback_rejects_participant_count_bitfield_mismatch() {
    let mut store = row([0x13; 32]);
    let mut event = sample_event([0x13; 32], 44);
    event.packed_participants[2] = 0x0F;
    assert_eq!(store.write(&event, &once()), MobileEvidenceWriteOutcome::InvalidEvent);
    assert!(store.evidence.unwrap().mobile.is_none());
}

#[test]
fn writeback_retries_absent_block_then_drops() {
    let mut store = Row { evidence: None, gets: 0 };
    let event = sample_event([0x22; 32], 99);
    let config = MobileEvidenceWriteConfig { max_attempts: 2, retry_delay_ms: 1 };
    assert_eq!(
        store.write(&event, &config),
        MobileEvidenceWriteOutcome::MissingConsensusEvidence
    );
    assert_eq!(store.gets, 2);
}

#[test]
fn writeback_consumer_processes_events() {
    let mut store = row([0x33; 32]);
    let events = vec![sample_event([0x33; 32], 77)];
    for event in &events {
        store.write(event, &once());
    }
    assert!(store.evidence.unwrap().mobile.is_some());
}

#[test]
fn writes_that_come_to_nothing() {
    let event = sample_event([0x11; 32], 1);
    let other = StoredEvidence::Found { evidence: sample_consensus_evidence([0x12; 32]) };
    assert!(matches!(
        write_mobile_evidence_once(&event, other),
        WriteStep::Done { outcome: MobileEvidenceWriteOutcome::BlockHashMismatch }
    ));
    assert!(matches!(
        write_mobile_evidence_once(&event, StoredEvidence::Failed),
        WriteStep::Done { outcome: MobileEvidenceWriteOutcome::GetFailed }
    ));
    assert_eq!(after_put(false), MobileEvidenceWriteOutcome::PutFailed);
}

#[test]
fn canonical_participants() {
    let mut event = sample_event([0x11; 32], 1);
    assert!(has_canonical_participants(&event));
    event.packed_participants.push(0);
    assert!(!has_canonical_participants(&event), "a byte in vain");
    event.packed_participants.pop();
    event.valid_count = 20;
    assert!(!has_canonical_participants(&event), "counts differ");
    event.valid_count = 0;
    event.participant_count = 0;
    event.packed_participants.clear();
    assert!(has_canonical_participants(&event));
}

#[test]
fn tries_are_counted_from_one() {
    let config = MobileEvidenceWriteConfig::default();
    assert_eq!(config, MobileEvidenceWriteConfig { max_attempts: 5, retry_delay_ms: 200 });
    let missing = MobileEvidenceWriteOutcome::MissingConsensusEvidence;
    assert!(tries_again(&config, 4, missing));
    assert!(!tries_again(&config, 5, missing));
    assert!(!tries_again(&config, 1, MobileEvidenceWriteOutcome::JoinFailed));
    let none = MobileEvidenceWriteConfig { max_attempts: 0, retry_delay_ms: 1 };
    assert!(!tries_again(&none, 1, missing));
}
