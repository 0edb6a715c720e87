//! Evidence of the phones' attestations, written back to the evidence of the
//! commit.
use crate::attestation_store::bit_set;
use crate::mobile_bridge::{AttestationEvent, EventState};
use crate::primitives::{copy_bytes, same_key, BlsSignature, B256};
use vstd::prelude::*;

verus! {

/// How often a write is tried when nothing is configured.
pub const DEFAULT_MOBILE_EVIDENCE_WRITE_ATTEMPTS: usize = 5;

/// How long to wait between two tries when nothing is configured.
pub const DEFAULT_MOBILE_EVIDENCE_WRITE_RETRY_DELAY_MS: u64 = 200;

/// How often and in what intervals a write is tried.
#[derive(Clone, Copy, Debug, PartialEq, Eq, Structural)]
pub struct MobileEvidenceWriteConfig {
    pub max_attempts: usize,
    pub retry_delay_ms: u64,
}

impl Default for MobileEvidenceWriteConfig {
    fn default() -> (config: Self)
        ensures
            config == (MobileEvidenceWriteConfig {
                max_attempts: DEFAULT_MOBILE_EVIDENCE_WRITE_ATTEMPTS,
                retry_delay_ms: DEFAULT_MOBILE_EVIDENCE_WRITE_RETRY_DELAY_MS,
            }),
    {
        MobileEvidenceWriteConfig {
            max_attempts: DEFAULT_MOBILE_EVIDENCE_WRITE_ATTEMPTS,
            retry_delay_ms: DEFAULT_MOBILE_EVIDENCE_WRITE_RETRY_DELAY_MS,
        }
    }
}

/// How a write ended.
#[derive(Clone, Copy, Debug, PartialEq, Eq, Structural)]
pub enum MobileEvidenceWriteOutcome {
    Written,
    AlreadyPresent,
    MissingConsensusEvidence,
    BlockHashMismatch,
    InvalidEvent,
    GetFailed,
    PutFailed,
    JoinFailed,
}

/// The phones' part of the evidence.
#[derive(Debug)]
pub struct MobileEvidence {
    pub receipts_root: B256,
    pub aggregate_signature: BlsSignature,
    pub participant_count: u16,
    pub packed_participants: Vec<u8>,
    pub created_at_ms: u64,
}

/// The contents of the phones' part.
#[verifier::ext_equal]
pub ghost struct MobileState {
    pub receipts_root: B256,
    pub aggregate_signature: BlsSignature,
    pub participant_count: u16,
    pub packed_participants: Seq<u8>,
    pub created_at_ms: u64,
}

impl View for MobileEvidence {
    type V = MobileState;

    open spec fn view(&self) -> MobileState {
        MobileState {
            receipts_root: self.receipts_root,
            aggregate_signature: self.aggregate_signature,
            participant_count: self.participant_count,
            packed_participants: self.packed_participants@,
            created_at_ms: self.created_at_ms,
        }
    }
}

/// The evidence of a commit.
#[derive(Debug)]
pub struct ConsensusEvidence {
    pub view: u64,
    pub block_hash: B256,
    pub aggregate_signature: BlsSignature,
    pub signer_count: u16,
    pub packed_signers: Vec<u8>,
    pub mobile: Option<MobileEvidence>,
}

/// The contents of the evidence of a commit.
#[verifier::ext_equal]
pub ghost struct EvidenceState {
    pub view: u64,
    pub block_hash: B256,
    pub aggregate_signature: BlsSignature,
    pub signer_count: u16,
    pub packed_signers: Seq<u8>,
    pub mobile: Option<MobileState>,
}

impl View for ConsensusEvidence {
    type V = EvidenceState;

    open spec fn view(&self) -> EvidenceState {
        EvidenceState {
            view: self.view,
            block_hash: self.block_hash,
            aggregate_signature: self.aggregate_signature,
            signer_count: self.signer_count,
            packed_signers: self.packed_signers@,
            mobile: match self.mobile {
                Some(mobile) => Some(mobile@),
                None => None,
            },
        }
    }
}

/// How many of the lowest bits of a byte are set.
pub open spec fn ones_upto(byte: u8, bits: int) -> int
    decreases bits,
{
    if bits <= 0 {
        0
    } else {
        ones_upto(byte, bits - 1) + if bit_set(byte, (bits - 1) as u8) {
            1int
        } else {
            0int
        }
    }
}

/// How many bits are set.
pub open spec fn ones(bytes: Seq<u8>) -> int
    decreases bytes.len(),
{
    if bytes.len() == 0 {
        0
    } else {
        ones(bytes.drop_last()) + ones_upto(bytes.last(), 8)
    }
}

fn count_ones(byte: u8) -> (n: u64)
    ensures
        n == ones_upto(byte, 8),
        n <= 8,
{
    let mut n: u64 = 0;
    let mut bit: u8 = 0;
    while bit < 8
        invariant
            bit <= 8,
            n <= bit,
            n == ones_upto(byte, bit as int),
        decreases 8 - bit,
    {
        if (byte >> bit) & 1 == 1 {
            n += 1;
        }
        bit += 1;
    }
    n
}

fn count_all_ones(bytes: &Vec<u8>) -> (n: Option<u64>)
    ensures
        match n {
            Some(n) => n == ones(bytes@),
            None => ones(bytes@) > u64::MAX,
        },
{
    let mut n: u64 = 0;
    let mut i: usize = 0;
    assert(bytes@.take(0) =~= Seq::empty());
    while i < bytes.len()
        invariant
            i <= bytes@.len(),
            n == ones(bytes@.take(i as int)),
        decreases bytes@.len() - i,
    {
        let more: u64 = count_ones(bytes[i]);
        proof {
            assert(bytes@.take(i + 1).drop_last() =~= bytes@.take(i as int));
            assert(bytes@.take(i + 1).last() == bytes@[i as int]);
        }
        match n.checked_add(more) {
            Some(sum) => {
                n = sum;
            },
            None => {
                proof {
                    ones_only_grow(bytes@, i + 1);
                }
                return None;
            },
        }
        i += 1;
    }
    assert(bytes@.take(i as int) =~= bytes@);
    Some(n)
}

proof fn ones_of_a_byte(byte: u8, bits: int)
    ensures
        ones_upto(byte, bits) >= 0,
    decreases bits,
{
    if bits > 0 {
        ones_of_a_byte(byte, bits - 1);
    }
}

proof fn ones_only_grow(bytes: Seq<u8>, n: int)
    requires
        0 <= n <= bytes.len(),
    ensures
        ones(bytes.take(n)) <= ones(bytes),
    decreases bytes.len(),
{
    if n < bytes.len() {
        let rest = bytes.drop_last();
        assert(rest.take(n) =~= bytes.take(n));
        ones_only_grow(rest, n);
        ones_of_a_byte(bytes.last(), 8);
    } else {
        assert(bytes.take(n) =~= bytes);
    }
}

/// The participants are given canonically: as many bits are set as phones are
/// counted, and no byte is appended in vain.
pub open spec fn is_canonical(event: EventState) -> bool {
    &&& event.valid_count == event.participant_count
    &&& ones(event.packed_participants) == event.participant_count
    &&& event.packed_participants.len() > 0 ==> event.packed_participants.last() != 0
}

/// Whether the participants are given canonically.
pub fn has_canonical_participants(event: &AttestationEvent) -> (canonical: bool)
    ensures
        canonical == is_canonical(event@),
{
    let set_bits: Option<u64> = count_all_ones(&event.packed_participants);
    let n: usize = event.packed_participants.len();
    match set_bits {
        Some(bits) => event.valid_count == event.participant_count as u32 && bits
            == event.participant_count as u64 && (n == 0 || event.packed_participants[n - 1] != 0),
        None => false,
    }
}

/// The phones' part of the evidence out of an event.
pub open spec fn mobile_part(event: EventState) -> MobileState {
    MobileState {
        receipts_root: event.receipts_root,
        aggregate_signature: event.aggregate_signature,
        participant_count: event.participant_count,
        packed_participants: event.packed_participants,
        created_at_ms: event.created_at_ms,
    }
}

/// What the store has for a block.
#[derive(Debug)]
pub enum StoredEvidence {
    Found { evidence: ConsensusEvidence },
    Missing,
    Failed,
}

/// The contents of what the store has.
pub ghost enum StoredState {
    Found { evidence: EvidenceState },
    Missing,
    Failed,
}

impl View for StoredEvidence {
    type V = StoredState;

    open spec fn view(&self) -> StoredState {
        match self {
            StoredEvidence::Found { evidence } => StoredState::Found { evidence: evidence@ },
            StoredEvidence::Missing => StoredState::Missing,
            StoredEvidence::Failed => StoredState::Failed,
        }
    }
}

/// What a write comes to.
#[derive(Debug)]
pub enum WriteStep {
    Done { outcome: MobileEvidenceWriteOutcome },
    /// Store this evidence.
    Put { evidence: ConsensusEvidence },
}

/// The contents of what a write comes to.
pub ghost enum StepState {
    Done { outcome: MobileEvidenceWriteOutcome },
    Put { evidence: EvidenceState },
}

impl View for WriteStep {
    type V = StepState;

    open spec fn view(&self) -> StepState {
        match self {
            WriteStep::Done { outcome } => StepState::Done { outcome: *outcome },
            WriteStep::Put { evidence } => StepState::Put { evidence: evidence@ },
        }
    }
}

/// The phones' attestations are merged into the evidence of the commit, where
/// the event is canonical, the block is the same and nothing is there yet.
pub open spec fn write_step(event: EventState, stored: StoredState) -> StepState {
    if !is_canonical(event) {
        StepState::Done { outcome: MobileEvidenceWriteOutcome::InvalidEvent }
    } else {
        match stored {
            StoredState::Missing => StepState::Done {
                outcome: MobileEvidenceWriteOutcome::MissingConsensusEvidence,
            },
            StoredState::Failed => StepState::Done {
                outcome: MobileEvidenceWriteOutcome::GetFailed,
            },
            StoredState::Found { evidence } => if evidence.block_hash != event.block_hash {
                StepState::Done { outcome: MobileEvidenceWriteOutcome::BlockHashMismatch }
            } else if evidence.mobile is Some {
                StepState::Done { outcome: MobileEvidenceWriteOutcome::AlreadyPresent }
            } else {
                StepState::Put {
                    evidence: EvidenceState { mobile: Some(mobile_part(event)), ..evidence },
                }
            },
        }
    }
}

/// Merges the phones' attestations into the evidence of the commit. Whether the
/// event is canonical can be asked before the store is.
pub fn write_mobile_evidence_once(event: &AttestationEvent, stored: StoredEvidence) -> (step:
    WriteStep)
    ensures
        step@ == write_step(event@, stored@),
{
    if !has_canonical_participants(event) {
        return WriteStep::Done { outcome: MobileEvidenceWriteOutcome::InvalidEvent };
    }
    match stored {
        StoredEvidence::Missing => WriteStep::Done {
            outcome: MobileEvidenceWriteOutcome::MissingConsensusEvidence,
        },
        StoredEvidence::Failed => WriteStep::Done {
            outcome: MobileEvidenceWriteOutcome::GetFailed,
        },
        StoredEvidence::Found { evidence } => {
            if !same_key(&evidence.block_hash, &event.block_hash) {
                return WriteStep::Done { outcome: MobileEvidenceWriteOutcome::BlockHashMismatch };
            }
            if evidence.mobile.is_some() {
                return WriteStep::Done { outcome: MobileEvidenceWriteOutcome::AlreadyPresent };
            }
            let mobile = MobileEvidence {
                receipts_root: event.receipts_root,
                aggregate_signature: event.aggregate_signature,
                participant_count: event.participant_count,
                packed_participants: copy_bytes(&event.packed_participants),
                created_at_ms: event.created_at_ms,
            };
            WriteStep::Put {
                evidence: ConsensusEvidence {
                    view: evidence.view,
                    block_hash: evidence.block_hash,
                    aggregate_signature: evidence.aggregate_signature,
                    signer_count: evidence.signer_count,
                    packed_signers: evidence.packed_signers,
                    mobile: Some(mobile),
                },
            }
        },
    }
}

/// How a write ended, given whether the store took it.
pub fn after_put(stored: bool) -> (outcome: MobileEvidenceWriteOutcome)
    ensures
        outcome == if stored {
            MobileEvidenceWriteOutcome::Written
        } else {
            MobileEvidenceWriteOutcome::PutFailed
        },
{
    if stored {
        MobileEvidenceWriteOutcome::Written
    } else {
        MobileEvidenceWriteOutcome::PutFailed
    }
}

/// Whether a write is tried again: only where the evidence of the commit is not
/// there yet, and not too often. Tries are counted from one, and there is at
/// least one.
pub fn tries_again(
    config: &MobileEvidenceWriteConfig,
    attempt: usize,
    outcome: MobileEvidenceWriteOutcome,
) -> (again: bool)
    ensures
        again == (outcome == MobileEvidenceWriteOutcome::MissingConsensusEvidence && attempt
            < if config.max_attempts >= 1 {
            config.max_attempts
        } else {
            1
        }),
{
    let max_attempts: usize = if config.max_attempts >= 1 {
        config.max_attempts
    } else {
        1
    };
    outcome == MobileEvidenceWriteOutcome::MissingConsensusEvidence && attempt < max_attempts
}

/// Writing is idempotent: what a write stored, a second write of the same event
/// finds present.
pub proof fn writing_is_idempotent(event: EventState, before: EvidenceState, after: EvidenceState)
    requires
        write_step(event, StoredState::Found { evidence: before }) == (StepState::Put {
            evidence: after,
        }),
    ensures
        write_step(event, StoredState::Found { evidence: after }) == (StepState::Done {
            outcome: MobileEvidenceWriteOutcome::AlreadyPresent,
        }),
{
}

/// Writing leaves the commit's own evidence as it was.
pub proof fn writing_keeps_the_commit(event: EventState, before: EvidenceState, after: EvidenceState)
    requires
        write_step(event, StoredState::Found { evidence: before }) == (StepState::Put {
            evidence: after,
        }),
    ensures
        after.view == before.view,
        after.block_hash == before.block_hash,
        after.aggregate_signature == before.aggregate_signature,
        after.signer_count == before.signer_count,
        after.packed_signers == before.packed_signers,
{
}

/// The ones of a byte are its binary digits added up; those of a list, the ones of
/// its bytes.
pub proof fn ones_are_binary_digits(byte: u8, bytes: Seq<u8>)
    ensures
        ones(bytes.push(byte)) == ones(bytes) + byte % 2 + byte / 2 % 2 + byte / 4 % 2 + byte / 8 % 2
            + byte / 16 % 2 + byte / 32 % 2 + byte / 64 % 2 + byte / 128,
        ones(Seq::empty()) == 0,
{
    reveal_with_fuel(ones_upto, 9);
    assert(bytes.push(byte).drop_last() =~= bytes);
    assert((byte >> 0u8) & 1 == byte % 2 && (byte >> 1u8) & 1 == byte / 2 % 2 && (byte >> 2u8) & 1
        == byte / 4 % 2 && (byte >> 3u8) & 1 == byte / 8 % 2 && (byte >> 4u8) & 1 == byte / 16 % 2
        && (byte >> 5u8) & 1 == byte / 32 % 2 && (byte >> 6u8) & 1 == byte / 64 % 2 && (byte >> 7u8)
        & 1 == byte / 128) by (bit_vector);
}

/// Evidence is written exactly where the event counts each participant once, all
/// of them valid, without a byte too many, and the stored commit is of the same
/// block and has no evidence yet. What is written is what the event says.
pub proof fn evidence_is_written_where_it_fits(event: EventState, evidence: EvidenceState)
    ensures
        ({
            let step = write_step(event, StoredState::Found { evidence });
            let packed = event.packed_participants;
            let counted = event.valid_count == event.participant_count && ones(packed)
                == event.participant_count && (packed.len() == 0 || packed.last() != 0);
            &&& !counted ==> step == (StepState::Done {
                outcome: MobileEvidenceWriteOutcome::InvalidEvent,
            })
            &&& counted && evidence.block_hash != event.block_hash ==> step == (StepState::Done {
                outcome: MobileEvidenceWriteOutcome::BlockHashMismatch,
            })
            &&& counted && evidence.block_hash == event.block_hash && evidence.mobile is Some
                ==> step == (StepState::Done {
                outcome: MobileEvidenceWriteOutcome::AlreadyPresent,
            })
            &&& counted && evidence.block_hash == event.block_hash && evidence.mobile is None ==> (
            step matches StepState::Put { evidence: after } && (after.mobile matches Some(mobile) && {
                &&& mobile.receipts_root == event.receipts_root
                &&& mobile.aggregate_signature == event.aggregate_signature
                &&& mobile.participant_count == event.participant_count
                &&& mobile.packed_participants == packed
                &&& mobile.created_at_ms == event.created_at_ms
            }) && (EvidenceState { mobile: None, ..after }) == evidence)
            &&& counted ==> write_step(event, StoredState::Missing) == (StepState::Done {
                outcome: MobileEvidenceWriteOutcome::MissingConsensusEvidence,
            }) && write_step(event, StoredState::Failed) == (StepState::Done {
                outcome: MobileEvidenceWriteOutcome::GetFailed,
            })
            &&& !counted ==> write_step(event, StoredState::Missing) == (StepState::Done {
                outcome: MobileEvidenceWriteOutcome::InvalidEvent,
            }) && write_step(event, StoredState::Failed) == (StepState::Done {
                outcome: MobileEvidenceWriteOutcome::InvalidEvent,
            })
        }),
{
}

} // verus!
