//! What consensus shares with the payload builder and the RPC: the latest
//! commit, the phones' attestations, and evidence of misbehaviour.
use crate::keyed::{ByteMap, ByteSet};
use crate::names::NameSet;
use crate::now_unix_ms;
use crate::orchestrator::chain::{QcState, QuorumCertificate};
use crate::primitives::{same_key, PubKey, B256};
use crate::ring::{ring_push, Ring};
use vstd::prelude::*;

verus! {

/// How many phones must attest to a block when nothing is configured.
pub const DEFAULT_ATTESTATION_THRESHOLD: u32 = 10;

/// How many attestation records are kept.
pub const MAX_ATTESTATION_HISTORY: usize = 1000;

/// How many pieces of evidence are kept.
pub const MAX_EQUIVOCATION_LOG: usize = 500;

/// How many blocks are tracked for attestation.
pub const MAX_TRACKED_ATTESTATION_BLOCKS: usize = 100;

/// A block for phones to verify.
#[derive(Clone, Copy, Debug, PartialEq, Eq)]
pub struct VerificationTask {
    pub block_hash: B256,
    pub block_number: u64,
}

/// The attestations to one block.
#[derive(Debug)]
pub struct BlockAttestations {
    pub block_number: u64,
    /// The keys of the phones that attested, in hex.
    pub attesters: NameSet,
    pub threshold: u32,
    pub reached_threshold: bool,
}

/// The contents of the attestations to one block.
#[verifier::ext_equal]
pub ghost struct BlockState {
    pub block_number: u64,
    pub attesters: Set<Seq<char>>,
    pub threshold: u32,
    pub reached_threshold: bool,
}

impl View for BlockAttestations {
    type V = BlockState;

    open spec fn view(&self) -> BlockState {
        BlockState {
            block_number: self.block_number,
            attesters: self.attesters@,
            threshold: self.threshold,
            reached_threshold: self.reached_threshold,
        }
    }
}

/// A block to which nobody has attested.
pub open spec fn unattested(block_number: u64, threshold: u32) -> BlockState {
    BlockState { block_number, attesters: Set::empty(), threshold, reached_threshold: false }
}

/// A block after one more phone attested: with it, enough have or not.
pub open spec fn attested(block: BlockState, pubkey_hex: Seq<char>) -> BlockState {
    let attesters = block.attesters.insert(pubkey_hex);
    BlockState { attesters, reached_threshold: attesters.len() >= block.threshold, ..block }
}

/// A block after these phones attested, one after the other.
pub open spec fn attested_by(block: BlockState, keys: Seq<Seq<char>>) -> BlockState
    decreases keys.len(),
{
    if keys.len() == 0 {
        block
    } else {
        attested(attested_by(block, keys.drop_last()), keys.last())
    }
}

/// The block is marked as attested to exactly where phones attested, and as many
/// as it takes.
pub open spec fn marked_right(block: BlockState, threshold: u32) -> bool {
    &&& block.threshold == threshold
    &&& block.attesters.finite()
    &&& block.reached_threshold == (block.attesters.len() > 0 && block.attesters.len()
        >= threshold)
}

/// `oldest` is a tracked block with the lowest number.
pub open spec fn is_oldest_block(blocks: Map<B256, BlockState>, oldest: B256) -> bool {
    blocks.contains_key(oldest) && forall|hash: B256| #[trigger]
        blocks.contains_key(hash) ==> blocks[oldest].block_number <= blocks[hash].block_number
}

/// The tracked blocks with a block among them: one that is there stays as it is.
pub open spec fn with_block(
    blocks: Map<B256, BlockState>,
    hash: B256,
    block_number: u64,
    threshold: u32,
) -> Map<B256, BlockState> {
    if blocks.contains_key(hash) {
        blocks
    } else {
        blocks.insert(hash, unattested(block_number, threshold))
    }
}

/// The tracked blocks after one more came: a block with the lowest number leaves
/// where the limit is reached.
pub open spec fn after_registering(
    before: Map<B256, BlockState>,
    hash: B256,
    block_number: u64,
    threshold: u32,
    max_blocks: usize,
    after: Map<B256, BlockState>,
) -> bool {
    if before.len() >= max_blocks && before.len() > 0 {
        exists|oldest: B256| #[trigger]
            is_oldest_block(before, oldest) && after == with_block(
                before.remove(oldest),
                hash,
                block_number,
                threshold,
            )
    } else {
        after == with_block(before, hash, block_number, threshold)
    }
}

/// The phones' attestations to the latest blocks.
#[derive(Debug)]
pub struct AttestationState {
    blocks: ByteMap<32, BlockAttestations>,
    threshold: u32,
    max_blocks: usize,
}

impl View for AttestationState {
    type V = Map<B256, BlockState>;

    closed spec fn view(&self) -> Map<B256, BlockState> {
        self.blocks@.map_values(|b: BlockAttestations| b@)
    }
}

impl AttestationState {
    /// How many phones must attest.
    pub closed spec fn threshold(self) -> u32 {
        self.threshold
    }

    /// How many blocks are tracked.
    pub closed spec fn max_blocks(self) -> usize {
        self.max_blocks
    }

    /// No more blocks are tracked than the limit allows; each is marked as
    /// attested to where enough phones attested.
    pub closed spec fn wf(self) -> bool {
        &&& self.blocks.wf()
        &&& self.blocks@.dom().finite()
        &&& self.blocks@.len() <= self.max_blocks || self.blocks@.len() <= 1
        &&& forall|hash: B256| #[trigger]
            self.blocks@.contains_key(hash) ==> self.blocks@[hash].attesters.wf() && marked_right(
                self.blocks@[hash]@,
                self.threshold,
            )
    }

    /// Every tracked block takes as many phones as the state says, and is marked
    /// as attested to exactly where that many attested.
    pub proof fn blocks_are_marked_right(&self)
        requires
            self.wf(),
        ensures
            forall|hash: B256| #[trigger]
                self@.contains_key(hash) ==> marked_right(self@[hash], self.threshold()),
    {
        assert forall|hash: B256| #[trigger] self@.contains_key(hash) implies marked_right(
            self@[hash],
            self.threshold(),
        ) by {
            assert(self.blocks@.contains_key(hash));
        }
    }

    /// No more blocks are tracked than the limit allows, or one.
    pub proof fn bounded(&self)
        requires
            self.wf(),
        ensures
            self@.dom().finite(),
            self@.len() <= self.max_blocks() || self@.len() <= 1,
    {
        assert(self@.dom() =~= self.blocks@.dom());
    }

    /// No blocks are tracked.
    pub fn new(threshold: u32, max_blocks: usize) -> (state: Self)
        ensures
            state.wf(),
            state@ == Map::<B256, BlockState>::empty(),
            state.threshold() == threshold,
            state.max_blocks() == max_blocks,
    {
        let state = AttestationState { blocks: ByteMap::new(), threshold, max_blocks };
        assert(state@ =~= Map::<B256, BlockState>::empty());
        state
    }

    /// How many blocks are tracked.
    pub fn len(&self) -> (n: usize)
        requires
            self.wf(),
        ensures
            n == self@.len(),
    {
        assert(self@.dom() =~= self.blocks@.dom());
        self.blocks.len()
    }

    fn oldest(&self) -> (oldest: B256)
        requires
            self.wf(),
            self@.len() > 0,
        ensures
            is_oldest_block(self@, oldest),
    {
        proof {
            assert(self@.dom() =~= self.blocks@.dom());
            self.blocks.keys_are_the_domain();
        }
        let n: usize = self.blocks.len();
        let mut oldest: B256 = self.blocks.key_at(0);
        let mut lowest: u64 = match self.blocks.get(&oldest) {
            Some(b) => b.block_number,
            None => 0,
        };
        let mut i: usize = 1;
        while i < n
            invariant
                self.wf(),
                n == self.blocks.keys().len(),
                1 <= i <= n,
                self.blocks@.contains_key(oldest),
                lowest == self.blocks@[oldest].block_number,
                forall|j: int|
                    0 <= j < i ==> lowest <= self.blocks@[#[trigger] self.blocks.keys()[j]].block_number,
            decreases n - i,
        {
            let key: B256 = self.blocks.key_at(i);
            if let Some(b) = self.blocks.get(&key) {
                if b.block_number < lowest {
                    oldest = key;
                    lowest = b.block_number;
                }
            }
            i += 1;
        }
        proof {
            self.blocks.keys_are_the_domain();
            assert forall|hash: B256| #[trigger] self@.contains_key(hash) implies self@[oldest].block_number
                <= self@[hash].block_number by {
                assert(self.blocks@.contains_key(hash));
                let j = choose|j: int|
                    0 <= j < self.blocks.keys().len() && self.blocks.keys()[j] == hash;
                assert(lowest <= self.blocks@[self.blocks.keys()[j]].block_number);
            }
        }
        oldest
    }

    /// Tracks a block; a block with the lowest number leaves where the limit is
    /// reached. A block that is tracked keeps its attestations.
    pub fn register_block(&mut self, block_hash: B256, block_number: u64)
        requires
            old(self).wf(),
        ensures
            final(self).wf(),
            final(self).threshold() == old(self).threshold(),
            final(self).max_blocks() == old(self).max_blocks(),
            after_registering(
                old(self)@,
                block_hash,
                block_number,
                old(self).threshold(),
                old(self).max_blocks(),
                final(self)@,
            ),
    {
        let ghost before = self@;
        assert(before.dom() =~= self.blocks@.dom());
        let n: usize = self.blocks.len();
        let ghost mut gone: Option<B256> = None;
        if n >= self.max_blocks && n > 0 {
            let oldest: B256 = self.oldest();
            let _ = self.blocks.remove(&oldest);
            proof {
                gone = Some(oldest);
                assert(self@ =~= before.remove(oldest));
            }
        }
        let ghost kept = self@;
        if !self.blocks.contains_key(&block_hash) {
            let block = BlockAttestations {
                block_number,
                attesters: NameSet::new(),
                threshold: self.threshold,
                reached_threshold: false,
            };
            let ghost fresh = block@;
            self.blocks.insert(block_hash, block);
            assert(self@ =~= kept.insert(block_hash, fresh));
            assert(fresh =~= unattested(block_number, self.threshold));
        }
        assert(self@ =~= with_block(kept, block_hash, block_number, self.threshold));
        proof {
            if let Some(oldest) = gone {
                assert(is_oldest_block(before, oldest));
            }
        }
    }

    /// A phone attested to a block. Hands back how many have, and whether that
    /// is enough; nothing where the block is not tracked.
    pub fn record_attestation(&mut self, block_hash: B256, pubkey_hex: String) -> (result: Option<
        (u32, bool),
    >)
        requires
            old(self).wf(),
        ensures
            final(self).wf(),
            final(self).threshold() == old(self).threshold(),
            final(self).max_blocks() == old(self).max_blocks(),
            if old(self)@.contains_key(block_hash) {
                let block = attested(old(self)@[block_hash], pubkey_hex@);
                &&& final(self)@ == old(self)@.insert(block_hash, block)
                &&& result == Some(
                    (
                        block.attesters.len() as u32,
                        block.attesters.len() >= old(self).threshold(),
                    ),
                )
            } else {
                result is None && final(self)@ == old(self)@
            },
    {
        let ghost before = self@;
        let mut block = match self.blocks.remove(&block_hash) {
            Some(block) => block,
            None => {
                assert(self@ =~= before);
                return None;
            },
        };
        assert(block@ == before[block_hash]);
        let ghost known = block@.attesters;
        block.attesters.insert(pubkey_hex);
        let n: usize = block.attesters.len();
        let count: u32 = #[verifier::truncate]
        (n as u32);
        if count >= block.threshold && !block.reached_threshold {
            block.reached_threshold = true;
        }
        let reached = block.reached_threshold;
        let ghost after = block@;
        self.blocks.insert(block_hash, block);
        proof {
            assert(after.attesters == known.insert(pubkey_hex@));
            assert(after =~= attested(before[block_hash], pubkey_hex@));
            assert(self@ =~= before.insert(block_hash, after));
            assert(self.blocks@.dom() =~= old(self).blocks@.dom());
        }
        Some((count, reached))
    }

    /// How many phones attested to a block, where it is tracked.
    pub fn get_attestation_count(&self, block_hash: &B256) -> (count: Option<u32>)
        requires
            self.wf(),
        ensures
            count == if self@.contains_key(*block_hash) {
                Some(self@[*block_hash].attesters.len() as u32)
            } else {
                None
            },
    {
        match self.blocks.get(block_hash) {
            Some(block) => {
                let n: usize = block.attesters.len();
                Some(#[verifier::truncate]
                (n as u32))
            },
            None => None,
        }
    }
}

/// A phone counts once: a second attestation of the same key changes nothing.
pub proof fn attesting_twice_counts_once(block: BlockState, pubkey_hex: Seq<char>)
    ensures
        attested(attested(block, pubkey_hex), pubkey_hex) == attested(block, pubkey_hex),
{
    let once = attested(block, pubkey_hex);
    assert(once.attesters.insert(pubkey_hex) =~= once.attesters);
    assert(attested(once, pubkey_hex) =~= once);
}

/// An attestation of a phone that attested before changes nothing.
pub proof fn known_attester_changes_nothing(block: BlockState, pubkey_hex: Seq<char>)
    requires
        marked_right(block, block.threshold),
        block.attesters.contains(pubkey_hex),
    ensures
        attested(block, pubkey_hex) == block,
{
    assert(block.attesters.insert(pubkey_hex) =~= block.attesters);
    assert(block.attesters.len() > 0) by {
        if block.attesters.len() == 0 {
            assert(block.attesters =~= Set::empty());
        }
    }
}

/// However often and in whatever order phones attest to a block, each counts
/// once, and the block is marked exactly where as many as it takes did.
pub proof fn attestations_are_counted(block: BlockState, keys: Seq<Seq<char>>)
    requires
        marked_right(block, block.threshold),
    ensures
        attested_by(block, keys).attesters == block.attesters.union(keys.to_set()),
        attested_by(block, keys).block_number == block.block_number,
        attested_by(block, keys).threshold == block.threshold,
        marked_right(attested_by(block, keys), block.threshold),
    decreases keys.len(),
{
    if keys.len() == 0 {
        assert(keys.to_set() =~= Set::empty());
        assert(block.attesters.union(keys.to_set()) =~= block.attesters);
    } else {
        let rest = keys.drop_last();
        attestations_are_counted(block, rest);
        let before = attested_by(block, rest).attesters;
        assert(keys =~= rest.push(keys.last()));
        assert forall|key: Seq<char>| keys.to_set().contains(key) == (rest.to_set().contains(key)
            || key == keys.last()) by {
            if rest.to_set().contains(key) {
                let i = choose|i: int| 0 <= i < rest.len() && rest[i] == key;
                assert(keys[i] == key);
            }
            if key == keys.last() {
                assert(keys[keys.len() - 1] == key);
            }
            if keys.to_set().contains(key) && key != keys.last() {
                let i = choose|i: int| 0 <= i < keys.len() && keys[i] == key;
                assert(rest[i] == key);
            }
        }
        assert(before.insert(keys.last()) =~= block.attesters.union(keys.to_set()));
    }
}

/// A block that is new counts just the phones that attested, each once.
pub proof fn distinct_attesters_are_counted(
    block_number: u64,
    threshold: u32,
    keys: Seq<Seq<char>>,
)
    ensures
        ({
            let block = attested_by(unattested(block_number, threshold), keys);
            &&& block.attesters == keys.to_set()
            &&& block.reached_threshold == (keys.len() > 0 && keys.to_set().len() >= threshold)
        }),
{
    let block = unattested(block_number, threshold);
    attestations_are_counted(block, keys);
    assert(block.attesters.union(keys.to_set()) =~= keys.to_set());
    if keys.len() > 0 {
        assert(keys.to_set().contains(keys[0]));
        assert(keys.to_set().len() > 0) by {
            if keys.to_set().len() == 0 {
                assert(keys.to_set() =~= Set::empty());
            }
        }
    } else {
        assert(keys.to_set() =~= Set::empty());
    }
}

/// Enough attestations once are enough for good.
pub proof fn threshold_stays_reached(block: BlockState, pubkey_hex: Seq<char>)
    requires
        marked_right(block, block.threshold),
        block.reached_threshold,
    ensures
        attested(block, pubkey_hex).reached_threshold,
{
}

/// A record that a block was attested to.
#[derive(Clone, Copy, Debug, PartialEq, Eq)]
pub struct AttestationRecord {
    pub block_hash: B256,
    pub block_number: u64,
    pub valid_count: u32,
    pub timestamp: u64,
}

/// Evidence that a validator voted for two blocks in one view.
#[derive(Clone, Copy, Debug, PartialEq, Eq)]
pub struct EquivocationEvidence {
    pub view: u64,
    pub validator_index: u32,
    pub hash1: B256,
    pub hash2: B256,
    pub detected_at: u64,
}

/// How many phones must attest: at least one.
pub open spec fn effective_threshold(configured: Option<u32>) -> u32 {
    match configured {
        Some(0) => 1,
        Some(n) => n,
        None => DEFAULT_ATTESTATION_THRESHOLD,
    }
}

/// The first record of a block.
pub open spec fn first_record(history: Seq<AttestationRecord>, hash: B256) -> Option<
    AttestationRecord,
>
    decreases history.len(),
{
    if history.len() == 0 {
        None
    } else if history[0].block_hash == hash {
        Some(history[0])
    } else {
        first_record(history.drop_first(), hash)
    }
}

/// What is shared.
#[verifier::ext_equal]
pub ghost struct SharedState {
    pub latest_committed_qc: Option<QcState>,
    pub validator_count: u32,
    pub attestations: Map<B256, BlockState>,
    pub threshold: u32,
    pub max_blocks: usize,
    pub history: Seq<AttestationRecord>,
    pub equivocations: Seq<EquivocationEvidence>,
    pub authorized: Set<PubKey>,
    pub jmt_root: Option<(u64, B256)>,
    pub zk_latest_proof: Option<(u64, B256)>,
}

/// What consensus shares with the payload builder and the RPC.
#[derive(Debug)]
pub struct SharedConsensusState {
    latest_committed_qc: Option<QuorumCertificate>,
    validator_count: u32,
    attestation_state: AttestationState,
    attestation_history: Ring<AttestationRecord>,
    equivocation_log: Ring<EquivocationEvidence>,
    authorized_verifiers: ByteSet<48>,
    jmt_root: Option<(u64, B256)>,
    zk_latest_proof: Option<(u64, B256)>,
}

impl View for SharedConsensusState {
    type V = SharedState;

    closed spec fn view(&self) -> SharedState {
        SharedState {
            latest_committed_qc: match self.latest_committed_qc {
                Some(qc) => Some(qc@),
                None => None,
            },
            validator_count: self.validator_count,
            attestations: self.attestation_state@,
            threshold: self.attestation_state.threshold(),
            max_blocks: self.attestation_state.max_blocks(),
            history: self.attestation_history@,
            equivocations: self.equivocation_log@,
            authorized: self.authorized_verifiers@,
            jmt_root: self.jmt_root,
            zk_latest_proof: self.zk_latest_proof,
        }
    }
}

impl SharedConsensusState {
    /// Every part is within its limits.
    pub closed spec fn wf(self) -> bool {
        &&& self.attestation_state.wf()
        &&& self.attestation_history.wf()
        &&& self.attestation_history.limit() == MAX_ATTESTATION_HISTORY
        &&& self.equivocation_log.wf()
        &&& self.equivocation_log.limit() == MAX_EQUIVOCATION_LOG
        &&& self.authorized_verifiers.wf()
    }

    /// The history and the log are within their limits.
    pub proof fn bounded(&self)
        requires
            self.wf(),
        ensures
            self@.history.len() <= MAX_ATTESTATION_HISTORY,
            self@.equivocations.len() <= MAX_EQUIVOCATION_LOG,
    {
    }

    /// Nothing is committed yet. A threshold of zero counts as one.
    pub fn new(validator_count: u32, configured_threshold: Option<u32>) -> (state: Self)
        ensures
            state.wf(),
            state@ == (SharedState {
                latest_committed_qc: None,
                validator_count,
                attestations: Map::empty(),
                threshold: effective_threshold(configured_threshold),
                max_blocks: MAX_TRACKED_ATTESTATION_BLOCKS,
                history: Seq::empty(),
                equivocations: Seq::empty(),
                authorized: Set::empty(),
                jmt_root: None,
                zk_latest_proof: None,
            }),
    {
        let threshold: u32 = match configured_threshold {
            Some(n) => if n == 0 {
                1
            } else {
                n
            },
            None => DEFAULT_ATTESTATION_THRESHOLD,
        };
        SharedConsensusState {
            latest_committed_qc: None,
            validator_count,
            attestation_state: AttestationState::new(threshold, MAX_TRACKED_ATTESTATION_BLOCKS),
            attestation_history: Ring::new(MAX_ATTESTATION_HISTORY),
            equivocation_log: Ring::new(MAX_EQUIVOCATION_LOG),
            authorized_verifiers: ByteSet::new(),
            jmt_root: None,
            zk_latest_proof: None,
        }
    }

    /// How many validators there are.
    pub fn validator_count(&self) -> (n: u32)
        ensures
            n == self@.validator_count,
    {
        self.validator_count
    }

    /// The validator set changed.
    pub fn update_validator_set(&mut self, validator_count: u32)
        requires
            old(self).wf(),
        ensures
            final(self).wf(),
            final(self)@ == (SharedState { validator_count, ..old(self)@ }),
    {
        self.validator_count = validator_count;
    }

    /// A block was committed with this certificate.
    pub fn update_committed_qc(&mut self, qc: QuorumCertificate)
        requires
            old(self).wf(),
        ensures
            final(self).wf(),
            final(self)@ == (SharedState { latest_committed_qc: Some(qc@), ..old(self)@ }),
    {
        self.latest_committed_qc = Some(qc);
    }

    /// The certificate of the latest commit, where there is one.
    pub fn load_committed_qc(&self) -> (qc: Option<&QuorumCertificate>)
        ensures
            match qc {
                Some(qc) => self@.latest_committed_qc == Some(qc@),
                None => self@.latest_committed_qc is None,
            },
    {
        match &self.latest_committed_qc {
            Some(qc) => Some(qc),
            None => None,
        }
    }

    /// The phones' attestations.
    pub fn attestation_state(&mut self) -> (state: &mut AttestationState)
        requires
            old(self).wf(),
        ensures
            state.wf(),
            state@ == old(self)@.attestations,
            state.threshold() == old(self)@.threshold,
            state.max_blocks() == old(self)@.max_blocks,
            final(state).wf() ==> final(self).wf(),
            final(self)@ == (SharedState {
                attestations: final(state)@,
                threshold: final(state).threshold(),
                max_blocks: final(state).max_blocks(),
                ..old(self)@
            }),
    {
        &mut self.attestation_state
    }

    /// Records that a block was attested to, at a time that is given; the oldest
    /// record leaves where the limit is reached.
    pub fn record_attestation_at(
        &mut self,
        block_hash: B256,
        block_number: u64,
        valid_count: u32,
        timestamp: u64,
    )
        requires
            old(self).wf(),
        ensures
            final(self).wf(),
            final(self)@ == (SharedState {
                history: ring_push(
                    old(self)@.history,
                    MAX_ATTESTATION_HISTORY as int,
                    AttestationRecord { block_hash, block_number, valid_count, timestamp },
                ),
                ..old(self)@
            }),
    {
        self.attestation_history.push(
            AttestationRecord { block_hash, block_number, valid_count, timestamp },
        );
    }

    /// Records that a block was attested to now.
    pub fn record_attestation(&mut self, block_hash: B256, block_number: u64, valid_count: u32)
        requires
            old(self).wf(),
        ensures
            final(self).wf(),
            exists|record: AttestationRecord| #[trigger]
                ring_push(old(self)@.history, MAX_ATTESTATION_HISTORY as int, record)
                    == final(self)@.history && record.block_hash == block_hash && record.block_number
                    == block_number && record.valid_count == valid_count,
            final(self)@ == (SharedState { history: final(self)@.history, ..old(self)@ }),
    {
        let timestamp: u64 = now_unix_ms() / 1_000;
        self.record_attestation_at(block_hash, block_number, valid_count, timestamp);
    }

    /// The first record of a block.
    pub fn get_block_attestation(&self, block_hash: &B256) -> (record: Option<AttestationRecord>)
        ensures
            record == first_record(self@.history, *block_hash),
    {
        let n: usize = self.attestation_history.len();
        let mut i: usize = 0;
        assert(self@.history.skip(0) =~= self@.history);
        while i < n
            invariant
                n == self@.history.len(),
                i <= n,
                first_record(self@.history, *block_hash) == first_record(
                    self@.history.skip(i as int),
                    *block_hash,
                ),
            decreases n - i,
        {
            let record: AttestationRecord = *self.attestation_history.get(i);
            assert(self@.history.skip(i as int)[0] == record);
            assert(self@.history.skip(i as int).drop_first() =~= self@.history.skip(i + 1));
            if same_key(&record.block_hash, block_hash) {
                return Some(record);
            }
            i += 1;
        }
        None
    }

    /// How many records there are, and the block numbers of the first and last.
    pub fn attestation_stats(&self) -> (stats: (usize, Option<u64>, Option<u64>))
        ensures
            stats.0 == self@.history.len(),
            self@.history.len() == 0 ==> stats.1 is None && stats.2 is None,
            self@.history.len() > 0 ==> stats.1 == Some(self@.history[0].block_number) && stats.2
                == Some(self@.history.last().block_number),
    {
        let n: usize = self.attestation_history.len();
        if n == 0 {
            return (0, None, None);
        }
        (
            n,
            Some(self.attestation_history.get(0).block_number),
            Some(self.attestation_history.get(n - 1).block_number),
        )
    }

    /// Records that a validator voted twice, at a time that is given; the oldest
    /// evidence leaves where the limit is reached.
    pub fn record_equivocation_at(
        &mut self,
        view: u64,
        validator_index: u32,
        hash1: B256,
        hash2: B256,
        detected_at: u64,
    )
        requires
            old(self).wf(),
        ensures
            final(self).wf(),
            final(self)@ == (SharedState {
                equivocations: ring_push(
                    old(self)@.equivocations,
                    MAX_EQUIVOCATION_LOG as int,
                    EquivocationEvidence { view, validator_index, hash1, hash2, detected_at },
                ),
                ..old(self)@
            }),
    {
        self.equivocation_log.push(
            EquivocationEvidence { view, validator_index, hash1, hash2, detected_at },
        );
    }

    /// Records that a validator voted twice, now.
    pub fn record_equivocation(
        &mut self,
        view: u64,
        validator_index: u32,
        hash1: B256,
        hash2: B256,
    )
        requires
            old(self).wf(),
        ensures
            final(self).wf(),
            exists|evidence: EquivocationEvidence| #[trigger]
                ring_push(old(self)@.equivocations, MAX_EQUIVOCATION_LOG as int, evidence)
                    == final(self)@.equivocations && evidence.view == view
                    && evidence.validator_index == validator_index && evidence.hash1 == hash1
                    && evidence.hash2 == hash2,
            final(self)@ == (SharedState {
                equivocations: final(self)@.equivocations,
                ..old(self)@
            }),
    {
        let detected_at: u64 = now_unix_ms() / 1_000;
        self.record_equivocation_at(view, validator_index, hash1, hash2, detected_at);
    }

    /// The evidence, oldest first.
    pub fn get_equivocations(&self) -> (evidence: Vec<EquivocationEvidence>)
        ensures
            evidence@ == self@.equivocations,
    {
        let n: usize = self.equivocation_log.len();
        let mut evidence: Vec<EquivocationEvidence> = Vec::new();
        let mut i: usize = 0;
        while i < n
            invariant
                n == self@.equivocations.len(),
                i <= n,
                evidence@ == self@.equivocations.take(i as int),
            decreases n - i,
        {
            evidence.push(*self.equivocation_log.get(i));
            assert(evidence@ =~= self@.equivocations.take(i + 1));
            i += 1;
        }
        assert(evidence@ =~= self@.equivocations);
        evidence
    }

    /// A phone's key is authorized.
    pub fn authorize_verifier(&mut self, pubkey: PubKey)
        requires
            old(self).wf(),
        ensures
            final(self).wf(),
            final(self)@ == (SharedState {
                authorized: old(self)@.authorized.insert(pubkey),
                ..old(self)@
            }),
    {
        let _ = self.authorized_verifiers.insert(pubkey);
    }

    /// A phone's key is authorized no longer.
    pub fn deauthorize_verifier(&mut self, pubkey: &PubKey)
        requires
            old(self).wf(),
        ensures
            final(self).wf(),
            final(self)@ == (SharedState {
                authorized: old(self)@.authorized.remove(*pubkey),
                ..old(self)@
            }),
    {
        let _ = self.authorized_verifiers.remove(pubkey);
    }

    /// Whether a phone's key is authorized.
    pub fn is_authorized_verifier(&self, pubkey: &PubKey) -> (authorized: bool)
        ensures
            authorized == self@.authorized.contains(*pubkey),
    {
        self.authorized_verifiers.contains(pubkey)
    }

    /// The state trie has a new root.
    pub fn update_jmt_root(&mut self, version: u64, root: B256)
        requires
            old(self).wf(),
        ensures
            final(self).wf(),
            final(self)@ == (SharedState { jmt_root: Some((version, root)), ..old(self)@ }),
    {
        self.jmt_root = Some((version, root));
    }

    /// The version and the root of the state trie, where there is one.
    pub fn load_jmt_root(&self) -> (root: Option<(u64, B256)>)
        ensures
            root == self@.jmt_root,
    {
        self.jmt_root
    }

    /// A block was proved.
    pub fn update_zk_proof(&mut self, block_number: u64, block_hash: B256)
        requires
            old(self).wf(),
        ensures
            final(self).wf(),
            final(self)@ == (SharedState {
                zk_latest_proof: Some((block_number, block_hash)),
                ..old(self)@
            }),
    {
        self.zk_latest_proof = Some((block_number, block_hash));
    }

    /// The number and the hash of the latest block that was proved.
    pub fn load_zk_latest_proof(&self) -> (proof_of: Option<(u64, B256)>)
        ensures
            proof_of == self@.zk_latest_proof,
    {
        self.zk_latest_proof
    }

    /// A block was committed: it is tracked for attestation, and the phones are
    /// given it to verify.
    pub fn notify_block_committed(&mut self, block_hash: B256, block_number: u64) -> (task:
        VerificationTask)
        requires
            old(self).wf(),
        ensures
            final(self).wf(),
            task == (VerificationTask { block_hash, block_number }),
            after_registering(
                old(self)@.attestations,
                block_hash,
                block_number,
                old(self)@.threshold,
                old(self)@.max_blocks,
                final(self)@.attestations,
            ),
            final(self)@ == (SharedState {
                attestations: final(self)@.attestations,
                ..old(self)@
            }),
    {
        self.attestation_state.register_block(block_hash, block_number);
        VerificationTask { block_hash, block_number }
    }
}

/// What is authorized stays so until it is deauthorized, and nothing else is.
pub proof fn authorization_is_exact(authorized: Set<PubKey>, key: PubKey, other: PubKey)
    requires
        key != other,
    ensures
        authorized.insert(key).contains(key),
        !authorized.insert(key).remove(key).contains(key),
        authorized.insert(key).remove(key).contains(other) == authorized.contains(other),
{
}

/// A configured threshold counts as it is, but is never below one; ten attestations
/// are asked for where none is configured.
pub proof fn thresholds_are_positive(configured: Option<u32>)
    ensures
        effective_threshold(configured) >= 1,
        configured matches Some(n) ==> n >= 1 ==> effective_threshold(configured) == n,
        configured matches Some(n) ==> n == 0 ==> effective_threshold(configured) == 1,
        configured is None ==> effective_threshold(configured) == 10,
{
}

/// A block that is registered is followed, from nothing where it is new. Where the
/// table has room, every other block stays as it was; where it is full, only one
/// leaves, and none that is older stays.
pub proof fn registered_blocks_are_followed(
    before: Map<B256, BlockState>,
    hash: B256,
    block_number: u64,
    threshold: u32,
    max_blocks: usize,
    after: Map<B256, BlockState>,
    other: B256,
)
    requires
        before.dom().finite(),
        other != hash,
        after_registering(before, hash, block_number, threshold, max_blocks, after),
    ensures
        after.contains_key(hash),
        !before.contains_key(hash) ==> {
            &&& after[hash].block_number == block_number
            &&& after[hash].threshold == threshold
            &&& after[hash].attesters.len() == 0
            &&& !after[hash].reached_threshold
        },
        before.contains_key(hash) && before.len() < max_blocks ==> after == before,
        after.contains_key(other) ==> before.contains_key(other) && after[other] == before[other],
        before.contains_key(other) && before.len() < max_blocks ==> after.contains_key(other),
        before.contains_key(other) && !after.contains_key(other) ==> forall|k: B256| #[trigger]
            before.contains_key(k) ==> before[other].block_number <= before[k].block_number,
        before.len() <= max_blocks && max_blocks > 0 ==> after.len() <= max_blocks,
{
    if before.len() >= max_blocks && before.len() > 0 {
        let oldest = choose|oldest: B256| #[trigger]
            is_oldest_block(before, oldest) && after == with_block(
                before.remove(oldest),
                hash,
                block_number,
                threshold,
            );
        assert(is_oldest_block(before, oldest));
        assert(before.remove(oldest).dom() =~= before.dom().remove(oldest));
        if !before.remove(oldest).contains_key(hash) {
            assert(after.dom() =~= before.dom().remove(oldest).insert(hash));
        }
    } else if !before.contains_key(hash) {
        assert(after.dom() =~= before.dom().insert(hash));
    }
}

/// An attestation adds its phone, and no other, to those that attested; the
/// threshold is reached where so many did.
pub proof fn attesting_adds_the_phone(block: BlockState, pubkey_hex: Seq<char>, other: Seq<char>)
    requires
        block.attesters.finite(),
        other != pubkey_hex,
    ensures
        ({
            let after = attested(block, pubkey_hex);
            &&& after.attesters.contains(pubkey_hex)
            &&& after.attesters.contains(other) <==> block.attesters.contains(other)
            &&& !block.attesters.contains(pubkey_hex) ==> after.attesters.len()
                == block.attesters.len() + 1
            &&& after.reached_threshold <==> after.attesters.len() >= block.threshold
            &&& after.block_number == block.block_number && after.threshold == block.threshold
        }),
{
}

/// A lookup finds the oldest record of a block, and one wherever there is one.
pub proof fn lookups_find_the_first_record(history: Seq<AttestationRecord>, hash: B256) -> (at: int)
    ensures
        match first_record(history, hash) {
            Some(found) => {
                &&& 0 <= at < history.len()
                &&& history[at] == found
                &&& found.block_hash == hash
                &&& forall|i: int| 0 <= i < at ==> (#[trigger] history[i]).block_hash != hash
            },
            None => forall|i: int|
                0 <= i < history.len() ==> (#[trigger] history[i]).block_hash != hash,
        },
    decreases history.len(),
{
    if history.len() == 0 || history[0].block_hash == hash {
        0
    } else {
        let rest = history.drop_first();
        let at = lookups_find_the_first_record(rest, hash);
        assert forall|i: int|
            0 <= i < history.len() && (first_record(rest, hash) is Some ==> i < at + 1) implies (
        #[trigger] history[i]).block_hash != hash by {
            if i > 0 {
                assert(rest[i - 1] == history[i]);
            }
        }
        at + 1
    }
}

} // verus!
