//! Drives consensus, the network and the execution layer: what the node does
//! with each event, as decisions on plain values.

pub mod broadcast;
pub mod cache;
pub mod chain;
pub mod consensus_loop;
pub mod execution_bridge;
pub mod finalize;
pub mod forward;
pub mod imports;
pub mod network;
pub mod observer;
pub mod pipeline;
pub mod run;
pub mod schedule;
pub mod sync;

use crate::crypto::{keccak256, keccak256_of};
use crate::primitives::{
    same_key, saturating_mul_u64, saturating_product, Address, B256, ZERO_ADDRESS, ZERO_HASH,
};
use broadcast::announced_block;
use cache::{nothing_pending, PendingBlocks, PendingState};
use chain::{
    max_committed_blocks, CommittedChain, CommittedState, QcState, QuorumCertificate,
    DEFAULT_MAX_COMMITTED_BLOCKS,
};
use forward::TxForwardBuffer;
use imports::{no_imports, BackgroundImports, BgState, EagerGuard, SyncingQueue};
use pipeline::{PipelineTiming, PipelineTimings};
use schedule::{max_consecutive_empty_skips, BuildSchedule, DEFAULT_MAX_EMPTY_SKIPS};
use sync::{sync_request_timeout, Peers, SyncTracker, DEFAULT_SYNC_TIMEOUT_SECS};
use vstd::prelude::*;

verus! {

/// A committed block whose data has not arrived.
#[derive(Debug)]
pub struct PendingFinalization {
    pub view: u64,
    pub block_hash: B256,
    pub commit_qc: QuorumCertificate,
}

/// The contents of a deferred finalization.
pub type PendingFinalizationState = (u64, B256, QcState);

impl View for PendingFinalization {
    type V = PendingFinalizationState;

    open spec fn view(&self) -> PendingFinalizationState {
        (self.view, self.block_hash, self.commit_qc@)
    }
}

/// What a node's operator decides.
#[derive(Clone, Copy, Debug, PartialEq, Eq, Structural)]
pub struct OrchestratorConfig {
    pub slot_time_ms: u64,
    pub fast_propose: bool,
    pub min_propose_delay_ms: u64,
    pub max_empty_skips: u32,
    pub sync_timeout_ms: u64,
    pub max_committed_blocks: usize,
}

/// What the operator set, with defaults: no slots, no delay, three skips, half a
/// minute for an answer and ten thousand blocks.
pub fn orchestrator_config(
    block_interval_ms: Option<u64>,
    fast_propose: Option<u64>,
    min_propose_delay_ms: Option<u64>,
    max_empty_skips: Option<u32>,
    sync_timeout_secs: Option<u64>,
    sync_buffer_size: Option<usize>,
) -> (config: OrchestratorConfig)
    ensures
        config.slot_time_ms == match block_interval_ms {
            Some(ms) => ms,
            None => 0,
        },
        config.fast_propose == (fast_propose matches Some(n) && n > 0),
        config.min_propose_delay_ms == match min_propose_delay_ms {
            Some(ms) => ms,
            None => 0,
        },
        config.max_empty_skips == match max_empty_skips {
            Some(n) => n,
            None => DEFAULT_MAX_EMPTY_SKIPS,
        },
        config.sync_timeout_ms == saturating_product(
            match sync_timeout_secs {
                Some(secs) => secs,
                None => DEFAULT_SYNC_TIMEOUT_SECS,
            } as int,
            1_000,
            u64::MAX as int,
        ),
        config.max_committed_blocks == match sync_buffer_size {
            Some(n) => n,
            None => DEFAULT_MAX_COMMITTED_BLOCKS,
        },
{
    OrchestratorConfig {
        slot_time_ms: match block_interval_ms {
            Some(ms) => ms,
            None => 0,
        },
        fast_propose: match fast_propose {
            Some(n) => n > 0,
            None => false,
        },
        min_propose_delay_ms: match min_propose_delay_ms {
            Some(ms) => ms,
            None => 0,
        },
        max_empty_skips: max_consecutive_empty_skips(max_empty_skips),
        sync_timeout_ms: saturating_mul_u64(sync_request_timeout(sync_timeout_secs), 1_000),
        max_committed_blocks: max_committed_blocks(sync_buffer_size),
    }
}

/// What the orchestrator knows.
#[verifier::ext_equal]
pub ghost struct OrchState {
    pub has_execution_layer: bool,
    pub has_validator_set: bool,
    pub allow_deterministic_validator_peers: bool,
    pub fee_recipient: Address,
    pub head: B256,
    pub committed_block_count: u64,
    pub last_committed_timestamp: u64,
    pub prev_randao: B256,
    pub view_started_at: Option<u64>,
    pub speculative_build_hash: Option<B256>,
    pub building_on_parent: Option<B256>,
    pub build_triggered_at: Option<u64>,
    pub pending_finalization: Option<PendingFinalizationState>,
    pub schedule: BuildSchedule,
    pub chain: Seq<CommittedState>,
    pub chain_limit: usize,
    pub pending: PendingState,
    pub sync: SyncTracker,
    pub peers: Seq<u64>,
    pub bg: BgState,
    pub syncing: Seq<(Seq<u8>, u32)>,
    pub eager: EagerGuard,
    pub timings: Map<B256, PipelineTiming>,
    pub forward: Seq<Seq<u8>>,
}

/// Bridges consensus with the network and the execution layer.
pub struct ConsensusOrchestrator {
    has_execution_layer: bool,
    has_validator_set: bool,
    allow_deterministic_validator_peers: bool,
    fee_recipient: Address,
    head_block_hash: B256,
    committed_block_count: u64,
    last_committed_timestamp: u64,
    prev_randao: B256,
    view_started_at: Option<u64>,
    speculative_build_hash: Option<B256>,
    building_on_parent: Option<B256>,
    build_triggered_at: Option<u64>,
    pending_finalization: Option<PendingFinalization>,
    schedule: BuildSchedule,
    chain: CommittedChain,
    pending: PendingBlocks,
    sync: SyncTracker,
    peers: Peers,
    bg: BackgroundImports,
    syncing: SyncingQueue,
    eager: EagerGuard,
    timings: PipelineTimings,
    forward: TxForwardBuffer,
}

impl View for ConsensusOrchestrator {
    type V = OrchState;

    closed spec fn view(&self) -> OrchState {
        OrchState {
            has_execution_layer: self.has_execution_layer,
            has_validator_set: self.has_validator_set,
            allow_deterministic_validator_peers: self.allow_deterministic_validator_peers,
            fee_recipient: self.fee_recipient,
            head: self.head_block_hash,
            committed_block_count: self.committed_block_count,
            last_committed_timestamp: self.last_committed_timestamp,
            prev_randao: self.prev_randao,
            view_started_at: self.view_started_at,
            speculative_build_hash: self.speculative_build_hash,
            building_on_parent: self.building_on_parent,
            build_triggered_at: self.build_triggered_at,
            pending_finalization: match self.pending_finalization {
                Some(pending) => Some(pending@),
                None => None,
            },
            schedule: self.schedule,
            chain: self.chain@,
            chain_limit: self.chain.limit(),
            pending: self.pending@,
            sync: self.sync,
            peers: self.peers@,
            bg: self.bg@,
            syncing: self.syncing@,
            eager: self.eager,
            timings: self.timings@,
            forward: self.forward@,
        }
    }
}

/// A hash is the one that is kept, where one is.
pub open spec fn is_that_hash(kept: Option<B256>, hash: B256) -> bool {
    kept == Some(hash)
}

pub(crate) fn same_hash(kept: &Option<B256>, hash: &B256) -> (same: bool)
    ensures
        same == is_that_hash(*kept, *hash),
{
    match kept {
        Some(k) => same_key(k, hash),
        None => false,
    }
}

/// The randomness that a payload is built with: the hash of the last commit's
/// aggregate signature, zero before the first commit.
pub open spec fn randao_of(qc: Option<QcState>) -> B256 {
    match qc {
        Some(qc) => keccak256_of(qc.aggregate_signature),
        None => ZERO_HASH,
    }
}

/// The randomness that a payload is built with.
pub fn prev_randao(qc: Option<&QuorumCertificate>) -> (randao: B256)
    ensures
        randao == randao_of(
            match qc {
                Some(qc) => Some(qc@),
                None => None,
            },
        ),
{
    match qc {
        Some(qc) => keccak256(&qc.aggregate_signature),
        None => ZERO_HASH,
    }
}

/// The later of two timestamps; zero stands for an unknown one.
pub open spec fn later_timestamp(last: u64, seen: u64) -> u64 {
    if seen > last {
        seen
    } else {
        last
    }
}

/// The payload that the cached data of a block holds; empty where the data is
/// missing or cannot be read.
pub open spec fn cached_payload(data: Map<B256, Seq<u8>>, hash: B256) -> Seq<u8> {
    if data.contains_key(hash) {
        match announced_block(data[hash]) {
            Some(block) => block.2,
            None => Seq::empty(),
        }
    } else {
        Seq::empty()
    }
}

/// What an orchestrator knows at start.
pub open spec fn initial_state(
    config: OrchestratorConfig,
    has_execution_layer: bool,
    head: B256,
    fee_recipient: Address,
) -> OrchState {
    OrchState {
        has_execution_layer,
        has_validator_set: false,
        allow_deterministic_validator_peers: true,
        fee_recipient,
        head,
        committed_block_count: 0,
        last_committed_timestamp: 0,
        prev_randao: ZERO_HASH,
        view_started_at: None,
        speculative_build_hash: None,
        building_on_parent: None,
        build_triggered_at: None,
        pending_finalization: None,
        schedule: BuildSchedule {
            slot_time_ms: config.slot_time_ms,
            fast_propose: config.fast_propose,
            min_propose_delay_ms: config.min_propose_delay_ms,
            max_empty_skips: config.max_empty_skips,
            next_build_at: None,
            next_slot_timestamp: None,
            consecutive_empty_skips: 0,
        },
        chain: Seq::empty(),
        chain_limit: config.max_committed_blocks,
        pending: nothing_pending(),
        sync: SyncTracker {
            timeout_ms: config.sync_timeout_ms,
            in_flight: false,
            started_at: None,
        },
        peers: Seq::empty(),
        bg: no_imports(),
        syncing: Seq::empty(),
        eager: EagerGuard { highest: 0 },
        timings: Map::empty(),
        forward: Seq::empty(),
    }
}

impl ConsensusOrchestrator {
    /// Every part is within its limits.
    pub closed spec fn wf(self) -> bool {
        &&& self.chain.wf()
        &&& self.pending.wf()
        &&& self.peers.wf()
        &&& self.bg.wf()
        &&& self.syncing.wf()
        &&& self.timings.wf()
    }

    /// An orchestrator without an execution layer.
    pub fn new(config: OrchestratorConfig) -> (orchestrator: Self)
        ensures
            orchestrator.wf(),
            orchestrator@ == initial_state(config, false, ZERO_HASH, ZERO_ADDRESS),
    {
        Self::at_head(config, false, ZERO_HASH, ZERO_ADDRESS)
    }

    /// An orchestrator that drives an execution layer from its head on.
    pub fn with_engine_api(
        config: OrchestratorConfig,
        head_block_hash: B256,
        fee_recipient: Address,
    ) -> (orchestrator: Self)
        ensures
            orchestrator.wf(),
            orchestrator@ == initial_state(config, true, head_block_hash, fee_recipient),
    {
        Self::at_head(config, true, head_block_hash, fee_recipient)
    }

    fn at_head(
        config: OrchestratorConfig,
        has_execution_layer: bool,
        head_block_hash: B256,
        fee_recipient: Address,
    ) -> (orchestrator: Self)
        ensures
            orchestrator.wf(),
            orchestrator@ == initial_state(
                config,
                has_execution_layer,
                head_block_hash,
                fee_recipient,
            ),
    {
        ConsensusOrchestrator {
            has_execution_layer,
            has_validator_set: false,
            allow_deterministic_validator_peers: true,
            fee_recipient,
            head_block_hash,
            committed_block_count: 0,
            last_committed_timestamp: 0,
            prev_randao: ZERO_HASH,
            view_started_at: None,
            speculative_build_hash: None,
            building_on_parent: None,
            build_triggered_at: None,
            pending_finalization: None,
            schedule: BuildSchedule::new(
                config.slot_time_ms,
                config.fast_propose,
                config.min_propose_delay_ms,
                config.max_empty_skips,
            ),
            chain: CommittedChain::new(config.max_committed_blocks),
            pending: PendingBlocks::new(),
            sync: SyncTracker::new(config.sync_timeout_ms),
            peers: Peers::new(),
            bg: BackgroundImports::new(),
            syncing: SyncingQueue::new(),
            eager: EagerGuard::new(),
            timings: PipelineTimings::new(),
            forward: TxForwardBuffer::new(),
        }
    }

    /// Sets whether a validator set is known to check synced blocks against.
    pub fn with_validator_set(self, has_validator_set: bool) -> (orchestrator: Self)
        requires
            self.wf(),
        ensures
            orchestrator.wf(),
            orchestrator@ == (OrchState { has_validator_set, ..self@ }),
    {
        let mut orchestrator = self;
        orchestrator.has_validator_set = has_validator_set;
        orchestrator
    }

    /// Restores the number of committed blocks.
    pub fn with_committed_block_count(self, count: u64) -> (orchestrator: Self)
        requires
            self.wf(),
        ensures
            orchestrator.wf(),
            orchestrator@ == (OrchState { committed_block_count: count, ..self@ }),
    {
        let mut orchestrator = self;
        orchestrator.committed_block_count = count;
        orchestrator
    }

    /// Sets whether validator peers may be derived where none is configured.
    pub fn with_allow_deterministic_validator_peers(self, allow: bool) -> (orchestrator: Self)
        requires
            self.wf(),
        ensures
            orchestrator.wf(),
            orchestrator@ == (OrchState { allow_deterministic_validator_peers: allow, ..self@ }),
    {
        let mut orchestrator = self;
        orchestrator.allow_deterministic_validator_peers = allow;
        orchestrator
    }

    /// The head of the chain.
    pub fn head_block_hash(&self) -> (head: B256)
        ensures
            head == self@.head,
    {
        self.head_block_hash
    }

    /// How many blocks were committed.
    pub fn committed_block_count(&self) -> (count: u64)
        ensures
            count == self@.committed_block_count,
    {
        self.committed_block_count
    }

    /// The latest timestamp that was seen or used.
    pub fn last_committed_timestamp(&self) -> (timestamp: u64)
        ensures
            timestamp == self@.last_committed_timestamp,
    {
        self.last_committed_timestamp
    }

    /// When the next build is due.
    pub fn next_build_at(&self) -> (at: Option<u64>)
        ensures
            at == self@.schedule.next_build_at,
    {
        self.schedule.next_build_at
    }

    /// Whether a sync request is under way, and since when.
    pub fn sync_tracker(&self) -> (sync: SyncTracker)
        ensures
            sync == self@.sync,
    {
        self.sync
    }

    /// The peers that are connected.
    pub fn connected_peers(&self) -> (peers: &Peers)
        ensures
            peers@ == self@.peers,
    {
        &self.peers
    }

    /// The committed blocks that are kept.
    pub fn committed_blocks(&self) -> (chain: &CommittedChain)
        ensures
            chain@ == self@.chain,
            chain.limit() == self@.chain_limit,
    {
        &self.chain
    }

    /// What is cached and waited for.
    pub fn pending_blocks(&self) -> (pending: &PendingBlocks)
        requires
            self.wf(),
        ensures
            pending@ == self@.pending,
            pending.wf(),
    {
        &self.pending
    }

    /// Whether finalization of a block waits for its data.
    pub fn is_finalization_pending(&self, hash: &B256) -> (pending: bool)
        ensures
            pending == (self@.pending_finalization matches Some(p) && p.1 == *hash),
    {
        match &self.pending_finalization {
            Some(p) => same_key(&p.block_hash, hash),
            None => false,
        }
    }

    /// What keeps a block number from being imported twice ahead of its commit.
    pub fn eager_guard(&mut self) -> (guard: &mut EagerGuard)
        requires
            old(self).wf(),
        ensures
            *guard == old(self)@.eager,
            final(self)@ == (OrchState { eager: *final(guard), ..old(self)@ }),
            final(self).wf(),
    {
        &mut self.eager
    }

    /// The transactions on their way to the leader.
    pub fn tx_forward_buffer(&mut self) -> (buffer: &mut TxForwardBuffer)
        requires
            old(self).wf(),
        ensures
            buffer@ == old(self)@.forward,
            final(self)@ == (OrchState { forward: final(buffer)@, ..old(self)@ }),
            final(self).wf(),
    {
        &mut self.forward
    }
}

/// A new node stands at the given head, has committed nothing, waits for nothing,
/// knows no peer and has no build arranged; its limits are the configured ones.
pub proof fn new_nodes_start_at_their_head(
    config: OrchestratorConfig,
    has_execution_layer: bool,
    head: B256,
    fee_recipient: Address,
    hash: B256,
)
    ensures
        ({
            let s = initial_state(config, has_execution_layer, head, fee_recipient);
            &&& s.head == head && s.fee_recipient == fee_recipient && s.has_execution_layer
                == has_execution_layer
            &&& s.committed_block_count == 0 && s.chain.len() == 0 && s.last_committed_timestamp
                == 0
            &&& s.pending_finalization is None && s.speculative_build_hash is None
                && s.building_on_parent is None
            &&& s.schedule.next_build_at is None && s.schedule.next_slot_timestamp is None
                && s.schedule.consecutive_empty_skips == 0
            &&& s.schedule.slot_time_ms == config.slot_time_ms && s.schedule.max_empty_skips
                == config.max_empty_skips && s.schedule.min_propose_delay_ms
                == config.min_propose_delay_ms && s.schedule.fast_propose == config.fast_propose
            &&& s.chain_limit == config.max_committed_blocks && s.sync.timeout_ms
                == config.sync_timeout_ms
            &&& !s.sync.in_flight && s.peers.len() == 0 && s.bg.running is None && s.bg.queue.len()
                == 0 && s.syncing.len() == 0 && s.forward.len() == 0
            &&& !s.pending.data.contains_key(hash) && !s.timings.contains_key(hash)
        }),
{
}

} // verus!
