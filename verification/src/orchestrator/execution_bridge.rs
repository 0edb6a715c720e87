//! Payloads on their way between consensus and the execution layer.
use super::broadcast::{
    announced_block, bundle_json, decode_block, encode_block, execution_payload, optional_bytes,
    ready_payload, BlockDataBroadcast, BroadcastFields, ReadyPayload,
};
use super::cache::{has_room, nothing_pending, room_costs_one_block, with_room, PendingState};
use super::consensus_loop::awaits_finalization;
use super::imports::{
    after_queueing, is_accepted, syncing_state, took, tried_again, EagerGuard, PayloadStatus,
    SyncingBlock, MAX_SYNCING_QUEUE_SIZE, MAX_SYNCING_RETRIES,
};
use super::pipeline::{after_recording, PipelineTiming};
use super::schedule::{after_retry, Clock, BUILD_RETRY_MS};
use super::{is_that_hash, later_timestamp, same_hash, ConsensusOrchestrator, OrchState};
use crate::codec::{
    compress_payload, has_magic, payload_content, zstd_content, zstd_frame, MAX_DECOMPRESSED,
    ZSTD_LEVEL,
};
use crate::primitives::{max_u64, same_key, Address, B256, ZERO_HASH};
use vstd::prelude::*;
use vstd::string::StrSliceExecFns;

verus! {

/// Followers may skip execution, unless the setting is `0`.
pub fn compact_block_enabled(setting: Option<&str>) -> (enabled: bool)
    ensures
        enabled == !(setting matches Some(s) && s@ == seq!['0']),
{
    match setting {
        Some(s) => {
            let off = s.unicode_len() == 1 && s.get_char(0) == '0';
            assert(off ==> s@ =~= seq!['0']);
            assert(s@ == seq!['0'] ==> s@.len() == 1 && s@[0] == '0');
            !off
        },
        None => true,
    }
}

/// What the execution layer builds a payload from.
#[derive(Clone, Copy, Debug, PartialEq, Eq)]
pub struct PayloadAttributes {
    pub timestamp: u64,
    pub prev_randao: B256,
    pub suggested_fee_recipient: Address,
    /// There is no beacon chain: always zero.
    pub parent_beacon_block_root: B256,
}

/// A payload build to start.
#[derive(Clone, Copy, Debug, PartialEq, Eq)]
pub struct BuildRequest {
    /// The block to build on: it is head, safe and finalized.
    pub head: B256,
    pub attributes: PayloadAttributes,
    /// The block number whose withdrawals the payload pays out.
    pub withdrawals_for_block: u64,
}

/// What the execution layer answers to a build request.
#[derive(Clone, Copy, Debug, PartialEq, Eq, Structural)]
pub enum BuildResponse {
    /// The build started.
    Started,
    /// Nothing is built: the execution layer still syncs.
    NoPayload,
    /// The call failed.
    Failed,
}

/// What comes after the answer.
#[derive(Clone, Copy, Debug, PartialEq, Eq, Structural)]
pub enum BuildStep {
    /// Wait for the payload.
    Resolve,
    /// Ask again with this timestamp.
    Again { timestamp: u64 },
    /// Leave it; a leader tries again later.
    Stop,
}

/// What becomes of announced block data.
#[derive(Debug)]
pub enum BlockData {
    /// The bytes are no block.
    Unreadable,
    /// The block's data is cached already.
    Duplicate,
    /// The cache has no room for it.
    NotCached,
    /// The data is cached: consensus can be told.
    Cached { block: BlockDataBroadcast },
}

/// What becomes of an imported block.
#[derive(Clone, Copy, Debug, PartialEq, Eq, Structural)]
pub enum ImportOutcome {
    /// The block is the new head: consensus is told.
    Imported {
        /// The view of the finalization that waited for the block: the phones
        /// are told.
        finalized_view: Option<u64>,
        /// Build the next payload now.
        build_now: bool,
        /// Try the blocks again that wait for the execution layer.
        retry_syncing: bool,
    },
    /// The execution layer knows the block under another hash.
    Mismatch,
    /// The block waits for the execution layer.
    Waiting,
    /// The execution layer refuses the block.
    Rejected,
}

/// The timestamp of the next payload: the proposed one, or one past the latest
/// that is known.
pub open spec fn next_timestamp(proposed: u64, last: u64) -> u64 {
    if proposed <= last {
        (last + 1) as u64
    } else {
        proposed
    }
}

/// The timestamp that a build proposes: its slot's, or the wall clock's.
pub open spec fn proposed_timestamp(slot_timestamp: Option<u64>, clock: Clock) -> u64 {
    match slot_timestamp {
        Some(ts) => ts,
        None => clock.unix_ms / 1_000,
    }
}

/// A build may start: there is an execution layer, and no build runs on the head.
pub open spec fn may_build(s: OrchState) -> bool {
    s.has_execution_layer && !is_that_hash(s.building_on_parent, s.head)
}

/// A build runs on the head.
pub open spec fn build_started(s: OrchState, instant_ms: u64) -> OrchState {
    OrchState { building_on_parent: Some(s.head), build_triggered_at: Some(instant_ms), ..s }
}

/// The request for a payload on the head.
pub open spec fn build_request(s: OrchState, slot_timestamp: Option<u64>, clock: Clock) -> BuildRequest {
    BuildRequest {
        head: s.head,
        attributes: PayloadAttributes {
            timestamp: next_timestamp(
                proposed_timestamp(slot_timestamp, clock),
                s.last_committed_timestamp,
            ),
            prev_randao: s.prev_randao,
            suggested_fee_recipient: s.fee_recipient,
            parent_beacon_block_root: ZERO_HASH,
        },
        withdrawals_for_block: (s.committed_block_count + 1) as u64,
    }
}

/// A build came to nothing: its parent is free, and a leader tries again later.
pub open spec fn build_stopped(s: OrchState, is_leader: bool, instant_ms: u64) -> OrchState {
    OrchState {
        building_on_parent: None,
        build_triggered_at: None,
        speculative_build_hash: None,
        schedule: after_retry(s.schedule, is_leader, instant_ms),
        ..s
    }
}

/// The timestamp of a second request: past every timestamp that is known.
pub open spec fn retry_timestamp(s: OrchState, used: u64) -> int {
    later_timestamp(s.last_committed_timestamp, used) + 2
}

/// The blocks that must not leave the cache for a new one.
pub open spec fn protected_blocks(s: OrchState, hash: B256) -> Seq<B256> {
    seq![
        hash,
        match s.pending_finalization {
            Some(p) => p.1,
            None => hash,
        },
    ]
}

/// A follower's stages of a block whose data just came.
pub open spec fn received_timing(instant_ms: u64) -> PipelineTiming {
    PipelineTiming {
        created: instant_ms,
        is_leader: false,
        build_complete: Some(instant_ms),
        import_complete: None,
        committed: None,
    }
}

/// A block's data came; the stages are given apart.
pub open spec fn data_received(
    s: OrchState,
    block: BroadcastFields,
    data: Seq<u8>,
    timings: Map<B256, PipelineTiming>,
) -> OrchState {
    let protected = protected_blocks(s, block.0);
    OrchState {
        last_committed_timestamp: later_timestamp(s.last_committed_timestamp, block.3),
        pending: PendingState {
            data: if has_room(s.pending.data, protected) {
                with_room(s.pending.data, protected).insert(block.0, data)
            } else {
                s.pending.data
            },
            executions: s.pending.executions.remove(block.0),
        },
        timings,
        ..s
    }
}

/// A payload can be imported ahead of its commit: it reads, and its number is
/// higher than all before.
pub open spec fn passes_guard(s: OrchState, ready: Option<ReadyPayload>) -> bool {
    ready matches Some(r) && r.block_number > s.eager.highest
}

/// A block became the head; a finalization that waited for it is complete.
pub open spec fn imported_state(s: OrchState, hash: B256) -> OrchState {
    if awaits_finalization(s, hash) {
        OrchState { head: hash, pending_finalization: None, pending: nothing_pending(), ..s }
    } else {
        OrchState { head: hash, ..s }
    }
}

/// The import that ends with the block as the new head.
pub open spec fn imported_outcome(s: OrchState, hash: B256, is_leader: bool) -> ImportOutcome {
    ImportOutcome::Imported {
        finalized_view: match s.pending_finalization {
            Some(p) => if p.1 == hash {
                Some(p.0)
            } else {
                None
            },
            None => None,
        },
        build_now: awaits_finalization(s, hash) && is_leader && !is_that_hash(
            s.speculative_build_hash,
            hash,
        ),
        retry_syncing: s.syncing.len() > 0,
    }
}

/// The execution layer knows the block under its own hash.
pub open spec fn hash_confirmed(latest_valid_hash: Option<B256>, hash: B256) -> bool {
    latest_valid_hash matches Some(valid) ==> valid == hash
}

impl ConsensusOrchestrator {
    /// What the next payload is built from. Its timestamp is later than every
    /// timestamp that is known.
    pub fn build_payload_attributes(&self, slot_timestamp: Option<u64>, clock: Clock) -> (attributes:
        PayloadAttributes)
        requires
            self@.last_committed_timestamp < u64::MAX,
        ensures
            attributes == build_request(self@, slot_timestamp, clock).attributes,
            attributes.timestamp > self@.last_committed_timestamp,
    {
        let proposed: u64 = match slot_timestamp {
            Some(ts) => ts,
            None => clock.unix_ms / 1_000,
        };
        let timestamp: u64 = if proposed <= self.last_committed_timestamp {
            self.last_committed_timestamp + 1
        } else {
            proposed
        };
        PayloadAttributes {
            timestamp,
            prev_randao: self.prev_randao,
            suggested_fee_recipient: self.fee_recipient,
            parent_beacon_block_root: ZERO_HASH,
        }
    }

    /// Starts a payload build on the head, unless one runs on it already.
    pub fn do_trigger_payload_build(&mut self, slot_timestamp: Option<u64>, clock: Clock) -> (request:
        Option<BuildRequest>)
        requires
            old(self).wf(),
            old(self)@.last_committed_timestamp < u64::MAX,
            old(self)@.committed_block_count < u64::MAX,
        ensures
            final(self).wf(),
            request == if may_build(old(self)@) {
                Some(build_request(old(self)@, slot_timestamp, clock))
            } else {
                None
            },
            final(self)@ == if may_build(old(self)@) {
                build_started(old(self)@, clock.instant_ms)
            } else {
                old(self)@
            },
    {
        if !self.has_execution_layer {
            return None;
        }
        let parent: B256 = self.head_block_hash;
        if same_hash(&self.building_on_parent, &parent) {
            return None;
        }
        self.building_on_parent = Some(parent);
        self.build_triggered_at = Some(clock.instant_ms);
        let attributes = self.build_payload_attributes(slot_timestamp, clock);
        Some(
            BuildRequest {
                head: parent,
                attributes,
                withdrawals_for_block: self.committed_block_count + 1,
            },
        )
    }

    /// The execution layer answered a build request. A first failure is tried
    /// again with a later timestamp; where nothing is built the parent is free
    /// again and a leader tries later.
    pub fn on_build_response(
        &mut self,
        first_attempt: bool,
        used_timestamp: u64,
        response: BuildResponse,
        is_leader: bool,
        instant_ms: u64,
    ) -> (step: BuildStep)
        requires
            old(self).wf(),
            instant_ms + BUILD_RETRY_MS <= u64::MAX,
            retry_timestamp(old(self)@, used_timestamp) <= u64::MAX,
        ensures
            final(self).wf(),
            step == match response {
                BuildResponse::Started => BuildStep::Resolve,
                BuildResponse::NoPayload => BuildStep::Stop,
                BuildResponse::Failed => if first_attempt {
                    BuildStep::Again {
                        timestamp: retry_timestamp(old(self)@, used_timestamp) as u64,
                    }
                } else {
                    BuildStep::Stop
                },
            },
            final(self)@ == match step {
                BuildStep::Resolve => OrchState {
                    last_committed_timestamp: later_timestamp(
                        old(self)@.last_committed_timestamp,
                        used_timestamp,
                    ),
                    ..old(self)@
                },
                BuildStep::Again { .. } => old(self)@,
                BuildStep::Stop => build_stopped(old(self)@, is_leader, instant_ms),
            },
    {
        let known: u64 = max_u64(self.last_committed_timestamp, used_timestamp);
        match response {
            BuildResponse::Started => {
                self.last_committed_timestamp = known;
                return BuildStep::Resolve;
            },
            BuildResponse::Failed => {
                if first_attempt {
                    return BuildStep::Again { timestamp: known + 2 };
                }
            },
            BuildResponse::NoPayload => {},
        }
        self.building_on_parent = None;
        self.build_triggered_at = None;
        self.speculative_build_hash = None;
        self.schedule.schedule_build_retry(is_leader, instant_ms);
        BuildStep::Stop
    }

    /// A build runs ahead of the commit of this block.
    pub fn begin_speculative_build(&mut self, block_hash: B256)
        requires
            old(self).wf(),
        ensures
            final(self).wf(),
            final(self)@ == (OrchState {
                speculative_build_hash: Some(block_hash),
                ..old(self)@
            }),
    {
        self.speculative_build_hash = Some(block_hash);
    }

    /// Announced block data came from the network. Data that reads as a block
    /// and is new is cached, so that consensus can vote before execution.
    pub fn handle_block_data(&mut self, data: Vec<u8>, instant_ms: u64) -> (outcome: BlockData)
        requires
            old(self).wf(),
        ensures
            final(self).wf(),
            match announced_block(data@) {
                None => outcome is Unreadable && final(self)@ == old(self)@,
                Some(fields) => if old(self)@.pending.data.contains_key(fields.0) {
                    outcome is Duplicate && final(self)@ == old(self)@
                } else {
                    &&& after_recording(
                        old(self)@.timings,
                        fields.0,
                        received_timing(instant_ms),
                        final(self)@.timings,
                    )
                    &&& final(self)@ == data_received(
                        old(self)@,
                        fields,
                        data@,
                        final(self)@.timings,
                    )
                    &&& match outcome {
                        BlockData::Cached { block } => has_room(
                            old(self)@.pending.data,
                            protected_blocks(old(self)@, fields.0),
                        ) && block@ == fields,
                        BlockData::NotCached => !has_room(
                            old(self)@.pending.data,
                            protected_blocks(old(self)@, fields.0),
                        ),
                        _ => false,
                    }
                },
            },
    {
        match decode_block(&data) {
            Some(block) => self.on_block_data(block, data, instant_ms),
            None => BlockData::Unreadable,
        }
    }

    /// A block's data, already read, came from the network.
    pub fn on_block_data(&mut self, block: BlockDataBroadcast, data: Vec<u8>, instant_ms: u64) -> (outcome:
        BlockData)
        requires
            old(self).wf(),
        ensures
            final(self).wf(),
            if old(self)@.pending.data.contains_key(block@.0) {
                outcome is Duplicate && final(self)@ == old(self)@
            } else {
                &&& after_recording(
                    old(self)@.timings,
                    block@.0,
                    received_timing(instant_ms),
                    final(self)@.timings,
                )
                &&& final(self)@ == data_received(
                    old(self)@,
                    block@,
                    data@,
                    final(self)@.timings,
                )
                &&& match outcome {
                    BlockData::Cached { block: cached } => has_room(
                        old(self)@.pending.data,
                        protected_blocks(old(self)@, block@.0),
                    ) && cached@ == block@,
                    BlockData::NotCached => !has_room(
                        old(self)@.pending.data,
                        protected_blocks(old(self)@, block@.0),
                    ),
                    _ => false,
                }
            },
    {
        let hash: B256 = block.block_hash;
        if self.pending.has_data(&hash) {
            return BlockData::Duplicate;
        }
        self.pending.arrived(&hash);
        let mut timing = PipelineTiming::new_follower(instant_ms);
        timing.build_complete = Some(instant_ms);
        self.timings.record_pipeline_timing(hash, timing);
        self.last_committed_timestamp = max_u64(self.last_committed_timestamp, block.timestamp);
        let waiting: B256 = match &self.pending_finalization {
            Some(p) => p.block_hash,
            None => hash,
        };
        let protected: [B256; 2] = [hash, waiting];
        assert(protected@ =~= protected_blocks(old(self)@, hash));
        let cached = self.pending.cache_pending_block_data(hash, data, &protected);
        assert(self@ =~= data_received(old(self)@, block@, data@, self@.timings));
        if cached {
            BlockData::Cached { block }
        } else {
            BlockData::NotCached
        }
    }

    /// Prepares to import a block ahead of its commit: its payload, where there
    /// is an execution layer, the payload reads and its number is higher than
    /// all before.
    pub fn prepare_eager_import(&mut self, payload: &[u8]) -> (ready: Option<ReadyPayload>)
        requires
            old(self).wf(),
        ensures
            final(self).wf(),
            match ready {
                Some(r) => old(self)@.has_execution_layer && payload_content(payload@) == Some(
                    r.json@,
                ) && execution_payload(r.json@) == Some((r.block_number, r.transaction_count))
                    && r.block_number > old(self)@.eager.highest && final(self)@ == (OrchState {
                    eager: EagerGuard { highest: r.block_number },
                    ..old(self)@
                }),
                None => final(self)@ == old(self)@ && (!old(self)@.has_execution_layer
                    || match payload_content(payload@) {
                    Some(json) => match execution_payload(json) {
                        Some(summary) => summary.0 <= old(self)@.eager.highest,
                        None => true,
                    },
                    None => true,
                }),
            },
    {
        if !self.has_execution_layer {
            return None;
        }
        let ready = ready_payload(payload);
        self.pass_guard(ready)
    }

    /// Lets a payload through whose block number is higher than all before, so
    /// that no number is imported twice ahead of its commit.
    pub fn pass_guard(&mut self, ready: Option<ReadyPayload>) -> (passed: Option<ReadyPayload>)
        requires
            old(self).wf(),
        ensures
            final(self).wf(),
            passed == if passes_guard(old(self)@, ready) {
                ready
            } else {
                None
            },
            final(self)@ == if passes_guard(old(self)@, ready) {
                OrchState {
                    eager: EagerGuard { highest: ready->0.block_number },
                    ..old(self)@
                }
            } else {
                old(self)@
            },
    {
        match ready {
            Some(payload) => if self.eager.lets_through(payload.block_number) {
                Some(payload)
            } else {
                None
            },
            None => None,
        }
    }

    /// Prepares to import a block: its payload, where there is an execution
    /// layer and the payload reads.
    pub fn begin_import(&mut self, block: &BlockDataBroadcast) -> (ready: Option<ReadyPayload>)
        requires
            old(self).wf(),
        ensures
            final(self).wf(),
            final(self)@ == if old(self)@.has_execution_layer {
                OrchState {
                    last_committed_timestamp: later_timestamp(
                        old(self)@.last_committed_timestamp,
                        block@.3,
                    ),
                    ..old(self)@
                }
            } else {
                old(self)@
            },
            match ready {
                Some(r) => old(self)@.has_execution_layer && payload_content(block@.2) == Some(
                    r.json@,
                ) && execution_payload(r.json@) == Some((r.block_number, r.transaction_count)),
                None => !old(self)@.has_execution_layer || match payload_content(block@.2) {
                    Some(json) => execution_payload(json) is None,
                    None => true,
                },
            },
    {
        if !self.has_execution_layer {
            return None;
        }
        self.last_committed_timestamp = max_u64(self.last_committed_timestamp, block.timestamp);
        ready_payload(&block.payload_json)
    }

    /// The execution layer answered an import. A block that it took becomes the
    /// head and completes a finalization that waited for it; one that it cannot
    /// take yet waits.
    pub fn on_new_payload(
        &mut self,
        block: &BlockDataBroadcast,
        status: PayloadStatus,
        latest_valid_hash: Option<B256>,
        is_leader: bool,
    ) -> (outcome: ImportOutcome)
        requires
            old(self).wf(),
        ensures
            final(self).wf(),
            outcome == if took(status) {
                if hash_confirmed(latest_valid_hash, block@.0) {
                    imported_outcome(old(self)@, block@.0, is_leader)
                } else {
                    ImportOutcome::Mismatch
                }
            } else if status == PayloadStatus::Syncing {
                ImportOutcome::Waiting
            } else {
                ImportOutcome::Rejected
            },
            match outcome {
                ImportOutcome::Imported { .. } => final(self)@ == imported_state(
                    old(self)@,
                    block@.0,
                ),
                ImportOutcome::Waiting => exists|data: Seq<u8>| #[trigger]
                    queued_as(old(self)@, final(self)@, block@, data),
                _ => final(self)@ == old(self)@,
            },
    {
        if is_accepted(status) {
            let confirmed = match &latest_valid_hash {
                Some(valid) => same_key(valid, &block.block_hash),
                None => true,
            };
            if !confirmed {
                return ImportOutcome::Mismatch;
            }
            self.head_block_hash = block.block_hash;
            let finalized_view = self.complete_deferred_finalization(&block.block_hash);
            let build_now = finalized_view.is_some() && is_leader && !same_hash(
                &self.speculative_build_hash,
                &block.block_hash,
            );
            let retry_syncing = self.syncing.len() > 0;
            return ImportOutcome::Imported { finalized_view, build_now, retry_syncing };
        }
        if status == PayloadStatus::Syncing {
            if let Some(data) = encode_block(block) {
                let ghost bytes = data@;
                self.syncing.queue_syncing_block(data);
                assert(queued_as(old(self)@, self@, block@, bytes));
            }
            return ImportOutcome::Waiting;
        }
        ImportOutcome::Rejected
    }

    /// A block is in the execution layer. Completes the finalization that waited
    /// for it, and hands back its view.
    fn complete_deferred_finalization(&mut self, block_hash: &B256) -> (view: Option<u64>)
        requires
            old(self).wf(),
        ensures
            final(self).wf(),
            view == match old(self)@.pending_finalization {
                Some(p) => if p.1 == *block_hash {
                    Some(p.0)
                } else {
                    None
                },
                None => None,
            },
            final(self)@ == if awaits_finalization(old(self)@, *block_hash) {
                OrchState {
                    pending_finalization: None,
                    pending: nothing_pending(),
                    ..old(self)@
                }
            } else {
                old(self)@
            },
    {
        let view: Option<u64> = match &self.pending_finalization {
            Some(p) => if same_key(&p.block_hash, block_hash) {
                Some(p.view)
            } else {
                None
            },
            None => None,
        };
        if view.is_some() {
            self.pending_finalization = None;
            self.pending.clear();
        }
        view
    }

    /// Takes the blocks that wait for the execution layer, to try them again.
    pub fn retry_syncing_blocks(&mut self) -> (blocks: Vec<SyncingBlock>)
        requires
            old(self).wf(),
        ensures
            final(self).wf(),
            syncing_state(blocks@) == old(self)@.syncing,
            final(self)@ == (OrchState { syncing: Seq::empty(), ..old(self)@ }),
    {
        self.syncing.take_all()
    }

    /// A block was tried again. One that the execution layer took becomes the
    /// head, and consensus is told; one that it still cannot take waits on,
    /// unless it was tried too often. Says whether it became the head.
    pub fn on_retry_result(&mut self, block: SyncingBlock, hash: B256, status: PayloadStatus) -> (imported:
        bool)
        requires
            old(self).wf(),
            old(self)@.syncing.len() < MAX_SYNCING_QUEUE_SIZE,
            block.retries < MAX_SYNCING_RETRIES,
        ensures
            final(self).wf(),
            imported == took(status),
            final(self)@ == if took(status) {
                OrchState { head: hash, ..old(self)@ }
            } else if tried_again(block@, status) {
                OrchState {
                    syncing: old(self)@.syncing.push((block@.0, (block@.1 + 1) as u32)),
                    ..old(self)@
                }
            } else {
                old(self)@
            },
    {
        if is_accepted(status) {
            self.head_block_hash = hash;
            return true;
        }
        let _ = self.syncing.retried(block, status);
        false
    }
}

/// A block waits for the execution layer, as these bytes.
pub open spec fn queued_as(
    before: OrchState,
    after: OrchState,
    block: BroadcastFields,
    data: Seq<u8>,
) -> bool {
    announced_block(data) == Some(block) && after == (OrchState {
        syncing: after_queueing(before.syncing, data),
        ..before
    })
}

/// A block whose payload can be handed to the execution layer.
#[derive(Debug)]
pub struct ReadyBlock {
    pub block: BlockDataBroadcast,
    pub payload: ReadyPayload,
}

/// The fields of a block, its payload as JSON, and the payload's number and
/// count of transactions.
pub type ReadyBlockState = (BroadcastFields, Seq<u8>, (u64, usize));

impl View for ReadyBlock {
    type V = ReadyBlockState;

    open spec fn view(&self) -> ReadyBlockState {
        (
            self.block@,
            self.payload.json@,
            (self.payload.block_number, self.payload.transaction_count),
        )
    }
}

/// The block and the payload that announced bytes hold, where both read.
pub open spec fn ready_block_of(data: Seq<u8>) -> Option<ReadyBlockState> {
    match announced_block(data) {
        Some(block) => match payload_content(block.2) {
            Some(json) => match execution_payload(json) {
                Some(summary) => Some((block, json, summary)),
                None => None,
            },
            None => None,
        },
        None => None,
    }
}

/// Reads a committed block for its import in the background; there is none
/// where its bytes or its payload do not read.
pub fn background_import(data: &[u8]) -> (ready: Option<ReadyBlock>)
    ensures
        match ready {
            Some(r) => ready_block_of(data@) == Some(r@),
            None => ready_block_of(data@) is None,
        },
{
    match decode_block(data) {
        Some(block) => match ready_payload(&block.payload_json) {
            Some(payload) => Some(ReadyBlock { block, payload }),
            None => None,
        },
        None => None,
    }
}

/// The outcome of an import in the background: whether the execution layer took
/// the block, and then its timestamp. There is no status where the block did not
/// read or the call failed.
pub fn background_import_result(timestamp: u64, status: Option<PayloadStatus>) -> (result: (bool, u64))
    ensures
        result == if status matches Some(s) && took(s) {
            (true, timestamp)
        } else {
            (false, 0u64)
        },
{
    match status {
        Some(s) => if is_accepted(s) {
            (true, timestamp)
        } else {
            (false, 0)
        },
        None => (false, 0),
    }
}

/// Reads a waiting block; it is dropped where its bytes or its payload do not
/// read.
pub fn retry_payload(waiting: &SyncingBlock) -> (retry: Option<ReadyBlock>)
    ensures
        match retry {
            Some(r) => ready_block_of(waiting@.0) == Some(r@),
            None => ready_block_of(waiting@.0) is None,
        },
{
    background_import(&waiting.data)
}

/// The compressed execution output that spares the execution layer to execute a
/// block: the one that it carries, where followers may skip execution.
pub fn compact_output(block: &BlockDataBroadcast, compact_enabled: bool) -> (output: Option<&Vec<u8>>)
    ensures
        match output {
            Some(o) => compact_enabled && block@.4 == Some(o@),
            None => !compact_enabled || block@.4 is None,
        },
{
    if compact_enabled {
        block.execution_output.as_ref()
    } else {
        None
    }
}

/// What an import ahead of the commit is reported as: the block's hash and
/// timestamp, where the execution layer took it. There is no status where the
/// call failed.
pub fn eager_import_result(hash: B256, timestamp: u64, status: Option<PayloadStatus>) -> (done: Option<
    (B256, u64),
>)
    ensures
        done == if status matches Some(s) && took(s) {
            Some((hash, timestamp))
        } else {
            None
        },
{
    match status {
        Some(s) => if is_accepted(s) {
            Some((hash, timestamp))
        } else {
            None
        },
        None => None,
    }
}

/// A payload that the leader built.
#[derive(Debug)]
pub struct BuiltPayload {
    pub hash: B256,
    pub number: u64,
    pub timestamp: u64,
    pub json: Vec<u8>,
}

/// What the leader does with a payload that it built: it announces the block,
/// tells consensus, and imports the block.
#[derive(Debug)]
pub struct LeaderEmission {
    /// The bytes to announce, to every validator's peer and to everybody.
    pub announcement: Option<Vec<u8>>,
    /// Import the payload ahead of its commit.
    pub import: bool,
}

/// The bytes announce the block: what they stand for has the block's hash, view
/// and timestamps, and for a payload the JSON or its compressed frame. That
/// decompresses to the JSON wherever the JSON is not taken for a compressed one
/// and is not too long.
pub open spec fn announces(
    data: Seq<u8>,
    hash: B256,
    view: u64,
    json: Seq<u8>,
    timestamp: u64,
    execution_output: Option<Seq<u8>>,
    ready_ms: u64,
) -> bool {
    announced_block(data) matches Some(block) && block.0 == hash && block.1 == view && block.3
        == timestamp && block.4 == execution_output && block.5 == ready_ms && (block.2 == json
        || block.2 == zstd_frame(json, ZSTD_LEVEL)) && (json.len() <= MAX_DECOMPRESSED && !has_magic(json) ==> payload_content(block.2) == Some(json))
}

/// The bytes that announce a block; none where its payload is empty.
pub fn broadcast_block_data(
    hash: B256,
    view: u64,
    payload_json: &Vec<u8>,
    timestamp: u64,
    execution_output: Option<Vec<u8>>,
    leader_ready_unix_ms: u64,
) -> (announcement: Option<Vec<u8>>)
    ensures
        announcement is Some == (payload_json@.len() > 0),
        announcement matches Some(data) ==> announces(
            data@,
            hash,
            view,
            payload_json@,
            timestamp,
            optional_bytes(execution_output),
            leader_ready_unix_ms,
        ),
{
    if payload_json.len() == 0 {
        return None;
    }
    let block = BlockDataBroadcast {
        block_hash: hash,
        view,
        payload_json: compress_payload(payload_json),
        timestamp,
        execution_output,
        leader_ready_unix_ms,
    };
    encode_block(&block)
}

/// What the leader does with a payload that it built. The execution output goes
/// out with it only where followers may skip execution.
pub fn handle_built_payload(
    guard: &mut EagerGuard,
    built: &BuiltPayload,
    view: u64,
    compact_enabled: bool,
    execution_output: Option<Vec<u8>>,
    leader_ready_unix_ms: u64,
) -> (emission: LeaderEmission)
    ensures
        emission.announcement is Some == (built.json@.len() > 0),
        emission.announcement matches Some(data) ==> announces(
            data@,
            built.hash,
            view,
            built.json@,
            built.timestamp,
            if compact_enabled {
                optional_bytes(execution_output)
            } else {
                None
            },
            leader_ready_unix_ms,
        ),
        emission.import == (built.number > old(guard).highest),
        *final(guard) == (EagerGuard {
            highest: if built.number > old(guard).highest {
                built.number
            } else {
                old(guard).highest
            },
        }),
{
    let output: Option<Vec<u8>> = if compact_enabled {
        execution_output
    } else {
        None
    };
    let announcement = broadcast_block_data(
        built.hash,
        view,
        &built.json,
        built.timestamp,
        output,
        leader_ready_unix_ms,
    );
    let import = guard.lets_through(built.number);
    LeaderEmission { announcement, import }
}

/// No two builds run on one parent: once one started, none starts before the
/// head moves or the build ends; on another head one may start at once.
pub proof fn one_build_per_parent(s: OrchState, instant_ms: u64, other: B256)
    requires
        other != s.head,
    ensures
        !may_build(build_started(s, instant_ms)),
        may_build(OrchState { head: other, ..build_started(s, instant_ms) })
            == s.has_execution_layer,
{
}

/// Timestamps of payloads strictly increase: a build that follows a started one
/// has a later timestamp, whatever slot or wall clock it goes by.
pub proof fn timestamps_increase(
    s: OrchState,
    used: u64,
    slot_timestamp: Option<u64>,
    clock: Clock,
)
    requires
        later_timestamp(s.last_committed_timestamp, used) < u64::MAX,
    ensures
        ({
            let started = OrchState {
                last_committed_timestamp: later_timestamp(s.last_committed_timestamp, used),
                ..s
            };
            build_request(started, slot_timestamp, clock).attributes.timestamp > used
                && build_request(started, slot_timestamp, clock).attributes.timestamp
                > s.last_committed_timestamp
        }),
        retry_timestamp(s, used) > used,
        retry_timestamp(s, used) > s.last_committed_timestamp,
{
}

/// A build is asked for on the head, with the randomness and fee recipient that
/// the node knows, for the block after the committed ones. Its timestamp is that
/// of the slot, or else the wall clock's, unless that is not later than the last.
pub proof fn builds_are_asked_for_on_the_head(
    s: OrchState,
    slot_timestamp: Option<u64>,
    clock: Clock,
)
    requires
        s.last_committed_timestamp < u64::MAX,
        s.committed_block_count < u64::MAX,
    ensures
        ({
            let request = build_request(s, slot_timestamp, clock);
            let at = request.attributes.timestamp;
            &&& request.head == s.head
            &&& request.attributes.prev_randao == s.prev_randao
            &&& request.attributes.suggested_fee_recipient == s.fee_recipient
            &&& forall|i: int|
                0 <= i < 32 ==> #[trigger] request.attributes.parent_beacon_block_root[i] == 0
            &&& request.withdrawals_for_block == s.committed_block_count + 1
            &&& at > s.last_committed_timestamp
            &&& slot_timestamp matches Some(slot) ==> (slot > s.last_committed_timestamp ==> at
                == slot)
            &&& slot_timestamp is None ==> (clock.unix_ms / 1_000 > s.last_committed_timestamp
                ==> at == clock.unix_ms / 1_000)
            &&& (slot_timestamp matches Some(slot) && slot <= s.last_committed_timestamp) || (
            slot_timestamp is None && clock.unix_ms / 1_000 <= s.last_committed_timestamp) ==> at
                == s.last_committed_timestamp + 1
        }),
{
}

/// A build starts only with an execution layer and where none runs on the head.
/// It is noted with its parent and its time; nothing else changes.
pub proof fn builds_are_noted(s: OrchState, instant_ms: u64)
    ensures
        may_build(s) <==> s.has_execution_layer && s.building_on_parent != Some(s.head),
        ({
            let after = build_started(s, instant_ms);
            &&& after.building_on_parent == Some(s.head)
            &&& after.build_triggered_at == Some(instant_ms)
            &&& (OrchState {
                building_on_parent: s.building_on_parent,
                build_triggered_at: s.build_triggered_at,
                ..after
            }) == s
        }),
{
}

/// A build that came to nothing frees its parent and is no longer ahead of a
/// commit; a leader tries again in two seconds. Nothing else changes.
pub proof fn stopped_builds_free_their_parent(s: OrchState, is_leader: bool, instant_ms: u64)
    requires
        instant_ms + 2_000 <= u64::MAX,
    ensures
        ({
            let after = build_stopped(s, is_leader, instant_ms);
            &&& after.building_on_parent is None
            &&& after.build_triggered_at is None
            &&& after.speculative_build_hash is None
            &&& is_leader ==> after.schedule.next_build_at == Some((instant_ms + 2_000) as u64)
                && after.schedule.next_slot_timestamp is None
            &&& !is_leader ==> after.schedule == s.schedule
            &&& (OrchState {
                building_on_parent: s.building_on_parent,
                build_triggered_at: s.build_triggered_at,
                speculative_build_hash: s.speculative_build_hash,
                schedule: s.schedule,
                ..after
            }) == s
        }),
{
}

/// An announced block is cached under its hash, as it came, and is not waited for
/// any more. A block whose finalization waits is not driven out for it, nor is
/// any while there are fewer than sixteen. Only the later timestamp is kept.
pub proof fn announced_data_is_cached(
    s: OrchState,
    block: BroadcastFields,
    data: Seq<u8>,
    timings: Map<B256, PipelineTiming>,
    other: B256,
)
    requires
        s.pending.data.dom().finite(),
        s.pending.data.len() <= 16,
        !s.pending.data.contains_key(block.0),
        other != block.0,
    ensures
        ({
            let after = data_received(s, block, data, timings);
            let finalizing = s.pending_finalization matches Some(p) && p.1 == other;
            &&& s.pending.data.len() < 16 ==> after.pending.data.contains_key(block.0)
            &&& after.pending.data.contains_key(block.0) ==> after.pending.data[block.0] == data
            &&& after.pending.data.contains_key(other) ==> s.pending.data.contains_key(other)
                && after.pending.data[other] == s.pending.data[other]
            &&& s.pending.data.contains_key(other) && (s.pending.data.len() < 16 || finalizing)
                ==> after.pending.data.contains_key(other)
            &&& after.pending.data.len() <= 16
            &&& after.pending.data.len() >= s.pending.data.len()
            &&& s.pending.data.contains_key(other) && !finalizing ==> after.pending.data.contains_key(
                block.0,
            )
            &&& !after.pending.executions.contains(block.0)
            &&& after.pending.executions.contains(other) <==> s.pending.executions.contains(other)
            &&& after.last_committed_timestamp >= s.last_committed_timestamp
            &&& after.last_committed_timestamp >= block.3
            &&& after.last_committed_timestamp == s.last_committed_timestamp
                || after.last_committed_timestamp == block.3
            &&& (OrchState {
                pending: s.pending,
                last_committed_timestamp: s.last_committed_timestamp,
                timings: s.timings,
                ..after
            }) == s
        }),
{
    let protected = protected_blocks(s, block.0);
    room_costs_one_block(s.pending.data, protected, other);
    room_costs_one_block(s.pending.data, protected, block.0);
    assert(protected[0] == block.0);
    if let Some(p) = s.pending_finalization {
        assert(protected[1] == p.1);
        assert(protected.contains(p.1));
    }
    if s.pending.data.contains_key(other) && !(s.pending_finalization matches Some(p) && p.1
        == other) {
        assert(!protected.contains(other)) by {
            assert(forall|i: int| 0 <= i < protected.len() ==> protected[i] != other);
        }
    }
}

/// A follower's stages begin when the block's data comes.
pub proof fn received_blocks_are_timed_from_arrival(instant_ms: u64)
    ensures
        received_timing(instant_ms).created == instant_ms,
        received_timing(instant_ms).build_complete == Some(instant_ms),
        !received_timing(instant_ms).is_leader,
        received_timing(instant_ms).import_complete is None,
        received_timing(instant_ms).committed is None,
{
}

/// An imported block is the head. Where its finalization waited for it, that is
/// done: what was pending is dropped, the view is told, and the leader builds,
/// unless a build on this block runs already. Else nothing more happens.
pub proof fn imports_complete_finalization(s: OrchState, hash: B256, is_leader: bool)
    ensures
        ({
            let after = imported_state(s, hash);
            let waited = s.pending_finalization matches Some(p) && p.1 == hash;
            &&& after.head == hash
            &&& waited ==> after.pending_finalization is None && after.pending.data.dom()
                == Set::<B256>::empty() && after.pending.executions == Set::<B256>::empty()
            &&& !waited ==> (OrchState { head: s.head, ..after }) == s
            &&& (OrchState {
                head: s.head,
                pending_finalization: s.pending_finalization,
                pending: s.pending,
                ..after
            }) == s
            &&& imported_outcome(s, hash, is_leader) matches ImportOutcome::Imported {
                finalized_view,
                build_now,
                retry_syncing,
            } && {
                &&& finalized_view is Some <==> waited
                &&& finalized_view matches Some(view) ==> (s.pending_finalization matches Some(p)
                    && p.0 == view)
                &&& build_now <==> waited && is_leader && s.speculative_build_hash != Some(hash)
                &&& retry_syncing <==> s.syncing.len() > 0
            }
        }),
        hash_confirmed(None, hash),
        forall|valid: B256| #[trigger] hash_confirmed(Some(valid), hash) <==> valid == hash,
{
    assert(Map::<B256, Seq<u8>>::empty().dom() =~= Set::<B256>::empty());
}

/// What a leader announces, a follower can import: the data reads as the block,
/// with the hash, view and timestamp of the announcement, and its payload gives
/// the JSON that was announced.
pub proof fn announced_blocks_can_be_imported(
    data: Seq<u8>,
    hash: B256,
    view: u64,
    json: Seq<u8>,
    timestamp: u64,
    execution_output: Option<Seq<u8>>,
    ready_ms: u64,
)
    requires
        announces(data, hash, view, json, timestamp, execution_output, ready_ms),
    ensures
        announced_block(data) matches Some(block) && {
            &&& block.0 == hash
            &&& block.1 == view
            &&& block.3 == timestamp
            &&& block.4 == execution_output
            &&& block.5 == ready_ms
            &&& json.len() <= 64 * 1024 * 1024 && !(json.len() >= 4 && json[0] == 0x28 && json[1]
                == 0xB5 && json[2] == 0x2F && json[3] == 0xFD) ==> (execution_payload(json) matches
                Some(summary) ==> ready_block_of(data) == Some((block, json, summary)))
        },
        execution_output is None ==> bundle_json(data) is None,
{
}

/// A payload is ready for import only where its data reads as a block whose
/// payload, decompressed, reads as an execution payload.
pub proof fn only_readable_payloads_are_imported(data: Seq<u8>)
    ensures
        ready_block_of(data) matches Some((block, json, summary)) ==> {
            &&& announced_block(data) == Some(block)
            &&& execution_payload(json) == Some(summary)
            &&& json == block.2 || zstd_content(block.2, MAX_DECOMPRESSED) == Some(json)
        },
{
}

/// A block that waits for the execution layer is kept as bytes that read as that
/// block, the newest of those that wait; nothing else changes.
pub proof fn waiting_blocks_are_kept_whole(
    before: OrchState,
    after: OrchState,
    block: BroadcastFields,
    data: Seq<u8>,
)
    requires
        queued_as(before, after, block, data),
    ensures
        announced_block(data) == Some(block),
        after.syncing.len() > 0 && after.syncing.last().0 == data && after.syncing.last().1 == 0,
        before.syncing.len() < 8 ==> after.syncing.drop_last() == before.syncing,
        (OrchState { syncing: before.syncing, ..after }) == before,
{
    if before.syncing.len() < 8 {
        assert(after.syncing.drop_last() =~= before.syncing);
    }
}

} // verus!
