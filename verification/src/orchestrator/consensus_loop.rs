//! What consensus decides, and what the node does about it.
use super::broadcast::{announced_block, bundle_json, decode_block, extract_bundle_state_json};
use super::cache::{nothing_pending, with_own_block, with_own_blocks, PendingState};
use super::chain::{
    recently_empty, with_payload, BlockSyncRequest, CommittedBlock, CommittedState, QcState,
    QuorumCertificate,
};
use super::forward::{peer_of, peers_are_found, validator_peer};
use super::imports::{
    after_import_done, each_once, in_sequence, is_under_way, no_imports, with_import, BgImport,
    BgState, EagerGuard,
};
use super::pipeline::{after_import, after_recording, PipelineTiming};
use super::schedule::{
    after_retry, after_scheduling, after_startup, after_timer, boundary_is_reached, may_skip,
    proposes_at_once, startup_delay, startup_of, timer_action, BuildSchedule, Clock, Startup,
    TimerAction, BUILD_RETRY_MS,
};
use super::sync::{idle, is_busy, peer_at_turn, request_after, timed_out};
use super::{
    cached_payload, is_that_hash, later_timestamp, prev_randao, randao_of, same_hash,
    ConsensusOrchestrator, OrchState, PendingFinalization,
};
use crate::codec::{decompress_payload, payload_content};
use crate::crypto::keccak256_of;
use crate::primitives::{copy_bytes, max_u64, same_key, B256};
use crate::ring::ring_push;
use vstd::prelude::*;

verus! {

/// The state trie drops old versions once in so many blocks.
pub const JMT_PRUNE_INTERVAL: u64 = 100;

/// How many versions the state trie keeps then.
pub const JMT_KEPT_VERSIONS: u64 = 200;

/// A deferred finalization that is more than this many views behind is given up.
pub const STALE_VIEWS: u64 = 2;

/// What a commit was measured at.
#[derive(Clone, Copy, Debug, PartialEq, Eq, Structural)]
pub struct Committed {
    /// How long the view took.
    pub elapsed_ms: Option<u64>,
    /// The block's stages, where they were tracked.
    pub timing: Option<PipelineTiming>,
}

/// The input of a proof of a block's execution.
#[derive(Debug)]
pub struct ZkInput {
    pub block_hash: B256,
    pub block_number: u64,
    pub parent_hash: B256,
    pub bundle_state_json: Vec<u8>,
}

/// How a committed block gets into the execution layer.
#[derive(Debug)]
pub enum FinalizeImport {
    /// The block's data has not arrived.
    NoData,
    /// It is imported behind the imports that run, where it is not on its way
    /// already.
    Queued,
    /// It is imported now.
    Start { import: BgImport },
}

/// What a view change brings.
#[derive(Clone, Copy, Debug, PartialEq, Eq)]
pub struct ViewChange {
    /// Blocks to ask a peer for.
    pub sync: Option<(u64, BlockSyncRequest)>,
    /// Build a payload now.
    pub build_now: bool,
}

/// What a finished background import brings.
#[derive(Debug)]
pub struct ImportDone {
    /// Tell the phones about the block.
    pub mobile_packet: bool,
    /// Blocks to ask a peer for.
    pub sync: Option<(u64, BlockSyncRequest)>,
    /// The block to import next.
    pub next: Option<BgImport>,
    /// Build a payload now.
    pub build_now: bool,
}

/// What consensus puts out, as far as the node decides on it.
#[derive(Debug)]
pub enum EngineOutput {
    BroadcastMessage,
    SendToValidator { target: u32 },
    ExecuteBlock { block_hash: B256 },
    BlockCommitted { view: u64, block_hash: B256, commit_qc: QuorumCertificate },
    ViewChanged { new_view: u64 },
    SyncRequired { local_view: u64, target_view: u64 },
    EquivocationDetected,
    EpochTransition { new_epoch: u64 },
}

/// What the node does with an output of consensus.
#[derive(Clone, Copy, Debug, PartialEq, Eq)]
pub enum OutputAction {
    /// Send the message to everybody, and first to the peer, where there is one.
    Send { direct: Option<u64> },
    /// Tell consensus that the block is there.
    BlockImported,
    /// The block is waited for.
    Awaited,
    /// Finalize the committed block.
    Finalize { committed: Committed },
    ViewChanged { change: ViewChange },
    /// Ask a peer for blocks.
    Sync { request: Option<(u64, BlockSyncRequest)> },
    /// Record the equivocation.
    Record,
    /// Refresh the validator set and stage the one of this epoch.
    StageEpoch { epoch: u64 },
}

/// Consensus waits for a block.
pub open spec fn awaiting(s: OrchState, hash: B256) -> OrchState {
    OrchState {
        pending: PendingState { executions: s.pending.executions.insert(hash), ..s.pending },
        ..s
    }
}

/// A block was committed.
pub open spec fn committed_state(s: OrchState, view: u64, hash: B256, qc: QcState) -> OrchState {
    OrchState {
        committed_block_count: (s.committed_block_count + 1) as u64,
        view_started_at: None,
        timings: s.timings.remove(hash),
        chain: ring_push(
            s.chain,
            s.chain_limit as int,
            CommittedState {
                view,
                block_hash: hash,
                commit_qc: qc,
                payload: cached_payload(s.pending.data, hash),
            },
        ),
        head: hash,
        prev_randao: randao_of(Some(qc)),
        ..s
    }
}

/// How long a view took that ends with a commit.
pub open spec fn commit_latency(s: OrchState, instant_ms: u64) -> Option<u64> {
    match s.view_started_at {
        Some(start) => Some(
            if instant_ms >= start {
                (instant_ms - start) as u64
            } else {
                0
            },
        ),
        None => None,
    }
}

/// The stages of a block that is committed.
pub open spec fn committed_timing(s: OrchState, hash: B256, instant_ms: u64) -> Option<
    PipelineTiming,
> {
    if s.timings.contains_key(hash) {
        Some(PipelineTiming { committed: Some(instant_ms), ..s.timings[hash] })
    } else {
        None
    }
}

/// A block was imported ahead of its commit.
pub open spec fn eager_imported(s: OrchState, hash: B256, timestamp: u64, instant_ms: u64) -> OrchState {
    OrchState {
        last_committed_timestamp: later_timestamp(s.last_committed_timestamp, timestamp),
        timings: after_import(s.timings, hash, instant_ms),
        ..s
    }
}

/// Several blocks were imported ahead of their commits.
pub open spec fn all_eager_imported(
    s: OrchState,
    done: Seq<(B256, u64)>,
    instant_ms: u64,
) -> OrchState
    decreases done.len(),
{
    if done.len() == 0 {
        s
    } else {
        eager_imported(
            all_eager_imported(s, done.drop_last(), instant_ms),
            done.last().0,
            done.last().1,
            instant_ms,
        )
    }
}

/// One of the imports was of this block.
pub open spec fn has_import_of(done: Seq<(B256, u64)>, hash: B256) -> bool {
    exists|i: int| 0 <= i < done.len() && (#[trigger] done[i]).0 == hash
}

/// The next build was arranged.
pub open spec fn build_arranged(s: OrchState, clock: Clock) -> OrchState {
    OrchState {
        schedule: after_scheduling(s.schedule, recently_empty(s.chain), clock),
        ..s
    }
}

/// Arranging the next build means to build now.
pub open spec fn builds_at_once(s: OrchState) -> bool {
    !may_skip(s.schedule, recently_empty(s.chain)) && proposes_at_once(s.schedule)
}

/// A committed block goes into the execution layer in the background, unless it
/// is on its way there.
pub open spec fn importing(s: OrchState, data: Seq<u8>, hash: B256, view: u64) -> OrchState {
    OrchState {
        pending: nothing_pending(),
        bg: with_import(s.bg, (data, hash, view)),
        ..s
    }
}

/// Finalization waits for the block's data.
pub open spec fn deferred(s: OrchState, view: u64, hash: B256, qc: QcState) -> OrchState {
    OrchState { pending_finalization: Some((view, hash, qc)), ..awaiting(s, hash) }
}

/// The state while own blocks are taken into the cache.
pub open spec fn own_blocks_cached(s: OrchState, blocks: Seq<(B256, Seq<u8>)>) -> OrchState {
    OrchState {
        pending: PendingState { data: with_own_blocks(s.pending.data, blocks), ..s.pending },
        ..s
    }
}

/// The contents of a list of blocks with their hashes.
pub open spec fn own_blocks_state(blocks: Seq<(B256, Vec<u8>)>) -> Seq<(B256, Seq<u8>)> {
    blocks.map_values(|b: (B256, Vec<u8>)| (b.0, b.1@))
}

/// The tracker and the request that a sync leads to.
pub open spec fn sync_planned(s: OrchState, instant_ms: u64) -> OrchState {
    OrchState {
        sync: if timed_out(s.sync, instant_ms) {
            idle(s.sync)
        } else {
            s.sync
        },
        ..s
    }
}

/// The request that a sync leads to.
pub open spec fn planned_request(
    s: OrchState,
    local_view: u64,
    target_view: u64,
    instant_ms: u64,
) -> Option<(u64, BlockSyncRequest)> {
    match peer_at_turn(s.peers, local_view) {
        Some(peer) => if is_busy(s.sync, instant_ms) {
            None
        } else {
            Some((peer, request_after(local_view, target_view)))
        },
        None => None,
    }
}

/// The view whose block waits for its data.
pub open spec fn waiting_view(s: OrchState) -> u64 {
    match s.pending_finalization {
        Some(pending) => pending.0,
        None => 0,
    }
}

/// The deferred finalization is too far behind.
pub open spec fn is_stale(s: OrchState, new_view: u64) -> bool {
    s.pending_finalization matches Some(p) && new_view > p.0 + STALE_VIEWS
}

/// The leader of the new view builds: nothing is being imported, and no build
/// runs ahead.
pub open spec fn builds_in_view(s: OrchState, is_leader: bool) -> bool {
    is_leader && s.bg.running is None && s.speculative_build_hash is None
}

/// The view changed; a deferred finalization that is too far behind is given up.
pub open spec fn view_entered(s: OrchState, new_view: u64, instant_ms: u64) -> OrchState {
    let entered = OrchState {
        view_started_at: Some(instant_ms),
        eager: EagerGuard { highest: s.committed_block_count },
        speculative_build_hash: None,
        schedule: BuildSchedule {
            consecutive_empty_skips: s.schedule.max_empty_skips,
            ..s.schedule
        },
        pending: PendingState { executions: Set::empty(), ..s.pending },
        ..s
    };
    if is_stale(s, new_view) {
        sync_planned(
            OrchState { pending_finalization: None, pending: nothing_pending(), ..entered },
            instant_ms,
        )
    } else {
        entered
    }
}

/// The view changed, and its leader arranged a build.
pub open spec fn view_changed(s: OrchState, new_view: u64, is_leader: bool, clock: Clock) -> OrchState {
    let entered = view_entered(s, new_view, clock.instant_ms);
    if builds_in_view(s, is_leader) {
        build_arranged(entered, clock)
    } else {
        entered
    }
}

/// A background import succeeded.
pub open spec fn import_succeeded(s: OrchState, hash: B256, timestamp: u64, instant_ms: u64) -> OrchState {
    OrchState { head: hash, ..eager_imported(s, hash, timestamp, instant_ms) }
}

/// A background import succeeded and the next one starts, or none is left.
pub open spec fn next_import(s: OrchState) -> OrchState {
    OrchState { bg: after_import_done(s.bg), ..s }
}

/// The leader's own block came back from its broadcast.
pub open spec fn own_block_cached(s: OrchState, hash: B256, data: Seq<u8>) -> OrchState {
    let cached = OrchState {
        pending: PendingState { data: with_own_block(s.pending.data, hash, data), ..s.pending },
        ..s
    };
    match announced_block(data) {
        Some(block) => OrchState {
            last_committed_timestamp: later_timestamp(s.last_committed_timestamp, block.3),
            chain: with_payload(s.chain, hash, block.2),
            ..cached
        },
        None => cached,
    }
}

/// Finalization waits for this block.
pub open spec fn awaits_finalization(s: OrchState, hash: B256) -> bool {
    s.pending_finalization matches Some(p) && p.1 == hash
}

impl ConsensusOrchestrator {
    /// Consensus wants a block executed. Says whether its data is there, so that
    /// consensus can be told at once; else the block is waited for.
    pub fn handle_execute_block(&mut self, block_hash: B256) -> (available: bool)
        requires
            old(self).wf(),
        ensures
            final(self).wf(),
            available == old(self)@.pending.data.contains_key(block_hash),
            final(self)@ == if available {
                old(self)@
            } else {
                awaiting(old(self)@, block_hash)
            },
    {
        if self.pending.has_data(&block_hash) {
            true
        } else {
            self.pending.await_block(block_hash);
            false
        }
    }

    /// Keeps a committed block, with the payload that is cached for it.
    fn store_committed_block(&mut self, view: u64, block_hash: B256, commit_qc: &QuorumCertificate)
        requires
            old(self).wf(),
        ensures
            final(self).wf(),
            final(self)@ == (OrchState {
                chain: ring_push(
                    old(self)@.chain,
                    old(self)@.chain_limit as int,
                    CommittedState {
                        view,
                        block_hash,
                        commit_qc: commit_qc@,
                        payload: cached_payload(old(self)@.pending.data, block_hash),
                    },
                ),
                ..old(self)@
            }),
    {
        let payload: Vec<u8> = match self.pending.data_of(&block_hash) {
            Some(data) => match decode_block(data) {
                Some(block) => block.payload_json,
                None => Vec::new(),
            },
            None => Vec::new(),
        };
        assert(payload@ =~= cached_payload(self@.pending.data, block_hash));
        self.chain.store(
            CommittedBlock { view, block_hash, commit_qc: commit_qc.duplicate(), payload },
        );
    }

    /// Consensus committed a block: it becomes the head and is kept for peers.
    pub fn handle_block_committed(
        &mut self,
        view: u64,
        block_hash: B256,
        commit_qc: &QuorumCertificate,
        instant_ms: u64,
    ) -> (committed: Committed)
        requires
            old(self).wf(),
            old(self)@.committed_block_count < u64::MAX,
        ensures
            final(self).wf(),
            final(self)@ == committed_state(old(self)@, view, block_hash, commit_qc@),
            committed == (Committed {
                elapsed_ms: commit_latency(old(self)@, instant_ms),
                timing: committed_timing(old(self)@, block_hash, instant_ms),
            }),
    {
        self.committed_block_count = self.committed_block_count + 1;
        let elapsed_ms: Option<u64> = match self.view_started_at {
            Some(start) => Some(instant_ms.saturating_sub(start)),
            None => None,
        };
        self.view_started_at = None;
        let timing: Option<PipelineTiming> = self.timings.take_committed(&block_hash, instant_ms);
        self.prev_randao = prev_randao(Some(commit_qc));
        self.store_committed_block(view, block_hash, commit_qc);
        self.head_block_hash = block_hash;
        Committed { elapsed_ms, timing }
    }

    /// The decompressed execution output of a block whose data is cached: what
    /// the state trie is updated from.
    pub fn execution_json(&self, block_hash: &B256) -> (json: Option<Vec<u8>>)
        requires
            self.wf(),
        ensures
            match json {
                Some(j) => self@.pending.data.contains_key(*block_hash) && bundle_json(
                    self@.pending.data[*block_hash],
                ) == Some(j@),
                None => !self@.pending.data.contains_key(*block_hash) || bundle_json(
                    self@.pending.data[*block_hash],
                ) is None,
            },
    {
        match self.pending.data_of(block_hash) {
            Some(data) => extract_bundle_state_json(data),
            None => None,
        }
    }

    /// Whether the state trie drops old versions now.
    pub fn prunes_state_trie(&self) -> (prunes: bool)
        ensures
            prunes == (self@.committed_block_count % JMT_PRUNE_INTERVAL == 0),
    {
        self.committed_block_count % JMT_PRUNE_INTERVAL == 0
    }

    /// The input of a proof of a committed block's execution, where its data is
    /// cached; without a readable execution output the output is empty.
    pub fn zk_input(&self, block_hash: &B256) -> (input: Option<ZkInput>)
        requires
            self.wf(),
        ensures
            input is Some == self@.pending.data.contains_key(*block_hash),
            input matches Some(i) ==> i.block_hash == *block_hash && i.block_number
                == self@.committed_block_count && i.parent_hash == self@.head
                && i.bundle_state_json@ == match bundle_json(self@.pending.data[*block_hash]) {
                Some(json) => json,
                None => Seq::empty(),
            },
    {
        match self.pending.data_of(block_hash) {
            Some(data) => {
                let bundle_state_json: Vec<u8> = match extract_bundle_state_json(data) {
                    Some(json) => json,
                    None => Vec::new(),
                };
                Some(
                    ZkInput {
                        block_hash: *block_hash,
                        block_number: self.committed_block_count,
                        parent_hash: self.head_block_hash,
                        bundle_state_json,
                    },
                )
            },
            None => None,
        }
    }

    /// The payload of the newest committed block, to look for staking
    /// transactions in: none where it is missing or does not decompress.
    pub fn staking_payload(&self) -> (payload: Option<Vec<u8>>)
        ensures
            match payload {
                Some(p) => self@.chain.len() > 0 && self@.chain.last().payload.len() > 0
                    && payload_content(self@.chain.last().payload) == Some(p@),
                None => self@.chain.len() == 0 || self@.chain.last().payload.len() == 0
                    || payload_content(self@.chain.last().payload) is None,
            },
    {
        match self.chain.newest_payload() {
            Some(data) => if data.len() == 0 {
                None
            } else {
                decompress_payload(data)
            },
            None => None,
        }
    }

    /// Starts to finalize a committed block: says whether to make it the head
    /// of the execution layer. Without one there is nothing to wait for.
    pub fn finalize_committed_block(&mut self) -> (update_fork_choice: bool)
        requires
            old(self).wf(),
        ensures
            final(self).wf(),
            update_fork_choice == old(self)@.has_execution_layer,
            final(self)@ == if update_fork_choice {
                old(self)@
            } else {
                OrchState { pending: nothing_pending(), ..old(self)@ }
            },
    {
        if self.has_execution_layer {
            true
        } else {
            self.pending.clear();
            false
        }
    }

    /// A block was imported ahead of its commit.
    pub fn handle_eager_import_done(&mut self, hash: &B256, timestamp: u64, instant_ms: u64)
        requires
            old(self).wf(),
        ensures
            final(self).wf(),
            final(self)@ == eager_imported(old(self)@, *hash, timestamp, instant_ms),
    {
        self.last_committed_timestamp = max_u64(self.last_committed_timestamp, timestamp);
        self.timings.mark_imported(hash, instant_ms);
    }

    /// The head could not be moved to a committed block. Takes note of the
    /// imports that finished meanwhile and says whether one was of this block,
    /// so that moving the head is worth another try.
    pub fn note_eager_imports(
        &mut self,
        done: &Vec<(B256, u64)>,
        block_hash: &B256,
        instant_ms: u64,
    ) -> (retry: bool)
        requires
            old(self).wf(),
        ensures
            final(self).wf(),
            final(self)@ == all_eager_imported(old(self)@, done@, instant_ms),
            retry == has_import_of(done@, *block_hash),
    {
        let mut retry = false;
        let mut i: usize = 0;
        assert(done@.take(0) =~= Seq::empty());
        while i < done.len()
            invariant
                i <= done@.len(),
                self.wf(),
                self@ == all_eager_imported(old(self)@, done@.take(i as int), instant_ms),
                retry == has_import_of(done@.take(i as int), *block_hash),
            decreases done@.len() - i,
        {
            proof {
                assert(done@.take(i + 1).drop_last() =~= done@.take(i as int));
            }
            self.handle_eager_import_done(&done[i].0, done[i].1, instant_ms);
            let this = same_key(&done[i].0, block_hash);
            proof {
                let before = done@.take(i as int);
                let after = done@.take(i + 1);
                assert(after[i as int] == done@[i as int]);
                if has_import_of(before, *block_hash) {
                    let j = choose|j: int| 0 <= j < before.len() && (#[trigger] before[j]).0
                        == *block_hash;
                    assert(after[j].0 == *block_hash);
                }
                if has_import_of(after, *block_hash) && !this {
                    let j = choose|j: int| 0 <= j < after.len() && (#[trigger] after[j]).0
                        == *block_hash;
                    assert(before[j].0 == *block_hash);
                }
            }
            if this {
                retry = true;
            }
            i += 1;
        }
        assert(done@.take(i as int) =~= done@);
        retry
    }

    /// Arranges the next build; says whether to build now.
    pub fn schedule_payload_build(&mut self, clock: Clock) -> (build_now: bool)
        requires
            old(self).wf(),
            old(self)@.schedule.clocks_fit(clock),
        ensures
            final(self).wf(),
            final(self)@ == build_arranged(old(self)@, clock),
            build_now == builds_at_once(old(self)@),
    {
        let empty = self.chain.recent_blocks_empty();
        self.schedule.schedule_payload_build(empty, clock)
    }

    /// A committed block is the head of the execution layer: what was cached is
    /// no longer needed, and the leader arranges its next build, unless one
    /// runs on this block already. Says whether to build now.
    pub fn block_finalized(&mut self, block_hash: &B256, is_leader: bool, clock: Clock) -> (build_now:
        bool)
        requires
            old(self).wf(),
            old(self)@.schedule.clocks_fit(clock),
        ensures
            final(self).wf(),
            final(self)@ == {
                let cleared = OrchState { pending: nothing_pending(), ..old(self)@ };
                if is_leader && !is_that_hash(old(self)@.speculative_build_hash, *block_hash) {
                    build_arranged(cleared, clock)
                } else {
                    cleared
                }
            },
            build_now == (is_leader && !is_that_hash(
                old(self)@.speculative_build_hash,
                *block_hash,
            ) && builds_at_once(old(self)@)),
    {
        self.pending.clear();
        if is_leader && !same_hash(&self.speculative_build_hash, block_hash) {
            self.schedule_payload_build(clock)
        } else {
            false
        }
    }

    fn start_import(&mut self, data: Vec<u8>, block_hash: B256, view: u64) -> (import:
        FinalizeImport)
        requires
            old(self).wf(),
        ensures
            final(self).wf(),
            final(self)@ == importing(old(self)@, data@, block_hash, view),
            match import {
                FinalizeImport::Start { import } => old(self)@.bg.running is None && import@ == (
                    data@,
                    block_hash,
                    view,
                ),
                FinalizeImport::Queued => old(self)@.bg.running is Some,
                FinalizeImport::NoData => false,
            },
    {
        self.pending.clear();
        match self.bg.enqueue_bg_import(BgImport { data, block_hash, view }) {
            Some(import) => FinalizeImport::Start { import },
            None => FinalizeImport::Queued,
        }
    }

    /// A committed block is not in the execution layer: it is imported in the
    /// background, where its data is cached.
    pub fn import_committed(&mut self, view: u64, block_hash: B256) -> (import: FinalizeImport)
        requires
            old(self).wf(),
        ensures
            final(self).wf(),
            import is NoData == !old(self)@.pending.data.contains_key(block_hash),
            final(self)@ == if import is NoData {
                old(self)@
            } else {
                importing(old(self)@, old(self)@.pending.data[block_hash], block_hash, view)
            },
            match import {
                FinalizeImport::Start { import } => old(self)@.bg.running is None && import@ == (
                    old(self)@.pending.data[block_hash],
                    block_hash,
                    view,
                ),
                FinalizeImport::Queued => old(self)@.bg.running is Some,
                FinalizeImport::NoData => true,
            },
    {
        let ghost before = self@;
        match self.pending.take(&block_hash) {
            Some(data) => {
                let import = self.start_import(data, block_hash, view);
                assert(self@ =~= importing(before, before.pending.data[block_hash], block_hash, view));
                import
            },
            None => {
                assert(self@.pending.data =~= before.pending.data);
                assert(self@ =~= before);
                FinalizeImport::NoData
            },
        }
    }

    /// A committed block's data was not cached. Takes the leader's own blocks
    /// that came back meanwhile into the cache; where the block is among them it
    /// is imported, and else its finalization waits.
    pub fn import_or_defer(
        &mut self,
        view: u64,
        block_hash: B256,
        commit_qc: &QuorumCertificate,
        own_blocks: Vec<(B256, Vec<u8>)>,
    ) -> (import: FinalizeImport)
        requires
            old(self).wf(),
        ensures
            final(self).wf(),
            ({
                let cached = own_blocks_cached(old(self)@, own_blocks_state(own_blocks@));
                let found = cached.pending.data.contains_key(block_hash);
                &&& import is NoData == !found
                &&& final(self)@ == if found {
                    importing(cached, cached.pending.data[block_hash], block_hash, view)
                } else {
                    deferred(cached, view, block_hash, commit_qc@)
                }
                &&& match import {
                    FinalizeImport::Start { import } => old(self)@.bg.running is None && import@ == (
                        cached.pending.data[block_hash],
                        block_hash,
                        view,
                    ),
                    FinalizeImport::Queued => old(self)@.bg.running is Some,
                    FinalizeImport::NoData => true,
                }
            }),
    {
        let ghost all = own_blocks_state(own_blocks@);
        let mut i: usize = 0;
        assert(all.take(0) =~= Seq::empty());
        while i < own_blocks.len()
            invariant
                i <= own_blocks@.len(),
                all == own_blocks_state(own_blocks@),
                self.wf(),
                self@ == own_blocks_cached(old(self)@, all.take(i as int)),
            decreases own_blocks@.len() - i,
        {
            proof {
                assert(all.take(i + 1).drop_last() =~= all.take(i as int));
                assert(all.take(i + 1).last() == (own_blocks@[i as int].0, own_blocks@[i as int].1@));
            }
            self.pending.cache_own_block(own_blocks[i].0, copy_bytes(&own_blocks[i].1));
            i += 1;
        }
        assert(all.take(i as int) =~= all);
        let import = self.import_committed(view, block_hash);
        if matches!(import, FinalizeImport::NoData) {
            self.pending_finalization = Some(
                PendingFinalization { view, block_hash, commit_qc: commit_qc.duplicate() },
            );
            self.pending.await_block(block_hash);
        }
        import
    }

    /// Plans a sync request, unless one is under way.
    pub fn initiate_sync(&mut self, local_view: u64, target_view: u64, instant_ms: u64) -> (request:
        Option<(u64, BlockSyncRequest)>)
        requires
            old(self).wf(),
            local_view < u64::MAX,
        ensures
            final(self).wf(),
            final(self)@ == sync_planned(old(self)@, instant_ms),
            request == planned_request(old(self)@, local_view, target_view, instant_ms),
    {
        self.sync.initiate_sync(local_view, target_view, &self.peers, instant_ms)
    }

    /// The sync request went out.
    pub fn sync_requested(&mut self, instant_ms: u64)
        requires
            old(self).wf(),
        ensures
            final(self).wf(),
            final(self)@.sync.in_flight,
            final(self)@.sync.started_at == Some(instant_ms),
            final(self)@ == (OrchState { sync: final(self)@.sync, ..old(self)@ }),
            final(self)@.sync.timeout_ms == old(self)@.sync.timeout_ms,
    {
        self.sync.sent(instant_ms);
    }

    /// The view changed. Finalization that is too far behind is given up and the
    /// missing blocks asked for; the new leader arranges a build, unless blocks
    /// are being imported or a build runs already.
    pub fn handle_view_changed(&mut self, new_view: u64, is_leader: bool, clock: Clock) -> (change:
        ViewChange)
        requires
            old(self).wf(),
            old(self)@.schedule.clocks_fit(clock),
            old(self)@.pending_finalization matches Some(p) ==> p.0 + STALE_VIEWS <= u64::MAX,
        ensures
            final(self).wf(),
            final(self)@ == view_changed(old(self)@, new_view, is_leader, clock),
            change.sync == if is_stale(old(self)@, new_view) {
                planned_request(
                    old(self)@,
                    waiting_view(old(self)@),
                    new_view,
                    clock.instant_ms,
                )
            } else {
                None
            },
            change.build_now == (builds_in_view(old(self)@, is_leader) && builds_at_once(
                view_entered(old(self)@, new_view, clock.instant_ms),
            )),
    {
        self.view_started_at = Some(clock.instant_ms);
        self.eager.reset(self.committed_block_count);
        let stale: Option<u64> = match &self.pending_finalization {
            Some(p) => if new_view > p.view + STALE_VIEWS {
                Some(p.view)
            } else {
                None
            },
            None => None,
        };
        let mut sync: Option<(u64, BlockSyncRequest)> = None;
        if let Some(stale_view) = stale {
            self.pending_finalization = None;
            self.pending.clear();
            sync = self.initiate_sync(stale_view, new_view, clock.instant_ms);
        }
        self.pending.clear_awaited();
        self.schedule.consecutive_empty_skips = self.schedule.max_empty_skips;
        let speculating = self.speculative_build_hash.is_some();
        self.speculative_build_hash = None;
        assert(self@ =~= view_entered(old(self)@, new_view, clock.instant_ms));
        let build_now = if is_leader && !self.bg.is_busy() && !speculating {
            self.schedule_payload_build(clock)
        } else {
            false
        };
        ViewChange { sync, build_now }
    }

    /// A background import finished. After a success the block is the head, and
    /// the next import starts or, when none is left, the leader arranges a
    /// build. After a failure what waits is given up and the missing blocks are
    /// asked for.
    pub fn handle_import_done(
        &mut self,
        hash: B256,
        view: u64,
        success: bool,
        timestamp: u64,
        is_leader: bool,
        current_view: u64,
        clock: Clock,
    ) -> (done: ImportDone)
        requires
            old(self).wf(),
            old(self)@.schedule.clocks_fit(clock),
            view < u64::MAX,
        ensures
            final(self).wf(),
            done.mobile_packet == success,
            done.sync == if success {
                None
            } else {
                planned_request(old(self)@, view, current_view, clock.instant_ms)
            },
            match done.next {
                Some(next) => success && old(self)@.bg.queue.len() > 0 && next@ == old(
                    self,
                )@.bg.queue[0],
                None => !success || old(self)@.bg.queue.len() == 0,
            },
            done.build_now == (success && old(self)@.bg.queue.len() == 0 && is_leader
                && builds_at_once(old(self)@)),
            final(self)@ == if success {
                let advanced = next_import(
                    import_succeeded(old(self)@, hash, timestamp, clock.instant_ms),
                );
                if old(self)@.bg.queue.len() == 0 && is_leader {
                    build_arranged(advanced, clock)
                } else {
                    advanced
                }
            } else {
                sync_planned(
                    OrchState { bg: no_imports(), ..old(self)@ },
                    clock.instant_ms,
                )
            },
    {
        if !success {
            self.bg.failed();
            let sync = self.initiate_sync(view, current_view, clock.instant_ms);
            return ImportDone { mobile_packet: false, sync, next: None, build_now: false };
        }
        self.handle_eager_import_done(&hash, timestamp, clock.instant_ms);
        self.head_block_hash = hash;
        let next = self.bg.finished();
        assert(self@ =~= next_import(
            import_succeeded(old(self)@, hash, timestamp, clock.instant_ms),
        ));
        let build_now = if next.is_none() && is_leader {
            self.schedule_payload_build(clock)
        } else {
            false
        };
        ImportDone { mobile_packet: true, sync: None, next, build_now }
    }

    /// The leader's own block came back from its broadcast: it is cached for
    /// its import, and fills in the payload of a block that was committed
    /// before. Hands back the finalization that waited for it.
    pub fn handle_leader_payload_feedback(&mut self, hash: B256, data: Vec<u8>) -> (waiting: Option<
        PendingFinalization,
    >)
        requires
            old(self).wf(),
        ensures
            final(self).wf(),
            match waiting {
                Some(p) => awaits_finalization(old(self)@, hash) && old(self)@.pending_finalization
                    == Some(p@),
                None => !awaits_finalization(old(self)@, hash),
            },
            final(self)@ == {
                let cached = own_block_cached(old(self)@, hash, data@);
                if waiting is Some {
                    OrchState { pending_finalization: None, ..cached }
                } else {
                    cached
                }
            },
    {
        if let Some(block) = decode_block(&data) {
            self.last_committed_timestamp = max_u64(
                self.last_committed_timestamp,
                block.timestamp,
            );
            let _ = self.chain.fill_payload(&hash, &block.payload_json);
        }
        self.pending.cache_own_block(hash, data);
        assert(self@ =~= own_block_cached(old(self)@, hash, data@));
        if self.is_finalization_pending(&hash) {
            self.pending_finalization.take()
        } else {
            None
        }
    }

    /// What the first leader does at start: it waits for the network to form
    /// before it builds.
    pub fn initialize_startup_schedule(
        &mut self,
        is_leader: bool,
        configured_delay_ms: Option<u64>,
        validators: u32,
        instant_ms: u64,
    ) -> (startup: Startup)
        requires
            old(self).wf(),
            instant_ms + startup_delay(configured_delay_ms, validators) <= u64::MAX,
        ensures
            final(self).wf(),
            startup == startup_of(
                is_leader,
                old(self)@.has_execution_layer,
                startup_delay(configured_delay_ms, validators),
            ),
            final(self)@ == (OrchState {
                schedule: after_startup(old(self)@.schedule, startup, instant_ms),
                ..old(self)@
            }),
    {
        self.schedule.initialize_startup_schedule(
            is_leader,
            self.has_execution_layer,
            configured_delay_ms,
            validators,
            instant_ms,
        )
    }

    /// The build timer fired.
    pub fn on_build_timer(&mut self, is_leader: bool, view: u64) -> (action: TimerAction)
        requires
            old(self).wf(),
        ensures
            final(self).wf(),
            action == timer_action(
                old(self)@.schedule,
                is_leader,
                view,
                old(self)@.speculative_build_hash is Some,
            ),
            final(self)@ == (OrchState { schedule: after_timer(old(self)@.schedule), ..old(self)@ }),
    {
        let speculating = self.speculative_build_hash.is_some();
        self.schedule.on_build_timer(is_leader, view, speculating)
    }

    /// The pacemaker timed out: a leader that has no build under way and none
    /// arranged tries again.
    pub fn on_timeout(&mut self, is_leader: bool, instant_ms: u64)
        requires
            old(self).wf(),
            instant_ms + BUILD_RETRY_MS <= u64::MAX,
        ensures
            final(self).wf(),
            final(self)@ == if old(self)@.schedule.next_build_at is None && old(
                self,
            )@.speculative_build_hash is None {
                OrchState {
                    schedule: after_retry(old(self)@.schedule, is_leader, instant_ms),
                    ..old(self)@
                }
            } else {
                old(self)@
            },
    {
        if self.schedule.next_build_at.is_none() && self.speculative_build_hash.is_none() {
            self.schedule.schedule_build_retry(is_leader, instant_ms);
        }
    }

    /// The leader's payload is built: the parent is free for other builds, and
    /// the block's stages are tracked from when the build started.
    pub fn on_block_ready(&mut self, hash: B256, instant_ms: u64)
        requires
            old(self).wf(),
        ensures
            final(self).wf(),
            after_recording(
                old(self)@.timings,
                hash,
                PipelineTiming {
                    created: match old(self)@.build_triggered_at {
                        Some(at) => at,
                        None => instant_ms,
                    },
                    is_leader: true,
                    build_complete: Some(instant_ms),
                    import_complete: None,
                    committed: None,
                },
                final(self)@.timings,
            ),
            final(self)@ == (OrchState {
                building_on_parent: None,
                build_triggered_at: None,
                timings: final(self)@.timings,
                ..old(self)@
            }),
    {
        self.building_on_parent = None;
        let created: u64 = match self.build_triggered_at {
            Some(at) => at,
            None => instant_ms,
        };
        self.build_triggered_at = None;
        self.timings.record_pipeline_timing(
            hash,
            PipelineTiming {
                created,
                is_leader: true,
                build_complete: Some(instant_ms),
                import_complete: None,
                committed: None,
            },
        );
    }

    /// A build task ended, in whatever way: its parent is free for other builds.
    pub fn on_build_complete(&mut self)
        requires
            old(self).wf(),
        ensures
            final(self).wf(),
            final(self)@ == if old(self)@.building_on_parent is Some {
                OrchState { building_on_parent: None, build_triggered_at: None, ..old(self)@ }
            } else {
                old(self)@
            },
    {
        if self.building_on_parent.is_some() {
            self.building_on_parent = None;
            self.build_triggered_at = None;
        }
    }
}

/// What the node does with an output of consensus, and what it knows then.
pub open spec fn output_handled(
    s: OrchState,
    output: EngineOutput,
    validator_peers: Seq<(u32, u64)>,
    is_leader: bool,
    clock: Clock,
) -> (OrchState, OutputAction) {
    match output {
        EngineOutput::BroadcastMessage => (s, OutputAction::Send { direct: None }),
        EngineOutput::SendToValidator { target } => (
            s,
            OutputAction::Send { direct: peer_of(validator_peers, target) },
        ),
        EngineOutput::ExecuteBlock { block_hash } => if s.pending.data.contains_key(block_hash) {
            (s, OutputAction::BlockImported)
        } else {
            (awaiting(s, block_hash), OutputAction::Awaited)
        },
        EngineOutput::BlockCommitted { view, block_hash, commit_qc } => (
            committed_state(s, view, block_hash, commit_qc@),
            OutputAction::Finalize {
                committed: Committed {
                    elapsed_ms: commit_latency(s, clock.instant_ms),
                    timing: committed_timing(s, block_hash, clock.instant_ms),
                },
            },
        ),
        EngineOutput::ViewChanged { new_view } => (
            view_changed(s, new_view, is_leader, clock),
            OutputAction::ViewChanged {
                change: ViewChange {
                    sync: if is_stale(s, new_view) {
                        planned_request(
                            s,
                            waiting_view(s),
                            new_view,
                            clock.instant_ms,
                        )
                    } else {
                        None
                    },
                    build_now: builds_in_view(s, is_leader) && builds_at_once(
                        view_entered(s, new_view, clock.instant_ms),
                    ),
                },
            },
        ),
        EngineOutput::SyncRequired { local_view, target_view } => (
            sync_planned(s, clock.instant_ms),
            OutputAction::Sync {
                request: planned_request(s, local_view, target_view, clock.instant_ms),
            },
        ),
        EngineOutput::EquivocationDetected => (s, OutputAction::Record),
        EngineOutput::EpochTransition { new_epoch } => (
            OrchState { has_validator_set: true, ..s },
            OutputAction::StageEpoch { epoch: (new_epoch + 1) as u64 },
        ),
    }
}

/// Numbers that the handling of an output adds to stay in range.
pub open spec fn output_fits(s: OrchState, output: EngineOutput) -> bool {
    match output {
        EngineOutput::BlockCommitted { .. } => s.committed_block_count < u64::MAX,
        EngineOutput::ViewChanged { .. } => s.pending_finalization matches Some(p) ==> p.0
            + STALE_VIEWS <= u64::MAX,
        EngineOutput::SyncRequired { local_view, .. } => local_view < u64::MAX,
        EngineOutput::EpochTransition { new_epoch } => new_epoch < u64::MAX,
        _ => true,
    }
}

impl ConsensusOrchestrator {
    /// Handles an output of consensus. A message to one validator goes to
    /// everybody as well, since sending it directly can fail unnoticed.
    pub fn handle_engine_output(
        &mut self,
        output: EngineOutput,
        validator_peers: &Vec<(u32, u64)>,
        is_leader: bool,
        clock: Clock,
    ) -> (action: OutputAction)
        requires
            old(self).wf(),
            old(self)@.schedule.clocks_fit(clock),
            output_fits(old(self)@, output),
        ensures
            final(self).wf(),
            (final(self)@, action) == output_handled(
                old(self)@,
                output,
                validator_peers@,
                is_leader,
                clock,
            ),
    {
        match output {
            EngineOutput::BroadcastMessage => OutputAction::Send { direct: None },
            EngineOutput::SendToValidator { target } => OutputAction::Send {
                direct: validator_peer(validator_peers, target),
            },
            EngineOutput::ExecuteBlock { block_hash } => if self.handle_execute_block(block_hash) {
                OutputAction::BlockImported
            } else {
                OutputAction::Awaited
            },
            EngineOutput::BlockCommitted { view, block_hash, commit_qc } => {
                let committed = self.handle_block_committed(
                    view,
                    block_hash,
                    &commit_qc,
                    clock.instant_ms,
                );
                OutputAction::Finalize { committed }
            },
            EngineOutput::ViewChanged { new_view } => {
                let change = self.handle_view_changed(new_view, is_leader, clock);
                OutputAction::ViewChanged { change }
            },
            EngineOutput::SyncRequired { local_view, target_view } => {
                let request = self.initiate_sync(local_view, target_view, clock.instant_ms);
                OutputAction::Sync { request }
            },
            EngineOutput::EquivocationDetected => OutputAction::Record,
            EngineOutput::EpochTransition { new_epoch } => {
                self.has_validator_set = true;
                OutputAction::StageEpoch { epoch: new_epoch + 1 }
            },
        }
    }
}

/// A commit moves the head to the committed block and counts it; an import
/// ahead of the commit moves neither.
pub proof fn only_commits_move_the_head(
    s: OrchState,
    view: u64,
    hash: B256,
    qc: QcState,
    other: B256,
    timestamp: u64,
    instant_ms: u64,
)
    requires
        s.committed_block_count < u64::MAX,
    ensures
        committed_state(s, view, hash, qc).head == hash,
        committed_state(s, view, hash, qc).committed_block_count == s.committed_block_count + 1,
        eager_imported(s, other, timestamp, instant_ms).head == s.head,
        eager_imported(s, other, timestamp, instant_ms).committed_block_count
            == s.committed_block_count,
{
}

/// A view change keeps the cached block data, which may have come before the
/// decision on it, unless a finalization is too far behind.
pub proof fn view_change_keeps_cached_data(
    s: OrchState,
    new_view: u64,
    is_leader: bool,
    clock: Clock,
)
    ensures
        !is_stale(s, new_view) ==> view_changed(s, new_view, is_leader, clock).pending.data
            == s.pending.data && view_changed(s, new_view, is_leader, clock).pending_finalization
            == s.pending_finalization,
        is_stale(s, new_view) ==> view_changed(s, new_view, is_leader, clock).pending
            == nothing_pending() && view_changed(
            s,
            new_view,
            is_leader,
            clock,
        ).pending_finalization is None,
{
    assert(nothing_pending().executions =~= Set::empty());
}

/// After a view change the leader proposes even where there was no activity:
/// the skips count as used up.
pub proof fn view_change_forces_a_proposal(s: OrchState, new_view: u64, instant_ms: u64)
    ensures
        !may_skip(
            view_entered(s, new_view, instant_ms).schedule,
            recently_empty(view_entered(s, new_view, instant_ms).chain),
        ),
{
}

/// Background imports stay in sequence, and no block is imported twice at a
/// time: nothing waits unless an import runs, and no block is under way twice,
/// whatever is imported or finished.
pub proof fn imports_stay_in_sequence(s: OrchState, data: Seq<u8>, hash: B256, view: u64)
    requires
        in_sequence(s.bg),
        each_once(s.bg),
    ensures
        in_sequence(importing(s, data, hash, view).bg),
        each_once(importing(s, data, hash, view).bg),
        in_sequence(next_import(s).bg),
        each_once(next_import(s).bg),
        s.bg.running is Some && !is_under_way(s.bg, hash) ==> importing(s, data, hash, view).bg
            == (BgState { queue: s.bg.queue.push((data, hash, view)), ..s.bg }),
{
}

/// A block whose import runs or waits is not imported again: a second request
/// for it changes nothing of the imports, and once its import is done and no
/// other request came it is not under way any more.
pub proof fn no_block_is_imported_twice(
    s: OrchState,
    data: Seq<u8>,
    again: Seq<u8>,
    hash: B256,
    view: u64,
    later_view: u64,
)
    requires
        in_sequence(s.bg),
        each_once(s.bg),
    ensures
        is_under_way(importing(s, data, hash, view).bg, hash),
        importing(importing(s, data, hash, view), again, hash, later_view) == importing(
            s,
            data,
            hash,
            view,
        ),
        s.bg.running == Some(hash) ==> !is_under_way(next_import(s).bg, hash),
{
    let once = importing(s, data, hash, view).bg;
    if !is_under_way(s.bg, hash) && s.bg.running is Some {
        assert(once.queue[s.bg.queue.len() as int].1 == hash);
    }
    if s.bg.running == Some(hash) && s.bg.queue.len() > 0 {
        let rest = s.bg.queue.drop_first();
        assert(s.bg.queue[0].1 != hash);
        assert forall|i: int| 0 <= i < rest.len() implies (#[trigger] rest[i]).1 != hash by {
            assert(rest[i] == s.bg.queue[i + 1]);
        }
    }
}

/// A finalization that was deferred for want of a block's data is handed out
/// once the leader's own block with that hash comes back, and only then.
pub proof fn deferred_finalization_is_resumed(
    s: OrchState,
    view: u64,
    hash: B256,
    qc: QcState,
    arriving: B256,
    data: Seq<u8>,
)
    ensures
        awaits_finalization(deferred(s, view, hash, qc), arriving) == (arriving == hash),
        own_block_cached(deferred(s, view, hash, qc), arriving, data).pending_finalization == Some(
            (view, hash, qc),
        ),
        own_block_cached(deferred(s, view, hash, qc), hash, data).pending.data.contains_key(hash),
{
}

/// A follower never builds: whatever consensus puts out, a node that does not
/// lead is not told to build, and no build is arranged or moved.
pub proof fn followers_do_not_build(
    s: OrchState,
    output: EngineOutput,
    validator_peers: Seq<(u32, u64)>,
    clock: Clock,
)
    ensures
        ({
            let (after, action) = output_handled(s, output, validator_peers, false, clock);
            &&& after.schedule.next_build_at == s.schedule.next_build_at
            &&& after.schedule.next_slot_timestamp == s.schedule.next_slot_timestamp
            &&& action matches OutputAction::ViewChanged { change } ==> !change.build_now
        }),
{
}

/// The leader of a new view builds: at once where there are neither slots nor a
/// delay, after the delay where there are no slots, and else when the slot begins.
/// Where a block is being imported or a build runs ahead it does not.
pub proof fn leaders_build_in_their_view(
    s: OrchState,
    new_view: u64,
    validator_peers: Seq<(u32, u64)>,
    clock: Clock,
)
    requires
        s.schedule.clocks_fit(clock),
    ensures
        ({
            let output = EngineOutput::ViewChanged { new_view };
            let (after, action) = output_handled(s, output, validator_peers, true, clock);
            let free = s.bg.running is None && s.speculative_build_hash is None;
            let slots = s.schedule.slot_time_ms > 0 && !s.schedule.fast_propose;
            let delay = s.schedule.min_propose_delay_ms;
            &&& action matches OutputAction::ViewChanged { change } && change.build_now == (free
                && !slots && delay == 0)
            &&& !free || (!slots && delay == 0) ==> after.schedule.next_build_at
                == s.schedule.next_build_at && after.schedule.next_slot_timestamp
                == s.schedule.next_slot_timestamp
            &&& free && !slots && delay > 0 ==> after.schedule.next_build_at == Some(
                (clock.instant_ms + delay) as u64,
            ) && after.schedule.next_slot_timestamp is None
            &&& free && slots ==> (after.schedule.next_build_at matches Some(at) && at
                >= clock.instant_ms && at - clock.instant_ms < s.schedule.slot_time_ms && (
            clock.unix_ms + (at - clock.instant_ms)) % s.schedule.slot_time_ms as int == 0
                && after.schedule.next_slot_timestamp == Some(
                ((clock.unix_ms + (at - clock.instant_ms)) / 1_000) as u64,
            ))
            &&& free ==> after.schedule.consecutive_empty_skips == 0
        }),
{
    if s.schedule.slot_time_ms > 0 {
        boundary_is_reached(clock.unix_ms, s.schedule.slot_time_ms);
    }
}

/// A committed block is kept whole: the newest kept block has its view, hash and
/// certificate, and the payload of its announcement where that is cached. So it
/// can be served to peers. It becomes the head and is counted, and the next
/// payload's randomness comes from its certificate.
pub proof fn committed_blocks_are_kept(
    s: OrchState,
    view: u64,
    block_hash: B256,
    commit_qc: QuorumCertificate,
    validator_peers: Seq<(u32, u64)>,
    is_leader: bool,
    clock: Clock,
)
    requires
        s.committed_block_count < u64::MAX,
    ensures
        ({
            let output = EngineOutput::BlockCommitted { view, block_hash, commit_qc };
            let (after, action) = output_handled(s, output, validator_peers, is_leader, clock);
            let newest = after.chain.last();
            &&& after.chain.len() > 0
            &&& newest.view == view
            &&& newest.block_hash == block_hash
            &&& newest.commit_qc == commit_qc@
            &&& s.pending.data.contains_key(block_hash) ==> (announced_block(
                s.pending.data[block_hash],
            ) matches Some(block) ==> newest.payload == block.2)
            &&& !s.pending.data.contains_key(block_hash) ==> newest.payload.len() == 0
            &&& s.chain.len() < s.chain_limit ==> after.chain == s.chain.push(newest)
            &&& after.chain.drop_last().is_suffix_of(s.chain)
            &&& after.chain.len() >= s.chain.len()
            &&& after.head == block_hash
            &&& after.committed_block_count == s.committed_block_count + 1
            &&& after.prev_randao == keccak256_of(commit_qc.aggregate_signature@)
            &&& after.pending == s.pending
            &&& after.bg == s.bg
            &&& after.schedule == s.schedule
            &&& after.last_committed_timestamp == s.last_committed_timestamp
            &&& after.pending_finalization == s.pending_finalization
            &&& !after.timings.contains_key(block_hash)
            &&& forall|other: B256|
                other != block_hash && s.timings.contains_key(other)
                    ==> #[trigger] after.timings.contains_key(other) && after.timings[other]
                    == s.timings[other]
            &&& action matches OutputAction::Finalize { committed } && (s.view_started_at matches
                Some(start) ==> (committed.elapsed_ms matches Some(ms) && (clock.instant_ms
                >= start ==> ms == clock.instant_ms - start)))
                && (s.timings.contains_key(block_hash) ==> (committed.timing matches Some(t)
                && t.committed == Some(clock.instant_ms) && t.created
                == s.timings[block_hash].created && t.import_complete
                == s.timings[block_hash].import_complete))
        }),
{
    let output = EngineOutput::BlockCommitted { view, block_hash, commit_qc };
    let (after, action) = output_handled(s, output, validator_peers, is_leader, clock);
    assert(after.chain.drop_last() =~= s.chain || after.chain.drop_last()
        =~= s.chain.drop_first());
    if after.chain.drop_last() == s.chain {
        assert(s.chain.subrange(0, s.chain.len() as int) =~= s.chain);
    } else {
        assert(s.chain.subrange(1, s.chain.len() as int) =~= s.chain.drop_first());
    }
}

/// Consensus is told at once of a block whose data is there; else the block is
/// waited for, and nothing else changes.
pub proof fn blocks_are_executed_or_awaited(
    s: OrchState,
    block_hash: B256,
    validator_peers: Seq<(u32, u64)>,
    is_leader: bool,
    clock: Clock,
)
    ensures
        ({
            let output = EngineOutput::ExecuteBlock { block_hash };
            let (after, action) = output_handled(s, output, validator_peers, is_leader, clock);
            let there = s.pending.data.dom().contains(block_hash);
            &&& action is BlockImported <==> there
            &&& action is Awaited <==> !there
            &&& there ==> after == s
            &&& !there ==> after.pending.executions.contains(block_hash)
            &&& after.pending.data == s.pending.data
            &&& forall|other: B256|
                other != block_hash ==> (#[trigger] after.pending.executions.contains(other)
                    <==> s.pending.executions.contains(other))
            &&& after.head == s.head && after.chain == s.chain && after.bg == s.bg
            &&& after.schedule == s.schedule && after.pending_finalization
                == s.pending_finalization
        }),
{
}

/// Messages change nothing: one to everybody goes to no peer first, and one to a
/// validator goes first to a peer of that validator, where one is known.
pub proof fn messages_reach_their_validator(
    s: OrchState,
    target: u32,
    validator_peers: Seq<(u32, u64)>,
    is_leader: bool,
    clock: Clock,
)
    ensures
        ({
            let output = EngineOutput::SendToValidator { target };
            let (after, action) = output_handled(s, output, validator_peers, is_leader, clock);
            &&& after == s
            &&& action matches OutputAction::Send { direct } && match direct {
                Some(peer) => exists|i: int|
                    0 <= i < validator_peers.len() && #[trigger] validator_peers[i] == (
                        target,
                        peer,
                    ),
                None => forall|i: int|
                    0 <= i < validator_peers.len() ==> (#[trigger] validator_peers[i]).0
                        != target,
            }
        }),
        output_handled(s, EngineOutput::BroadcastMessage, validator_peers, is_leader, clock) == (
            s,
            OutputAction::Send { direct: None },
        ),
        output_handled(s, EngineOutput::EquivocationDetected, validator_peers, is_leader, clock)
            == (s, OutputAction::Record),
{
    peers_are_found(validator_peers, target);
}

/// A view change starts the view's clock, drops what was waited for and the
/// build that ran ahead, and lets the next block number through again. What was
/// committed, imported or cached stays. A finalization that waits is given up
/// once its view is more than two behind, and only then.
pub proof fn view_changes_start_afresh(
    s: OrchState,
    new_view: u64,
    validator_peers: Seq<(u32, u64)>,
    is_leader: bool,
    clock: Clock,
)
    ensures
        ({
            let output = EngineOutput::ViewChanged { new_view };
            let (after, action) = output_handled(s, output, validator_peers, is_leader, clock);
            &&& after.view_started_at == Some(clock.instant_ms)
            &&& after.speculative_build_hash is None
            &&& after.eager.highest == s.committed_block_count
            &&& forall|hash: B256| !#[trigger] after.pending.executions.contains(hash)
            &&& after.head == s.head
            &&& after.chain == s.chain
            &&& after.committed_block_count == s.committed_block_count
            &&& after.last_committed_timestamp == s.last_committed_timestamp
            &&& after.bg == s.bg
            &&& after.syncing == s.syncing
            &&& after.building_on_parent == s.building_on_parent
            &&& after.forward == s.forward
            &&& after.peers == s.peers
            &&& after.timings == s.timings
            &&& match s.pending_finalization {
                Some(p) => if new_view > p.0 + 2 {
                    after.pending_finalization is None && after.pending.data.dom()
                        == Set::<B256>::empty()
                } else {
                    after.pending_finalization == Some(p) && after.pending.data == s.pending.data
                },
                None => after.pending_finalization is None && after.pending.data
                    == s.pending.data,
            }
            &&& action matches OutputAction::ViewChanged { change } && (change.sync matches
                Some((peer, request)) ==> s.pending_finalization matches Some(p) && new_view > p.0
                + 2 && s.peers.contains(peer) && request.from_view == (p.0 + 1) as u64
                && request.to_view == new_view && request.local_committed_view == p.0)
        }),
{
    let output = EngineOutput::ViewChanged { new_view };
    let (after, action) = output_handled(s, output, validator_peers, is_leader, clock);
    assert(Map::<B256, Seq<u8>>::empty().dom() =~= Set::<B256>::empty());
    if let Some(p) = s.pending_finalization {
        if s.peers.len() > 0 {
            assert(0 <= p.0 as int % s.peers.len() as int) by {
                vstd::arithmetic::div_mod::lemma_mod_bound(p.0 as int, s.peers.len() as int);
            }
            vstd::arithmetic::div_mod::lemma_mod_bound(p.0 as int, s.peers.len() as int);
            assert(s.peers.contains(s.peers[p.0 as int % s.peers.len() as int]));
        }
    }
}

/// A request for blocks goes to a connected peer, asks for what follows the local
/// view up to the target, and is not made while one is under way.
pub proof fn missing_blocks_are_asked_for(
    s: OrchState,
    local_view: u64,
    target_view: u64,
    validator_peers: Seq<(u32, u64)>,
    is_leader: bool,
    clock: Clock,
)
    requires
        local_view < u64::MAX,
    ensures
        ({
            let output = EngineOutput::SyncRequired { local_view, target_view };
            let (after, action) = output_handled(s, output, validator_peers, is_leader, clock);
            let waiting = s.sync.in_flight && (s.sync.started_at matches Some(at) ==> clock.instant_ms
                - at <= s.sync.timeout_ms);
            &&& action matches OutputAction::Sync { request } && match request {
                Some((peer, request)) => s.peers.contains(peer) && !waiting && request.from_view
                    == local_view + 1 && request.to_view == target_view
                    && request.local_committed_view == local_view,
                None => waiting || s.peers.len() == 0,
            }
            &&& after.sync.in_flight == waiting
            &&& after.sync.timeout_ms == s.sync.timeout_ms
            &&& after.pending == s.pending && after.chain == s.chain && after.head == s.head
            &&& after.schedule == s.schedule && after.bg == s.bg && after.peers == s.peers
        }),
{
    if s.peers.len() > 0 {
        vstd::arithmetic::div_mod::lemma_mod_bound(local_view as int, s.peers.len() as int);
        assert(s.peers.contains(s.peers[local_view as int % s.peers.len() as int]));
    }
}

/// An epoch transition has the validators of the epoch after the new one staged,
/// and from then on synced blocks are checked against validators.
pub proof fn epochs_are_staged_ahead(
    s: OrchState,
    new_epoch: u64,
    validator_peers: Seq<(u32, u64)>,
    is_leader: bool,
    clock: Clock,
)
    requires
        new_epoch < u64::MAX,
    ensures
        ({
            let output = EngineOutput::EpochTransition { new_epoch };
            let (after, action) = output_handled(s, output, validator_peers, is_leader, clock);
            &&& action matches OutputAction::StageEpoch { epoch } && epoch == new_epoch + 1
            &&& after.has_validator_set
            &&& after.head == s.head && after.chain == s.chain && after.pending == s.pending
            &&& after.schedule == s.schedule && after.bg == s.bg
        }),
{
}

} // verus!
