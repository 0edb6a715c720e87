//! A node that follows the chain without taking part in consensus.
use super::broadcast::{
    announced_block, announced_sidecars, decode_block, execution_payload, handle_blob_sidecar,
    pairs_state, ready_payload, sidecar_decodes, storable, BlockDataBroadcast, BroadcastFields, ReadyPayload,
};
use super::chain::{
    answers_are_complete, blocks_state, in_views, newest_view, of_views, BlockSyncRequest, BlockSyncResponse, CommittedBlock,
    CommittedChain, CommittedState, QcState, QuorumCertificate, DEFAULT_MAX_COMMITTED_BLOCKS,
    MAX_SYNC_BLOCKS,
};
use super::imports::{is_accepted, took, PayloadStatus};
use super::network::{filter_keeps_others, NetworkEvent};
use super::sync::{
    idle, is_behind, is_busy, peer_at_turn, request_after, select_sync_blocks, still_behind,
    sync_takes_what_may_be_imported, taken_blocks, timed_out, Peers, SyncTracker, WithoutValidators,
};
use crate::codec::payload_content;
use crate::primitives::{copy_bytes, max_u64, min_u64, B256};
use crate::ring::ring_push;
use vstd::prelude::*;

verus! {

/// The most views that one request of an observer spans.
pub const MAX_SYNC_BATCH: u64 = 128;

/// How often an observer reports its progress.
pub const PROGRESS_INTERVAL_MS: u64 = 10_000;

/// How often an observer looks whether it is behind.
pub const SYNC_CHECK_INTERVAL_MS: u64 = 5_000;

/// How long an observer waits for an answer.
pub const SYNC_TIMEOUT_MS: u64 = 30_000;

/// An observer at least this many views behind catches up.
pub const CATCH_UP_LAG: u64 = 10;

/// How far an observer is.
#[derive(Clone, Copy, Debug, PartialEq, Eq, Structural)]
pub enum Stage {
    CatchUp,
    Tracking,
    Waiting,
}

/// What an observer knows.
#[verifier::ext_equal]
pub ghost struct ObserverState {
    pub has_validator_set: bool,
    pub head: B256,
    pub local_view: u64,
    pub highest_seen_view: u64,
    pub sync: SyncTracker,
    pub sync_attempts: u64,
    pub chain: Seq<CommittedState>,
    pub chain_limit: usize,
    pub blocks_imported: u64,
    pub peers: Seq<u64>,
}

/// A node that follows the chain without taking part in consensus.
pub struct ObserverOrchestrator {
    has_validator_set: bool,
    head_block_hash: B256,
    local_view: u64,
    highest_seen_view: u64,
    sync: SyncTracker,
    sync_attempt_counter: u64,
    chain: CommittedChain,
    blocks_imported: u64,
    peers: Peers,
}

impl View for ObserverOrchestrator {
    type V = ObserverState;

    closed spec fn view(&self) -> ObserverState {
        ObserverState {
            has_validator_set: self.has_validator_set,
            head: self.head_block_hash,
            local_view: self.local_view,
            highest_seen_view: self.highest_seen_view,
            sync: self.sync,
            sync_attempts: self.sync_attempt_counter,
            chain: self.chain@,
            chain_limit: self.chain.limit(),
            blocks_imported: self.blocks_imported,
            peers: self.peers@,
        }
    }
}

/// A view was seen.
pub open spec fn view_seen(s: ObserverState, view: u64) -> ObserverState {
    ObserverState {
        highest_seen_view: if view > s.highest_seen_view {
            view
        } else {
            s.highest_seen_view
        },
        ..s
    }
}

/// A block that the execution layer took is kept, and becomes the head where
/// the head could be moved.
pub open spec fn block_taken(
    s: ObserverState,
    block: BroadcastFields,
    qc: QcState,
    head_moved: bool,
) -> ObserverState {
    let kept = ObserverState {
        chain: ring_push(
            s.chain,
            s.chain_limit as int,
            CommittedState {
                view: block.1,
                block_hash: block.0,
                commit_qc: qc,
                payload: block.2,
            },
        ),
        ..s
    };
    if head_moved {
        ObserverState {
            head: block.0,
            local_view: block.1,
            blocks_imported: (s.blocks_imported + 1) as u64,
            ..kept
        }
    } else {
        kept
    }
}

/// The last view that a request asks for.
pub open spec fn capped_view(local_view: u64, target_view: u64) -> u64 {
    if target_view <= local_view + MAX_SYNC_BATCH {
        target_view
    } else {
        (local_view + MAX_SYNC_BATCH) as u64
    }
}

/// The request that an observer plans.
pub open spec fn observer_request(
    s: ObserverState,
    local_view: u64,
    target_view: u64,
    instant_ms: u64,
) -> Option<(u64, BlockSyncRequest)> {
    match peer_at_turn(s.peers, s.sync_attempts) {
        Some(peer) => if is_busy(s.sync, instant_ms) {
            None
        } else {
            Some((peer, request_after(local_view, capped_view(local_view, target_view))))
        },
        None => None,
    }
}

/// What an observer knows once it planned a request: the next one goes to the
/// next peer.
pub open spec fn observer_planned(s: ObserverState, instant_ms: u64) -> ObserverState {
    ObserverState {
        sync: if timed_out(s.sync, instant_ms) {
            idle(s.sync)
        } else {
            s.sync
        },
        sync_attempts: if is_busy(s.sync, instant_ms) || s.peers.len() == 0 {
            s.sync_attempts
        } else {
            (s.sync_attempts + 1) as u64
        },
        ..s
    }
}

/// How far an observer is.
pub open spec fn stage_of(s: ObserverState) -> Stage {
    if s.highest_seen_view > 0 && s.local_view + CATCH_UP_LAG < s.highest_seen_view {
        Stage::CatchUp
    } else if s.blocks_imported > 0 {
        Stage::Tracking
    } else {
        Stage::Waiting
    }
}

/// The blocks of an answer that an observer imports.
pub open spec fn observer_taken(
    s: ObserverState,
    response: BlockSyncResponse,
    qc_valid: Seq<bool>,
) -> Seq<CommittedState> {
    taken_blocks(
        blocks_state(response.blocks@),
        s.has_validator_set,
        WithoutValidators::Trust,
        qc_valid,
    )
}

/// What an observer does with what comes in from the network.
#[derive(Debug)]
pub enum ObserverAction {
    Nothing,
    /// Import the announced block.
    Import { block: BlockDataBroadcast },
    StoreSidecars { sidecars: Vec<(B256, Vec<u8>)> },
    Respond { request_id: u64, response: BlockSyncResponse },
    /// Import the blocks in order, each with its certificate; then ask for more
    /// where that is due.
    ImportBlocks { blocks: Vec<CommittedBlock>, ask_for_more: bool },
}

/// The action and the knowledge that an event leads to fit together.
pub open spec fn observer_handled(
    s: ObserverState,
    event: NetworkEvent,
    request_valid: bool,
    has_blob_store: bool,
    after: ObserverState,
    action: ObserverAction,
) -> bool {
    match event {
        NetworkEvent::PeerConnected { peer } => action is Nothing && after == (ObserverState {
            peers: if s.peers.contains(peer) {
                s.peers
            } else {
                s.peers.push(peer)
            },
            ..s
        }),
        NetworkEvent::PeerDisconnected { peer } => action is Nothing && after == (ObserverState {
            peers: s.peers.filter(|p: u64| p != peer),
            ..s
        }),
        NetworkEvent::BlockAnnouncement { data } => after == s && match announced_block(data@) {
            Some(fields) => action matches ObserverAction::Import { block } && block@ == fields,
            None => action is Nothing,
        },
        NetworkEvent::BlobSidecarReceived { data } => after == s && (
        action matches ObserverAction::StoreSidecars { sidecars } && pairs_state(sidecars@)
            == match announced_sidecars(data@) {
            Some(b) => if has_blob_store {
                storable(b.2)
            } else {
                Seq::empty()
            },
            None => Seq::empty(),
        }),
        NetworkEvent::SyncRequest { request_id, request } => after == s && if request_valid {
            action matches ObserverAction::Respond { request_id: id, response } && id == request_id
                && blocks_state(response.blocks@) == in_views(
                s.chain,
                request.from_view,
                request.to_view,
                MAX_SYNC_BLOCKS as int,
            ) && response.peer_committed_view == newest_view(s.chain)
        } else {
            action is Nothing
        },
        NetworkEvent::SyncResponse { response, qc_valid } => {
            &&& after == (ObserverState { sync: idle(s.sync), ..s })
            &&& action matches ObserverAction::ImportBlocks { blocks, ask_for_more }
            &&& blocks_state(blocks@) == observer_taken(s, response, qc_valid@)
            &&& ask_for_more == (response.blocks@.len() > 0)
        },
        NetworkEvent::SyncRequestFailed => action is Nothing && after == (ObserverState {
            sync: idle(s.sync),
            ..s
        }),
        _ => action is Nothing && after == s,
    }
}

impl ObserverOrchestrator {
    /// Every part is within its limits.
    pub closed spec fn wf(self) -> bool {
        self.chain.wf() && self.peers.wf()
    }

    /// An observer at the head of its execution layer.
    pub fn new(head_block_hash: B256) -> (observer: Self)
        ensures
            observer.wf(),
            observer@ == (ObserverState {
                has_validator_set: false,
                head: head_block_hash,
                local_view: 0,
                highest_seen_view: 0,
                sync: SyncTracker {
                    timeout_ms: SYNC_TIMEOUT_MS,
                    in_flight: false,
                    started_at: None,
                },
                sync_attempts: 0,
                chain: Seq::empty(),
                chain_limit: DEFAULT_MAX_COMMITTED_BLOCKS,
                blocks_imported: 0,
                peers: Seq::empty(),
            }),
    {
        ObserverOrchestrator {
            has_validator_set: false,
            head_block_hash,
            local_view: 0,
            highest_seen_view: 0,
            sync: SyncTracker::new(SYNC_TIMEOUT_MS),
            sync_attempt_counter: 0,
            chain: CommittedChain::new(DEFAULT_MAX_COMMITTED_BLOCKS),
            blocks_imported: 0,
            peers: Peers::new(),
        }
    }

    /// Sets whether a validator set is known to check synced blocks against.
    pub fn with_validator_set(self, has_validator_set: bool) -> (observer: Self)
        requires
            self.wf(),
        ensures
            observer.wf(),
            observer@ == (ObserverState { has_validator_set, ..self@ }),
    {
        let mut observer = self;
        observer.has_validator_set = has_validator_set;
        observer
    }

    /// The head that the observer follows.
    pub fn head_block_hash(&self) -> (head: B256)
        ensures
            head == self@.head,
    {
        self.head_block_hash
    }

    /// The view of the latest imported block.
    pub fn local_view(&self) -> (view: u64)
        ensures
            view == self@.local_view,
    {
        self.local_view
    }

    /// The highest view that was seen.
    pub fn highest_seen_view(&self) -> (view: u64)
        ensures
            view == self@.highest_seen_view,
    {
        self.highest_seen_view
    }

    /// How many blocks were imported.
    pub fn blocks_imported(&self) -> (n: u64)
        ensures
            n == self@.blocks_imported,
    {
        self.blocks_imported
    }

    /// A peer connected.
    pub fn peer_connected(&mut self, peer: u64)
        requires
            old(self).wf(),
        ensures
            final(self).wf(),
            final(self)@ == (ObserverState {
                peers: if old(self)@.peers.contains(peer) {
                    old(self)@.peers
                } else {
                    old(self)@.peers.push(peer)
                },
                ..old(self)@
            }),
    {
        self.peers.connected(peer);
    }

    /// A peer disconnected.
    pub fn peer_disconnected(&mut self, peer: u64)
        requires
            old(self).wf(),
        ensures
            final(self).wf(),
            final(self)@ == (ObserverState {
                peers: old(self)@.peers.filter(|p: u64| p != peer),
                ..old(self)@
            }),
    {
        self.peers.disconnected(peer);
    }

    /// A block was announced: hands back what it announces, where it reads.
    pub fn handle_block_announcement(&self, data: &[u8]) -> (block: Option<BlockDataBroadcast>)
        ensures
            match block {
                Some(b) => announced_block(data@) == Some(b@),
                None => announced_block(data@) is None,
            },
    {
        decode_block(data)
    }

    /// Starts to import a block: its view was seen. Hands back the payload for
    /// the execution layer, where it reads.
    pub fn import_block_data(&mut self, block: &BlockDataBroadcast) -> (ready: Option<ReadyPayload>)
        requires
            old(self).wf(),
        ensures
            final(self).wf(),
            final(self)@ == view_seen(old(self)@, block@.1),
            match ready {
                Some(r) => payload_content(block@.2) == Some(r.json@) && execution_payload(r.json@)
                    == Some((r.block_number, r.transaction_count)),
                None => match payload_content(block@.2) {
                    Some(json) => execution_payload(json) is None,
                    None => true,
                },
            },
    {
        self.highest_seen_view = max_u64(self.highest_seen_view, block.view);
        ready_payload(&block.payload_json)
    }

    /// The execution layer answered an import. A block that it took is kept for
    /// other observers; where the head could be moved to it, it is the new head.
    /// A block that came without a certificate is kept with the given one.
    pub fn on_new_payload(
        &mut self,
        block: &BlockDataBroadcast,
        commit_qc: &QuorumCertificate,
        status: PayloadStatus,
        head_moved: bool,
    ) -> (taken: bool)
        requires
            old(self).wf(),
            old(self)@.blocks_imported < u64::MAX,
        ensures
            final(self).wf(),
            taken == took(status),
            final(self)@ == if took(status) {
                block_taken(old(self)@, block@, commit_qc@, head_moved)
            } else {
                old(self)@
            },
    {
        if !is_accepted(status) {
            return false;
        }
        if head_moved {
            self.head_block_hash = block.block_hash;
            self.local_view = block.view;
            self.blocks_imported = self.blocks_imported + 1;
        }
        self.chain.store(
            CommittedBlock {
                view: block.view,
                block_hash: block.block_hash,
                commit_qc: commit_qc.duplicate(),
                payload: copy_bytes(&block.payload_json),
            },
        );
        true
    }

    /// Answers another node that catches up, where its request is valid.
    pub fn handle_sync_request(&self, request: &BlockSyncRequest, request_valid: bool) -> (response:
        Option<BlockSyncResponse>)
        ensures
            match response {
                Some(r) => request_valid && blocks_state(r.blocks@) == in_views(
                    self@.chain,
                    request.from_view,
                    request.to_view,
                    MAX_SYNC_BLOCKS as int,
                ) && r.peer_committed_view == newest_view(self@.chain),
                None => !request_valid,
            },
    {
        if !request_valid {
            return None;
        }
        Some(self.chain.handle_sync_request(request))
    }

    /// A peer answered with blocks: hands back those to import, in order.
    /// Without a validator set the execution layer is trusted to check them.
    pub fn handle_sync_response(&mut self, response: &BlockSyncResponse, qc_valid: &Vec<bool>) -> (blocks:
        Vec<CommittedBlock>)
        requires
            old(self).wf(),
            qc_valid@.len() == response.blocks@.len(),
        ensures
            final(self).wf(),
            final(self)@ == (ObserverState { sync: idle(old(self)@.sync), ..old(self)@ }),
            blocks_state(blocks@) == observer_taken(old(self)@, *response, qc_valid@),
    {
        self.sync.finished();
        select_sync_blocks(
            &response.blocks,
            self.has_validator_set,
            WithoutValidators::Trust,
            qc_valid,
        )
    }

    /// The sync request failed.
    pub fn sync_request_failed(&mut self)
        requires
            old(self).wf(),
        ensures
            final(self).wf(),
            final(self)@ == (ObserverState { sync: idle(old(self)@.sync), ..old(self)@ }),
    {
        self.sync.finished();
    }

    /// Handles what came in from the network. Consensus messages and
    /// transactions are not an observer's business.
    pub fn handle_network_event(
        &mut self,
        event: NetworkEvent,
        request_valid: bool,
        has_blob_store: bool,
    ) -> (action: ObserverAction)
        requires
            old(self).wf(),
            event matches NetworkEvent::SyncResponse { response, qc_valid } ==> qc_valid@.len()
                == response.blocks@.len(),
        ensures
            final(self).wf(),
            observer_handled(
                old(self)@,
                event,
                request_valid,
                has_blob_store,
                final(self)@,
                action,
            ),
    {
        match event {
            NetworkEvent::PeerConnected { peer } => {
                self.peer_connected(peer);
                ObserverAction::Nothing
            },
            NetworkEvent::PeerDisconnected { peer } => {
                self.peer_disconnected(peer);
                ObserverAction::Nothing
            },
            NetworkEvent::BlockAnnouncement { data } => {
                match self.handle_block_announcement(&data) {
                    Some(block) => ObserverAction::Import { block },
                    None => ObserverAction::Nothing,
                }
            },
            NetworkEvent::BlobSidecarReceived { data } => {
                let sidecars = handle_blob_sidecar(has_blob_store, &data);
                ObserverAction::StoreSidecars { sidecars }
            },
            NetworkEvent::SyncRequest { request_id, request } => {
                match self.handle_sync_request(&request, request_valid) {
                    Some(response) => ObserverAction::Respond { request_id, response },
                    None => ObserverAction::Nothing,
                }
            },
            NetworkEvent::SyncResponse { response, qc_valid } => {
                let blocks = self.handle_sync_response(&response, &qc_valid);
                ObserverAction::ImportBlocks { blocks, ask_for_more: response.blocks.len() > 0 }
            },
            NetworkEvent::SyncRequestFailed => {
                self.sync_request_failed();
                ObserverAction::Nothing
            },
            _ => ObserverAction::Nothing,
        }
    }

    /// Plans a sync request of at most 128 views, unless one is under way. Each
    /// attempt goes to the next peer.
    pub fn initiate_sync(&mut self, local_view: u64, target_view: u64, instant_ms: u64) -> (request:
        Option<(u64, BlockSyncRequest)>)
        requires
            old(self).wf(),
            local_view + MAX_SYNC_BATCH <= u64::MAX,
            old(self)@.sync_attempts < u64::MAX,
        ensures
            final(self).wf(),
            final(self)@ == observer_planned(old(self)@, instant_ms),
            request == observer_request(old(self)@, local_view, target_view, instant_ms),
    {
        if !self.sync.may_start(instant_ms) {
            return None;
        }
        match self.peers.at_turn(self.sync_attempt_counter) {
            Some(peer) => {
                self.sync_attempt_counter = self.sync_attempt_counter + 1;
                let to_view: u64 = min_u64(target_view, local_view + MAX_SYNC_BATCH);
                Some(
                    (
                        peer,
                        BlockSyncRequest {
                            from_view: local_view + 1,
                            to_view,
                            local_committed_view: local_view,
                        },
                    ),
                )
            },
            None => None,
        }
    }

    /// The sync request went out.
    pub fn sync_requested(&mut self, instant_ms: u64)
        requires
            old(self).wf(),
        ensures
            final(self).wf(),
            final(self)@ == (ObserverState {
                sync: SyncTracker {
                    in_flight: true,
                    started_at: Some(instant_ms),
                    ..old(self)@.sync
                },
                ..old(self)@
            }),
    {
        self.sync.sent(instant_ms);
    }

    /// Plans a sync request where the observer is more than three views behind
    /// what it has seen.
    pub fn check_and_initiate_sync(&mut self, instant_ms: u64) -> (request: Option<
        (u64, BlockSyncRequest),
    >)
        requires
            old(self).wf(),
            old(self)@.local_view + MAX_SYNC_BATCH <= u64::MAX,
            old(self)@.sync_attempts < u64::MAX,
        ensures
            final(self).wf(),
            ({
                let s = old(self)@;
                if still_behind(s.local_view, s.highest_seen_view) {
                    request == observer_request(
                        s,
                        s.local_view,
                        s.highest_seen_view,
                        instant_ms,
                    ) && final(self)@ == observer_planned(s, instant_ms)
                } else {
                    request is None && final(self)@ == s
                }
            }),
    {
        if is_behind(self.local_view, self.highest_seen_view) {
            self.initiate_sync(self.local_view, self.highest_seen_view, instant_ms)
        } else {
            None
        }
    }

    /// After the blocks of an answer are imported: plans another request where
    /// the observer is still behind the peer.
    pub fn ask_for_more(&mut self, peer_committed_view: u64, instant_ms: u64) -> (request: Option<
        (u64, BlockSyncRequest),
    >)
        requires
            old(self).wf(),
            old(self)@.local_view + MAX_SYNC_BATCH <= u64::MAX,
            old(self)@.sync_attempts < u64::MAX,
        ensures
            final(self).wf(),
            ({
                let s = old(self)@;
                if still_behind(s.local_view, peer_committed_view) {
                    request == observer_request(s, s.local_view, peer_committed_view, instant_ms)
                        && final(self)@ == observer_planned(s, instant_ms)
                } else {
                    request is None && final(self)@ == s
                }
            }),
    {
        if is_behind(self.local_view, peer_committed_view) {
            self.initiate_sync(self.local_view, peer_committed_view, instant_ms)
        } else {
            None
        }
    }

    /// How far the observer is.
    pub fn stage(&self) -> (stage: Stage)
        requires
            self@.local_view + CATCH_UP_LAG <= u64::MAX,
        ensures
            stage == stage_of(self@),
    {
        if self.highest_seen_view > 0 && self.local_view + CATCH_UP_LAG < self.highest_seen_view {
            Stage::CatchUp
        } else if self.blocks_imported > 0 {
            Stage::Tracking
        } else {
            Stage::Waiting
        }
    }
}

/// A request of an observer asks for at most 128 views, the first one right
/// after its own.
pub proof fn observer_requests_are_bounded(
    s: ObserverState,
    local_view: u64,
    target_view: u64,
    instant_ms: u64,
)
    requires
        local_view + MAX_SYNC_BATCH <= u64::MAX,
    ensures
        observer_request(s, local_view, target_view, instant_ms) matches Some((peer, request)) ==> {
            &&& s.peers.contains(peer)
            &&& request.from_view == local_view + 1
            &&& request.to_view <= target_view
            &&& request.to_view - request.from_view < MAX_SYNC_BATCH
        },
{
    if s.peers.len() > 0 {
        let i = s.sync_attempts as int % s.peers.len() as int;
        assert(0 <= i < s.peers.len());
        assert(s.peers.contains(s.peers[i]));
    }
}

/// An observer keeps every block that it took, whole, and follows it where its
/// head moved: then it is the head, its view the local one, and it is counted.
pub proof fn observed_blocks_are_kept(
    s: ObserverState,
    block: BroadcastFields,
    qc: QcState,
    head_moved: bool,
)
    requires
        s.blocks_imported < u64::MAX,
    ensures
        ({
            let after = block_taken(s, block, qc, head_moved);
            &&& after.chain.len() > 0
            &&& after.chain.last().block_hash == block.0
            &&& after.chain.last().view == block.1
            &&& after.chain.last().payload == block.2
            &&& after.chain.last().commit_qc == qc
            &&& s.chain.len() < s.chain_limit ==> after.chain.drop_last() == s.chain
            &&& head_moved ==> after.head == block.0 && after.local_view == block.1
                && after.blocks_imported == s.blocks_imported + 1
            &&& !head_moved ==> after.head == s.head && after.local_view == s.local_view
                && after.blocks_imported == s.blocks_imported
            &&& after.highest_seen_view == s.highest_seen_view && after.peers == s.peers
                && after.sync == s.sync
        }),
{
    let after = block_taken(s, block, qc, head_moved);
    if s.chain.len() < s.chain_limit {
        assert(after.chain.drop_last() =~= s.chain);
    }
}

/// The highest view that was seen only rises, to the view of each block.
pub proof fn the_highest_view_only_rises(s: ObserverState, view: u64)
    ensures
        ({
            let after = view_seen(s, view);
            &&& after.highest_seen_view >= view
            &&& after.highest_seen_view >= s.highest_seen_view
            &&& after.highest_seen_view == view || after.highest_seen_view == s.highest_seen_view
            &&& (ObserverState { highest_seen_view: s.highest_seen_view, ..after }) == s
        }),
{
}

/// An observer asks the next peer in turn for what follows its view, for 128
/// blocks at most, unless a request is under way; each request takes a turn.
pub proof fn observers_ask_in_turn(
    s: ObserverState,
    local_view: u64,
    target_view: u64,
    instant_ms: u64,
)
    requires
        local_view + 128 <= u64::MAX,
        s.sync_attempts < u64::MAX,
    ensures
        ({
            let waiting = s.sync.in_flight && (s.sync.started_at matches Some(at) ==> instant_ms
                - at <= s.sync.timeout_ms);
            let after = observer_planned(s, instant_ms);
            &&& match observer_request(s, local_view, target_view, instant_ms) {
                Some((peer, request)) => {
                    &&& s.peers.contains(peer)
                    &&& !waiting
                    &&& request.from_view == local_view + 1
                    &&& request.local_committed_view == local_view
                    &&& target_view <= local_view + 128 ==> request.to_view == target_view
                    &&& target_view > local_view + 128 ==> request.to_view == local_view + 128
                    &&& after.sync_attempts == s.sync_attempts + 1
                },
                None => (waiting || s.peers.len() == 0) && after.sync_attempts == s.sync_attempts,
            }
            &&& after.sync.in_flight == waiting
            &&& (ObserverState { sync: s.sync, sync_attempts: s.sync_attempts, ..after }) == s
        }),
{
    if s.peers.len() > 0 {
        vstd::arithmetic::div_mod::lemma_mod_bound(s.sync_attempts as int, s.peers.len() as int);
        assert(s.peers.contains(s.peers[s.sync_attempts as int % s.peers.len() as int]));
    }
}

/// An observer catches up while a view more than ten ahead was seen; else it
/// follows, once it took a block.
pub proof fn observers_catch_up_first(s: ObserverState)
    ensures
        stage_of(s) is CatchUp <==> s.highest_seen_view - s.local_view > 10,
        stage_of(s) is Tracking <==> s.highest_seen_view - s.local_view <= 10 && s.blocks_imported
            > 0,
        stage_of(s) is Waiting <==> s.highest_seen_view - s.local_view <= 10 && s.blocks_imported
            == 0,
{
}

/// An observer takes of an answer's blocks exactly those with a payload and,
/// where validators are known, a valid certificate for them, in order and whole.
pub proof fn observers_take_answers(
    s: ObserverState,
    response: BlockSyncResponse,
    qc_valid: Vec<bool>,
    request_valid: bool,
    has_blob_store: bool,
    after: ObserverState,
    action: ObserverAction,
) -> (at: Seq<int>)
    requires
        qc_valid@.len() == response.blocks@.len(),
        observer_handled(
            s,
            NetworkEvent::SyncResponse { response, qc_valid },
            request_valid,
            has_blob_store,
            after,
            action,
        ),
    ensures
        action matches ObserverAction::ImportBlocks { blocks: taken, ask_for_more } && {
            let blocks = response.blocks@;
            &&& ask_for_more <==> blocks.len() > 0
            &&& taken@.len() == at.len()
            &&& forall|i: int, j: int| 0 <= i < j < at.len() ==> #[trigger] at[i] < #[trigger] at[j]
            &&& forall|i: int|
                0 <= i < at.len() ==> {
                    let k = #[trigger] at[i];
                    &&& 0 <= k < blocks.len()
                    &&& taken@[i]@ == blocks[k]@
                    &&& blocks[k].payload@.len() > 0
                    &&& s.has_validator_set ==> qc_valid@[k] && blocks[k].commit_qc.view
                        == blocks[k].view && blocks[k].commit_qc.block_hash
                        == blocks[k].block_hash
                }
            &&& forall|k: int|
                0 <= k < blocks.len() && (#[trigger] blocks[k]).payload@.len() > 0 && (
                s.has_validator_set ==> qc_valid@[k] && blocks[k].commit_qc.view == blocks[k].view
                    && blocks[k].commit_qc.block_hash == blocks[k].block_hash) ==> at.contains(k)
        },
        !after.sync.in_flight,
        (ObserverState { sync: s.sync, ..after }) == s,
{
    let blocks = blocks_state(response.blocks@);
    let at = sync_takes_what_may_be_imported(
        blocks,
        s.has_validator_set,
        WithoutValidators::Trust,
        qc_valid@,
    );
    if let ObserverAction::ImportBlocks { blocks: taken, ask_for_more } = action {
        assert(blocks_state(taken@).len() == taken@.len());
        assert forall|i: int| 0 <= i < at.len() implies {
            let k = #[trigger] at[i];
            0 <= k < blocks.len() && taken@[i]@ == response.blocks@[k]@
        } by {
            assert(blocks_state(taken@)[i] == taken@[i]@);
            assert(blocks[at[i]] == response.blocks@[at[i]]@);
        }
        assert forall|k: int|
            0 <= k < response.blocks@.len() && (#[trigger] response.blocks@[k]).payload@.len() > 0
                && (s.has_validator_set ==> qc_valid@[k] && response.blocks@[k].commit_qc.view
                == response.blocks@[k].view && response.blocks@[k].commit_qc.block_hash
                == response.blocks@[k].block_hash) implies at.contains(k) by {
            assert(blocks[k] == response.blocks@[k]@);
        }
    }
    at
}

/// An observer imports what is announced and reads, answers valid requests from
/// what it keeps and no others, and changes nothing by it.
pub proof fn observers_import_and_answer(
    s: ObserverState,
    data: Vec<u8>,
    request_id: u64,
    request: BlockSyncRequest,
    request_valid: bool,
    has_blob_store: bool,
    after: ObserverState,
    action: ObserverAction,
)
    ensures
        observer_handled(
            s,
            NetworkEvent::BlockAnnouncement { data },
            request_valid,
            has_blob_store,
            after,
            action,
        ) ==> after == s && (action matches ObserverAction::Import { block } ==> announced_block(
            data@,
        ) == Some(block@)) && (action is Import <==> announced_block(data@) is Some),
        observer_handled(
            s,
            NetworkEvent::SyncRequest { request_id, request },
            request_valid,
            has_blob_store,
            after,
            action,
        ) ==> after == s && (!request_valid ==> action is Nothing) && (request_valid ==> (
        action matches ObserverAction::Respond { request_id: id, response } && id == request_id && {
            let wanted = s.chain.filter(of_views(request.from_view, request.to_view));
            blocks_state(response.blocks@) == if wanted.len() <= 128 {
                wanted
            } else {
                wanted.take(128)
            }
        })),
{
    answers_are_complete(s.chain, request.from_view, request.to_view, 128);
}

/// An observer knows its peers as they come and go, each once, and changes nothing
/// else by it.
pub proof fn observers_know_their_peers(
    s: ObserverState,
    peer: u64,
    other: u64,
    request_valid: bool,
    has_blob_store: bool,
    after: ObserverState,
    action: ObserverAction,
)
    requires
        other != peer,
    ensures
        observer_handled(
            s,
            NetworkEvent::PeerConnected { peer },
            request_valid,
            has_blob_store,
            after,
            action,
        ) ==> {
            &&& after.peers.contains(peer)
            &&& after.peers.contains(other) <==> s.peers.contains(other)
            &&& s.peers.no_duplicates() ==> after.peers.no_duplicates()
            &&& (ObserverState { peers: s.peers, ..after }) == s
            &&& action is Nothing
        },
        observer_handled(
            s,
            NetworkEvent::PeerDisconnected { peer },
            request_valid,
            has_blob_store,
            after,
            action,
        ) ==> {
            &&& !after.peers.contains(peer)
            &&& after.peers.contains(other) <==> s.peers.contains(other)
            &&& (ObserverState { peers: s.peers, ..after }) == s
            &&& action is Nothing
        },
{
    if observer_handled(
        s,
        NetworkEvent::PeerConnected { peer },
        request_valid,
        has_blob_store,
        after,
        action,
    ) {
        if !s.peers.contains(peer) {
            assert(after.peers[after.peers.len() - 1] == peer);
            if s.peers.contains(other) {
                let i = choose|i: int| 0 <= i < s.peers.len() && s.peers[i] == other;
                assert(after.peers[i] == other);
            }
            if after.peers.contains(other) {
                let i = choose|i: int| 0 <= i < after.peers.len() && after.peers[i] == other;
                assert(s.peers[i] == other);
            }
        }
    }
    filter_keeps_others(s.peers, peer, other);
}

/// A request of an observer that failed is no longer under way. Sidecars that decode
/// are stored where there is a store. Transactions and messages of consensus are
/// none of its business.
pub proof fn observers_leave_the_rest_alone(
    s: ObserverState,
    event: NetworkEvent,
    request_valid: bool,
    has_blob_store: bool,
    after: ObserverState,
    action: ObserverAction,
)
    requires
        observer_handled(s, event, request_valid, has_blob_store, after, action),
    ensures
        event is SyncRequestFailed ==> !after.sync.in_flight && after.sync.started_at is None && (
        ObserverState { sync: s.sync, ..after }) == s && action is Nothing,
        event matches NetworkEvent::BlobSidecarReceived { data } ==> after == s && (
        action matches ObserverAction::StoreSidecars { sidecars } && (!has_blob_store
            || announced_sidecars(data@) is None ==> sidecars@.len() == 0) && (has_blob_store ==> (
        announced_sidecars(data@) matches Some(b) ==> pairs_state(sidecars@) == b.2.filter(
            |s: (B256, Seq<u8>)| sidecar_decodes(s.1),
        )))),
        event is ConsensusMessage || event is TransactionReceived || event is TxForwardReceived
            ==> after == s && action is Nothing,
{
    if let ObserverAction::StoreSidecars { sidecars } = action {
        assert(pairs_state(sidecars@).len() == sidecars@.len());
    }
}

} // verus!
