//! What comes in from the network.
use super::broadcast::{
    announced_block, announced_sidecars, handle_blob_sidecar, pairs_state, sidecar_decodes,
    storable, BlockDataBroadcast,
};
use super::cache::has_room;
use super::chain::{
    answers_are_complete, blocks_state, in_views, newest_view, of_views, BlockSyncRequest, BlockSyncResponse, CommittedState,
    MAX_SYNC_BLOCKS,
};
use super::consensus_loop::{planned_request, sync_planned};
use super::execution_bridge::{data_received, protected_blocks, received_timing, BlockData};
use super::forward::txs_state;
use super::pipeline::after_recording;
use super::sync::{
    announcements_state, as_announcement, idle, is_behind, still_behind,
    sync_takes_what_may_be_imported, take_sync_blocks,
    taken_blocks, WithoutValidators, SYNC_LAG,
};
use super::{ConsensusOrchestrator, OrchState};
use crate::primitives::B256;
use crate::ring::ring_push_all;
use vstd::prelude::*;

verus! {

/// What comes in from the network, as far as the node decides on it.
#[derive(Debug)]
pub enum NetworkEvent {
    /// A consensus message, with the validator that signed it, where one did.
    ConsensusMessage { source: u64, signer: Option<u32> },
    PeerConnected { peer: u64 },
    PeerDisconnected { peer: u64 },
    BlockAnnouncement { data: Vec<u8> },
    TransactionReceived { data: Vec<u8> },
    TxForwardReceived { txs: Vec<Vec<u8>> },
    SyncRequest { request_id: u64, request: BlockSyncRequest },
    /// Blocks, with whether each certificate's signatures are valid.
    SyncResponse { response: BlockSyncResponse, qc_valid: Vec<bool> },
    SyncRequestFailed,
    BlobSidecarReceived { data: Vec<u8> },
    /// Anything else: other parts of the node take care of it.
    Other,
}

/// What the node does with it.
#[derive(Debug)]
pub enum NetworkAction {
    Nothing,
    /// Hand the message to consensus; its signer's peer is authenticated first.
    Process { authenticate: Option<(u64, u32)> },
    Block { outcome: BlockData },
    /// Put the transactions into the pool.
    ImportTxs { txs: Vec<Vec<u8>> },
    Respond { request_id: u64, response: BlockSyncResponse },
    /// Import the blocks in order; then ask for more where that is due.
    ImportBlocks { imports: Vec<BlockDataBroadcast>, ask_for_more: bool },
    StoreSidecars { sidecars: Vec<(B256, Vec<u8>)> },
}

/// The blocks of an answer that this node takes.
pub open spec fn sync_taken(s: OrchState, response: BlockSyncResponse, qc_valid: Seq<bool>) -> Seq<
    CommittedState,
> {
    taken_blocks(
        blocks_state(response.blocks@),
        s.has_validator_set,
        WithoutValidators::Refuse,
        qc_valid,
    )
}

/// An answer came: the request is done, and the taken blocks are kept.
pub open spec fn sync_answered(s: OrchState, taken: Seq<CommittedState>) -> OrchState {
    OrchState {
        sync: idle(s.sync),
        chain: ring_push_all(s.chain, s.chain_limit as int, taken),
        ..s
    }
}

/// The action and the knowledge that an event leads to fit together.
pub open spec fn event_handled(
    s: OrchState,
    event: NetworkEvent,
    has_blob_store: bool,
    instant_ms: u64,
    after: OrchState,
    action: NetworkAction,
) -> bool {
    match event {
        NetworkEvent::ConsensusMessage { source, signer } => after == s && action
            == (NetworkAction::Process {
            authenticate: match signer {
                Some(index) => Some((source, index)),
                None => None,
            },
        }),
        NetworkEvent::PeerConnected { peer } => action is Nothing && after == (OrchState {
            peers: if s.peers.contains(peer) {
                s.peers
            } else {
                s.peers.push(peer)
            },
            ..s
        }),
        NetworkEvent::PeerDisconnected { peer } => action is Nothing && after == (OrchState {
            peers: s.peers.filter(|p: u64| p != peer),
            ..s
        }),
        NetworkEvent::BlockAnnouncement { data } => action matches NetworkAction::Block { outcome }
            && block_handled(s, data@, instant_ms, after, outcome),
        NetworkEvent::TransactionReceived { data } => after == s && (
        action matches NetworkAction::ImportTxs { txs } && txs_state(txs@) == seq![data@]),
        NetworkEvent::TxForwardReceived { txs } => after == s && if txs@.len() == 0 {
            action is Nothing
        } else {
            action == (NetworkAction::ImportTxs { txs })
        },
        NetworkEvent::SyncRequest { request_id, request } => after == s && (
        action matches NetworkAction::Respond { request_id: id, response } && id == request_id
            && blocks_state(response.blocks@) == in_views(
            s.chain,
            request.from_view,
            request.to_view,
            MAX_SYNC_BLOCKS as int,
        ) && response.peer_committed_view == newest_view(s.chain)),
        NetworkEvent::SyncResponse { response, qc_valid } => {
            let taken = sync_taken(s, response, qc_valid@);
            &&& after == sync_answered(s, taken)
            &&& action matches NetworkAction::ImportBlocks { imports, ask_for_more }
            &&& announcements_state(imports@) == taken.map_values(
                |b: CommittedState| as_announcement(b),
            )
            &&& ask_for_more == (response.blocks@.len() > 0)
        },
        NetworkEvent::SyncRequestFailed => action is Nothing && after == (OrchState {
            sync: idle(s.sync),
            ..s
        }),
        NetworkEvent::BlobSidecarReceived { data } => after == s && (
        action matches NetworkAction::StoreSidecars { sidecars } && pairs_state(sidecars@)
            == match announced_sidecars(data@) {
            Some(b) => if has_blob_store {
                storable(b.2)
            } else {
                Seq::empty()
            },
            None => Seq::empty(),
        }),
        NetworkEvent::Other => action is Nothing && after == s,
    }
}

/// Announced block data was handled.
pub open spec fn block_handled(
    s: OrchState,
    data: Seq<u8>,
    instant_ms: u64,
    after: OrchState,
    outcome: BlockData,
) -> bool {
    match announced_block(data) {
        None => outcome is Unreadable && after == s,
        Some(fields) => if s.pending.data.contains_key(fields.0) {
            outcome is Duplicate && after == s
        } else {
            &&& after_recording(s.timings, fields.0, received_timing(instant_ms), after.timings)
            &&& after == data_received(s, fields, data, after.timings)
            &&& match outcome {
                BlockData::Cached { block } => has_room(
                    s.pending.data,
                    protected_blocks(s, fields.0),
                ) && block@ == fields,
                BlockData::NotCached => !has_room(s.pending.data, protected_blocks(s, fields.0)),
                _ => false,
            }
        },
    }
}

impl ConsensusOrchestrator {
    /// Answers a peer that catches up.
    pub fn handle_sync_request(&self, request: &BlockSyncRequest) -> (response: BlockSyncResponse)
        ensures
            blocks_state(response.blocks@) == in_views(
                self@.chain,
                request.from_view,
                request.to_view,
                MAX_SYNC_BLOCKS as int,
            ),
            response.peer_committed_view == newest_view(self@.chain),
    {
        self.chain.handle_sync_request(request)
    }

    /// A peer answered with blocks. Those with a payload and a certificate that
    /// vouches for them are kept and handed back to import, in order; without a
    /// validator set none is.
    pub fn handle_sync_response(&mut self, response: &BlockSyncResponse, qc_valid: &Vec<bool>) -> (imports:
        Vec<BlockDataBroadcast>)
        requires
            old(self).wf(),
            qc_valid@.len() == response.blocks@.len(),
        ensures
            final(self).wf(),
            final(self)@ == sync_answered(
                old(self)@,
                sync_taken(old(self)@, *response, qc_valid@),
            ),
            announcements_state(imports@) == sync_taken(
                old(self)@,
                *response,
                qc_valid@,
            ).map_values(|b: CommittedState| as_announcement(b)),
    {
        self.sync.finished();
        take_sync_blocks(
            &mut self.chain,
            &response.blocks,
            self.has_validator_set,
            qc_valid,
        )
    }

    /// After the blocks of an answer are imported: plans another request where
    /// this node is still more than three views behind.
    pub fn ask_for_more(&mut self, local_view: u64, peer_committed_view: u64, instant_ms: u64) -> (request:
        Option<(u64, BlockSyncRequest)>)
        requires
            old(self).wf(),
            local_view + SYNC_LAG <= u64::MAX,
        ensures
            final(self).wf(),
            request == if still_behind(local_view, peer_committed_view) {
                planned_request(old(self)@, local_view, peer_committed_view, instant_ms)
            } else {
                None
            },
            final(self)@ == if still_behind(local_view, peer_committed_view) {
                sync_planned(old(self)@, instant_ms)
            } else {
                old(self)@
            },
    {
        if is_behind(local_view, peer_committed_view) {
            self.initiate_sync(local_view, peer_committed_view, instant_ms)
        } else {
            None
        }
    }

    /// Handles what came in from the network.
    pub fn handle_network_event(
        &mut self,
        event: NetworkEvent,
        has_blob_store: bool,
        instant_ms: u64,
    ) -> (action: NetworkAction)
        requires
            old(self).wf(),
            event matches NetworkEvent::SyncResponse { response, qc_valid } ==> qc_valid@.len()
                == response.blocks@.len(),
        ensures
            final(self).wf(),
            event_handled(old(self)@, event, has_blob_store, instant_ms, final(self)@, action),
    {
        match event {
            NetworkEvent::ConsensusMessage { source, signer } => {
                let authenticate: Option<(u64, u32)> = match signer {
                    Some(index) => Some((source, index)),
                    None => None,
                };
                NetworkAction::Process { authenticate }
            },
            NetworkEvent::PeerConnected { peer } => {
                self.peers.connected(peer);
                NetworkAction::Nothing
            },
            NetworkEvent::PeerDisconnected { peer } => {
                self.peers.disconnected(peer);
                NetworkAction::Nothing
            },
            NetworkEvent::BlockAnnouncement { data } => {
                let outcome = self.handle_block_data(data, instant_ms);
                NetworkAction::Block { outcome }
            },
            NetworkEvent::TransactionReceived { data } => {
                let ghost bytes = data@;
                let mut txs: Vec<Vec<u8>> = Vec::new();
                txs.push(data);
                assert(txs_state(txs@) =~= seq![bytes]);
                NetworkAction::ImportTxs { txs }
            },
            NetworkEvent::TxForwardReceived { txs } => {
                if txs.len() == 0 {
                    NetworkAction::Nothing
                } else {
                    NetworkAction::ImportTxs { txs }
                }
            },
            NetworkEvent::SyncRequest { request_id, request } => {
                let response = self.handle_sync_request(&request);
                NetworkAction::Respond { request_id, response }
            },
            NetworkEvent::SyncResponse { response, qc_valid } => {
                let imports = self.handle_sync_response(&response, &qc_valid);
                NetworkAction::ImportBlocks { imports, ask_for_more: response.blocks.len() > 0 }
            },
            NetworkEvent::SyncRequestFailed => {
                self.sync.finished();
                NetworkAction::Nothing
            },
            NetworkEvent::BlobSidecarReceived { data } => {
                let sidecars = handle_blob_sidecar(has_blob_store, &data);
                NetworkAction::StoreSidecars { sidecars }
            },
            NetworkEvent::Other => NetworkAction::Nothing,
        }
    }
}

/// Peers come and go: a connected peer is known, once, and a disconnected one is
/// not; no other peer is touched, nor anything else.
pub proof fn peers_come_and_go(
    s: OrchState,
    peer: u64,
    other: u64,
    has_blob_store: bool,
    instant_ms: u64,
    after: OrchState,
    action: NetworkAction,
)
    requires
        other != peer,
    ensures
        event_handled(
            s,
            NetworkEvent::PeerConnected { peer },
            has_blob_store,
            instant_ms,
            after,
            action,
        ) ==> {
            &&& after.peers.contains(peer)
            &&& after.peers.contains(other) <==> s.peers.contains(other)
            &&& s.peers.no_duplicates() ==> after.peers.no_duplicates()
            &&& (OrchState { peers: s.peers, ..after }) == s
            &&& action is Nothing
        },
        event_handled(
            s,
            NetworkEvent::PeerDisconnected { peer },
            has_blob_store,
            instant_ms,
            after,
            action,
        ) ==> {
            &&& !after.peers.contains(peer)
            &&& after.peers.contains(other) <==> s.peers.contains(other)
            &&& (OrchState { peers: s.peers, ..after }) == s
            &&& action is Nothing
        },
{
    if event_handled(
        s,
        NetworkEvent::PeerConnected { peer },
        has_blob_store,
        instant_ms,
        after,
        action,
    ) {
        if !s.peers.contains(peer) {
            let last = after.peers.len() - 1;
            assert(after.peers[last] == peer);
            if s.peers.contains(other) {
                let i = choose|i: int| 0 <= i < s.peers.len() && s.peers[i] == other;
                assert(after.peers[i] == other);
            }
            if after.peers.contains(other) {
                let i = choose|i: int| 0 <= i < after.peers.len() && after.peers[i] == other;
                assert(s.peers[i] == other);
            }
        }
        assert((OrchState { peers: s.peers, ..after }) =~= s);
    }
    filter_keeps_others(s.peers, peer, other);
}

/// Taking out one peer leaves all others.
pub proof fn filter_keeps_others(peers: Seq<u64>, peer: u64, other: u64)
    requires
        other != peer,
    ensures
        !peers.filter(|p: u64| p != peer).contains(peer),
        peers.filter(|p: u64| p != peer).contains(other) <==> peers.contains(other),
    decreases peers.len(),
{
    reveal(Seq::filter);
    let kept = |p: u64| p != peer;
    if peers.len() > 0 {
        let rest = peers.drop_last();
        filter_keeps_others(rest, peer, other);
        let before = rest.filter(kept);
        let after = peers.filter(kept);
        if peers.last() == peer {
            assert(after == before);
            if peers.contains(other) {
                let i = choose|i: int| 0 <= i < peers.len() && peers[i] == other;
                assert(rest[i] == other);
            }
        } else {
            assert(after == before.push(peers.last()));
            assert(after[before.len() as int] == peers.last());
            if before.contains(other) {
                let i = choose|i: int| 0 <= i < before.len() && before[i] == other;
                assert(after[i] == other);
            }
            if after.contains(peer) {
                let i = choose|i: int| 0 <= i < after.len() && after[i] == peer;
                assert(before[i] == peer);
            }
            if after.contains(other) && peers.last() != other {
                let i = choose|i: int| 0 <= i < after.len() && after[i] == other;
                assert(before[i] == other);
            }
            if peers.contains(other) && peers.last() != other {
                let i = choose|i: int| 0 <= i < peers.len() && peers[i] == other;
                assert(rest[i] == other);
            }
            if peers.last() == other {
                assert(peers[peers.len() - 1] == other);
            }
        }
        if rest.contains(other) {
            let i = choose|i: int| 0 <= i < rest.len() && rest[i] == other;
            assert(peers[i] == other);
        }
    }
}

/// A node that catches up gets what was committed: the answer to a request holds,
/// of the kept blocks of the asked views, as many as 128, each with its payload,
/// and the view of the newest. Answering changes nothing.
pub proof fn requests_are_served(
    s: OrchState,
    request_id: u64,
    request: BlockSyncRequest,
    has_blob_store: bool,
    instant_ms: u64,
    after: OrchState,
    action: NetworkAction,
)
    requires
        event_handled(
            s,
            NetworkEvent::SyncRequest { request_id, request },
            has_blob_store,
            instant_ms,
            after,
            action,
        ),
    ensures
        after == s,
        action matches NetworkAction::Respond { request_id: id, response } && {
            let wanted = s.chain.filter(of_views(request.from_view, request.to_view));
            &&& id == request_id
            &&& blocks_state(response.blocks@) == if wanted.len() <= 128 {
                wanted
            } else {
                wanted.take(128)
            }
            &&& s.chain.len() > 0 ==> response.peer_committed_view == s.chain.last().view
            &&& s.chain.len() == 0 ==> response.peer_committed_view == 0
        },
{
    answers_are_complete(s.chain, request.from_view, request.to_view, 128);
}

/// Of an answer's blocks exactly those are imported and kept that may be, in
/// order and whole. The request is done with, and more is asked for wherever the
/// answer held anything.
pub proof fn answers_are_taken(
    s: OrchState,
    response: BlockSyncResponse,
    qc_valid: Vec<bool>,
    has_blob_store: bool,
    instant_ms: u64,
    after: OrchState,
    action: NetworkAction,
) -> (at: Seq<int>)
    requires
        qc_valid@.len() == response.blocks@.len(),
        event_handled(
            s,
            NetworkEvent::SyncResponse { response, qc_valid },
            has_blob_store,
            instant_ms,
            after,
            action,
        ),
    ensures
        action matches NetworkAction::ImportBlocks { imports, ask_for_more } && {
            let blocks = response.blocks@;
            &&& ask_for_more <==> blocks.len() > 0
            &&& imports@.len() == at.len()
            &&& forall|i: int, j: int| 0 <= i < j < at.len() ==> #[trigger] at[i] < #[trigger] at[j]
            &&& forall|i: int|
                0 <= i < at.len() ==> {
                    let k = #[trigger] at[i];
                    &&& 0 <= k < blocks.len()
                    &&& imports@[i].block_hash == blocks[k].block_hash
                    &&& imports@[i].view == blocks[k].view
                    &&& imports@[i].payload_json@ == blocks[k].payload@
                    &&& blocks[k].payload@.len() > 0 && s.has_validator_set && qc_valid@[k]
                        && blocks[k].commit_qc.view == blocks[k].view
                        && blocks[k].commit_qc.block_hash == blocks[k].block_hash
                }
            &&& forall|k: int|
                0 <= k < blocks.len() && s.has_validator_set && (
                #[trigger] blocks[k]).payload@.len() > 0 && qc_valid@[k] && blocks[k].commit_qc.view
                    == blocks[k].view && blocks[k].commit_qc.block_hash == blocks[k].block_hash
                    ==> at.contains(k)
        },
        !after.sync.in_flight,
        after.sync.started_at is None,
        after.head == s.head && after.pending == s.pending && after.bg == s.bg && after.schedule
            == s.schedule && after.committed_block_count == s.committed_block_count,
        at.len() > 0 ==> after.chain.len() > 0 && after.chain.last()
            == response.blocks@[at.last()]@,
        at.len() == 0 ==> after.chain == s.chain,
{
    let blocks = blocks_state(response.blocks@);
    let at = sync_takes_what_may_be_imported(
        blocks,
        s.has_validator_set,
        WithoutValidators::Refuse,
        qc_valid@,
    );
    let taken = sync_taken(s, response, qc_valid@);
    if let NetworkAction::ImportBlocks { imports, ask_for_more } = action {
        let announced = announcements_state(imports@);
        assert(announced == taken.map_values(|b: CommittedState| as_announcement(b)));
        assert(announced.len() == imports@.len() && announced.len() == taken.len());
        assert forall|i: int| 0 <= i < at.len() implies {
            let k = #[trigger] at[i];
            &&& 0 <= k < blocks.len()
            &&& imports@[i].block_hash == response.blocks@[k].block_hash
            &&& imports@[i].view == response.blocks@[k].view
            &&& imports@[i].payload_json@ == response.blocks@[k].payload@
        } by {
            assert(announced[i] == as_announcement(taken[i]));
            assert(announced[i] == imports@[i]@);
            assert(blocks[at[i]] == response.blocks@[at[i]]@);
        }
        assert forall|k: int|
            0 <= k < response.blocks@.len() && s.has_validator_set && (
            #[trigger] response.blocks@[k]).payload@.len() > 0 && qc_valid@[k]
                && response.blocks@[k].commit_qc.view == response.blocks@[k].view
                && response.blocks@[k].commit_qc.block_hash
                == response.blocks@[k].block_hash implies at.contains(k) by {
            assert(blocks[k] == response.blocks@[k]@);
        }
    }
    if at.len() > 0 {
        assert(taken.last() == blocks[at.last()]);
        assert(after.chain.last() == taken.last());
    }
    at
}

/// Transactions from the network go to the pool as they are, and a sidecar is
/// stored only where there is a store and it decodes; the node's state stays.
pub proof fn transactions_pass_through(
    s: OrchState,
    data: Vec<u8>,
    txs: Vec<Vec<u8>>,
    has_blob_store: bool,
    instant_ms: u64,
    after: OrchState,
    action: NetworkAction,
)
    ensures
        event_handled(
            s,
            NetworkEvent::TransactionReceived { data },
            has_blob_store,
            instant_ms,
            after,
            action,
        ) ==> after == s && (action matches NetworkAction::ImportTxs { txs: taken }
            && taken@.len() == 1 && taken@[0]@ == data@),
        event_handled(
            s,
            NetworkEvent::TxForwardReceived { txs },
            has_blob_store,
            instant_ms,
            after,
            action,
        ) ==> after == s && (txs@.len() > 0 ==> (action matches NetworkAction::ImportTxs {
            txs: taken,
        } && taken == txs)) && (txs@.len() == 0 ==> action is Nothing),
        event_handled(
            s,
            NetworkEvent::BlobSidecarReceived { data },
            has_blob_store,
            instant_ms,
            after,
            action,
        ) ==> after == s && (action matches NetworkAction::StoreSidecars { sidecars } && (
        !has_blob_store || announced_sidecars(data@) is None ==> sidecars@.len() == 0) && (
        has_blob_store ==> (announced_sidecars(data@) matches Some(b) ==> pairs_state(sidecars@)
            == b.2.filter(|s: (B256, Seq<u8>)| sidecar_decodes(s.1))))),
{
    if let NetworkAction::ImportTxs { txs: taken } = action {
        if event_handled(
            s,
            NetworkEvent::TransactionReceived { data },
            has_blob_store,
            instant_ms,
            after,
            action,
        ) {
            assert(txs_state(taken@).len() == 1);
            assert(txs_state(taken@)[0] == taken@[0]@);
        }
    }
    if let NetworkAction::StoreSidecars { sidecars } = action {
        assert(pairs_state(sidecars@).len() == sidecars@.len());
    }
}

/// A consensus message goes to consensus and changes nothing; the peer that it
/// came from is tied to the validator that signed it, where one did.
pub proof fn signed_messages_authenticate_their_peer(
    s: OrchState,
    source: u64,
    signer: Option<u32>,
    has_blob_store: bool,
    instant_ms: u64,
    after: OrchState,
    action: NetworkAction,
)
    requires
        event_handled(
            s,
            NetworkEvent::ConsensusMessage { source, signer },
            has_blob_store,
            instant_ms,
            after,
            action,
        ),
    ensures
        after == s,
        action matches NetworkAction::Process { authenticate } && (signer is None <==> authenticate
            is None) && (authenticate matches Some((peer, index)) ==> peer == source && signer
            == Some(index)),
{
}

/// A request that failed is no longer under way, and nothing else changes.
pub proof fn failed_requests_are_done(
    s: OrchState,
    has_blob_store: bool,
    instant_ms: u64,
    after: OrchState,
    action: NetworkAction,
)
    requires
        event_handled(
            s,
            NetworkEvent::SyncRequestFailed,
            has_blob_store,
            instant_ms,
            after,
            action,
        ),
    ensures
        !after.sync.in_flight,
        after.sync.started_at is None,
        (OrchState { sync: s.sync, ..after }) == s,
        action is Nothing,
{
}

/// An announcement that does not read, or of a block that is cached, changes
/// nothing; any other is taken in, and is handed on where it could be cached.
pub proof fn announcements_are_taken_in(
    s: OrchState,
    data: Seq<u8>,
    instant_ms: u64,
    after: OrchState,
    outcome: BlockData,
)
    requires
        s.pending.data.dom().finite(),
        s.pending.data.len() <= 16,
        block_handled(s, data, instant_ms, after, outcome),
    ensures
        outcome is Unreadable <==> announced_block(data) is None,
        outcome is Duplicate <==> (announced_block(data) matches Some(block)
            && s.pending.data.contains_key(block.0)),
        outcome is Unreadable || outcome is Duplicate ==> after == s,
        outcome matches BlockData::Cached { block } ==> announced_block(data) == Some(block@)
            && after.pending.data.contains_key(block.block_hash)
            && after.pending.data[block.block_hash] == data,
        s.pending.data.len() < 16 ==> !(outcome is NotCached),
        outcome is NotCached ==> after.pending.data == s.pending.data,
        after.head == s.head && after.chain == s.chain && after.bg == s.bg,
{
}

} // verus!
