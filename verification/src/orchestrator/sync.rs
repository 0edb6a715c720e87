//! Catching up: whom to ask for missing blocks, and which of the answered
//! blocks to take.
use super::broadcast::{BlockDataBroadcast, BroadcastFields};
use super::chain::{
    blocks_state, BlockSyncRequest, CommittedBlock, CommittedChain, CommittedState,
};
use crate::primitives::{copy_bytes, same_key};
use crate::ring::ring_push_all;
use vstd::prelude::*;

verus! {

/// How long an answer is waited for when nothing is configured.
pub const DEFAULT_SYNC_TIMEOUT_SECS: u64 = 30;

/// A node that is at most this many views behind does not ask for more.
pub const SYNC_LAG: u64 = 3;

/// How long an answer to a sync request is waited for.
pub fn sync_request_timeout(configured_secs: Option<u64>) -> (secs: u64)
    ensures
        secs == match configured_secs {
            Some(secs) => secs,
            None => DEFAULT_SYNC_TIMEOUT_SECS,
        },
{
    match configured_secs {
        Some(secs) => secs,
        None => DEFAULT_SYNC_TIMEOUT_SECS,
    }
}

/// The peers that are connected, in the order in which they came.
pub struct Peers {
    list: Vec<u64>,
}

impl View for Peers {
    type V = Seq<u64>;

    closed spec fn view(&self) -> Seq<u64> {
        self.list@
    }
}

impl Peers {
    /// No peer stands in the list twice.
    pub open spec fn wf(self) -> bool {
        self@.no_duplicates()
    }

    /// No peers.
    pub fn new() -> (peers: Self)
        ensures
            peers.wf(),
            peers@ == Seq::<u64>::empty(),
    {
        Peers { list: Vec::new() }
    }

    fn find(&self, peer: u64) -> (at: Option<usize>)
        ensures
            match at {
                Some(i) => i < self@.len() && self@[i as int] == peer,
                None => !self@.contains(peer),
            },
    {
        let mut i: usize = 0;
        while i < self.list.len()
            invariant
                i <= self@.len(),
                forall|j: int| 0 <= j < i ==> self@[j] != peer,
            decreases self@.len() - i,
        {
            if self.list[i] == peer {
                return Some(i);
            }
            i += 1;
        }
        None
    }

    /// How many peers are connected.
    pub fn len(&self) -> (n: usize)
        ensures
            n == self@.len(),
    {
        self.list.len()
    }

    /// A peer connected.
    pub fn connected(&mut self, peer: u64)
        requires
            old(self).wf(),
        ensures
            final(self).wf(),
            final(self)@ == if old(self)@.contains(peer) {
                old(self)@
            } else {
                old(self)@.push(peer)
            },
    {
        match self.find(peer) {
            Some(_) => {},
            None => {
                self.list.push(peer);
            },
        }
    }

    /// A peer disconnected.
    pub fn disconnected(&mut self, peer: u64)
        requires
            old(self).wf(),
        ensures
            final(self).wf(),
            final(self)@ == old(self)@.filter(|p: u64| p != peer),
            !final(self)@.contains(peer),
    {
        let ghost before = self@;
        match self.find(peer) {
            Some(i) => {
                let _ = self.list.remove(i);
                proof {
                    without_one(before, i as int, peer);
                    assert(self@ =~= before.remove(i as int));
                }
            },
            None => {
                proof {
                    without_none(before, peer);
                }
            },
        }
    }

    /// The peer at a turn: turns go round the list.
    pub fn at_turn(&self, turn: u64) -> (peer: Option<u64>)
        ensures
            peer == peer_at_turn(self@, turn),
    {
        let n: usize = self.list.len();
        if n == 0 {
            return None;
        }
        let i: usize = (turn % (n as u64)) as usize;
        Some(self.list[i])
    }
}

/// The peer at a turn: turns go round the list.
pub open spec fn peer_at_turn(peers: Seq<u64>, turn: u64) -> Option<u64> {
    if peers.len() == 0 {
        None
    } else {
        Some(peers[turn as int % peers.len() as int])
    }
}

proof fn without_none(peers: Seq<u64>, peer: u64)
    requires
        !peers.contains(peer),
    ensures
        peers.filter(|p: u64| p != peer) == peers,
    decreases peers.len(),
{
    reveal(Seq::filter);
    if peers.len() > 0 {
        assert(peers[peers.len() - 1] != peer);
        assert(!peers.drop_last().contains(peer)) by {
            assert forall|i: int| 0 <= i < peers.len() - 1 implies peers.drop_last()[i] != peer by {
                assert(peers[i] != peer);
            }
        }
        without_none(peers.drop_last(), peer);
        assert(peers.drop_last().push(peers.last()) =~= peers);
    }
}

proof fn without_one(peers: Seq<u64>, i: int, peer: u64)
    requires
        peers.no_duplicates(),
        0 <= i < peers.len(),
        peers[i] == peer,
    ensures
        peers.filter(|p: u64| p != peer) == peers.remove(i),
        peers.remove(i).no_duplicates(),
        !peers.remove(i).contains(peer),
    decreases peers.len(),
{
    reveal(Seq::filter);
    let rest = peers.drop_last();
    let after = peers.remove(i);
    assert forall|a: int, b: int|
        0 <= a < after.len() && 0 <= b < after.len() && a != b implies after[a] != after[b] by {
        let oa = if a < i {
            a
        } else {
            a + 1
        };
        let ob = if b < i {
            b
        } else {
            b + 1
        };
        assert(after[a] == peers[oa] && after[b] == peers[ob]);
    }
    assert forall|a: int| 0 <= a < after.len() implies after[a] != peer by {
        let oa = if a < i {
            a
        } else {
            a + 1
        };
        assert(after[a] == peers[oa]);
    }
    if i == peers.len() - 1 {
        assert(!rest.contains(peer)) by {
            assert forall|j: int| 0 <= j < rest.len() implies rest[j] != peer by {
                assert(peers[j] != peers[i]);
            }
        }
        without_none(rest, peer);
        assert(after =~= rest);
    } else {
        assert(rest.no_duplicates());
        without_one(rest, i, peer);
        assert(peers.last() != peer);
        assert(after =~= rest.remove(i).push(peers.last()));
    }
}

/// Whether a sync request is under way.
#[derive(Clone, Copy, Debug, PartialEq, Eq, Structural)]
pub struct SyncTracker {
    pub timeout_ms: u64,
    pub in_flight: bool,
    pub started_at: Option<u64>,
}

/// The request under way has not been answered in time.
pub open spec fn timed_out(tracker: SyncTracker, instant_ms: u64) -> bool {
    tracker.in_flight && (tracker.started_at matches Some(at) && instant_ms - at
        > tracker.timeout_ms)
}

/// A request is under way and may still be answered.
pub open spec fn is_busy(tracker: SyncTracker, instant_ms: u64) -> bool {
    tracker.in_flight && !timed_out(tracker, instant_ms)
}

/// No request is under way.
pub open spec fn idle(tracker: SyncTracker) -> SyncTracker {
    SyncTracker { in_flight: false, started_at: None, ..tracker }
}

/// The views after `local_view` up to `to_view`.
pub open spec fn request_after(local_view: u64, to_view: u64) -> BlockSyncRequest {
    BlockSyncRequest {
        from_view: (local_view + 1) as u64,
        to_view,
        local_committed_view: local_view,
    }
}

impl SyncTracker {
    /// No request is under way.
    pub fn new(timeout_ms: u64) -> (tracker: Self)
        ensures
            tracker == (SyncTracker { timeout_ms, in_flight: false, started_at: None }),
    {
        SyncTracker { timeout_ms, in_flight: false, started_at: None }
    }

    /// Whether a new request may start; one that was not answered in time is
    /// given up.
    pub fn may_start(&mut self, instant_ms: u64) -> (may: bool)
        ensures
            may == !is_busy(*old(self), instant_ms),
            *final(self) == if timed_out(*old(self), instant_ms) {
                idle(*old(self))
            } else {
                *old(self)
            },
    {
        if self.in_flight {
            let late = match self.started_at {
                Some(at) => instant_ms >= at && instant_ms - at > self.timeout_ms,
                None => false,
            };
            if !late {
                return false;
            }
            self.in_flight = false;
            self.started_at = None;
        }
        true
    }

    /// A request went out.
    pub fn sent(&mut self, instant_ms: u64)
        ensures
            *final(self) == (SyncTracker {
                in_flight: true,
                started_at: Some(instant_ms),
                ..*old(self)
            }),
    {
        self.in_flight = true;
        self.started_at = Some(instant_ms);
    }

    /// The request was answered, or failed.
    pub fn finished(&mut self)
        ensures
            *final(self) == idle(*old(self)),
    {
        self.in_flight = false;
        self.started_at = None;
    }

    /// Plans a sync request, unless one is under way: the peer at the turn of
    /// the local view, and the views to ask it for. The caller sends it.
    pub fn initiate_sync(
        &mut self,
        local_view: u64,
        target_view: u64,
        peers: &Peers,
        instant_ms: u64,
    ) -> (request: Option<(u64, BlockSyncRequest)>)
        requires
            local_view < u64::MAX,
        ensures
            *final(self) == if timed_out(*old(self), instant_ms) {
                idle(*old(self))
            } else {
                *old(self)
            },
            request == match peer_at_turn(peers@, local_view) {
                Some(peer) => if is_busy(*old(self), instant_ms) {
                    None
                } else {
                    Some((peer, request_after(local_view, target_view)))
                },
                None => None,
            },
    {
        if !self.may_start(instant_ms) {
            return None;
        }
        match peers.at_turn(local_view) {
            Some(peer) => Some(
                (
                    peer,
                    BlockSyncRequest {
                        from_view: local_view + 1,
                        to_view: target_view,
                        local_committed_view: local_view,
                    },
                ),
            ),
            None => None,
        }
    }
}

/// A request that went out keeps others back exactly as long as it may be
/// answered.
pub proof fn one_request_at_a_time(tracker: SyncTracker, sent_at: u64, now: u64)
    requires
        sent_at <= now,
    ensures
        is_busy(
            (SyncTracker { in_flight: true, started_at: Some(sent_at), ..tracker }),
            now,
        ) == (now - sent_at <= tracker.timeout_ms),
{
}

/// How blocks are judged when no validator set is known.
#[derive(Clone, Copy, Debug, PartialEq, Eq, Structural)]
pub enum WithoutValidators {
    /// Refuse them: nothing vouches for them.
    Refuse,
    /// Take them: the execution layer validates them.
    Trust,
}

/// A certificate vouches for a block: it is valid and names its hash and view.
pub open spec fn vouched(block: CommittedState, qc_valid: bool) -> bool {
    qc_valid && block.commit_qc.block_hash == block.block_hash && block.commit_qc.view
        == block.view
}

/// A block's certificate is accepted.
pub open spec fn qc_accepted(
    block: CommittedState,
    has_validator_set: bool,
    without: WithoutValidators,
    qc_valid: bool,
) -> bool {
    if has_validator_set {
        vouched(block, qc_valid)
    } else {
        without == WithoutValidators::Trust
    }
}

/// Whether a block's certificate is accepted. Whether the certificate's
/// signatures are valid is given.
pub fn verify_sync_block_qc(
    block: &CommittedBlock,
    has_validator_set: bool,
    without: WithoutValidators,
    qc_valid: bool,
) -> (accepted: bool)
    ensures
        accepted == qc_accepted(block@, has_validator_set, without, qc_valid),
{
    if !has_validator_set {
        return without == WithoutValidators::Trust;
    }
    if !qc_valid {
        return false;
    }
    if !same_key(&block.commit_qc.block_hash, &block.block_hash) {
        return false;
    }
    block.commit_qc.view == block.view
}

/// The answered blocks that are taken, in order: those with a payload and an
/// accepted certificate.
pub open spec fn taken_blocks(
    blocks: Seq<CommittedState>,
    has_validator_set: bool,
    without: WithoutValidators,
    qc_valid: Seq<bool>,
) -> Seq<CommittedState>
    decreases blocks.len(),
{
    if blocks.len() == 0 {
        Seq::empty()
    } else {
        let rest = taken_blocks(blocks.drop_last(), has_validator_set, without, qc_valid);
        let block = blocks.last();
        if block.payload.len() > 0 && qc_accepted(
            block,
            has_validator_set,
            without,
            qc_valid[blocks.len() - 1],
        ) {
            rest.push(block)
        } else {
            rest
        }
    }
}

/// A synced block as an announcement.
pub open spec fn as_announcement(block: CommittedState) -> BroadcastFields {
    (block.block_hash, block.view, block.payload, 0, None, 0)
}

/// The contents of a list of announcements.
pub open spec fn announcements_state(blocks: Seq<BlockDataBroadcast>) -> Seq<BroadcastFields> {
    blocks.map_values(|b: BlockDataBroadcast| b@)
}

/// A synced block as an announcement.
pub fn announcement(block: &CommittedBlock) -> (announced: BlockDataBroadcast)
    ensures
        announced@ == as_announcement(block@),
{
    BlockDataBroadcast {
        block_hash: block.block_hash,
        view: block.view,
        payload_json: copy_bytes(&block.payload),
        timestamp: 0,
        execution_output: None,
        leader_ready_unix_ms: 0,
    }
}

/// Picks the answered blocks to take, in order.
pub fn select_sync_blocks(
    blocks: &Vec<CommittedBlock>,
    has_validator_set: bool,
    without: WithoutValidators,
    qc_valid: &Vec<bool>,
) -> (taken: Vec<CommittedBlock>)
    requires
        qc_valid@.len() == blocks@.len(),
    ensures
        blocks_state(taken@) == taken_blocks(
            blocks_state(blocks@),
            has_validator_set,
            without,
            qc_valid@,
        ),
{
    let ghost all = blocks_state(blocks@);
    let mut taken: Vec<CommittedBlock> = Vec::new();
    let mut i: usize = 0;
    assert(all.take(0) =~= Seq::empty());
    assert(blocks_state(taken@) =~= Seq::empty());
    while i < blocks.len()
        invariant
            i <= blocks@.len(),
            qc_valid@.len() == blocks@.len(),
            all == blocks_state(blocks@),
            blocks_state(taken@) == taken_blocks(
                all.take(i as int),
                has_validator_set,
                without,
                qc_valid@,
            ),
        decreases blocks@.len() - i,
    {
        let block = &blocks[i];
        let ghost before = blocks_state(taken@);
        proof {
            assert(all.take(i + 1).drop_last() =~= all.take(i as int));
            assert(all.take(i + 1).last() == block@);
        }
        if block.payload.len() > 0 && verify_sync_block_qc(
            block,
            has_validator_set,
            without,
            qc_valid[i],
        ) {
            taken.push(block.duplicate());
            assert(blocks_state(taken@) =~= before.push(block@));
        }
        i += 1;
    }
    assert(all.take(i as int) =~= all);
    taken
}

/// Takes the answered blocks into the chain and hands them back as
/// announcements to import, in order. Without a validator set none is taken.
pub fn take_sync_blocks(
    chain: &mut CommittedChain,
    blocks: &Vec<CommittedBlock>,
    has_validator_set: bool,
    qc_valid: &Vec<bool>,
) -> (imports: Vec<BlockDataBroadcast>)
    requires
        old(chain).wf(),
        qc_valid@.len() == blocks@.len(),
    ensures
        final(chain).wf(),
        final(chain).limit() == old(chain).limit(),
        final(chain)@ == ring_push_all(
            old(chain)@,
            old(chain).limit() as int,
            taken_blocks(
                blocks_state(blocks@),
                has_validator_set,
                WithoutValidators::Refuse,
                qc_valid@,
            ),
        ),
        announcements_state(imports@) == taken_blocks(
            blocks_state(blocks@),
            has_validator_set,
            WithoutValidators::Refuse,
            qc_valid@,
        ).map_values(|b: CommittedState| as_announcement(b)),
{
    let taken = select_sync_blocks(blocks, has_validator_set, WithoutValidators::Refuse, qc_valid);
    let ghost all = blocks_state(taken@);
    let ghost limit = chain.limit() as int;
    let mut imports: Vec<BlockDataBroadcast> = Vec::new();
    let mut i: usize = 0;
    assert(all.take(0) =~= Seq::empty());
    assert(announcements_state(imports@) =~= all.take(0).map_values(
        |b: CommittedState| as_announcement(b),
    ));
    while i < taken.len()
        invariant
            i <= taken@.len(),
            all == blocks_state(taken@),
            chain.wf(),
            limit == chain.limit(),
            limit == old(chain).limit(),
            chain@ == ring_push_all(old(chain)@, limit, all.take(i as int)),
            announcements_state(imports@) == all.take(i as int).map_values(
                |b: CommittedState| as_announcement(b),
            ),
        decreases taken@.len() - i,
    {
        let ghost imported = announcements_state(imports@);
        imports.push(announcement(&taken[i]));
        chain.store(taken[i].duplicate());
        proof {
            assert(all.take(i + 1).drop_last() =~= all.take(i as int));
            assert(all.take(i + 1).last() == taken@[i as int]@);
            assert(announcements_state(imports@) =~= imported.push(as_announcement(all[i as int])));
            assert(imported.push(as_announcement(all[i as int])) =~= all.take(i + 1).map_values(
                |b: CommittedState| as_announcement(b),
            ));
        }
        i += 1;
    }
    assert(all.take(i as int) =~= all);
    imports
}

/// The answered block at `j` may be taken.
pub open spec fn may_take(
    blocks: Seq<CommittedState>,
    has_validator_set: bool,
    without: WithoutValidators,
    qc_valid: Seq<bool>,
    j: int,
) -> bool {
    0 <= j < blocks.len() && blocks[j].payload.len() > 0 && qc_accepted(
        blocks[j],
        has_validator_set,
        without,
        qc_valid[j],
    )
}

/// `block` is an answered block that may be taken.
pub open spec fn is_takable(
    blocks: Seq<CommittedState>,
    has_validator_set: bool,
    without: WithoutValidators,
    qc_valid: Seq<bool>,
    block: CommittedState,
) -> bool {
    exists|j: int|
        #![trigger may_take(blocks, has_validator_set, without, qc_valid, j)]
        may_take(blocks, has_validator_set, without, qc_valid, j) && blocks[j] == block
}

/// Every block that is taken is one of the answered blocks, with a payload and
/// an accepted certificate; without a validator set, a node that refuses
/// unvouched blocks takes none.
pub proof fn taken_blocks_are_vouched(
    blocks: Seq<CommittedState>,
    has_validator_set: bool,
    without: WithoutValidators,
    qc_valid: Seq<bool>,
)
    requires
        qc_valid.len() >= blocks.len(),
    ensures
        forall|block: CommittedState| #[trigger]
            taken_blocks(blocks, has_validator_set, without, qc_valid).contains(block)
                ==> is_takable(blocks, has_validator_set, without, qc_valid, block),
        !has_validator_set && without == WithoutValidators::Refuse ==> taken_blocks(
            blocks,
            has_validator_set,
            without,
            qc_valid,
        ).len() == 0,
    decreases blocks.len(),
{
    let taken = taken_blocks(blocks, has_validator_set, without, qc_valid);
    if blocks.len() > 0 {
        let rest = blocks.drop_last();
        let before = taken_blocks(rest, has_validator_set, without, qc_valid);
        taken_blocks_are_vouched(rest, has_validator_set, without, qc_valid);
        assert forall|block: CommittedState| #[trigger] taken.contains(block) implies is_takable(
            blocks,
            has_validator_set,
            without,
            qc_valid,
            block,
        ) by {
            let i = choose|i: int| 0 <= i < taken.len() && taken[i] == block;
            if i < before.len() {
                assert(before[i] == block);
                assert(before.contains(block));
                let j = choose|j: int|
                    #![trigger may_take(rest, has_validator_set, without, qc_valid, j)]
                    may_take(rest, has_validator_set, without, qc_valid, j) && rest[j] == block;
                assert(may_take(blocks, has_validator_set, without, qc_valid, j));
            } else {
                assert(may_take(
                    blocks,
                    has_validator_set,
                    without,
                    qc_valid,
                    blocks.len() - 1,
                ));
            }
        }
    }
}

/// A node that is more than three views behind its peer asks for more.
pub open spec fn still_behind(local_view: u64, peer_view: u64) -> bool {
    peer_view > local_view + SYNC_LAG
}

/// Whether a node is more than three views behind.
pub fn is_behind(local_view: u64, peer_view: u64) -> (behind: bool)
    requires
        local_view + SYNC_LAG <= u64::MAX,
    ensures
        behind == still_behind(local_view, peer_view),
{
    peer_view > local_view + SYNC_LAG
}

/// Peers take turns: every connected peer has its turn, and a turn is always that
/// of a connected one.
pub proof fn peers_take_turns(peers: Seq<u64>, turn: u64, i: int)
    ensures
        peers.len() == 0 ==> peer_at_turn(peers, turn) is None,
        peers.len() > 0 ==> (peer_at_turn(peers, turn) matches Some(peer) && peers.contains(peer)),
        0 <= i < peers.len() && i <= u64::MAX ==> peer_at_turn(peers, i as u64) == Some(peers[i]),
{
    if peers.len() > 0 {
        vstd::arithmetic::div_mod::lemma_mod_bound(turn as int, peers.len() as int);
        assert(peers.contains(peers[turn as int % peers.len() as int]));
        if 0 <= i < peers.len() {
            vstd::arithmetic::div_mod::lemma_small_mod(i as nat, peers.len());
        }
    }
}

/// What a synced block must have to be imported: a payload and, where validators
/// are known, a valid certificate for this hash and view. Where none are known a
/// node that refuses imports nothing, and one that trusts asks only for the
/// payload.
pub open spec fn may_be_imported(
    block: CommittedState,
    has_validator_set: bool,
    trusting: bool,
    qc_valid: bool,
) -> bool {
    &&& block.payload.len() > 0
    &&& if has_validator_set {
        qc_valid && block.commit_qc.view == block.view && block.commit_qc.block_hash
            == block.block_hash
    } else {
        trusting
    }
}

/// Of the blocks of an answer exactly those are taken that may be imported, each
/// whole and in their order: the positions at which they stand rise.
pub proof fn sync_takes_what_may_be_imported(
    blocks: Seq<CommittedState>,
    has_validator_set: bool,
    without: WithoutValidators,
    qc_valid: Seq<bool>,
) -> (at: Seq<int>)
    requires
        qc_valid.len() >= blocks.len(),
    ensures
        ({
            let taken = taken_blocks(blocks, has_validator_set, without, qc_valid);
            let trusting = without == WithoutValidators::Trust;
            &&& at.len() == taken.len()
            &&& forall|i: int, j: int| 0 <= i < j < at.len() ==> #[trigger] at[i] < #[trigger] at[j]
            &&& forall|i: int|
                0 <= i < at.len() ==> 0 <= #[trigger] at[i] < blocks.len() && taken[i]
                    == blocks[at[i]] && may_be_imported(
                    blocks[at[i]],
                    has_validator_set,
                    trusting,
                    qc_valid[at[i]],
                )
            &&& forall|k: int|
                0 <= k < blocks.len() && may_be_imported(
                    #[trigger] blocks[k],
                    has_validator_set,
                    trusting,
                    qc_valid[k],
                ) ==> at.contains(k)
        }),
    decreases blocks.len(),
{
    if blocks.len() == 0 {
        Seq::empty()
    } else {
        let rest = blocks.drop_last();
        let before = sync_takes_what_may_be_imported(rest, has_validator_set, without, qc_valid);
        let k = blocks.len() - 1;
        let trusting = without == WithoutValidators::Trust;
        assert forall|i: int| 0 <= i < rest.len() implies #[trigger] rest[i] == blocks[i] by {}
        if may_be_imported(blocks[k], has_validator_set, trusting, qc_valid[k]) {
            let at = before.push(k);
            assert(at[at.len() - 1] == k);
            assert forall|j: int|
                0 <= j < blocks.len() && may_be_imported(
                    #[trigger] blocks[j],
                    has_validator_set,
                    trusting,
                    qc_valid[j],
                ) implies at.contains(j) by {
                if j < k {
                    assert(may_be_imported(rest[j], has_validator_set, trusting, qc_valid[j]));
                    let p = choose|p: int| 0 <= p < before.len() && before[p] == j;
                    assert(at[p] == j);
                }
            }
            at
        } else {
            assert forall|j: int|
                0 <= j < blocks.len() && may_be_imported(
                    #[trigger] blocks[j],
                    has_validator_set,
                    trusting,
                    qc_valid[j],
                ) implies before.contains(j) by {
                assert(may_be_imported(rest[j], has_validator_set, trusting, qc_valid[j]));
            }
            before
        }
    }
}

/// A synced block is imported as itself: under its hash and view, with its
/// payload, and without an execution output.
pub proof fn synced_blocks_keep_their_identity(block: CommittedState)
    ensures
        as_announcement(block).0 == block.block_hash,
        as_announcement(block).1 == block.view,
        as_announcement(block).2 == block.payload,
        as_announcement(block).4 is None,
{
}

/// A request under way blocks others until it is answered, fails or has waited
/// longer than its time; an idle tracker blocks none.
pub proof fn requests_expire(tracker: SyncTracker, now: u64)
    ensures
        !tracker.in_flight ==> !is_busy(tracker, now) && !timed_out(tracker, now),
        tracker.in_flight && tracker.started_at is None ==> is_busy(tracker, now),
        tracker.in_flight && (tracker.started_at matches Some(at) && now - at > tracker.timeout_ms)
            ==> !is_busy(tracker, now) && timed_out(tracker, now),
        tracker.in_flight && (tracker.started_at matches Some(at) && now - at
            <= tracker.timeout_ms) ==> is_busy(tracker, now) && !timed_out(tracker, now),
        !idle(tracker).in_flight,
        idle(tracker).started_at is None,
        idle(tracker).timeout_ms == tracker.timeout_ms,
{
}

/// A node asks for blocks once a peer is more than three views ahead.
pub proof fn lag_is_more_than_three(local_view: u64, peer_view: u64)
    ensures
        still_behind(local_view, peer_view) <==> peer_view - local_view > 3,
{
}

} // verus!
