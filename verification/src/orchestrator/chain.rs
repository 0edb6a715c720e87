//! The blocks that consensus has committed, kept to serve peers that catch up.
use crate::primitives::{copy_bytes, same_key, B256};
use crate::ring::{ring_push, Ring};
use vstd::prelude::*;

verus! {

/// How many committed blocks are kept when nothing is configured.
pub const DEFAULT_MAX_COMMITTED_BLOCKS: usize = 10_000;

/// The most blocks that one answer to a peer holds.
pub const MAX_SYNC_BLOCKS: usize = 128;

/// How many of the newest blocks are looked at to tell whether there is activity.
pub const EMPTY_BLOCK_CHECK_WINDOW: usize = 3;

/// A payload shorter than this holds no transactions to speak of.
pub const EMPTY_BLOCK_SIZE_THRESHOLD: usize = 512;

/// A quorum's certificate for a block.
#[derive(Debug)]
pub struct QuorumCertificate {
    pub view: u64,
    pub block_hash: B256,
    pub aggregate_signature: Vec<u8>,
    pub signers: Vec<u8>,
}

/// The contents of a certificate.
pub ghost struct QcState {
    pub view: u64,
    pub block_hash: B256,
    pub aggregate_signature: Seq<u8>,
    pub signers: Seq<u8>,
}

impl View for QuorumCertificate {
    type V = QcState;

    open spec fn view(&self) -> QcState {
        QcState {
            view: self.view,
            block_hash: self.block_hash,
            aggregate_signature: self.aggregate_signature@,
            signers: self.signers@,
        }
    }
}

impl QuorumCertificate {
    /// A copy of the certificate.
    pub fn duplicate(&self) -> (qc: Self)
        ensures
            qc@ == self@,
    {
        QuorumCertificate {
            view: self.view,
            block_hash: self.block_hash,
            aggregate_signature: copy_bytes(&self.aggregate_signature),
            signers: copy_bytes(&self.signers),
        }
    }
}

/// A committed block, with its payload as far as it is known.
#[derive(Debug)]
pub struct CommittedBlock {
    pub view: u64,
    pub block_hash: B256,
    pub commit_qc: QuorumCertificate,
    pub payload: Vec<u8>,
}

/// The contents of a committed block.
pub ghost struct CommittedState {
    pub view: u64,
    pub block_hash: B256,
    pub commit_qc: QcState,
    pub payload: Seq<u8>,
}

impl View for CommittedBlock {
    type V = CommittedState;

    open spec fn view(&self) -> CommittedState {
        CommittedState {
            view: self.view,
            block_hash: self.block_hash,
            commit_qc: self.commit_qc@,
            payload: self.payload@,
        }
    }
}

impl CommittedBlock {
    /// A copy of the block.
    pub fn duplicate(&self) -> (block: Self)
        ensures
            block@ == self@,
    {
        CommittedBlock {
            view: self.view,
            block_hash: self.block_hash,
            commit_qc: self.commit_qc.duplicate(),
            payload: copy_bytes(&self.payload),
        }
    }
}

/// The contents of a list of blocks.
pub open spec fn blocks_state(blocks: Seq<CommittedBlock>) -> Seq<CommittedState> {
    blocks.map_values(|b: CommittedBlock| b@)
}

/// What a peer asks for: the blocks of a range of views.
#[derive(Clone, Copy, Debug, PartialEq, Eq, Structural)]
pub struct BlockSyncRequest {
    pub from_view: u64,
    pub to_view: u64,
    pub local_committed_view: u64,
}

/// What a peer is answered.
#[derive(Debug)]
pub struct BlockSyncResponse {
    pub blocks: Vec<CommittedBlock>,
    pub peer_committed_view: u64,
}

/// The configured number of committed blocks to keep.
pub fn max_committed_blocks(configured: Option<usize>) -> (n: usize)
    ensures
        n == match configured {
            Some(n) => n,
            None => DEFAULT_MAX_COMMITTED_BLOCKS,
        },
{
    match configured {
        Some(n) => n,
        None => DEFAULT_MAX_COMMITTED_BLOCKS,
    }
}

/// The first blocks with views in a range, at most `room` of them.
pub open spec fn in_views(
    blocks: Seq<CommittedState>,
    from_view: u64,
    to_view: u64,
    room: int,
) -> Seq<CommittedState>
    decreases blocks.len(),
{
    if blocks.len() == 0 || room <= 0 {
        Seq::empty()
    } else if from_view <= blocks[0].view <= to_view {
        seq![blocks[0]] + in_views(blocks.drop_first(), from_view, to_view, room - 1)
    } else {
        in_views(blocks.drop_first(), from_view, to_view, room)
    }
}

/// The newest block with this hash.
pub open spec fn last_with_hash(blocks: Seq<CommittedState>, hash: B256) -> Option<int>
    decreases blocks.len(),
{
    if blocks.len() == 0 {
        None
    } else if blocks.last().block_hash == hash {
        Some(blocks.len() - 1)
    } else {
        last_with_hash(blocks.drop_last(), hash)
    }
}

/// The blocks once the payload of the newest one with this hash is known: a
/// payload that is there already stays.
pub open spec fn with_payload(blocks: Seq<CommittedState>, hash: B256, payload: Seq<u8>) -> Seq<
    CommittedState,
> {
    match last_with_hash(blocks, hash) {
        Some(i) => if blocks[i].payload.len() == 0 {
            blocks.update(i, CommittedState { payload, ..blocks[i] })
        } else {
            blocks
        },
        None => blocks,
    }
}

/// The newest blocks were all without transactions to speak of.
pub open spec fn recently_empty(blocks: Seq<CommittedState>) -> bool {
    blocks.len() > 0 && forall|i: int|
        0 <= i < blocks.len() && i >= blocks.len() - EMPTY_BLOCK_CHECK_WINDOW ==> (
        #[trigger] blocks[i]).payload.len() < EMPTY_BLOCK_SIZE_THRESHOLD
}

/// The view of the newest block, zero where there is none.
pub open spec fn newest_view(blocks: Seq<CommittedState>) -> u64 {
    if blocks.len() == 0 {
        0
    } else {
        blocks.last().view
    }
}

/// The newest committed blocks.
pub struct CommittedChain {
    ring: Ring<CommittedBlock>,
}

impl View for CommittedChain {
    type V = Seq<CommittedState>;

    closed spec fn view(&self) -> Seq<CommittedState> {
        blocks_state(self.ring@)
    }
}

impl CommittedChain {
    /// How many blocks are kept.
    pub closed spec fn limit(self) -> usize {
        self.ring.limit()
    }

    /// The chain is within its limit.
    pub closed spec fn wf(self) -> bool {
        self.ring.wf()
    }

    /// A chain without blocks.
    pub fn new(limit: usize) -> (chain: Self)
        ensures
            chain@ == Seq::<CommittedState>::empty(),
            chain.limit() == limit,
            chain.wf(),
    {
        let chain = CommittedChain { ring: Ring::new(limit) };
        assert(chain@ =~= Seq::<CommittedState>::empty());
        chain
    }

    /// Takes a block in; the oldest leaves where the limit is reached.
    pub fn store(&mut self, block: CommittedBlock)
        requires
            old(self).wf(),
        ensures
            final(self)@ == ring_push(old(self)@, old(self).limit() as int, block@),
            final(self).limit() == old(self).limit(),
            final(self).wf(),
    {
        let ghost before = self.ring@;
        let ghost taken = block@;
        self.ring.push(block);
        assert(self@ =~= ring_push(blocks_state(before), self.limit() as int, taken));
    }

    /// How many blocks there are.
    pub fn len(&self) -> (n: usize)
        ensures
            n == self@.len(),
    {
        self.ring.len()
    }

    /// The payload of the newest block, where there is one.
    pub fn newest_payload(&self) -> (payload: Option<&Vec<u8>>)
        ensures
            match payload {
                Some(p) => self@.len() > 0 && p@ == self@.last().payload,
                None => self@.len() == 0,
            },
    {
        let n: usize = self.ring.len();
        if n == 0 {
            None
        } else {
            Some(&self.ring.get(n - 1).payload)
        }
    }

    /// Whether the newest blocks were all without transactions to speak of.
    pub fn recent_blocks_empty(&self) -> (empty: bool)
        ensures
            empty == recently_empty(self@),
    {
        let n: usize = self.ring.len();
        if n == 0 {
            return false;
        }
        let mut i: usize = if n > EMPTY_BLOCK_CHECK_WINDOW {
            n - EMPTY_BLOCK_CHECK_WINDOW
        } else {
            0
        };
        let ghost start = i;
        while i < n
            invariant
                n == self@.len(),
                n == self.ring@.len(),
                start <= i <= n,
                start == if n > EMPTY_BLOCK_CHECK_WINDOW {
                    n - EMPTY_BLOCK_CHECK_WINDOW
                } else {
                    0
                },
                forall|j: int|
                    start <= j < i ==> (#[trigger] self@[j]).payload.len()
                        < EMPTY_BLOCK_SIZE_THRESHOLD,
            decreases n - i,
        {
            let block = self.ring.get(i);
            assert(self@[i as int] == block@);
            if block.payload.len() >= EMPTY_BLOCK_SIZE_THRESHOLD {
                return false;
            }
            i += 1;
        }
        true
    }

    /// Answers a peer: up to 128 blocks of the views it asks for, oldest first,
    /// and the view of the newest block.
    pub fn handle_sync_request(&self, request: &BlockSyncRequest) -> (response: BlockSyncResponse)
        ensures
            blocks_state(response.blocks@) == in_views(
                self@,
                request.from_view,
                request.to_view,
                MAX_SYNC_BLOCKS as int,
            ),
            response.peer_committed_view == newest_view(self@),
    {
        let n: usize = self.ring.len();
        let mut blocks: Vec<CommittedBlock> = Vec::new();
        let mut i: usize = 0;
        proof {
            assert(self@.skip(0) =~= self@);
            assert(blocks_state(blocks@) + in_views(
                self@,
                request.from_view,
                request.to_view,
                MAX_SYNC_BLOCKS as int,
            ) =~= in_views(self@, request.from_view, request.to_view, MAX_SYNC_BLOCKS as int));
        }
        while i < n && blocks.len() < MAX_SYNC_BLOCKS
            invariant
                n == self@.len(),
                n == self.ring@.len(),
                i <= n,
                blocks@.len() <= MAX_SYNC_BLOCKS,
                blocks_state(blocks@) + in_views(
                    self@.skip(i as int),
                    request.from_view,
                    request.to_view,
                    MAX_SYNC_BLOCKS - blocks@.len(),
                ) == in_views(self@, request.from_view, request.to_view, MAX_SYNC_BLOCKS as int),
            decreases n - i,
        {
            let block = self.ring.get(i);
            let ghost rest = self@.skip(i as int);
            let ghost before = blocks_state(blocks@);
            let ghost room = MAX_SYNC_BLOCKS - blocks@.len();
            proof {
                assert(rest[0] == block@);
                assert(rest.drop_first() =~= self@.skip(i + 1));
            }
            if block.view >= request.from_view && block.view <= request.to_view {
                blocks.push(block.duplicate());
                proof {
                    assert(blocks_state(blocks@) =~= before.push(block@));
                    assert(before.push(block@) + in_views(
                        self@.skip(i + 1),
                        request.from_view,
                        request.to_view,
                        room - 1,
                    ) =~= before + (seq![block@] + in_views(
                        self@.skip(i + 1),
                        request.from_view,
                        request.to_view,
                        room - 1,
                    )));
                }
            }
            i += 1;
        }
        proof {
            let left = in_views(
                self@.skip(i as int),
                request.from_view,
                request.to_view,
                MAX_SYNC_BLOCKS - blocks@.len(),
            );
            assert(left =~= Seq::empty());
            assert(blocks_state(blocks@) + left =~= blocks_state(blocks@));
        }
        let peer_committed_view: u64 = if n == 0 {
            0
        } else {
            self.ring.get(n - 1).view
        };
        BlockSyncResponse { blocks, peer_committed_view }
    }

    /// Fills in the payload of the newest block with this hash, where it is
    /// still missing; says whether it did.
    pub fn fill_payload(&mut self, hash: &B256, payload: &Vec<u8>) -> (filled: bool)
        requires
            old(self).wf(),
        ensures
            final(self)@ == with_payload(old(self)@, *hash, payload@),
            final(self).limit() == old(self).limit(),
            final(self).wf(),
            filled == (last_with_hash(old(self)@, *hash) matches Some(i) && old(
                self,
            )@[i].payload.len() == 0),
    {
        let mut n: usize = self.ring.len();
        assert(self@.take(n as int) =~= self@);
        while n > 0
            invariant
                n <= self@.len(),
                self@.len() == self.ring@.len(),
                self.wf(),
                self@ == old(self)@,
                self.limit() == old(self).limit(),
                last_with_hash(self@, *hash) == last_with_hash(self@.take(n as int), *hash),
            decreases n,
        {
            let block = self.ring.get(n - 1);
            proof {
                assert(self@[n - 1] == block@);
                assert(self@.take(n as int).last() == block@);
                assert(self@.take(n as int).drop_last() =~= self@.take(n - 1));
            }
            if same_key(&block.block_hash, hash) {
                if block.payload.len() > 0 {
                    return false;
                }
                let mut filled = block.duplicate();
                filled.payload = copy_bytes(payload);
                let ghost before = self.ring@;
                let ghost new_state = filled@;
                self.ring.set(n - 1, filled);
                proof {
                    assert(self@ =~= blocks_state(before).update(n - 1, new_state));
                }
                return true;
            }
            n -= 1;
        }
        proof {
            assert(self@.take(0).len() == 0);
        }
        false
    }
}

/// Every block of an answer is one of the committed blocks and has a view in
/// the asked range, and an answer is never longer than the limit.
pub proof fn answers_stay_in_range(
    blocks: Seq<CommittedState>,
    from_view: u64,
    to_view: u64,
    room: int,
)
    requires
        0 <= room,
    ensures
        in_views(blocks, from_view, to_view, room).len() <= room,
        forall|i: int|
            0 <= i < in_views(blocks, from_view, to_view, room).len() ==> from_view <= (
            #[trigger] in_views(blocks, from_view, to_view, room)[i]).view <= to_view
                && blocks.contains(in_views(blocks, from_view, to_view, room)[i]),
    decreases blocks.len(),
{
    if blocks.len() > 0 && room > 0 {
        let rest = blocks.drop_first();
        let taken = if from_view <= blocks[0].view <= to_view {
            room - 1
        } else {
            room
        };
        answers_stay_in_range(rest, from_view, to_view, taken);
        let inner = in_views(rest, from_view, to_view, taken);
        let outer = in_views(blocks, from_view, to_view, room);
        assert forall|i: int| 0 <= i < outer.len() implies from_view <= (
        #[trigger] outer[i]).view <= to_view && blocks.contains(outer[i]) by {
            if from_view <= blocks[0].view <= to_view {
                if i > 0 {
                    assert(outer[i] == inner[i - 1]);
                    let k = choose|k: int| 0 <= k < rest.len() && rest[k] == inner[i - 1];
                    assert(blocks[k + 1] == outer[i]);
                }
            } else {
                assert(outer[i] == inner[i]);
                let k = choose|k: int| 0 <= k < rest.len() && rest[k] == inner[i];
                assert(blocks[k + 1] == outer[i]);
            }
        }
    }
}

/// A block of one of the asked views.
pub open spec fn of_views(from_view: u64, to_view: u64) -> spec_fn(CommittedState) -> bool {
    |block: CommittedState| from_view <= block.view && block.view <= to_view
}

proof fn filter_single(block: CommittedState, pred: spec_fn(CommittedState) -> bool)
    ensures
        seq![block].filter(pred) == if pred(block) {
            seq![block]
        } else {
            Seq::empty()
        },
{
    reveal_with_fuel(Seq::filter, 2);
    let one = seq![block];
    assert(one.drop_last() =~= Seq::empty());
    assert(one.last() == block);
    assert(Seq::<CommittedState>::empty().push(block) =~= one);
}

/// An answer holds all the kept blocks of the asked views, each whole and in
/// their order; where there are more than it has room for, the first of them.
pub proof fn answers_are_complete(
    blocks: Seq<CommittedState>,
    from_view: u64,
    to_view: u64,
    room: int,
)
    requires
        0 <= room,
    ensures
        ({
            let wanted = blocks.filter(of_views(from_view, to_view));
            in_views(blocks, from_view, to_view, room) == if wanted.len() <= room {
                wanted
            } else {
                wanted.take(room)
            }
        }),
    decreases blocks.len(),
{
    let pred = of_views(from_view, to_view);
    let wanted = blocks.filter(pred);
    if blocks.len() == 0 {
        assert(wanted =~= Seq::empty()) by {
            reveal(Seq::filter);
        }
    } else {
        let one = seq![blocks[0]];
        let rest = blocks.drop_first();
        assert(blocks =~= one + rest);
        Seq::filter_distributes_over_add(one, rest, pred);
        filter_single(blocks[0], pred);
        assert(Seq::<CommittedState>::empty() + rest.filter(pred) =~= rest.filter(pred));
        if room == 0 {
            assert(wanted.take(0) =~= Seq::empty());
        } else if pred(blocks[0]) {
            answers_are_complete(rest, from_view, to_view, room - 1);
            assert(wanted =~= one + rest.filter(pred));
            if wanted.len() > room {
                assert(wanted.take(room) =~= one + rest.filter(pred).take(room - 1));
            }
        } else {
            answers_are_complete(rest, from_view, to_view, room);
            assert(wanted =~= rest.filter(pred));
        }
    }
}

/// The newest kept block is in the answer to a request that asks for its view,
/// with its payload, where the kept blocks fit.
pub proof fn the_newest_block_is_served(
    blocks: Seq<CommittedState>,
    from_view: u64,
    to_view: u64,
    room: int,
)
    requires
        0 < blocks.len() <= room,
        from_view <= blocks.last().view <= to_view,
    ensures
        in_views(blocks, from_view, to_view, room).len() > 0,
        in_views(blocks, from_view, to_view, room).last() == blocks.last(),
        newest_view(blocks) == blocks.last().view,
{
    let pred = of_views(from_view, to_view);
    answers_are_complete(blocks, from_view, to_view, room);
    let rest = blocks.drop_last();
    let one = seq![blocks.last()];
    assert(blocks =~= rest + one);
    Seq::filter_distributes_over_add(rest, one, pred);
    filter_single(blocks.last(), pred);
    assert(rest.filter(pred).len() <= rest.len()) by {
        filter_not_longer(rest, pred);
    }
}

proof fn filter_not_longer(blocks: Seq<CommittedState>, pred: spec_fn(CommittedState) -> bool)
    ensures
        blocks.filter(pred).len() <= blocks.len(),
    decreases blocks.len(),
{
    reveal(Seq::filter);
    if blocks.len() > 0 {
        filter_not_longer(blocks.drop_last(), pred);
    }
}

proof fn last_with_hash_is_last(blocks: Seq<CommittedState>, hash: B256)
    ensures
        match last_with_hash(blocks, hash) {
            Some(i) => 0 <= i < blocks.len() && blocks[i].block_hash == hash && forall|j: int|
                i < j < blocks.len() ==> (#[trigger] blocks[j]).block_hash != hash,
            None => forall|j: int|
                0 <= j < blocks.len() ==> (#[trigger] blocks[j]).block_hash != hash,
        },
    decreases blocks.len(),
{
    if blocks.len() > 0 && blocks.last().block_hash != hash {
        let rest = blocks.drop_last();
        last_with_hash_is_last(rest, hash);
        assert forall|j: int| 0 <= j < rest.len() implies #[trigger] blocks[j] == rest[j] by {}
    }
}

/// A payload that comes late fills in the newest kept block with its hash, where
/// that has none. No payload is overwritten, and nothing else of any block
/// changes.
pub proof fn late_payloads_fill_gaps(
    blocks: Seq<CommittedState>,
    hash: B256,
    payload: Seq<u8>,
    i: int,
)
    requires
        0 <= i < blocks.len(),
    ensures
        ({
            let after = with_payload(blocks, hash, payload);
            &&& after.len() == blocks.len()
            &&& after[i].view == blocks[i].view
            &&& after[i].block_hash == blocks[i].block_hash
            &&& after[i].commit_qc == blocks[i].commit_qc
            &&& blocks[i].payload.len() > 0 || blocks[i].block_hash != hash ==> after[i]
                == blocks[i]
            &&& blocks[i].payload.len() == 0 && blocks[i].block_hash == hash && (forall|j: int|
                i < j < blocks.len() ==> (#[trigger] blocks[j]).block_hash != hash)
                ==> after[i].payload == payload
        }),
{
    last_with_hash_is_last(blocks, hash);
}

/// There was activity where one of the last three blocks has a payload of 512
/// bytes or more, and before the first block; else there was none.
pub proof fn activity_shows_in_the_last_three(blocks: Seq<CommittedState>, i: int)
    ensures
        0 <= i < blocks.len() && blocks.len() - i <= 3 && blocks[i].payload.len() >= 512
            ==> !recently_empty(blocks),
        blocks.len() == 0 ==> !recently_empty(blocks),
        blocks.len() > 0 && !recently_empty(blocks) ==> exists|j: int|
            0 <= j < blocks.len() && blocks.len() - j <= 3 && (
            #[trigger] blocks[j]).payload.len() >= 512,
{
}

} // verus!
