//! Transactions on their way to the leader.
use crate::primitives::copy_bytes;
use vstd::prelude::*;

verus! {

/// How many transactions make a batch.
pub const TX_FORWARD_BATCH_TARGET: usize = 512;

/// How long a partial batch waits.
pub const TX_FLUSH_MS: u64 = 50;

/// A buffer longer than this loses its oldest transactions.
pub const TX_FORWARD_HIGH: usize = 4096;

/// How many transactions a buffer that was too long keeps.
pub const TX_FORWARD_KEEP: usize = 2048;

/// The contents of a list of transactions.
pub open spec fn txs_state(txs: Seq<Vec<u8>>) -> Seq<Seq<u8>> {
    txs.map_values(|tx: Vec<u8>| tx@)
}

/// A buffer that was too long keeps its newest transactions.
pub open spec fn trimmed(txs: Seq<Seq<u8>>) -> Seq<Seq<u8>> {
    if txs.len() > TX_FORWARD_HIGH {
        txs.skip(txs.len() - TX_FORWARD_KEEP)
    } else {
        txs
    }
}

/// The peer of a validator: the first that is listed for its index.
pub open spec fn peer_of(validator_peers: Seq<(u32, u64)>, index: u32) -> Option<u64>
    decreases validator_peers.len(),
{
    if validator_peers.len() == 0 {
        None
    } else if validator_peers[0].0 == index {
        Some(validator_peers[0].1)
    } else {
        peer_of(validator_peers.drop_first(), index)
    }
}

/// The peer of a validator: the first that is listed for its index.
pub fn validator_peer(validator_peers: &Vec<(u32, u64)>, index: u32) -> (peer: Option<u64>)
    ensures
        peer == peer_of(validator_peers@, index),
{
    let mut i: usize = 0;
    assert(validator_peers@.skip(0) =~= validator_peers@);
    while i < validator_peers.len()
        invariant
            i <= validator_peers@.len(),
            peer_of(validator_peers@, index) == peer_of(validator_peers@.skip(i as int), index),
        decreases validator_peers@.len() - i,
    {
        let ghost rest = validator_peers@.skip(i as int);
        assert(rest[0] == validator_peers@[i as int]);
        assert(rest.drop_first() =~= validator_peers@.skip(i + 1));
        if validator_peers[i].0 == index {
            return Some(validator_peers[i].1);
        }
        i += 1;
    }
    None
}

/// What is done with the buffered transactions.
#[derive(Debug)]
pub enum Flush {
    /// Nothing: there are none, or the leader is not connected.
    Keep,
    /// They go into this node's own pool.
    Local { txs: Vec<Vec<u8>> },
    /// They go to the leader's peer.
    Forward { peer: u64, txs: Vec<Vec<u8>> },
}

/// What is done with the buffered transactions, and what stays in the buffer:
/// they go into this node's pool where forwarding is off or this node leads, to
/// the leader's peer where it is connected, and else they stay, the oldest
/// dropped.
pub open spec fn flushed(
    before: Seq<Seq<u8>>,
    forwarding_disabled: bool,
    is_leader: bool,
    leader_peer: Option<u64>,
    after: Seq<Seq<u8>>,
    flush: Flush,
) -> bool {
    if before.len() == 0 {
        flush is Keep && after == before
    } else if forwarding_disabled || is_leader {
        flush matches Flush::Local { txs } && txs_state(txs@) == before && after.len() == 0
    } else {
        match leader_peer {
            Some(leader) => flush matches Flush::Forward { peer, txs } && peer == leader
                && txs_state(txs@) == before && after.len() == 0,
            None => flush is Keep && after == trimmed(before),
        }
    }
}

/// Transactions that wait to be forwarded.
pub struct TxForwardBuffer {
    txs: Vec<Vec<u8>>,
}

impl View for TxForwardBuffer {
    type V = Seq<Seq<u8>>;

    closed spec fn view(&self) -> Seq<Seq<u8>> {
        txs_state(self.txs@)
    }
}

impl TxForwardBuffer {
    /// An empty buffer.
    pub fn new() -> (buffer: Self)
        ensures
            buffer@ == Seq::<Seq<u8>>::empty(),
    {
        let buffer = TxForwardBuffer { txs: Vec::new() };
        assert(buffer@ =~= Seq::<Seq<u8>>::empty());
        buffer
    }

    /// How many transactions wait.
    pub fn len(&self) -> (n: usize)
        ensures
            n == self@.len(),
    {
        self.txs.len()
    }

    /// The transaction at `i`, counted from the oldest.
    pub fn get(&self, i: usize) -> (tx: &Vec<u8>)
        requires
            i < self@.len(),
        ensures
            tx@ == self@[i as int],
    {
        &self.txs[i]
    }

    /// Takes a transaction in.
    pub fn push(&mut self, tx: Vec<u8>)
        ensures
            final(self)@ == old(self)@.push(tx@),
    {
        let ghost before = self.txs@;
        self.txs.push(tx);
        assert(self@ =~= txs_state(before).push(tx@));
    }

    /// Takes several transactions in, in order.
    pub fn push_all(&mut self, txs: Vec<Vec<u8>>)
        ensures
            final(self)@ == old(self)@ + txs_state(txs@),
    {
        let ghost before = self.txs@;
        let mut txs = txs;
        let ghost added = txs@;
        self.txs.append(&mut txs);
        assert(self@ =~= txs_state(before) + txs_state(added));
    }

    /// Whether the buffered transactions make a batch.
    pub fn is_full_batch(&self) -> (full: bool)
        ensures
            full == (self@.len() >= TX_FORWARD_BATCH_TARGET),
    {
        self.txs.len() >= TX_FORWARD_BATCH_TARGET
    }

    /// Drops the oldest transactions of a buffer that has grown too long.
    pub fn trim_tx_forward_buffer(&mut self) -> (dropped: usize)
        ensures
            final(self)@ == trimmed(old(self)@),
            dropped == old(self)@.len() - final(self)@.len(),
    {
        let n: usize = self.txs.len();
        if n <= TX_FORWARD_HIGH {
            return 0;
        }
        let excess: usize = n - TX_FORWARD_KEEP;
        let ghost before = self.txs@;
        let mut kept: Vec<Vec<u8>> = Vec::new();
        let mut i: usize = excess;
        while i < n
            invariant
                self.txs@ == before,
                n == before.len(),
                excess <= i <= n,
                kept@.len() == i - excess,
                forall|j: int|
                    0 <= j < kept@.len() ==> (#[trigger] kept@[j])@ == before[excess + j]@,
            decreases n - i,
        {
            kept.push(copy_bytes(&self.txs[i]));
            i += 1;
        }
        self.txs = kept;
        assert(self@ =~= trimmed(txs_state(before)));
        excess
    }

    /// Puts back a batch that could not be sent.
    pub fn restore_failed_tx_forward_batch(&mut self, txs: Vec<Vec<u8>>)
        ensures
            final(self)@ == trimmed(txs_state(txs@)),
    {
        self.txs = txs;
        let _ = self.trim_tx_forward_buffer();
    }

    /// Decides where the buffered transactions go: into this node's pool where
    /// forwarding is off or this node leads, to the leader's peer where it is
    /// connected, and else they stay, the oldest dropped.
    pub fn flush_tx_forward_buffer(
        &mut self,
        forwarding_disabled: bool,
        is_leader: bool,
        leader_index: u32,
        validator_peers: &Vec<(u32, u64)>,
    ) -> (flush: Flush)
        ensures
            flushed(
                old(self)@,
                forwarding_disabled,
                is_leader,
                peer_of(validator_peers@, leader_index),
                final(self)@,
                flush,
            ),
    {
        if self.txs.len() == 0 {
            return Flush::Keep;
        }
        if forwarding_disabled || is_leader {
            let txs = self.take_all();
            return Flush::Local { txs };
        }
        match validator_peer(validator_peers, leader_index) {
            Some(peer) => {
                let txs = self.take_all();
                Flush::Forward { peer, txs }
            },
            None => {
                let _ = self.trim_tx_forward_buffer();
                Flush::Keep
            },
        }
    }

    fn take_all(&mut self) -> (txs: Vec<Vec<u8>>)
        ensures
            txs_state(txs@) == old(self)@,
            final(self)@ == Seq::<Seq<u8>>::empty(),
    {
        let mut txs: Vec<Vec<u8>> = Vec::new();
        std::mem::swap(&mut txs, &mut self.txs);
        assert(self@ =~= Seq::<Seq<u8>>::empty());
        txs
    }
}

/// A buffer that has grown too long loses its oldest transactions and keeps the
/// newest, in order; any other keeps all.
pub proof fn trimming_keeps_the_newest(txs: Seq<Seq<u8>>)
    ensures
        trimmed(txs).is_suffix_of(txs),
        trimmed(txs).len() <= TX_FORWARD_HIGH,
        txs.len() <= TX_FORWARD_HIGH ==> trimmed(txs) == txs,
        txs.len() > TX_FORWARD_HIGH ==> trimmed(txs).len() == TX_FORWARD_KEEP,
{
    assert(trimmed(txs) =~= txs.subrange(txs.len() - trimmed(txs).len(), txs.len() as int));
}

/// A validator's peer is the one that the list has for it, and none is found only
/// where the list has none.
pub proof fn peers_are_found(validator_peers: Seq<(u32, u64)>, index: u32)
    ensures
        match peer_of(validator_peers, index) {
            Some(peer) => exists|i: int|
                0 <= i < validator_peers.len() && #[trigger] validator_peers[i] == (index, peer),
            None => forall|i: int|
                0 <= i < validator_peers.len() ==> (#[trigger] validator_peers[i]).0 != index,
        },
    decreases validator_peers.len(),
{
    if validator_peers.len() > 0 {
        let rest = validator_peers.drop_first();
        peers_are_found(rest, index);
        if validator_peers[0].0 == index {
            assert(validator_peers[0] == (index, validator_peers[0].1));
        } else {
            if let Some(peer) = peer_of(rest, index) {
                let i = choose|i: int| 0 <= i < rest.len() && #[trigger] rest[i] == (index, peer);
                assert(validator_peers[i + 1] == (index, peer));
            } else {
                assert forall|i: int| 0 <= i < validator_peers.len() implies (
                #[trigger] validator_peers[i]).0 != index by {
                    if i > 0 {
                        assert(rest[i - 1] == validator_peers[i]);
                    }
                }
            }
        }
    }
}

/// Forwarded transactions are neither lost nor doubled: a flush hands out all of
/// them, in order, and leaves none, or keeps them. They go to the leader's peer;
/// a leader, or a node that does not forward, takes them itself.
pub proof fn flushes_hand_out_everything(
    before: Seq<Seq<u8>>,
    forwarding_disabled: bool,
    is_leader: bool,
    leader_peer: Option<u64>,
    after: Seq<Seq<u8>>,
    flush: Flush,
)
    requires
        flushed(before, forwarding_disabled, is_leader, leader_peer, after, flush),
    ensures
        match flush {
            Flush::Keep => before.len() == 0 || (!forwarding_disabled && !is_leader && leader_peer
                is None),
            Flush::Local { txs } => txs_state(txs@) == before && after.len() == 0 && before.len()
                > 0 && (forwarding_disabled || is_leader),
            Flush::Forward { peer, txs } => txs_state(txs@) == before && after.len() == 0
                && before.len() > 0 && leader_peer == Some(peer) && !forwarding_disabled
                && !is_leader,
        },
        flush is Keep && before.len() <= 4096 ==> after == before,
        flush is Keep && before.len() > 4096 ==> after == before.skip(before.len() - 2048),
        before.len() > 0 && (forwarding_disabled || is_leader) ==> flush is Local,
        before.len() > 0 && !forwarding_disabled && !is_leader && leader_peer is Some ==> flush
            is Forward,
{
}

} // verus!
