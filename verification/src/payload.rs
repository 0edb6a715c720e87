//! The order in which pending transactions enter a block.
//!
//! A snapshot of the pool is split into one chain per sender. Each chain is
//! sorted by nonce and cut at the first transaction that cannot pay the block's
//! fees; the chains are then merged by tip, sender and hash.
use crate::keyed::ByteSet;
use crate::primitives::{
    bytes_less, bytes_less_strict, bytes_less_total, key_less, same_key, Address, B256,
};
use crate::settings::{is_off, switched_off};
use vstd::prelude::*;

verus! {

/// The number of worker lanes used when nothing is configured.
pub const DEFAULT_EXECUTION_LANES: usize = 8;

/// The configured number of execution lanes, kept between six and eight.
pub fn execution_lanes(configured: Option<usize>) -> (lanes: usize)
    ensures
        configured is None ==> lanes == DEFAULT_EXECUTION_LANES,
        configured matches Some(n) ==> lanes == if n < 6 {
            6
        } else if n > 8 {
            8
        } else {
            n
        },
{
    let n: usize = match configured {
        Some(n) => n,
        None => DEFAULT_EXECUTION_LANES,
    };
    if n < 6 {
        6
    } else if n > 8 {
        8
    } else {
        n
    }
}

/// Whether the pool is drained by sender shards: unless that is switched off.
pub fn sender_sharded_drain_enabled(setting: Option<&str>) -> (enabled: bool)
    ensures
        enabled == !(setting matches Some(text) && is_off(text@)),
{
    !switched_off(setting)
}

/// What the merge reads of a transaction in the pool.
#[derive(Clone, Copy, Debug)]
pub struct PendingTransaction {
    pub sender: Address,
    pub nonce: u64,
    pub hash: B256,
    /// The most that the transaction pays per unit of gas.
    pub max_fee_per_gas: u128,
    /// The most that it pays per unit of blob gas, where it carries blobs.
    pub max_fee_per_blob_gas: Option<u128>,
    /// The most that it leaves to the block producer per unit of gas; a
    /// transaction with a gas price leaves what is above the base fee.
    pub max_priority_fee_per_gas: Option<u128>,
    /// Whether the transaction carries blobs.
    pub is_eip4844: bool,
    /// Whether the transaction creates a contract.
    pub is_create: bool,
    /// The first two bytes of its input, where it has as many.
    pub input_start: Option<[u8; 2]>,
}

/// The fees of the block that is being built.
#[derive(Clone, Copy, Debug)]
pub struct BestTransactionsAttributes {
    pub basefee: u64,
    pub blob_fee: Option<u64>,
}

impl PendingTransaction {
    /// The tip by which the transaction is ranked: what it leaves to the block
    /// producer per unit of gas at this base fee, and nothing where it cannot pay
    /// the base fee.
    pub open spec fn spec_tip(self, basefee: u64) -> u128 {
        if self.max_fee_per_gas < basefee {
            0
        } else {
            let above = (self.max_fee_per_gas - basefee) as u128;
            match self.max_priority_fee_per_gas {
                Some(most) => if above <= most {
                    above
                } else {
                    most
                },
                None => above,
            }
        }
    }

    /// The tip by which the transaction is ranked.
    pub fn tip(&self, basefee: u64) -> (tip: u128)
        ensures
            tip == self.spec_tip(basefee),
    {
        if self.max_fee_per_gas < basefee as u128 {
            return 0;
        }
        let above: u128 = self.max_fee_per_gas - basefee as u128;
        match self.max_priority_fee_per_gas {
            Some(most) => if above <= most {
                above
            } else {
                most
            },
            None => above,
        }
    }

    /// Whether the transaction offers less than the block's base fee or, where
    /// it carries blobs, less than the block's blob fee.
    pub open spec fn spec_unpayable(self, attributes: BestTransactionsAttributes) -> bool {
        ||| self.max_fee_per_gas < attributes.basefee
        ||| match (self.max_fee_per_blob_gas, attributes.blob_fee) {
            (Some(fee), Some(blob_fee)) => fee < blob_fee,
            _ => false,
        }
    }

    /// Whether the block's fees are more than the transaction offers.
    pub fn unpayable(&self, attributes: &BestTransactionsAttributes) -> (unpayable: bool)
        ensures
            unpayable == self.spec_unpayable(*attributes),
    {
        if self.max_fee_per_gas < attributes.basefee as u128 {
            return true;
        }
        let blob_fee: u64 = match attributes.blob_fee {
            Some(fee) => fee,
            None => 0,
        };
        match self.max_fee_per_blob_gas {
            Some(fee) => fee < blob_fee as u128,
            None => false,
        }
    }
}

/// `a` comes before `b` in the chain of their sender: by nonce, then by hash.
pub open spec fn chain_before(a: PendingTransaction, b: PendingTransaction) -> bool {
    a.nonce < b.nonce || (a.nonce == b.nonce && bytes_less(a.hash@, b.hash@))
}

fn is_chain_before(a: &PendingTransaction, b: &PendingTransaction) -> (before: bool)
    ensures
        before == chain_before(*a, *b),
{
    a.nonce < b.nonce || (a.nonce == b.nonce && key_less(&a.hash, &b.hash))
}

/// `a` is released before `b` where both are heads of their chains: the higher
/// tip first, then the smaller sender, then the smaller hash.
pub open spec fn ranks_above(basefee: u64, a: PendingTransaction, b: PendingTransaction) -> bool {
    ||| a.spec_tip(basefee) > b.spec_tip(basefee)
    ||| a.spec_tip(basefee) == b.spec_tip(basefee) && {
        ||| bytes_less(a.sender@, b.sender@)
        ||| a.sender == b.sender && bytes_less(a.hash@, b.hash@)
    }
}

fn is_ranked_above(basefee: u64, a: &PendingTransaction, b: &PendingTransaction) -> (above: bool)
    ensures
        above == ranks_above(basefee, *a, *b),
{
    let (ta, tb): (u128, u128) = (a.tip(basefee), b.tip(basefee));
    ta > tb || (ta == tb && (key_less(&a.sender, &b.sender) || (same_key(&a.sender, &b.sender)
        && key_less(&a.hash, &b.hash))))
}

proof fn ranks_above_strict(
    basefee: u64,
    a: PendingTransaction,
    b: PendingTransaction,
    c: PendingTransaction,
)
    ensures
        ranks_above(basefee, a, b) && ranks_above(basefee, b, c) ==> ranks_above(basefee, a, c),
        ranks_above(basefee, a, b) ==> !ranks_above(basefee, b, a),
        a.sender != b.sender ==> ranks_above(basefee, a, b) || ranks_above(basefee, b, a),
{
    bytes_less_strict(a.sender@, b.sender@, c.sender@);
    bytes_less_strict(a.hash@, b.hash@, c.hash@);
    bytes_less_strict(b.sender@, a.sender@, b.sender@);
    bytes_less_strict(b.hash@, a.hash@, b.hash@);
    bytes_less_total(a.sender@, b.sender@);
    if a.sender@ == b.sender@ {
        assert(a.sender =~= b.sender);
    }
}

/// The chain with `tx` put behind everything that does not come after it.
pub open spec fn insert_into_chain(
    chain: Seq<PendingTransaction>,
    tx: PendingTransaction,
) -> Seq<PendingTransaction>
    decreases chain.len(),
{
    if chain.len() > 0 && chain_before(tx, chain.last()) {
        insert_into_chain(chain.drop_last(), tx).push(chain.last())
    } else {
        chain.push(tx)
    }
}

/// The chain of `sender`: its pending transactions in chain order; those that
/// the order does not tell apart stay as the snapshot has them.
pub open spec fn chain_of(pending: Seq<PendingTransaction>, sender: Address) -> Seq<
    PendingTransaction,
>
    decreases pending.len(),
{
    if pending.len() == 0 {
        Seq::empty()
    } else {
        let chain = chain_of(pending.drop_last(), sender);
        if pending.last().sender == sender {
            insert_into_chain(chain, pending.last())
        } else {
            chain
        }
    }
}

/// The position, from `from` on, of the first transaction that cannot pay.
pub open spec fn first_unpayable(
    chain: Seq<PendingTransaction>,
    attributes: BestTransactionsAttributes,
    from: int,
) -> int
    decreases chain.len() - from,
{
    if from < 0 || from >= chain.len() {
        chain.len() as int
    } else if chain[from].spec_unpayable(attributes) {
        from
    } else {
        first_unpayable(chain, attributes, from + 1)
    }
}

/// The part of a chain that the block's fees leave executable.
pub open spec fn executable_prefix(
    chain: Seq<PendingTransaction>,
    attributes: BestTransactionsAttributes,
) -> Seq<PendingTransaction> {
    chain.take(first_unpayable(chain, attributes, 0))
}

/// The executable chain of each sender in the snapshot.
pub open spec fn executable_chains(
    pending: Seq<PendingTransaction>,
    attributes: BestTransactionsAttributes,
) -> Map<Address, Seq<PendingTransaction>> {
    Map::new(
        |sender: Address|
            exists|i: int| 0 <= i < pending.len() && (#[trigger] pending[i]).sender == sender,
        |sender: Address| executable_prefix(chain_of(pending, sender), attributes),
    )
}

/// `sender` has the head that is released next.
pub open spec fn is_best(
    basefee: u64,
    chains: Map<Address, Seq<PendingTransaction>>,
    sender: Address,
) -> bool {
    &&& chains.contains_key(sender)
    &&& chains[sender].len() > 0
    &&& forall|other: Address| #[trigger]
        chains.contains_key(other) && other != sender && chains[other].len() > 0 ==> ranks_above(
            basefee,
            chains[sender][0],
            chains[other][0],
        )
}

/// The sender whose head is released next.
pub open spec fn best_sender(
    basefee: u64,
    chains: Map<Address, Seq<PendingTransaction>>,
) -> Address {
    choose|sender: Address| is_best(basefee, chains, sender)
}

/// How many transactions the chains hold together.
pub open spec fn total(chains: Map<Address, Seq<PendingTransaction>>) -> nat
    decreases chains.dom().len(),
    when chains.dom().finite()
{
    if chains.dom().len() == 0 {
        0
    } else {
        let sender = chains.dom().choose();
        chains[sender].len() + total(chains.remove(sender))
    }
}

/// The chains without the head of `sender`'s.
pub open spec fn release(
    chains: Map<Address, Seq<PendingTransaction>>,
    sender: Address,
) -> Map<Address, Seq<PendingTransaction>> {
    chains.insert(sender, chains[sender].drop_first())
}

/// The first `n` transactions of the merge: again and again the head that
/// ranks above all other heads.
pub open spec fn merge(basefee: u64, chains: Map<Address, Seq<PendingTransaction>>, n: nat) -> Seq<
    PendingTransaction,
>
    decreases n,
{
    if n == 0 {
        Seq::empty()
    } else {
        let sender = best_sender(basefee, chains);
        seq![chains[sender][0]] + merge(basefee, release(chains, sender), (n - 1) as nat)
    }
}

/// The order of the whole snapshot.
pub open spec fn merged_order(
    pending: Seq<PendingTransaction>,
    attributes: BestTransactionsAttributes,
) -> Seq<PendingTransaction> {
    let chains = executable_chains(pending, attributes);
    merge(attributes.basefee, chains, total(chains))
}

proof fn total_remove(chains: Map<Address, Seq<PendingTransaction>>, sender: Address)
    requires
        chains.dom().finite(),
        chains.contains_key(sender),
    ensures
        total(chains) == chains[sender].len() + total(chains.remove(sender)),
    decreases chains.dom().len(),
{
    let first = chains.dom().choose();
    assert(chains.dom().contains(first));
    if first != sender {
        let rest = chains.remove(first);
        total_remove(rest, sender);
        let both = chains.remove(sender);
        total_remove(both, first);
        assert(rest.remove(sender) =~= both.remove(first));
    }
}

proof fn total_release(chains: Map<Address, Seq<PendingTransaction>>, sender: Address)
    requires
        chains.dom().finite(),
        chains.contains_key(sender),
        chains[sender].len() > 0,
    ensures
        release(chains, sender).dom() == chains.dom(),
        total(release(chains, sender)) == total(chains) - 1,
        total(chains) > 0,
{
    let after = release(chains, sender);
    assert(after.dom() =~= chains.dom());
    total_remove(chains, sender);
    total_remove(after, sender);
    assert(after.remove(sender) =~= chains.remove(sender));
}

proof fn total_zero(chains: Map<Address, Seq<PendingTransaction>>)
    requires
        chains.dom().finite(),
        forall|s: Address| #[trigger] chains.contains_key(s) ==> chains[s].len() == 0,
    ensures
        total(chains) == 0,
    decreases chains.dom().len(),
{
    if chains.dom().len() > 0 {
        let first = chains.dom().choose();
        assert(chains.contains_key(first));
        let rest = chains.remove(first);
        assert forall|s: Address| #[trigger] rest.contains_key(s) implies rest[s].len() == 0 by {
            assert(chains.contains_key(s));
        }
        total_zero(rest);
    }
}

/// Every transaction stands in the chain of its own sender.
pub open spec fn chains_own(chains: Map<Address, Seq<PendingTransaction>>) -> bool {
    forall|s: Address, k: int|
        chains.contains_key(s) && 0 <= k < chains[s].len() ==> (#[trigger] chains[s][k]).sender == s
}

proof fn best_is_unique(
    basefee: u64,
    chains: Map<Address, Seq<PendingTransaction>>,
    sender: Address,
)
    requires
        chains_own(chains),
        is_best(basefee, chains, sender),
    ensures
        best_sender(basefee, chains) == sender,
{
    let chosen = best_sender(basefee, chains);
    assert(is_best(basefee, chains, chosen));
    if chosen != sender {
        assert(chains.contains_key(chosen) && chains.contains_key(sender));
        ranks_above_strict(basefee, chains[sender][0], chains[chosen][0], chains[sender][0]);
    }
}

/// With the same tip, the next transaction of the sender just released still
/// ranks above all other heads.
proof fn equal_tip_stays_best(
    basefee: u64,
    chains: Map<Address, Seq<PendingTransaction>>,
    sender: Address,
)
    requires
        chains_own(chains),
        is_best(basefee, chains, sender),
        chains[sender].len() > 1,
        chains[sender][1].spec_tip(basefee) == chains[sender][0].spec_tip(basefee),
    ensures
        is_best(basefee, release(chains, sender), sender),
{
    let after = release(chains, sender);
    assert(after[sender][0] == chains[sender][1]);
    assert forall|other: Address| #[trigger]
        after.contains_key(other) && other != sender && after[other].len() > 0 implies ranks_above(
        basefee,
        after[sender][0],
        after[other][0],
    ) by {
        assert(chains.contains_key(other) && chains[other] == after[other]);
        assert(chains[other][0].sender == other);
        assert(chains[sender][0].sender == sender);
        assert(chains[sender][1].sender == sender);
    }
}

proof fn release_owns(chains: Map<Address, Seq<PendingTransaction>>, sender: Address)
    requires
        chains_own(chains),
        chains.contains_key(sender),
        chains[sender].len() > 0,
    ensures
        chains_own(release(chains, sender)),
{
    let after = release(chains, sender);
    assert forall|s: Address, k: int|
        after.contains_key(s) && 0 <= k < after[s].len() implies (#[trigger] after[s][k]).sender
        == s by {
        if s == sender {
            assert(after[s][k] == chains[s][k + 1]);
        } else {
            assert(after[s][k] == chains[s][k]);
        }
    }
}

/// A position in `chain` behind everything that does not come after `tx`.
proof fn insert_at_position(chain: Seq<PendingTransaction>, tx: PendingTransaction, p: int)
    requires
        0 <= p <= chain.len(),
        p > 0 ==> !chain_before(tx, chain[p - 1]),
        forall|i: int| p <= i < chain.len() ==> chain_before(tx, #[trigger] chain[i]),
    ensures
        insert_into_chain(chain, tx) == chain.insert(p, tx),
    decreases chain.len(),
{
    if p < chain.len() {
        let shorter = chain.drop_last();
        assert(chain_before(tx, chain[chain.len() - 1]));
        insert_at_position(shorter, tx, p);
        assert(shorter.insert(p, tx).push(chain.last()) =~= chain.insert(p, tx));
    } else {
        assert(chain.push(tx) =~= chain.insert(p, tx));
    }
}

/// One chain per sender, with how much of it has been released.
struct SenderChain {
    sender: Address,
    txs: Vec<PendingTransaction>,
    next: usize,
}

spec fn distinct_senders(chains: Seq<SenderChain>) -> bool {
    forall|i: int, j: int|
        0 <= i < chains.len() && 0 <= j < chains.len() && i != j ==> (#[trigger] chains[i]).sender
            != (#[trigger] chains[j]).sender
}

spec fn is_grouped(chains: Seq<SenderChain>, pending: Seq<PendingTransaction>) -> bool {
    &&& distinct_senders(chains)
    &&& forall|i: int|
        0 <= i < chains.len() ==> (#[trigger] chains[i]).next == 0 && chains[i].txs@ == chain_of(
            pending,
            chains[i].sender,
        ) && occurs(pending, chains[i].sender)
    &&& forall|k: int|
        0 <= k < pending.len() ==> has_chain(chains, (#[trigger] pending[k]).sender)
}

spec fn occurs(pending: Seq<PendingTransaction>, sender: Address) -> bool {
    exists|i: int| 0 <= i < pending.len() && (#[trigger] pending[i]).sender == sender
}

spec fn has_chain(chains: Seq<SenderChain>, sender: Address) -> bool {
    exists|i: int| 0 <= i < chains.len() && (#[trigger] chains[i]).sender == sender
}

proof fn chain_of_absent(pending: Seq<PendingTransaction>, sender: Address)
    requires
        !occurs(pending, sender),
    ensures
        chain_of(pending, sender) == Seq::<PendingTransaction>::empty(),
    decreases pending.len(),
{
    if pending.len() > 0 {
        let shorter = pending.drop_last();
        assert(pending[pending.len() - 1].sender != sender);
        if occurs(shorter, sender) {
            let i = choose|i: int|
                0 <= i < shorter.len() && (#[trigger] shorter[i]).sender == sender;
            assert(pending[i].sender == sender);
        }
        chain_of_absent(shorter, sender);
    }
}

/// The chains' unreleased parts, by sender.
spec fn unreleased(chains: Seq<SenderChain>, m: Map<Address, Seq<PendingTransaction>>) -> bool {
    &&& distinct_senders(chains)
    &&& forall|i: int|
        0 <= i < chains.len() ==> m.contains_key((#[trigger] chains[i]).sender) && chains[i].next
            <= chains[i].txs@.len() && m[chains[i].sender] == chains[i].txs@.skip(
            chains[i].next as int,
        )
    &&& forall|s: Address| #[trigger] m.contains_key(s) ==> has_chain(chains, s)
}

fn group_by_sender(pending: &Vec<PendingTransaction>) -> (chains: Vec<SenderChain>)
    ensures
        is_grouped(chains@, pending@),
{
    let mut chains: Vec<SenderChain> = Vec::new();
    let mut k: usize = 0;
    assert(is_grouped(chains@, pending@.take(0)));
    while k < pending.len()
        invariant
            k <= pending@.len(),
            is_grouped(chains@, pending@.take(k as int)),
        decreases pending@.len() - k,
    {
        let tx = pending[k];
        let ghost before = pending@.take(k as int);
        let ghost after = pending@.take(k + 1);
        proof {
            assert(after.drop_last() =~= before);
            assert(after.last() == tx);
        }
        let mut c: usize = 0;
        while c < chains.len() && !same_key(&chains[c].sender, &tx.sender)
            invariant
                c <= chains@.len(),
                forall|j: int| 0 <= j < c ==> (#[trigger] chains@[j]).sender != tx.sender,
            decreases chains@.len() - c,
        {
            c += 1;
        }
        let ghost old_chains = chains@;
        if c < chains.len() {
            let mut p: usize = chains[c].txs.len();
            while p > 0 && is_chain_before(&tx, &chains[c].txs[p - 1])
                invariant
                    c < chains@.len(),
                    p <= chains@[c as int].txs@.len(),
                    forall|i: int|
                        p <= i < chains@[c as int].txs@.len() ==> chain_before(
                            tx,
                            #[trigger] chains@[c as int].txs@[i],
                        ),
                decreases p,
            {
                p -= 1;
            }
            proof {
                insert_at_position(chains@[c as int].txs@, tx, p as int);
            }
            chains[c].txs.insert(p, tx);
            assert(chains@[c as int].txs@ == chain_of(after, tx.sender));
        } else {
            proof {
                if occurs(before, tx.sender) {
                    let i = choose|i: int|
                        0 <= i < before.len() && (#[trigger] before[i]).sender == tx.sender;
                    assert(has_chain(chains@, before[i].sender));
                }
                chain_of_absent(before, tx.sender);
            }
            let mut txs: Vec<PendingTransaction> = Vec::new();
            txs.push(tx);
            assert(txs@ =~= chain_of(after, tx.sender));
            chains.push(SenderChain { sender: tx.sender, txs, next: 0 });
        }
        proof {
            assert forall|i: int| 0 <= i < chains@.len() implies (#[trigger] chains@[i]).next == 0
                && chains@[i].txs@ == chain_of(after, chains@[i].sender) && occurs(
                after,
                chains@[i].sender,
            ) by {
                if i == c {
                    assert(after[k as int].sender == chains@[i].sender);
                } else {
                    assert(chains@[i] == old_chains[i]);
                    assert(occurs(before, chains@[i].sender));
                    let j = choose|j: int|
                        0 <= j < before.len() && (#[trigger] before[j]).sender == chains@[i].sender;
                    assert(after[j].sender == chains@[i].sender);
                }
            }
            assert forall|q: int| 0 <= q < after.len() implies has_chain(
                chains@,
                (#[trigger] after[q]).sender,
            ) by {
                if q < k {
                    assert(has_chain(old_chains, before[q].sender));
                    let j = choose|j: int|
                        0 <= j < old_chains.len() && (#[trigger] old_chains[j]).sender
                            == before[q].sender;
                    assert(chains@[j].sender == after[q].sender);
                } else {
                    assert(chains@[c as int].sender == tx.sender);
                }
            }
        }
        k += 1;
    }
    assert(pending@.take(k as int) =~= pending@);
    chains
}

proof fn first_unpayable_bounds(
    chain: Seq<PendingTransaction>,
    attributes: BestTransactionsAttributes,
    from: int,
)
    requires
        0 <= from <= chain.len(),
    ensures
        from <= first_unpayable(chain, attributes, from) <= chain.len(),
    decreases chain.len() - from,
{
    if from < chain.len() && !chain[from].spec_unpayable(attributes) {
        first_unpayable_bounds(chain, attributes, from + 1);
    }
}

proof fn first_unpayable_skips(
    chain: Seq<PendingTransaction>,
    attributes: BestTransactionsAttributes,
    at: int,
)
    requires
        0 <= at <= chain.len(),
        forall|i: int| 0 <= i < at ==> !(#[trigger] chain[i]).spec_unpayable(attributes),
    ensures
        first_unpayable(chain, attributes, 0) == first_unpayable(chain, attributes, at),
    decreases at,
{
    if at > 0 {
        first_unpayable_skips(chain, attributes, at - 1);
        assert(!chain[at - 1].spec_unpayable(attributes));
    }
}

fn cut_unpayable(chain: &mut SenderChain, attributes: &BestTransactionsAttributes)
    ensures
        final(chain).sender == old(chain).sender,
        final(chain).next == old(chain).next,
        final(chain).txs@ == executable_prefix(old(chain).txs@, *attributes),
{
    let mut n: usize = 0;
    while n < chain.txs.len() && !chain.txs[n].unpayable(attributes)
        invariant
            n <= chain.txs@.len(),
            forall|i: int| 0 <= i < n ==> !(#[trigger] chain.txs@[i]).spec_unpayable(*attributes),
        decreases chain.txs@.len() - n,
    {
        n += 1;
    }
    proof {
        first_unpayable_skips(chain.txs@, *attributes, n as int);
    }
    chain.txs.truncate(n);
}

/// Finds the chain whose head is released next.
fn best_chain(
    basefee: u64,
    chains: &Vec<SenderChain>,
    Ghost(m): Ghost<Map<Address, Seq<PendingTransaction>>>,
) -> (best: Option<usize>)
    requires
        unreleased(chains@, m),
        chains_own(m),
    ensures
        match best {
            Some(b) => b < chains@.len() && is_best(basefee, m, chains@[b as int].sender),
            None => forall|s: Address| #[trigger] m.contains_key(s) ==> m[s].len() == 0,
        },
{
    let mut best: Option<usize> = None;
    let mut i: usize = 0;
    while i < chains.len()
        invariant
            unreleased(chains@, m),
            chains_own(m),
            i <= chains@.len(),
            match best {
                Some(b) => b < i && m[chains@[b as int].sender].len() > 0 && forall|j: int|
                    0 <= j < i && j != b && m[(#[trigger] chains@[j]).sender].len() > 0
                        ==> ranks_above(
                        basefee,
                        m[chains@[b as int].sender][0],
                        m[chains@[j].sender][0],
                    ),
                None => forall|j: int|
                    0 <= j < i ==> m[(#[trigger] chains@[j]).sender].len() == 0,
            },
        decreases chains@.len() - i,
    {
        if chains[i].next < chains[i].txs.len() {
            let head = &chains[i].txs[chains[i].next];
            assert(m[chains@[i as int].sender][0] == *head);
            match best {
                Some(b) => {
                    let leader = &chains[b].txs[chains[b].next];
                    assert(m[chains@[b as int].sender][0] == *leader);
                    let above = is_ranked_above(basefee, head, leader);
                    proof {
                        ranks_above_strict(basefee, *head, *leader, *head);
                        assert(head.sender != leader.sender);
                        assert forall|j: int|
                            0 <= j < i && j != b && m[(#[trigger] chains@[j]).sender].len()
                                > 0 implies ranks_above(basefee, *leader, m[chains@[j].sender][0]) && (above
                            ==> ranks_above(basefee, *head, m[chains@[j].sender][0])) by {
                            ranks_above_strict(basefee, *head, *leader, m[chains@[j].sender][0]);
                        }
                    }
                    if above {
                        best = Some(i);
                    }
                },
                None => {
                    best = Some(i);
                },
            }
        }
        i += 1;
    }
    proof {
        match best {
            Some(b) => {
                let sender = chains@[b as int].sender;
                assert forall|other: Address| #[trigger]
                    m.contains_key(other) && other != sender && m[other].len()
                        > 0 implies ranks_above(basefee, m[sender][0], m[other][0]) by {
                    assert(has_chain(chains@, other));
                }
            },
            None => {
                assert forall|s: Address| #[trigger] m.contains_key(s) implies m[s].len() == 0 by {
                    assert(has_chain(chains@, s));
                }
            },
        }
    }
    best
}

proof fn chains_are_finite(chains: Seq<SenderChain>, m: Map<Address, Seq<PendingTransaction>>)
    requires
        unreleased(chains, m),
    ensures
        m.dom().finite(),
{
    let senders = chains.map_values(|c: SenderChain| c.sender);
    assert(m.dom() =~= m.dom().intersect(senders.to_set())) by {
        assert forall|s: Address| m.dom().contains(s) implies senders.to_set().contains(s) by {
            assert(m.contains_key(s));
            assert(has_chain(chains, s));
            let i = choose|i: int| 0 <= i < chains.len() && (#[trigger] chains[i]).sender == s;
            assert(senders[i] == s);
        }
    }
    vstd::seq_lib::seq_to_set_is_finite(senders);
    vstd::set::axiom_set_intersect_finite::<Address>(m.dom(), senders.to_set());
}

/// Releasing the head of chain `c` releases it from the map of its view.
proof fn released_one(
    before: Seq<SenderChain>,
    after: Seq<SenderChain>,
    c: int,
    m: Map<Address, Seq<PendingTransaction>>,
)
    requires
        unreleased(before, m),
        0 <= c < before.len(),
        before[c].next < before[c].txs@.len(),
        after.len() == before.len(),
        after[c].sender == before[c].sender,
        after[c].txs@ == before[c].txs@,
        after[c].next == before[c].next + 1,
        forall|i: int| 0 <= i < before.len() && i != c ==> #[trigger] after[i] == before[i],
    ensures
        unreleased(after, release(m, before[c].sender)),
{
    let sender = before[c].sender;
    let m2 = release(m, sender);
    assert forall|i: int| 0 <= i < after.len() implies m2.contains_key((#[trigger] after[i]).sender)
        && after[i].next <= after[i].txs@.len() && m2[after[i].sender] == after[i].txs@.skip(
        after[i].next as int,
    ) by {
        assert(before[i].sender == after[i].sender);
        if i == c {
            assert(before[c].txs@.skip(before[c].next as int).drop_first() =~= before[c].txs@.skip(
                before[c].next + 1,
            ));
        }
    }
    assert forall|s: Address| #[trigger] m2.contains_key(s) implies has_chain(after, s) by {
        assert(m.contains_key(s));
        assert(has_chain(before, s));
        let i = choose|i: int| 0 <= i < before.len() && (#[trigger] before[i]).sender == s;
        assert(after[i].sender == s);
    }
    assert forall|i: int, j: int| 0 <= i < after.len() && 0 <= j < after.len() && i != j implies (
    #[trigger] after[i]).sender != (#[trigger] after[j]).sender by {
        assert(before[i].sender == after[i].sender && before[j].sender == after[j].sender);
    }
}

/// Releases the heads of the chains one after the other, the highest ranked
/// first. Where the next transaction of the same sender offers the same tip it
/// is released without looking at the other chains again.
fn merge_chains(
    basefee: u64,
    chains: &mut Vec<SenderChain>,
    Ghost(m0): Ghost<Map<Address, Seq<PendingTransaction>>>,
) -> (ordered: std::collections::VecDeque<PendingTransaction>)
    requires
        unreleased(old(chains)@, m0),
        chains_own(m0),
    ensures
        ordered@ == merge(basefee, m0, total(m0)),
{
    let mut ordered: std::collections::VecDeque<PendingTransaction> =
        std::collections::VecDeque::new();
    let ghost mut m = m0;
    proof {
        chains_are_finite(chains@, m);
        assert(ordered@ + merge(basefee, m, total(m)) =~= merge(basefee, m0, total(m0)));
    }
    loop
        invariant
            unreleased(chains@, m),
            chains_own(m),
            m.dom().finite(),
            ordered@ + merge(basefee, m, total(m)) == merge(basefee, m0, total(m0)),
        ensures
            ordered@ == merge(basefee, m0, total(m0)),
        decreases total(m),
    {
        match best_chain(basefee, chains, Ghost(m)) {
            None => {
                proof {
                    total_zero(m);
                    assert(ordered@ + merge(basefee, m, total(m)) =~= ordered@);
                }
                break;
            },
            Some(c) => {
                let ghost sender = chains@[c as int].sender;
                let ghost run_start = total(m);
                let selected_tip: u128 = chains[c].txs[chains[c].next].tip(basefee);
                let mut go_on: bool = true;
                while go_on
                    invariant
                        unreleased(chains@, m),
                        chains_own(m),
                        m.dom().finite(),
                        c < chains@.len(),
                        chains@[c as int].sender == sender,
                        go_on ==> is_best(basefee, m, sender),
                        go_on ==> m[sender][0].spec_tip(basefee) == selected_tip,
                        go_on ==> total(m) <= run_start,
                        !go_on ==> total(m) < run_start,
                        ordered@ + merge(basefee, m, total(m)) == merge(basefee, m0, total(m0)),
                    decreases total(m),
                {
                    let at: usize = chains[c].next;
                    let count: usize = chains[c].txs.len();
                    let tx = chains[c].txs[at];
                    let ghost before = chains@;
                    let ghost out = ordered@;
                    chains[c].next = at + 1;
                    ordered.push_back(tx);
                    proof {
                        best_is_unique(basefee, m, sender);
                        total_release(m, sender);
                        release_owns(m, sender);
                        released_one(before, chains@, c as int, m);
                        let m2 = release(m, sender);
                        assert(m[sender][0] == tx);
                        assert(merge(basefee, m, total(m)) == seq![tx] + merge(
                            basefee,
                            m2,
                            total(m2),
                        ));
                        assert(out.push(tx) + merge(basefee, m2, total(m2)) =~= out + (seq![tx] + merge(
                            basefee,
                            m2,
                            total(m2),
                        )));
                    }
                    if at + 1 < count {
                        let next_tip: u128 = chains[c].txs[chains[c].next].tip(basefee);
                        if next_tip == selected_tip {
                            proof {
                                assert(m[sender][1] == chains@[c as int].txs@[at + 1]);
                                equal_tip_stays_best(basefee, m, sender);
                            }
                        } else {
                            go_on = false;
                        }
                    } else {
                        go_on = false;
                    }
                    proof {
                        m = release(m, sender);
                    }
                }
            },
        }
    }
    ordered
}

/// The merged snapshot: transactions are handed out in order, except those of
/// senders that were found invalid in the meantime.
pub struct SenderShardedTransactions {
    ordered: std::collections::VecDeque<PendingTransaction>,
    invalid_senders: ByteSet<20>,
    skip_blobs: bool,
}

/// What is still to be handed out: in order, without invalid senders. Where
/// blobs are skipped, a blob transaction makes its sender invalid.
pub open spec fn handed_out(
    ordered: Seq<PendingTransaction>,
    invalid: Set<Address>,
    skip_blobs: bool,
) -> Seq<PendingTransaction>
    decreases ordered.len(),
{
    if ordered.len() == 0 {
        Seq::empty()
    } else {
        let tx = ordered[0];
        let rest = ordered.drop_first();
        if invalid.contains(tx.sender) {
            handed_out(rest, invalid, skip_blobs)
        } else if skip_blobs && tx.is_eip4844 {
            handed_out(rest, invalid.insert(tx.sender), skip_blobs)
        } else {
            seq![tx] + handed_out(rest, invalid, skip_blobs)
        }
    }
}

/// Sorts a snapshot of the pool into the order in which its transactions are
/// handed out.
pub fn sender_sharded_transactions(
    pending: Vec<PendingTransaction>,
    attributes: BestTransactionsAttributes,
) -> (merged: SenderShardedTransactions)
    ensures
        merged.wf(),
        merged.ordered() == merged_order(pending@, attributes),
        merged.invalid_senders() == Set::<Address>::empty(),
        !merged.skips_blobs(),
{
    let mut chains = group_by_sender(&pending);
    let ghost grouped = chains@;
    let mut i: usize = 0;
    while i < chains.len()
        invariant
            i <= chains@.len(),
            is_grouped(grouped, pending@),
            chains@.len() == grouped.len(),
            forall|j: int|
                0 <= j < chains@.len() ==> (#[trigger] chains@[j]).sender == grouped[j].sender
                    && chains@[j].next == 0,
            forall|j: int|
                0 <= j < i ==> (#[trigger] chains@[j]).txs@ == executable_prefix(
                    grouped[j].txs@,
                    attributes,
                ),
            forall|j: int| i <= j < chains@.len() ==> #[trigger] chains@[j] == grouped[j],
        decreases chains@.len() - i,
    {
        cut_unpayable(&mut chains[i], &attributes);
        i += 1;
    }
    let ghost m = executable_chains(pending@, attributes);
    proof {
        assert forall|j: int| 0 <= j < chains@.len() implies m.contains_key(
            (#[trigger] chains@[j]).sender,
        ) && chains@[j].next <= chains@[j].txs@.len() && m[chains@[j].sender] == chains@[j].txs@.skip(
            chains@[j].next as int,
        ) by {
            assert(occurs(pending@, grouped[j].sender));
            assert(chains@[j].txs@.skip(0) =~= chains@[j].txs@);
        }
        assert forall|s: Address| #[trigger] m.contains_key(s) implies has_chain(chains@, s) by {
            let k = choose|k: int|
                0 <= k < pending@.len() && (#[trigger] pending@[k]).sender == s;
            assert(has_chain(grouped, pending@[k].sender));
            let j = choose|j: int| 0 <= j < grouped.len() && (#[trigger] grouped[j]).sender == s;
            assert(chains@[j].sender == s);
        }
        executable_chains_own(pending@, attributes);
        assert forall|a: int, b: int|
            0 <= a < chains@.len() && 0 <= b < chains@.len() && a != b implies (
        #[trigger] chains@[a]).sender != (#[trigger] chains@[b]).sender by {
            assert(grouped[a].sender != grouped[b].sender);
        }
    }
    let ordered = merge_chains(attributes.basefee, &mut chains, Ghost(m));
    SenderShardedTransactions { ordered, invalid_senders: ByteSet::new(), skip_blobs: false }
}

/// Hands out transactions in the order in which they are listed.
pub fn listed_transactions(listed: Vec<PendingTransaction>) -> (merged: SenderShardedTransactions)
    ensures
        merged.wf(),
        merged.ordered() == listed@,
        merged.invalid_senders() == Set::<Address>::empty(),
        !merged.skips_blobs(),
{
    let mut ordered: std::collections::VecDeque<PendingTransaction> =
        std::collections::VecDeque::new();
    let mut i: usize = 0;
    while i < listed.len()
        invariant
            i <= listed@.len(),
            ordered@ == listed@.take(i as int),
        decreases listed@.len() - i,
    {
        ordered.push_back(listed[i]);
        assert(listed@.take(i as int).push(listed@[i as int]) =~= listed@.take(i + 1));
        i += 1;
    }
    assert(listed@.take(i as int) =~= listed@);
    SenderShardedTransactions { ordered, invalid_senders: ByteSet::new(), skip_blobs: false }
}

/// Transactions for a block, handed out one after the other in an order of some
/// kind. A sender whose transaction turned out invalid is passed over from then
/// on.
pub trait BestTransactions: Sized {
    /// The order is in a state in which it can be walked.
    spec fn walkable(&self) -> bool;

    /// What further calls of `next` hand out, where blob transactions are passed
    /// over or not.
    spec fn upcoming(&self, skip_blobs: bool) -> Seq<PendingTransaction>;

    /// Blob transactions are passed over.
    spec fn passes_over_blobs(&self) -> bool;

    /// Hands out the next transaction.
    fn next(&mut self) -> (tx: Option<PendingTransaction>)
        requires
            old(self).walkable(),
        ensures
            final(self).walkable(),
            final(self).passes_over_blobs() == old(self).passes_over_blobs(),
            ({
                let skips = old(self).passes_over_blobs();
                match tx {
                    Some(t) => old(self).upcoming(skips).len() > 0 && t == old(self).upcoming(
                        skips,
                    )[0] && final(self).upcoming(skips) == old(self).upcoming(skips).drop_first(),
                    None => old(self).upcoming(skips).len() == 0,
                }
            }),
    ;

    /// Passes over everything that is left of the sender of `tx`.
    fn mark_invalid(&mut self, tx: &PendingTransaction)
        requires
            old(self).walkable(),
        ensures
            final(self).walkable(),
            final(self).passes_over_blobs() == old(self).passes_over_blobs(),
            forall|skip_blobs: bool| #[trigger]
                final(self).upcoming(skip_blobs) == old(self).upcoming(skip_blobs).filter(
                    |other: PendingTransaction| other.sender != tx.sender,
                ),
    ;

    /// Hands out nothing that comes later than now.
    fn no_updates(&mut self)
        requires
            old(self).walkable(),
        ensures
            final(self).walkable(),
            final(self).passes_over_blobs() == old(self).passes_over_blobs(),
            forall|skip_blobs: bool| #[trigger]
                final(self).upcoming(skip_blobs) == old(self).upcoming(skip_blobs),
    ;

    /// Sets whether blob transactions are passed over.
    fn set_skip_blobs(&mut self, skip_blobs: bool)
        requires
            old(self).walkable(),
        ensures
            final(self).walkable(),
            final(self).passes_over_blobs() == skip_blobs,
            forall|skips: bool| #[trigger]
                final(self).upcoming(skips) == old(self).upcoming(skips),
    ;
}

impl BestTransactions for SenderShardedTransactions {
    open spec fn walkable(&self) -> bool {
        self.wf()
    }

    open spec fn upcoming(&self, skip_blobs: bool) -> Seq<PendingTransaction> {
        handed_out(self.ordered(), self.invalid_senders(), skip_blobs)
    }

    open spec fn passes_over_blobs(&self) -> bool {
        self.skips_blobs()
    }

    fn next(&mut self) -> (tx: Option<PendingTransaction>) {
        SenderShardedTransactions::next(self)
    }

    fn mark_invalid(&mut self, tx: &PendingTransaction) {
        proof {
            assert forall|skip_blobs: bool| #[trigger]
                handed_out(
                    self.ordered(),
                    self.invalid_senders().insert(tx.sender),
                    skip_blobs,
                ) == handed_out(self.ordered(), self.invalid_senders(), skip_blobs).filter(
                    |other: PendingTransaction| other.sender != tx.sender,
                ) by {
                invalid_sender_is_suppressed(
                    self.ordered(),
                    self.invalid_senders(),
                    skip_blobs,
                    tx.sender,
                );
            }
        }
        SenderShardedTransactions::mark_invalid(self, tx);
    }

    fn no_updates(&mut self) {
        SenderShardedTransactions::no_updates(self);
    }

    fn set_skip_blobs(&mut self, skip_blobs: bool) {
        SenderShardedTransactions::set_skip_blobs(self, skip_blobs);
    }
}

proof fn chain_of_owns(pending: Seq<PendingTransaction>, sender: Address)
    ensures
        forall|k: int|
            0 <= k < chain_of(pending, sender).len() ==> (#[trigger] chain_of(
                pending,
                sender,
            )[k]).sender == sender,
    decreases pending.len(),
{
    if pending.len() > 0 {
        chain_of_owns(pending.drop_last(), sender);
        if pending.last().sender == sender {
            insert_keeps_sender(chain_of(pending.drop_last(), sender), pending.last());
        }
    }
}

proof fn insert_keeps_sender(chain: Seq<PendingTransaction>, tx: PendingTransaction)
    requires
        forall|k: int| 0 <= k < chain.len() ==> (#[trigger] chain[k]).sender == tx.sender,
    ensures
        forall|k: int|
            0 <= k < insert_into_chain(chain, tx).len() ==> (#[trigger] insert_into_chain(
                chain,
                tx,
            )[k]).sender == tx.sender,
    decreases chain.len(),
{
    if chain.len() > 0 && chain_before(tx, chain.last()) {
        insert_keeps_sender(chain.drop_last(), tx);
    }
}

proof fn executable_chains_own(
    pending: Seq<PendingTransaction>,
    attributes: BestTransactionsAttributes,
)
    ensures
        chains_own(executable_chains(pending, attributes)),
{
    let m = executable_chains(pending, attributes);
    assert forall|s: Address, k: int| m.contains_key(s) && 0 <= k < m[s].len() implies (
    #[trigger] m[s][k]).sender == s by {
        chain_of_owns(pending, s);
        first_unpayable_bounds(chain_of(pending, s), attributes, 0);
        assert(m[s][k] == chain_of(pending, s)[k]);
    }
}

impl SenderShardedTransactions {
    /// The set of invalid senders is kept without repetition.
    pub closed spec fn wf(self) -> bool {
        self.invalid_senders.wf()
    }

    /// The transactions that have not been looked at yet.
    pub closed spec fn ordered(self) -> Seq<PendingTransaction> {
        self.ordered@
    }

    /// The senders whose transactions are passed over.
    pub closed spec fn invalid_senders(self) -> Set<Address> {
        self.invalid_senders@
    }

    /// Whether blob transactions are passed over.
    pub closed spec fn skips_blobs(self) -> bool {
        self.skip_blobs
    }

    /// What further calls of `next` hand out.
    pub open spec fn remaining(self) -> Seq<PendingTransaction> {
        handed_out(self.ordered(), self.invalid_senders(), self.skips_blobs())
    }

    /// Hands out the next transaction.
    pub fn next(&mut self) -> (tx: Option<PendingTransaction>)
        requires
            old(self).wf(),
        ensures
            final(self).wf(),
            final(self).skips_blobs() == old(self).skips_blobs(),
            match tx {
                Some(t) => old(self).remaining().len() > 0 && t == old(self).remaining()[0]
                    && final(self).remaining() == old(self).remaining().drop_first()
                    && !final(self).invalid_senders().contains(t.sender),
                None => old(self).remaining().len() == 0 && final(self).ordered().len() == 0,
            },
            tx is Some ==> final(self).ordered().len() < old(self).ordered().len(),
            old(self).invalid_senders().subset_of(final(self).invalid_senders()),
            !old(self).skips_blobs() ==> final(self).invalid_senders() == old(
                self,
            ).invalid_senders(),
    {
        loop
            invariant
                self.wf(),
                self.skips_blobs() == old(self).skips_blobs(),
                self.remaining() == old(self).remaining(),
                self.ordered().len() <= old(self).ordered().len(),
                old(self).invalid_senders().subset_of(self.invalid_senders()),
                !old(self).skips_blobs() ==> self.invalid_senders() == old(self).invalid_senders(),
            decreases self.ordered@.len(),
        {
            let ghost before = self.ordered@;
            match self.ordered.pop_front() {
                None => {
                    return None;
                },
                Some(tx) => {
                    assert(before.drop_first() =~= self.ordered@);
                    if self.invalid_senders.contains(&tx.sender) {
                        continue;
                    }
                    if self.skip_blobs && tx.is_eip4844 {
                        self.invalid_senders.insert(tx.sender);
                        continue;
                    }
                    assert(old(self).remaining().drop_first() =~= self.remaining());
                    return Some(tx);
                },
            }
        }
    }

    /// The least and the most that can still be handed out.
    pub fn size_hint(&self) -> (hint: (usize, Option<usize>))
        ensures
            hint == (0usize, Some(self.ordered().len() as usize)),
            self.ordered().len() <= usize::MAX,
    {
        (0, Some(self.ordered.len()))
    }

    /// Passes over everything that is left of the sender of `tx`.
    pub fn mark_invalid(&mut self, tx: &PendingTransaction)
        requires
            old(self).wf(),
        ensures
            final(self).wf(),
            final(self).ordered() == old(self).ordered(),
            final(self).skips_blobs() == old(self).skips_blobs(),
            final(self).invalid_senders() == old(self).invalid_senders().insert(tx.sender),
    {
        self.invalid_senders.insert(tx.sender);
    }

    /// The order is a snapshot: there is nothing to switch off.
    pub fn no_updates(&mut self)
        ensures
            *final(self) == *old(self),
    {
    }

    /// Sets whether blob transactions are passed over.
    pub fn set_skip_blobs(&mut self, skip_blobs: bool)
        requires
            old(self).wf(),
        ensures
            final(self).wf(),
            final(self).ordered() == old(self).ordered(),
            final(self).invalid_senders() == old(self).invalid_senders(),
            final(self).skips_blobs() == skip_blobs,
    {
        self.skip_blobs = skip_blobs;
    }
}

proof fn best_exists(basefee: u64, chains: Map<Address, Seq<PendingTransaction>>)
    requires
        chains_own(chains),
        chains.dom().finite(),
        total(chains) > 0,
    ensures
        exists|s: Address| is_best(basefee, chains, s),
    decreases chains.dom().len(),
{
    let first = chains.dom().choose();
    assert(chains.contains_key(first));
    let rest = chains.remove(first);
    total_remove(chains, first);
    assert forall|s: Address, k: int| rest.contains_key(s) && 0 <= k < rest[s].len() implies (
    #[trigger] rest[s][k]).sender == s by {
        assert(rest[s][k] == chains[s][k]);
    }
    if total(rest) == 0 {
        assert forall|other: Address| #[trigger] rest.contains_key(other) implies rest[other].len()
            == 0 by {
            total_remove(rest, other);
        }
        assert forall|other: Address| #[trigger]
            chains.contains_key(other) && other != first && chains[other].len()
                > 0 implies ranks_above(basefee, chains[first][0], chains[other][0]) by {
            assert(rest.contains_key(other));
        }
        assert(is_best(basefee, chains, first));
    } else {
        best_exists(basefee, rest);
        let leader = choose|s: Address| is_best(basefee, rest, s);
        assert(rest.contains_key(leader) && chains.contains_key(leader));
        if chains[first].len() > 0 {
            let a = chains[first][0];
            let b = chains[leader][0];
            assert(a.sender == first && b.sender == leader);
            ranks_above_strict(basefee, a, b, a);
            if ranks_above(basefee, a, b) {
                assert forall|other: Address| #[trigger]
                    chains.contains_key(other) && other != first && chains[other].len()
                        > 0 implies ranks_above(basefee, a, chains[other][0]) by {
                    assert(rest.contains_key(other));
                    if other != leader {
                        ranks_above_strict(basefee, a, b, chains[other][0]);
                    }
                }
                assert(is_best(basefee, chains, first));
            } else {
                assert forall|other: Address| #[trigger]
                    chains.contains_key(other) && other != leader && chains[other].len()
                        > 0 implies ranks_above(basefee, b, chains[other][0]) by {
                    if other != first {
                        assert(rest.contains_key(other));
                    }
                }
                assert(is_best(basefee, chains, leader));
            }
        } else {
            assert forall|other: Address| #[trigger]
                chains.contains_key(other) && other != leader && chains[other].len()
                    > 0 implies ranks_above(basefee, chains[leader][0], chains[other][0]) by {
                assert(other != first);
                assert(rest.contains_key(other));
            }
            assert(is_best(basefee, chains, leader));
        }
    }
}

/// The transactions of one sender.
pub open spec fn sent_by(sender: Address) -> spec_fn(PendingTransaction) -> bool {
    |tx: PendingTransaction| tx.sender == sender
}

proof fn filter_one(tx: PendingTransaction, pred: spec_fn(PendingTransaction) -> bool)
    ensures
        seq![tx].filter(pred) == if pred(tx) {
            seq![tx]
        } else {
            Seq::empty()
        },
{
    reveal_with_fuel(Seq::filter, 2);
    let one = seq![tx];
    assert(one.drop_last() =~= Seq::empty());
    assert(one.last() == tx);
    assert(Seq::<PendingTransaction>::empty().push(tx) =~= one);
}

proof fn merge_keeps_chain(
    basefee: u64,
    chains: Map<Address, Seq<PendingTransaction>>,
    n: nat,
    sender: Address,
)
    requires
        chains_own(chains),
        chains.dom().finite(),
        n == total(chains),
    ensures
        merge(basefee, chains, n).filter(sent_by(sender)) == if chains.contains_key(sender) {
            chains[sender]
        } else {
            Seq::empty()
        },
    decreases n,
{
    if n == 0 {
        assert(Seq::<PendingTransaction>::empty().filter(sent_by(sender)) =~= Seq::empty()) by {
            reveal(Seq::filter);
        }
        if chains.contains_key(sender) {
            total_remove(chains, sender);
            assert(chains[sender] =~= Seq::empty());
        }
    } else {
        best_exists(basefee, chains);
        let best = best_sender(basefee, chains);
        let head = chains[best][0];
        let after = release(chains, best);
        total_release(chains, best);
        release_owns(chains, best);
        merge_keeps_chain(basefee, after, (n - 1) as nat, sender);
        assert(chains[best][0].sender == best);
        let rest = merge(basefee, after, (n - 1) as nat);
        Seq::filter_distributes_over_add(seq![head], rest, sent_by(sender));
        let one = seq![head];
        filter_one(head, sent_by(sender));
        if best == sender {
            assert(one.filter(sent_by(sender)) =~= one);
            assert(one + chains[sender].drop_first() =~= chains[sender]);
        } else {
            assert(one.filter(sent_by(sender)) =~= Seq::empty());
            if chains.contains_key(sender) {
                assert(after[sender] == chains[sender]);
            }
            assert(Seq::<PendingTransaction>::empty() + rest.filter(sent_by(sender))
                =~= rest.filter(sent_by(sender)));
        }
    }
}

proof fn executable_chains_finite(
    pending: Seq<PendingTransaction>,
    attributes: BestTransactionsAttributes,
)
    ensures
        executable_chains(pending, attributes).dom().finite(),
{
    let m = executable_chains(pending, attributes);
    let senders = pending.map_values(|tx: PendingTransaction| tx.sender);
    assert(m.dom() =~= m.dom().intersect(senders.to_set())) by {
        assert forall|s: Address| m.dom().contains(s) implies senders.to_set().contains(s) by {
            let i = choose|i: int| 0 <= i < pending.len() && (#[trigger] pending[i]).sender == s;
            assert(senders[i] == s);
        }
    }
    vstd::seq_lib::seq_to_set_is_finite(senders);
    vstd::set::axiom_set_intersect_finite::<Address>(m.dom(), senders.to_set());
}

/// The merged order holds each sender's executable chain, whole and in chain
/// order, and nothing else of that sender.
pub proof fn sender_chains_are_kept(
    pending: Seq<PendingTransaction>,
    attributes: BestTransactionsAttributes,
    sender: Address,
)
    ensures
        merged_order(pending, attributes).filter(sent_by(sender)) == executable_prefix(
            chain_of(pending, sender),
            attributes,
        ),
{
    let m = executable_chains(pending, attributes);
    executable_chains_finite(pending, attributes);
    executable_chains_own(pending, attributes);
    merge_keeps_chain(attributes.basefee, m, total(m), sender);
    if !m.contains_key(sender) {
        assert(!occurs(pending, sender));
        chain_of_absent(pending, sender);
        assert(executable_prefix(chain_of(pending, sender), attributes) =~= Seq::empty());
    }
}

/// No transaction is handed out that the block's fees price out, nor one that
/// comes after such a transaction of the same sender.
pub proof fn priced_out_suffix_is_dropped(
    pending: Seq<PendingTransaction>,
    attributes: BestTransactionsAttributes,
    sender: Address,
    i: int,
    j: int,
)
    requires
        0 <= i <= j < chain_of(pending, sender).len(),
        chain_of(pending, sender)[i].spec_unpayable(attributes),
    ensures
        merged_order(pending, attributes).filter(sent_by(sender)).len() <= j,
{
    sender_chains_are_kept(pending, attributes, sender);
    let chain = chain_of(pending, sender);
    first_unpayable_found(chain, attributes, 0, i);
    first_unpayable_bounds(chain, attributes, 0);
}

proof fn first_unpayable_found(
    chain: Seq<PendingTransaction>,
    attributes: BestTransactionsAttributes,
    from: int,
    i: int,
)
    requires
        0 <= from <= i < chain.len(),
        chain[i].spec_unpayable(attributes),
    ensures
        first_unpayable(chain, attributes, from) <= i,
    decreases i - from,
{
    if from < i && !chain[from].spec_unpayable(attributes) {
        first_unpayable_found(chain, attributes, from + 1, i);
    }
}

/// In chain order: nothing comes before what stands to its left.
pub open spec fn is_chain_sorted(chain: Seq<PendingTransaction>) -> bool {
    forall|i: int, j: int| 0 <= i < j < chain.len() ==> !chain_before(#[trigger] chain[j], #[trigger] chain[i])
}

proof fn chain_before_strict(a: PendingTransaction, b: PendingTransaction, c: PendingTransaction)
    ensures
        chain_before(a, b) && chain_before(b, c) ==> chain_before(a, c),
        chain_before(a, b) ==> !chain_before(b, a),
        !chain_before(a, b) && !chain_before(b, c) ==> !chain_before(a, c),
        a.hash != b.hash ==> chain_before(a, b) || chain_before(b, a),
{
    bytes_less_strict(a.hash@, b.hash@, c.hash@);
    bytes_less_strict(b.hash@, a.hash@, c.hash@);
    bytes_less_strict(b.hash@, c.hash@, a.hash@);
    bytes_less_strict(a.hash@, c.hash@, b.hash@);
    bytes_less_strict(c.hash@, b.hash@, a.hash@);
    bytes_less_strict(c.hash@, a.hash@, b.hash@);
    bytes_less_total(a.hash@, b.hash@);
    bytes_less_total(b.hash@, c.hash@);
    bytes_less_total(a.hash@, c.hash@);
    if a.hash@ == b.hash@ {
        assert(a.hash =~= b.hash);
    }
}

proof fn insert_keeps_sorted(chain: Seq<PendingTransaction>, tx: PendingTransaction)
    requires
        is_chain_sorted(chain),
    ensures
        is_chain_sorted(insert_into_chain(chain, tx)),
        insert_into_chain(chain, tx).to_multiset() == chain.to_multiset().insert(tx),
        insert_into_chain(chain, tx).len() == chain.len() + 1,
    decreases chain.len(),
{
    broadcast use vstd::seq_lib::group_to_multiset_ensures;

    let after = insert_into_chain(chain, tx);
    if chain.len() > 0 && chain_before(tx, chain.last()) {
        let shorter = chain.drop_last();
        insert_keeps_sorted(shorter, tx);
        let inner = insert_into_chain(shorter, tx);
        assert(shorter.push(chain.last()) =~= chain);
        assert forall|i: int, j: int| 0 <= i < j < after.len() implies !chain_before(
            #[trigger] after[j],
            #[trigger] after[i],
        ) by {
            if j == after.len() - 1 {
                assert(inner.to_multiset().contains(inner[i]));
                if inner[i] != tx {
                    assert(shorter.to_multiset().contains(inner[i]));
                    let k = choose|k: int| 0 <= k < shorter.len() && shorter[k] == inner[i];
                    assert(chain[k] == inner[i]);
                    assert(!chain_before(chain[chain.len() - 1], chain[k]));
                } else {
                    chain_before_strict(tx, chain.last(), tx);
                }
            } else {
                assert(after[i] == inner[i] && after[j] == inner[j]);
            }
        }
        assert(after.to_multiset() =~= chain.to_multiset().insert(tx));
    } else {
        assert forall|i: int, j: int| 0 <= i < j < after.len() implies !chain_before(
            #[trigger] after[j],
            #[trigger] after[i],
        ) by {
            if j == chain.len() {
                let last = chain.last();
                if i < chain.len() - 1 {
                    assert(!chain_before(chain[chain.len() - 1], chain[i]));
                    chain_before_strict(tx, last, chain[i]);
                }
            }
        }
    }
}

/// A sender's chain holds its transactions of the snapshot, each as often as
/// the snapshot does, ordered by nonce and then by hash.
pub proof fn chain_is_sorted_selection(pending: Seq<PendingTransaction>, sender: Address)
    ensures
        is_chain_sorted(chain_of(pending, sender)),
        chain_of(pending, sender).to_multiset() == pending.filter(sent_by(sender)).to_multiset(),
    decreases pending.len(),
{
    broadcast use vstd::seq_lib::group_to_multiset_ensures;

    reveal(Seq::filter);
    if pending.len() > 0 {
        chain_is_sorted_selection(pending.drop_last(), sender);
        if pending.last().sender == sender {
            insert_keeps_sorted(chain_of(pending.drop_last(), sender), pending.last());
        }
    }
}

/// Nonce and hash tell the transactions of one sender apart: where they are the
/// same, so is the transaction.
pub open spec fn told_apart(pending: Seq<PendingTransaction>) -> bool {
    forall|i: int, j: int|
        0 <= i < j < pending.len() && (#[trigger] pending[i]).sender == (
        #[trigger] pending[j]).sender && pending[i].nonce == pending[j].nonce && pending[i].hash
            == pending[j].hash ==> pending[i] == pending[j]
}

proof fn filter_same_multiset(
    a: Seq<PendingTransaction>,
    b: Seq<PendingTransaction>,
    sender: Address,
)
    requires
        a.to_multiset() == b.to_multiset(),
    ensures
        a.filter(sent_by(sender)).to_multiset() == b.filter(sent_by(sender)).to_multiset(),
    decreases a.len(),
{
    broadcast use vstd::seq_lib::group_to_multiset_ensures;

    reveal(Seq::filter);
    assert(a.to_multiset().len() == a.len());
    assert(b.to_multiset().len() == b.len());
    if a.len() == 0 {
        assert(a =~= b);
    } else {
        let x = a.last();
        assert(a.to_multiset().contains(x));
        let k = choose|k: int| 0 <= k < b.len() && b[k] == x;
        let a2 = a.drop_last();
        let b2 = b.remove(k);
        assert(a2.push(x) =~= a);
        assert(a2.to_multiset() =~= a.to_multiset().remove(x));
        assert(b2.to_multiset() =~= b.to_multiset().remove(x));
        filter_same_multiset(a2, b2, sender);
        let left = b.take(k);
        let right = b.skip(k + 1);
        assert(b =~= left + (seq![x] + right));
        assert(b2 =~= left + right);
        Seq::filter_distributes_over_add(left, seq![x] + right, sent_by(sender));
        Seq::filter_distributes_over_add(seq![x], right, sent_by(sender));
        Seq::filter_distributes_over_add(left, right, sent_by(sender));
        let one = seq![x];
        filter_one(x, sent_by(sender));
        let fl = left.filter(sent_by(sender));
        let fr = right.filter(sent_by(sender));
        if x.sender == sender {
            assert(one.filter(sent_by(sender)) =~= one);
            assert(fl + (one + fr) =~= (fl + fr).insert(fl.len() as int, x));
            assert(b.filter(sent_by(sender)) =~= b2.filter(sent_by(sender)).insert(
                fl.len() as int,
                x,
            ));
            vstd::seq_lib::to_multiset_insert(b2.filter(sent_by(sender)), fl.len() as int, x);
        } else {
            assert(one.filter(sent_by(sender)) =~= Seq::empty());
            assert(Seq::<PendingTransaction>::empty() + fr =~= fr);
        }
    }
}

proof fn sorted_chains_agree(x: Seq<PendingTransaction>, y: Seq<PendingTransaction>)
    requires
        is_chain_sorted(x),
        is_chain_sorted(y),
        x.to_multiset() == y.to_multiset(),
        forall|a: PendingTransaction, b: PendingTransaction| #[trigger]
            x.contains(a) && #[trigger] x.contains(b) && a != b ==> a.nonce != b.nonce || a.hash
                != b.hash,
    ensures
        x == y,
    decreases x.len(),
{
    broadcast use vstd::seq_lib::group_to_multiset_ensures;

    assert(x.to_multiset().len() == x.len());
    assert(y.to_multiset().len() == y.len());
    if x.len() == 0 {
        assert(x =~= y);
    } else {
        let a = x[0];
        let b = y[0];
        assert(x.to_multiset().contains(b)) by {
            assert(y.to_multiset().contains(b));
        }
        assert(y.to_multiset().contains(a)) by {
            assert(x.to_multiset().contains(a));
        }
        if a != b {
            let i = choose|i: int| 0 <= i < x.len() && x[i] == b;
            let j = choose|j: int| 0 <= j < y.len() && y[j] == a;
            assert(!chain_before(x[i], x[0]));
            assert(!chain_before(y[j], y[0]));
            assert(x.contains(a) && x.contains(b));
            chain_before_strict(a, b, a);
            assert(false);
        }
        let x2 = x.drop_first();
        let y2 = y.drop_first();
        assert(x2 =~= x.remove(0) && y2 =~= y.remove(0));
        assert(x2.to_multiset() =~= x.to_multiset().remove(a));
        assert(y2.to_multiset() =~= y.to_multiset().remove(b));
        assert forall|p: PendingTransaction, q: PendingTransaction| #[trigger]
            x2.contains(p) && #[trigger] x2.contains(q) && p != q implies p.nonce != q.nonce
            || p.hash != q.hash by {
            let i = choose|i: int| 0 <= i < x2.len() && x2[i] == p;
            let j = choose|j: int| 0 <= j < x2.len() && x2[j] == q;
            assert(x[i + 1] == p && x[j + 1] == q);
            assert(x.contains(p) && x.contains(q));
        }
        assert forall|i: int, j: int| 0 <= i < j < x2.len() implies !chain_before(
            #[trigger] x2[j],
            #[trigger] x2[i],
        ) by {
            assert(x2[i] == x[i + 1] && x2[j] == x[j + 1]);
        }
        assert forall|i: int, j: int| 0 <= i < j < y2.len() implies !chain_before(
            #[trigger] y2[j],
            #[trigger] y2[i],
        ) by {
            assert(y2[i] == y[i + 1] && y2[j] == y[j + 1]);
        }
        sorted_chains_agree(x2, y2);
        assert(x =~= seq![a] + x2);
        assert(y =~= seq![b] + y2);
    }
}

/// The order does not depend on how the snapshot lists its transactions: two
/// snapshots of the same transactions are handed out alike.
pub proof fn order_is_deterministic(
    one: Seq<PendingTransaction>,
    other: Seq<PendingTransaction>,
    attributes: BestTransactionsAttributes,
)
    requires
        one.to_multiset() == other.to_multiset(),
        told_apart(one),
    ensures
        merged_order(one, attributes) == merged_order(other, attributes),
{
    broadcast use vstd::seq_lib::group_to_multiset_ensures;

    let m1 = executable_chains(one, attributes);
    let m2 = executable_chains(other, attributes);
    assert forall|s: Address| m1.contains_key(s) <==> m2.contains_key(s) by {
        if occurs(one, s) {
            let i = choose|i: int| 0 <= i < one.len() && (#[trigger] one[i]).sender == s;
            assert(one.to_multiset().contains(one[i]));
            assert(other.to_multiset().contains(one[i]));
            let j = choose|j: int| 0 <= j < other.len() && other[j] == one[i];
            assert(other[j].sender == s);
        }
        if occurs(other, s) {
            let i = choose|i: int| 0 <= i < other.len() && (#[trigger] other[i]).sender == s;
            assert(other.to_multiset().contains(other[i]));
            assert(one.to_multiset().contains(other[i]));
            let j = choose|j: int| 0 <= j < one.len() && one[j] == other[i];
            assert(one[j].sender == s);
        }
    }
    assert forall|s: Address| chain_of(one, s) == chain_of(other, s) by {
        chain_is_sorted_selection(one, s);
        chain_is_sorted_selection(other, s);
        filter_same_multiset(one, other, s);
        let x = chain_of(one, s);
        assert forall|a: PendingTransaction, b: PendingTransaction| #[trigger]
            x.contains(a) && #[trigger] x.contains(b) && a != b implies a.nonce != b.nonce
            || a.hash != b.hash by {
            let f = one.filter(sent_by(s));
            assert(x.to_multiset().contains(a) && x.to_multiset().contains(b));
            assert(f.to_multiset().contains(a) && f.to_multiset().contains(b));
            in_filter(one, s, a);
            in_filter(one, s, b);
            let i = choose|i: int| 0 <= i < one.len() && one[i] == a;
            let j = choose|j: int| 0 <= j < one.len() && one[j] == b;
            assert(one[i].sender == one[j].sender);
            assert(i < j || j < i);
        }
        sorted_chains_agree(x, chain_of(other, s));
    }
    assert(m1 =~= m2);
}

proof fn in_filter(pending: Seq<PendingTransaction>, s: Address, tx: PendingTransaction)
    requires
        pending.filter(sent_by(s)).contains(tx),
    ensures
        pending.contains(tx),
        tx.sender == s,
    decreases pending.len(),
{
    reveal(Seq::filter);
    if pending.len() > 0 {
        let f = pending.drop_last().filter(sent_by(s));
        let full = pending.filter(sent_by(s));
        let i = choose|i: int| 0 <= i < full.len() && full[i] == tx;
        if i < f.len() {
            assert(f[i] == tx);
            in_filter(pending.drop_last(), s, tx);
            let j = choose|j: int|
                0 <= j < pending.drop_last().len() && pending.drop_last()[j] == tx;
            assert(pending[j] == tx);
        } else {
            assert(pending[pending.len() - 1] == tx);
        }
    }
}

proof fn filter_position(order: Seq<PendingTransaction>, i: int)
    requires
        0 <= i < order.len(),
    ensures
        ({
            let sent = sent_by(order[i].sender);
            let n = order.take(i).filter(sent).len();
            n < order.filter(sent).len() && order.filter(sent)[n as int] == order[i]
        }),
{
    let sent = sent_by(order[i].sender);
    let one = seq![order[i]];
    let left = order.take(i);
    let right = order.skip(i + 1);
    assert(order =~= left + (one + right));
    Seq::filter_distributes_over_add(left, one + right, sent);
    Seq::filter_distributes_over_add(one, right, sent);
    filter_one(order[i], sent);
}

proof fn filter_of_prefix(order: Seq<PendingTransaction>, k: int, sender: Address)
    requires
        0 <= k <= order.len(),
    ensures
        order.take(k).filter(sent_by(sender)).len() <= order.filter(sent_by(sender)).len(),
{
    assert(order =~= order.take(k) + order.skip(k));
    Seq::filter_distributes_over_add(order.take(k), order.skip(k), sent_by(sender));
}

/// Each sender's transactions come out in chain order, so the lower nonce first.
pub proof fn nonces_come_in_order(
    pending: Seq<PendingTransaction>,
    attributes: BestTransactionsAttributes,
    i: int,
    j: int,
)
    requires
        0 <= i < j < merged_order(pending, attributes).len(),
        merged_order(pending, attributes)[i].sender == merged_order(pending, attributes)[j].sender,
    ensures
        ({
            let order = merged_order(pending, attributes);
            order[i].nonce <= order[j].nonce && !chain_before(order[j], order[i])
        }),
{
    let order = merged_order(pending, attributes);
    let sender = order[i].sender;
    filter_position(order, i);
    filter_position(order, j);
    filter_position(order.take(j), i);
    assert(order.take(j).take(i) =~= order.take(i));
    sender_chains_are_kept(pending, attributes, sender);
    chain_is_sorted_selection(pending, sender);
    let chain = chain_of(pending, sender);
    let p = order.take(i).filter(sent_by(sender)).len() as int;
    let q = order.take(j).filter(sent_by(sender)).len() as int;
    first_unpayable_bounds(chain, attributes, 0);
    assert(p < q);
    assert(chain[p] == order[i] && chain[q] == order[j]);
}

/// What is left of the chains once these transactions came out: from each chain
/// as many are gone as its sender has among them.
pub open spec fn left_after(
    chains: Map<Address, Seq<PendingTransaction>>,
    released: Seq<PendingTransaction>,
) -> Map<Address, Seq<PendingTransaction>> {
    Map::new(
        |sender: Address| chains.contains_key(sender),
        |sender: Address| chains[sender].skip(released.filter(sent_by(sender)).len() as int),
    )
}

proof fn merge_takes_best(
    basefee: u64,
    chains: Map<Address, Seq<PendingTransaction>>,
    n: nat,
    k: int,
)
    requires
        chains_own(chains),
        chains.dom().finite(),
        n == total(chains),
        0 <= k < merge(basefee, chains, n).len(),
    ensures
        ({
            let order = merge(basefee, chains, n);
            let left = left_after(chains, order.take(k));
            is_best(basefee, left, order[k].sender) && order[k] == left[order[k].sender][0]
        }),
    decreases n,
{
    best_exists(basefee, chains);
    let best = best_sender(basefee, chains);
    let head = chains[best][0];
    let after = release(chains, best);
    let order = merge(basefee, chains, n);
    assert(head.sender == best);
    if k == 0 {
        let left = left_after(chains, order.take(0));
        assert forall|s: Address| #[trigger] chains.contains_key(s) implies left[s]
            == chains[s] by {
            assert(order.take(0) =~= Seq::empty());
            assert(order.take(0).filter(sent_by(s)).len() == 0) by {
                reveal(Seq::filter);
            }
            assert(chains[s].skip(0) =~= chains[s]);
        }
        assert(left =~= chains);
    } else {
        total_release(chains, best);
        release_owns(chains, best);
        let rest = merge(basefee, after, (n - 1) as nat);
        merge_takes_best(basefee, after, (n - 1) as nat, k - 1);
        let left = left_after(chains, order.take(k));
        let rest_left = left_after(after, rest.take(k - 1));
        assert(order.take(k) =~= seq![head] + rest.take(k - 1));
        assert forall|s: Address| #[trigger] chains.contains_key(s) implies left[s]
            == rest_left[s] by {
            Seq::filter_distributes_over_add(seq![head], rest.take(k - 1), sent_by(s));
            filter_one(head, sent_by(s));
            merge_keeps_chain(basefee, after, (n - 1) as nat, s);
            filter_of_prefix(rest, k - 1, s);
            let gone = rest.take(k - 1).filter(sent_by(s)).len() as int;
            assert(gone <= after[s].len());
            if s == best {
                assert(chains[s].drop_first().skip(gone) =~= chains[s].skip(gone + 1));
            }
        }
        assert(left =~= rest_left);
        assert(order[k] == rest[k - 1]);
    }
}

/// Each transaction that comes out is, among the heads that all senders have at
/// that point, the one with the highest tip; of those with the same tip, the one
/// with the smallest sender.
pub proof fn best_head_comes_next(
    pending: Seq<PendingTransaction>,
    attributes: BestTransactionsAttributes,
    k: int,
)
    requires
        0 <= k < merged_order(pending, attributes).len(),
    ensures
        ({
            let order = merged_order(pending, attributes);
            let left = left_after(executable_chains(pending, attributes), order.take(k));
            let tx = order[k];
            &&& left.contains_key(tx.sender)
            &&& left[tx.sender].len() > 0
            &&& tx == left[tx.sender][0]
            &&& forall|other: Address| #[trigger]
                left.contains_key(other) && other != tx.sender && left[other].len() > 0 ==> {
                    let head = left[other][0];
                    let (tip, other_tip) = (
                        tx.spec_tip(attributes.basefee),
                        head.spec_tip(attributes.basefee),
                    );
                    tip > other_tip || (tip == other_tip && bytes_less(tx.sender@, other@))
                }
        }),
{
    let chains = executable_chains(pending, attributes);
    executable_chains_own(pending, attributes);
    executable_chains_finite(pending, attributes);
    merge_takes_best(attributes.basefee, chains, total(chains), k);
    let order = merged_order(pending, attributes);
    let left = left_after(chains, order.take(k));
    let tx = order[k];
    assert forall|other: Address| #[trigger]
        left.contains_key(other) && other != tx.sender && left[other].len() > 0 implies
        left[other][0].sender == other by {
        sender_chains_are_kept(pending, attributes, other);
        filter_of_prefix(order, k, other);
        let gone = order.take(k).filter(sent_by(other)).len() as int;
        assert(chains.contains_key(other));
        assert(left[other][0] == chains[other][gone]);
    }
}

/// Everything comes out, in order, where no sender is invalid and blobs are not
/// skipped.
pub proof fn nothing_is_held_back(ordered: Seq<PendingTransaction>)
    ensures
        handed_out(ordered, Set::empty(), false) == ordered,
    decreases ordered.len(),
{
    if ordered.len() > 0 {
        nothing_is_held_back(ordered.drop_first());
        assert(seq![ordered[0]] + ordered.drop_first() =~= ordered);
    } else {
        assert(ordered =~= Seq::empty());
    }
}

/// Marking a sender invalid takes away what is left of that sender, and leaves
/// all other transactions in their order.
pub proof fn invalid_sender_is_suppressed(
    ordered: Seq<PendingTransaction>,
    invalid: Set<Address>,
    skip_blobs: bool,
    sender: Address,
)
    ensures
        handed_out(ordered, invalid.insert(sender), skip_blobs) == handed_out(
            ordered,
            invalid,
            skip_blobs,
        ).filter(|tx: PendingTransaction| tx.sender != sender),
    decreases ordered.len(),
{
    reveal(Seq::filter);
    let others = |tx: PendingTransaction| tx.sender != sender;
    if ordered.len() > 0 {
        let tx = ordered[0];
        let rest = ordered.drop_first();
        let with = invalid.insert(sender);
        if invalid.contains(tx.sender) {
            invalid_sender_is_suppressed(rest, invalid, skip_blobs, sender);
        } else if skip_blobs && tx.is_eip4844 {
            invalid_sender_is_suppressed(rest, invalid.insert(tx.sender), skip_blobs, sender);
            assert(invalid.insert(tx.sender).insert(sender) =~= with.insert(tx.sender));
            if tx.sender == sender {
                assert(with.insert(tx.sender) =~= with);
            }
        } else {
            invalid_sender_is_suppressed(rest, invalid, skip_blobs, sender);
            let tail = handed_out(rest, invalid, skip_blobs);
            Seq::filter_distributes_over_add(seq![tx], tail, others);
            let one = seq![tx];
            filter_one(tx, others);
            if tx.sender == sender {
                assert(one.filter(others) =~= Seq::empty());
                assert(Seq::<PendingTransaction>::empty() + tail.filter(others) =~= tail.filter(
                    others,
                ));
            } else {
                assert(one.filter(others) =~= one);
            }
        }
    }
}

/// Every transaction of a sender that can pay for them all comes out: each offers
/// at least the base fee and, where it carries blobs, at least the blob fee.
pub proof fn payable_senders_are_complete(
    pending: Seq<PendingTransaction>,
    attributes: BestTransactionsAttributes,
    sender: Address,
)
    requires
        forall|i: int|
            0 <= i < pending.len() && (#[trigger] pending[i]).sender == sender
                ==> pending[i].max_fee_per_gas >= attributes.basefee && (
            pending[i].max_fee_per_blob_gas matches Some(fee) ==> fee >= match attributes.blob_fee {
                Some(blob_fee) => blob_fee,
                None => 0,
            }),
    ensures
        merged_order(pending, attributes).filter(sent_by(sender)).to_multiset()
            == pending.filter(sent_by(sender)).to_multiset(),
        merged_order(pending, attributes).filter(sent_by(sender)).len() == pending.filter(
            sent_by(sender),
        ).len(),
{
    broadcast use vstd::seq_lib::group_to_multiset_ensures;

    sender_chains_are_kept(pending, attributes, sender);
    chain_is_sorted_selection(pending, sender);
    let chain = chain_of(pending, sender);
    let sent = pending.filter(sent_by(sender));
    assert forall|k: int| 0 <= k < chain.len() implies !(
    #[trigger] chain[k]).spec_unpayable(attributes) by {
        assert(chain.to_multiset().contains(chain[k]));
        assert(sent.to_multiset().contains(chain[k]));
        in_filter(pending, sender, chain[k]);
        let i = choose|i: int| 0 <= i < pending.len() && pending[i] == chain[k];
        assert(pending[i].sender == sender);
    }
    first_unpayable_skips(chain, attributes, chain.len() as int);
    assert(chain.take(chain.len() as int) =~= chain);
    assert(chain.to_multiset().len() == sent.to_multiset().len());
}

/// Every transaction that comes out is one of the snapshot, and can pay.
pub proof fn what_comes_out_can_pay(
    pending: Seq<PendingTransaction>,
    attributes: BestTransactionsAttributes,
    i: int,
)
    requires
        0 <= i < merged_order(pending, attributes).len(),
    ensures
        ({
            let tx = merged_order(pending, attributes)[i];
            &&& pending.contains(tx)
            &&& tx.max_fee_per_gas >= attributes.basefee
            &&& tx.max_fee_per_blob_gas matches Some(fee) ==> (
            attributes.blob_fee matches Some(blob_fee) ==> fee >= blob_fee)
        }),
{
    broadcast use vstd::seq_lib::group_to_multiset_ensures;

    let order = merged_order(pending, attributes);
    let sender = order[i].sender;
    filter_position(order, i);
    sender_chains_are_kept(pending, attributes, sender);
    chain_is_sorted_selection(pending, sender);
    let chain = chain_of(pending, sender);
    let n = order.take(i).filter(sent_by(sender)).len() as int;
    first_unpayable_bounds(chain, attributes, 0);
    assert(chain[n] == order[i]);
    if chain[n].spec_unpayable(attributes) {
        first_unpayable_found(chain, attributes, 0, n);
    }
    assert(chain.to_multiset().contains(chain[n]));
    assert(pending.filter(sent_by(sender)).to_multiset().contains(chain[n]));
    in_filter(pending, sender, chain[n]);
}

/// A transaction comes out wherever it and all that its sender has at its nonce or
/// below can pay.
pub proof fn nothing_payable_is_lost(
    pending: Seq<PendingTransaction>,
    attributes: BestTransactionsAttributes,
    k: int,
)
    requires
        0 <= k < pending.len(),
        forall|i: int|
            0 <= i < pending.len() && (#[trigger] pending[i]).sender == pending[k].sender
                && pending[i].nonce <= pending[k].nonce ==> pending[i].max_fee_per_gas
                >= attributes.basefee && (pending[i].max_fee_per_blob_gas matches Some(fee) ==> (
            attributes.blob_fee matches Some(blob_fee) ==> fee >= blob_fee)),
    ensures
        merged_order(pending, attributes).contains(pending[k]),
{
    broadcast use vstd::seq_lib::group_to_multiset_ensures;

    let tx = pending[k];
    let sender = tx.sender;
    let order = merged_order(pending, attributes);
    sender_chains_are_kept(pending, attributes, sender);
    chain_is_sorted_selection(pending, sender);
    let chain = chain_of(pending, sender);
    let sent = pending.filter(sent_by(sender));
    filter_position(pending, k);
    assert(sent.contains(tx));
    assert(sent.to_multiset().contains(tx));
    assert(chain.to_multiset().contains(tx));
    let p = choose|p: int| 0 <= p < chain.len() && chain[p] == tx;
    assert forall|q: int| 0 <= q < p + 1 implies !(#[trigger] chain[q]).spec_unpayable(
        attributes,
    ) by {
        assert(chain.to_multiset().contains(chain[q]));
        assert(sent.to_multiset().contains(chain[q]));
        in_filter(pending, sender, chain[q]);
        let i = choose|i: int| 0 <= i < pending.len() && pending[i] == chain[q];
        assert(pending[i].sender == sender);
        if q < p {
            assert(!chain_before(chain[p], chain[q]));
        }
    }
    first_unpayable_skips(chain, attributes, p + 1);
    first_unpayable_bounds(chain, attributes, p + 1);
    first_unpayable_bounds(chain, attributes, 0);
    let out = order.filter(sent_by(sender));
    assert(out[p] == tx);
    assert(out.contains(tx));
    in_filter(order, sender, tx);
}

/// The tip is what the transaction offers above the base fee, no more than its
/// priority fee, and nothing where it does not offer the base fee.
pub proof fn tips_are_capped(tx: PendingTransaction, basefee: u64)
    ensures
        tx.max_fee_per_gas < basefee ==> tx.spec_tip(basefee) == 0,
        tx.max_fee_per_gas >= basefee ==> tx.spec_tip(basefee) + basefee <= tx.max_fee_per_gas,
        tx.max_priority_fee_per_gas matches Some(most) ==> tx.spec_tip(basefee) <= most,
        tx.max_fee_per_gas >= basefee ==> tx.spec_tip(basefee) + basefee == tx.max_fee_per_gas
            || tx.max_priority_fee_per_gas == Some(tx.spec_tip(basefee)),
{
}

/// Of two transactions of one sender the lower nonce comes first; with one nonce,
/// the smaller hash.
pub proof fn lower_nonces_come_first(
    pending: Seq<PendingTransaction>,
    attributes: BestTransactionsAttributes,
    i: int,
    j: int,
)
    requires
        0 <= i < j < merged_order(pending, attributes).len(),
        merged_order(pending, attributes)[i].sender == merged_order(pending, attributes)[j].sender,
    ensures
        ({
            let (a, b) = (merged_order(pending, attributes)[i], merged_order(pending, attributes)[j]);
            a.nonce < b.nonce || (a.nonce == b.nonce && (a.hash@ == b.hash@ || bytes_less(
                a.hash@,
                b.hash@,
            )))
        }),
{
    nonces_come_in_order(pending, attributes, i, j);
    let (a, b) = (merged_order(pending, attributes)[i], merged_order(pending, attributes)[j]);
    bytes_less_total(a.hash@, b.hash@);
}

/// What comes out keeps its order; no blob transaction comes out where blobs are
/// skipped, and nothing of an invalid sender. Everything else comes out, but for
/// what follows a skipped blob transaction of its sender.
pub proof fn blobs_are_skipped_with_what_follows(
    ordered: Seq<PendingTransaction>,
    invalid: Set<Address>,
    skip_blobs: bool,
) -> (at: Seq<int>)
    ensures
        ({
            let out = handed_out(ordered, invalid, skip_blobs);
            &&& out.len() == at.len()
            &&& forall|i: int, j: int| 0 <= i < j < at.len() ==> #[trigger] at[i] < #[trigger] at[j]
            &&& forall|i: int|
                0 <= i < at.len() ==> 0 <= #[trigger] at[i] < ordered.len() && out[i]
                    == ordered[at[i]] && !invalid.contains(out[i].sender) && !(skip_blobs
                    && out[i].is_eip4844)
            &&& forall|k: int|
                0 <= k < ordered.len() && !invalid.contains((#[trigger] ordered[k]).sender) && (
                forall|j: int|
                    0 <= j <= k && (#[trigger] ordered[j]).sender == ordered[k].sender ==> !(
                    skip_blobs && ordered[j].is_eip4844)) ==> at.contains(k)
        }),
    decreases ordered.len(),
{
    if ordered.len() == 0 {
        Seq::empty()
    } else {
        let tx = ordered[0];
        let rest = ordered.drop_first();
        let passed = invalid.contains(tx.sender);
        let skipped = !passed && skip_blobs && tx.is_eip4844;
        let then_invalid = if skipped {
            invalid.insert(tx.sender)
        } else {
            invalid
        };
        let tail = blobs_are_skipped_with_what_follows(rest, then_invalid, skip_blobs);
        let shifted = Seq::new(tail.len(), |i: int| tail[i] + 1);
        let at = if passed || skipped {
            shifted
        } else {
            seq![0int] + shifted
        };
        let out = handed_out(ordered, invalid, skip_blobs);
        let later = handed_out(rest, then_invalid, skip_blobs);
        assert forall|i: int| 0 <= i < at.len() implies 0 <= #[trigger] at[i] < ordered.len()
            && out[i] == ordered[at[i]] && !invalid.contains(out[i].sender) && !(skip_blobs
            && out[i].is_eip4844) by {
            if passed || skipped {
                assert(tail[i] + 1 == at[i]);
                assert(later[i] == rest[tail[i]]);
            } else if i > 0 {
                assert(tail[i - 1] + 1 == at[i]);
                assert(later[i - 1] == rest[tail[i - 1]]);
            }
        }
        assert forall|i: int, j: int| 0 <= i < j < at.len() implies #[trigger] at[i]
            < #[trigger] at[j] by {
            if passed || skipped {
                assert(tail[i] < tail[j]);
            } else if i > 0 {
                assert(tail[i - 1] < tail[j - 1]);
            } else {
                assert(tail[j - 1] >= 0);
            }
        }
        assert forall|k: int|
            0 <= k < ordered.len() && !invalid.contains((#[trigger] ordered[k]).sender) && (forall|
                j: int,
            |
                0 <= j <= k && (#[trigger] ordered[j]).sender == ordered[k].sender ==> !(skip_blobs
                    && ordered[j].is_eip4844)) implies at.contains(k) by {
            if k == 0 {
                assert(!skipped);
                assert(at[0] == 0);
            } else {
                assert(rest[k - 1] == ordered[k]);
                if skipped {
                    assert(ordered[0].sender != ordered[k].sender);
                }
                assert forall|j: int|
                    0 <= j <= k - 1 && (#[trigger] rest[j]).sender == rest[k - 1].sender implies !(
                skip_blobs && rest[j].is_eip4844) by {
                    assert(ordered[j + 1] == rest[j]);
                }
                assert(tail.contains(k - 1));
                let t = choose|t: int| 0 <= t < tail.len() && tail[t] == k - 1;
                assert(shifted[t] == k);
                if passed || skipped {
                    assert(at[t] == k);
                } else {
                    assert(at[t + 1] == k);
                }
            }
        }
        at
    }
}

} // verus!
