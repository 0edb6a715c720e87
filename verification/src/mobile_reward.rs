//! Rewards for phones that verify blocks, paid out as withdrawals.
use crate::crypto::{keccak256, keccak256_of};
use crate::keyed::ByteMap;
use crate::primitives::{
    bytes_less, bytes_less_strict, bytes_less_total, key_less, min_u64, same_key,
    saturating_mul_u64, saturating_product, Address, PubKey, B256, ZERO_ADDRESS,
};
use std::collections::VecDeque;
use vstd::prelude::*;

verus! {

/// The most rewards that wait to be paid out.
pub const MAX_REWARD_QUEUE_SIZE: usize = 1_000_000;

/// A payment out of a block, in Gwei.
#[derive(Clone, Copy, Debug, PartialEq, Eq)]
pub struct Withdrawal {
    pub index: u64,
    pub validator_index: u64,
    pub address: Address,
    pub amount: u64,
}

/// The address of a hash: its last twenty bytes.
pub open spec fn address_of_hash(hash: B256) -> Address {
    choose|address: Address| address@ == hash@.subrange(12, 32)
}

/// The address that a phone is paid at: that of its key's hash.
pub open spec fn pubkey_address(pubkey: PubKey) -> Address {
    address_of_hash(keccak256_of(pubkey@))
}

/// The address that a phone is paid at: the last twenty bytes of its key's hash.
pub fn bls_pubkey_to_address(pubkey: &PubKey) -> (address: Address)
    ensures
        address == pubkey_address(*pubkey),
        address@ == keccak256_of(pubkey@)@.subrange(12, 32),
{
    let hash: B256 = keccak256(pubkey);
    let mut address: Address = [0u8; 20];
    let mut i: usize = 0;
    while i < 20
        invariant
            i <= 20,
            forall|j: int| 0 <= j < i ==> address@[j] == hash@[j + 12],
        decreases 20 - i,
    {
        address[i] = hash[i + 12];
        i += 1;
    }
    proof {
        assert(address@ =~= hash@.subrange(12, 32));
        let chosen = address_of_hash(hash);
        assert(chosen@ == address@);
        assert(chosen =~= address);
    }
    address
}

/// The entries rise by their keys.
pub open spec fn keys_rise(entries: Seq<(PubKey, u64)>) -> bool {
    forall|i: int, j: int|
        0 <= i < j < entries.len() ==> bytes_less(
            (#[trigger] entries[i]).0@,
            (#[trigger] entries[j]).0@,
        )
}

/// The entries list the map, by rising keys.
pub open spec fn is_listing(counts: Map<PubKey, u64>, entries: Seq<(PubKey, u64)>) -> bool {
    &&& keys_rise(entries)
    &&& forall|i: int|
        0 <= i < entries.len() ==> counts.contains_key((#[trigger] entries[i]).0)
            && counts[entries[i].0] == entries[i].1
    &&& forall|key: PubKey| #[trigger]
        counts.contains_key(key) ==> exists|i: int|
            0 <= i < entries.len() && (#[trigger] entries[i]).0 == key
}

/// The map as a list, by rising keys.
pub open spec fn listing(counts: Map<PubKey, u64>) -> Seq<(PubKey, u64)> {
    choose|entries: Seq<(PubKey, u64)>| is_listing(counts, entries)
}

/// There is one listing of a map at most.
pub proof fn listing_is_unique(
    counts: Map<PubKey, u64>,
    a: Seq<(PubKey, u64)>,
    b: Seq<(PubKey, u64)>,
)
    requires
        is_listing(counts, a),
        is_listing(counts, b),
    ensures
        a == b,
    decreases a.len(),
{
    if a.len() == 0 {
        if b.len() > 0 {
            assert(counts.contains_key(b[0].0));
        }
        assert(a =~= b);
    } else {
        let last = a.len() - 1;
        let key = a[last].0;
        assert(counts.contains_key(key));
        let j = choose|j: int| 0 <= j < b.len() && (#[trigger] b[j]).0 == key;
        assert(j == b.len() - 1) by {
            if j < b.len() - 1 {
                let top = b[b.len() - 1].0;
                assert(bytes_less(b[j].0@, top@));
                assert(counts.contains_key(top));
                let k = choose|k: int| 0 <= k < a.len() && (#[trigger] a[k]).0 == top;
                if k < last {
                    assert(bytes_less(a[k].0@, a[last].0@));
                }
                bytes_less_strict(key@, top@, key@);
            }
        }
        let rest = counts.remove(key);
        let a2 = a.drop_last();
        let b2 = b.drop_last();
        shorter_listing(counts, a);
        shorter_listing(counts, b);
        listing_is_unique(rest, a2, b2);
        assert(a =~= a2.push(a[last]));
        assert(b =~= b2.push(b[j]));
    }
}

proof fn shorter_listing(counts: Map<PubKey, u64>, entries: Seq<(PubKey, u64)>)
    requires
        is_listing(counts, entries),
        entries.len() > 0,
    ensures
        is_listing(counts.remove(entries.last().0), entries.drop_last()),
{
    let rest = entries.drop_last();
    let last = entries.len() - 1;
    let fewer = counts.remove(entries.last().0);
    assert forall|i: int| 0 <= i < rest.len() implies fewer.contains_key((#[trigger] rest[i]).0)
        && fewer[rest[i].0] == rest[i].1 by {
        assert(rest[i] == entries[i]);
        assert(bytes_less(entries[i].0@, entries[last].0@));
        bytes_less_strict(entries[i].0@, entries[i].0@, entries[i].0@);
    }
    assert forall|key: PubKey| #[trigger] fewer.contains_key(key) implies exists|i: int|
        0 <= i < rest.len() && (#[trigger] rest[i]).0 == key by {
        assert(counts.contains_key(key));
        let i = choose|i: int| 0 <= i < entries.len() && (#[trigger] entries[i]).0 == key;
        assert(rest[i] == entries[i]);
    }
    assert forall|i: int, j: int| 0 <= i < j < rest.len() implies bytes_less(
        (#[trigger] rest[i]).0@,
        (#[trigger] rest[j]).0@,
    ) by {
        assert(rest[i] == entries[i] && rest[j] == entries[j]);
    }
}

/// What a reward comes to: no more than the daily base.
pub open spec fn capped(reward: u64, base: u64) -> u64 {
    if reward <= base {
        reward
    } else {
        base
    }
}

/// The payments for a list of phones and the rewards that the curve gives them:
/// none where the reward is nothing or there is no address to pay at.
pub open spec fn payments(entries: Seq<(PubKey, u64)>, rewards: Seq<u64>, base: u64) -> Seq<
    Withdrawal,
>
    decreases entries.len(),
{
    if entries.len() == 0 {
        Seq::empty()
    } else {
        let rest = payments(entries.drop_last(), rewards, base);
        let amount = capped(rewards[entries.len() - 1], base);
        let address = pubkey_address(entries.last().0);
        if amount == 0 || address == ZERO_ADDRESS {
            rest
        } else {
            rest.push(Withdrawal { index: 0, validator_index: 0, address, amount })
        }
    }
}

/// What the manager knows.
#[verifier::ext_equal]
pub ghost struct RewardState {
    pub epoch_attestations: Map<PubKey, u64>,
    pub queue: Seq<Withdrawal>,
    pub last_distribution_block: u64,
    pub blocks_per_epoch: u64,
    pub daily_base_reward_gwei: u64,
    pub max_rewards_per_block: usize,
}

/// What a block means for the rewards.
#[derive(Clone, Copy, Debug, PartialEq, Eq, Structural)]
pub enum EpochBoundary {
    /// No epoch ended that was not paid for.
    NotDue,
    /// An epoch ended without attestations.
    NoAttestations,
    /// Too many rewards wait: the epoch is paid for later.
    QueueFull,
    /// The rewards of the epoch are due.
    Due,
}

/// What a block means for the rewards.
pub open spec fn boundary_at(s: RewardState, current_block: u64) -> EpochBoundary {
    if s.blocks_per_epoch == 0 || (s.last_distribution_block > 0 && current_block
        / s.blocks_per_epoch <= s.last_distribution_block / s.blocks_per_epoch) || current_block
        < s.blocks_per_epoch {
        EpochBoundary::NotDue
    } else if s.epoch_attestations.len() == 0 {
        EpochBoundary::NoAttestations
    } else if s.queue.len() >= MAX_REWARD_QUEUE_SIZE {
        EpochBoundary::QueueFull
    } else {
        EpochBoundary::Due
    }
}

/// How many phones of an epoch can be paid: as many as there is room for.
pub open spec fn paid_count(s: RewardState) -> int {
    let room = MAX_REWARD_QUEUE_SIZE - s.queue.len();
    if s.epoch_attestations.len() <= room {
        s.epoch_attestations.len() as int
    } else {
        room
    }
}

/// What the manager knows after a block was looked at.
pub open spec fn after_boundary(s: RewardState, current_block: u64, rewards: Seq<u64>) -> RewardState {
    match boundary_at(s, current_block) {
        EpochBoundary::NotDue => s,
        EpochBoundary::QueueFull => s,
        EpochBoundary::NoAttestations => RewardState {
            last_distribution_block: current_block,
            ..s
        },
        EpochBoundary::Due => RewardState {
            epoch_attestations: Map::empty(),
            queue: s.queue + payments(
                listing(s.epoch_attestations).take(paid_count(s)),
                rewards,
                s.daily_base_reward_gwei,
            ),
            last_distribution_block: current_block,
            ..s
        },
    }
}

/// The index of the first payment of a block.
pub open spec fn first_index(s: RewardState, block_number: u64) -> u64 {
    saturating_product(block_number as int, s.max_rewards_per_block as int, u64::MAX as int) as u64
}

/// How many payments go into a block.
pub open spec fn payments_in_block(s: RewardState) -> int {
    if s.queue.len() <= s.max_rewards_per_block {
        s.queue.len() as int
    } else {
        s.max_rewards_per_block as int
    }
}

/// Counts attestations, and pays for them by epoch.
pub struct MobileRewardManager {
    epoch_attestations: ByteMap<48, u64>,
    reward_queue: VecDeque<Withdrawal>,
    last_distribution_block: u64,
    blocks_per_epoch: u64,
    daily_base_reward_gwei: u64,
    max_rewards_per_block: usize,
}

impl View for MobileRewardManager {
    type V = RewardState;

    closed spec fn view(&self) -> RewardState {
        RewardState {
            epoch_attestations: self.epoch_attestations@,
            queue: self.reward_queue@,
            last_distribution_block: self.last_distribution_block,
            blocks_per_epoch: self.blocks_per_epoch,
            daily_base_reward_gwei: self.daily_base_reward_gwei,
            max_rewards_per_block: self.max_rewards_per_block,
        }
    }
}

impl MobileRewardManager {
    /// No more rewards wait than the limit allows.
    pub closed spec fn wf(self) -> bool {
        self.epoch_attestations.wf() && self.reward_queue@.len() <= MAX_REWARD_QUEUE_SIZE
    }

    /// No more rewards wait than the limit allows.
    pub proof fn bounded(&self)
        requires
            self.wf(),
        ensures
            self@.queue.len() <= MAX_REWARD_QUEUE_SIZE,
    {
    }

    /// Nothing is counted yet.
    pub fn new(blocks_per_epoch: u64, daily_base_reward_gwei: u64, max_per_block: usize) -> (manager:
        Self)
        ensures
            manager.wf(),
            manager@ == (RewardState {
                epoch_attestations: Map::empty(),
                queue: Seq::empty(),
                last_distribution_block: 0,
                blocks_per_epoch,
                daily_base_reward_gwei,
                max_rewards_per_block: max_per_block,
            }),
    {
        MobileRewardManager {
            epoch_attestations: ByteMap::new(),
            reward_queue: VecDeque::new(),
            last_distribution_block: 0,
            blocks_per_epoch,
            daily_base_reward_gwei,
            max_rewards_per_block: max_per_block,
        }
    }

    /// How often a phone attested in this epoch.
    pub fn attestations_of(&self, pubkey: &PubKey) -> (count: u64)
        requires
            self.wf(),
        ensures
            count == if self@.epoch_attestations.contains_key(*pubkey) {
                self@.epoch_attestations[*pubkey]
            } else {
                0
            },
    {
        match self.epoch_attestations.get(pubkey) {
            Some(count) => *count,
            None => 0,
        }
    }

    /// A phone attested.
    pub fn record_attestation(&mut self, pubkey: &PubKey)
        requires
            old(self).wf(),
            old(self)@.epoch_attestations.contains_key(*pubkey) ==> old(
                self,
            )@.epoch_attestations[*pubkey] < u64::MAX,
        ensures
            final(self).wf(),
            final(self)@ == (RewardState {
                epoch_attestations: old(self)@.epoch_attestations.insert(
                    *pubkey,
                    if old(self)@.epoch_attestations.contains_key(*pubkey) {
                        (old(self)@.epoch_attestations[*pubkey] + 1) as u64
                    } else {
                        1
                    },
                ),
                ..old(self)@
            }),
    {
        let count: u64 = self.attestations_of(pubkey);
        self.epoch_attestations.insert(*pubkey, count + 1);
    }

    /// What a block means for the rewards.
    pub fn epoch_boundary(&self, current_block: u64) -> (boundary: EpochBoundary)
        requires
            self.wf(),
        ensures
            boundary == boundary_at(self@, current_block),
    {
        if self.blocks_per_epoch == 0 {
            return EpochBoundary::NotDue;
        }
        let current_epoch: u64 = current_block / self.blocks_per_epoch;
        let last_epoch: u64 = self.last_distribution_block / self.blocks_per_epoch;
        if current_epoch <= last_epoch && self.last_distribution_block > 0 {
            return EpochBoundary::NotDue;
        }
        if current_block < self.blocks_per_epoch {
            return EpochBoundary::NotDue;
        }
        if self.epoch_attestations.len() == 0 {
            return EpochBoundary::NoAttestations;
        }
        if self.reward_queue.len() >= MAX_REWARD_QUEUE_SIZE {
            return EpochBoundary::QueueFull;
        }
        EpochBoundary::Due
    }

    /// The phones that attested in this epoch with how often they did, by rising
    /// keys: every node pays them in this order.
    pub fn sorted_attestations(&self) -> (entries: Vec<(PubKey, u64)>)
        requires
            self.wf(),
        ensures
            entries@ == listing(self@.epoch_attestations),
            is_listing(self@.epoch_attestations, entries@),
            entries@.len() == self@.epoch_attestations.len(),
    {
        let mut entries: Vec<(PubKey, u64)> = Vec::new();
        proof {
            self.epoch_attestations.keys_are_the_domain();
        }
        let n: usize = self.epoch_attestations.len();
        let ghost keys = self.epoch_attestations.keys();
        let ghost counts = self.epoch_attestations@;
        let mut i: usize = 0;
        while i < n
            invariant
                self.wf(),
                keys == self.epoch_attestations.keys(),
                counts == self.epoch_attestations@,
                n == keys.len(),
                keys.no_duplicates(),
                i <= n,
                entries@.len() == i,
                keys_rise(entries@),
                forall|j: int|
                    0 <= j < entries@.len() ==> counts.contains_key((#[trigger] entries@[j]).0)
                        && counts[entries@[j].0] == entries@[j].1 && keys.take(i as int).contains(
                        entries@[j].0,
                    ),
                forall|j: int|
                    0 <= j < i ==> exists|k: int|
                        0 <= k < entries@.len() && (#[trigger] entries@[k]).0 == #[trigger] keys[j],
            decreases n - i,
        {
            let key: PubKey = self.epoch_attestations.key_at(i);
            let count: u64 = match self.epoch_attestations.get(&key) {
                Some(count) => *count,
                None => 0,
            };
            let ghost before = entries@;
            proof {
                assert forall|j: int| 0 <= j < before.len() implies (#[trigger] before[j]).0
                    != key by {
                    assert(keys.take(i as int).contains(before[j].0));
                    let k = choose|k: int|
                        0 <= k < keys.take(i as int).len() && keys.take(i as int)[k]
                            == before[j].0;
                    assert(keys[k] == before[j].0);
                    assert(keys[i as int] == key);
                }
            }
            let at: usize = insertion_point(&entries, &key);
            entries.insert(at, (key, count));
            proof {
                let after = entries@;
                assert(after =~= before.insert(at as int, (key, count)));
                assert forall|a: int, b: int| 0 <= a < b < after.len() implies bytes_less(
                    (#[trigger] after[a]).0@,
                    (#[trigger] after[b]).0@,
                ) by {
                    let oa = if a < at {
                        a
                    } else {
                        a - 1
                    };
                    let ob = if b < at {
                        b
                    } else {
                        b - 1
                    };
                    if a != at {
                        assert(after[a] == before[oa]);
                    }
                    if b != at {
                        assert(after[b] == before[ob]);
                    }
                }
                assert forall|j: int| 0 <= j < after.len() implies counts.contains_key(
                    (#[trigger] after[j]).0,
                ) && counts[after[j].0] == after[j].1 && keys.take(i + 1).contains(
                    after[j].0,
                ) by {
                    if j == at {
                        assert(keys.take(i + 1)[i as int] == key);
                    } else {
                        let oj = if j < at {
                            j
                        } else {
                            j - 1
                        };
                        assert(after[j] == before[oj]);
                        let k = choose|k: int|
                            0 <= k < keys.take(i as int).len() && keys.take(i as int)[k]
                                == before[oj].0;
                        assert(keys.take(i + 1)[k] == before[oj].0);
                    }
                }
                assert forall|j: int| 0 <= j < i + 1 implies exists|k: int|
                    0 <= k < after.len() && (#[trigger] after[k]).0 == #[trigger] keys[j] by {
                    if j < i {
                        let k = choose|k: int|
                            0 <= k < before.len() && (#[trigger] before[k]).0 == keys[j];
                        if k < at {
                            assert(after[k] == before[k]);
                        } else {
                            assert(after[k + 1] == before[k]);
                        }
                    } else {
                        assert(after[at as int].0 == keys[j]);
                    }
                }
            }
            i += 1;
        }
        proof {
            self.epoch_attestations.keys_are_the_domain();
            assert forall|key: PubKey| #[trigger] counts.contains_key(key) implies exists|k: int|
                0 <= k < entries@.len() && (#[trigger] entries@[k]).0 == key by {
                assert(keys.contains(key));
                let j = choose|j: int| 0 <= j < keys.len() && keys[j] == key;
                assert(keys[j] == key);
            }
            assert(is_listing(counts, entries@));
            listing_is_unique(counts, entries@, listing(counts));
        }
        entries
    }

    /// Looks at a block: where an epoch ended, the phones that attested are
    /// paid, by rising keys and as far as there is room. The rewards are what
    /// the curve gives for each phone's count, in the order of the keys.
    pub fn check_epoch_boundary(&mut self, current_block: u64, rewards: &Vec<u64>)
        requires
            old(self).wf(),
            rewards@.len() == old(self)@.epoch_attestations.len(),
        ensures
            final(self).wf(),
            final(self)@ == after_boundary(old(self)@, current_block, rewards@),
    {
        match self.epoch_boundary(current_block) {
            EpochBoundary::NotDue => {},
            EpochBoundary::QueueFull => {},
            EpochBoundary::NoAttestations => {
                self.last_distribution_block = current_block;
            },
            EpochBoundary::Due => {
                let entries = self.sorted_attestations();
                let room: usize = MAX_REWARD_QUEUE_SIZE - self.reward_queue.len();
                let n: usize = if entries.len() <= room {
                    entries.len()
                } else {
                    room
                };
                let ghost start = self.reward_queue@;
                let ghost paid = entries@.take(n as int);
                let ghost base = self.daily_base_reward_gwei;
                let mut i: usize = 0;
                assert(paid.take(0) =~= Seq::empty());
                while i < n
                    invariant
                        i <= n <= entries@.len(),
                        rewards@.len() == entries@.len(),
                        paid == entries@.take(n as int),
                        base == self.daily_base_reward_gwei,
                        start.len() + n <= MAX_REWARD_QUEUE_SIZE,
                        self.reward_queue@ == start + payments(
                            paid.take(i as int),
                            rewards@,
                            base,
                        ),
                        self.reward_queue@.len() <= start.len() + i,
                        self.epoch_attestations == old(self).epoch_attestations,
                        self.last_distribution_block == old(self).last_distribution_block,
                        self.blocks_per_epoch == old(self).blocks_per_epoch,
                        self.daily_base_reward_gwei == old(self).daily_base_reward_gwei,
                        self.max_rewards_per_block == old(self).max_rewards_per_block,
                    decreases n - i,
                {
                    let amount: u64 = min_u64(rewards[i], self.daily_base_reward_gwei);
                    let address: Address = bls_pubkey_to_address(&entries[i].0);
                    let ghost before = self.reward_queue@;
                    proof {
                        assert(paid.take(i + 1).drop_last() =~= paid.take(i as int));
                        assert(paid.take(i + 1).last() == entries@[i as int]);
                    }
                    let nowhere = same_key(&address, &ZERO_ADDRESS);
                    if amount != 0 && !nowhere {
                        self.reward_queue.push_back(
                            Withdrawal { index: 0, validator_index: 0, address, amount },
                        );
                    }
                    assert(self.reward_queue@ =~= start + payments(
                        paid.take(i + 1),
                        rewards@,
                        base,
                    ));
                    i += 1;
                }
                assert(paid.take(i as int) =~= paid);
                self.epoch_attestations.clear();
                self.last_distribution_block = current_block;
            },
        }
    }

    /// Takes the payments of a block: the oldest that wait, as many as a block
    /// may hold, numbered from the block's first index on.
    pub fn take_pending_rewards(&mut self, block_number: u64) -> (rewards: Vec<Withdrawal>)
        requires
            old(self).wf(),
            first_index(old(self)@, block_number) + payments_in_block(old(self)@) <= u64::MAX,
        ensures
            final(self).wf(),
            final(self)@ == (RewardState {
                queue: old(self)@.queue.skip(payments_in_block(old(self)@)),
                ..old(self)@
            }),
            rewards@ == Seq::new(
                payments_in_block(old(self)@) as nat,
                |i: int|
                    Withdrawal {
                        index: (first_index(old(self)@, block_number) + i) as u64,
                        ..old(self)@.queue[i]
                    },
            ),
    {
        let waiting: usize = self.reward_queue.len();
        let count: usize = if waiting <= self.max_rewards_per_block {
            waiting
        } else {
            self.max_rewards_per_block
        };
        let base: u64 = saturating_mul_u64(block_number, self.max_rewards_per_block as u64);
        let ghost all = self.reward_queue@;
        let mut rewards: Vec<Withdrawal> = Vec::new();
        let mut i: usize = 0;
        assert(all.skip(0) =~= all);
        while i < count
            invariant
                i <= count <= all.len(),
                base + count <= u64::MAX,
                self.reward_queue@ == all.skip(i as int),
                rewards@.len() == i,
                forall|j: int|
                    0 <= j < i ==> (#[trigger] rewards@[j]) == (Withdrawal {
                        index: (base + j) as u64,
                        ..all[j]
                    }),
                self.epoch_attestations == old(self).epoch_attestations,
                self.last_distribution_block == old(self).last_distribution_block,
                self.blocks_per_epoch == old(self).blocks_per_epoch,
                self.daily_base_reward_gwei == old(self).daily_base_reward_gwei,
                self.max_rewards_per_block == old(self).max_rewards_per_block,
            decreases count - i,
        {
            if let Some(next) = self.reward_queue.pop_front() {
                rewards.push(
                    Withdrawal {
                        index: base + i as u64,
                        validator_index: next.validator_index,
                        address: next.address,
                        amount: next.amount,
                    },
                );
                assert(self.reward_queue@ =~= all.skip(i + 1));
            }
            i += 1;
        }
        assert(rewards@ =~= Seq::new(
            count as nat,
            |j: int| Withdrawal { index: (base + j) as u64, ..all[j] },
        ));
        rewards
    }

    /// How many payments wait.
    pub fn pending_count(&self) -> (n: usize)
        ensures
            n == self@.queue.len(),
    {
        self.reward_queue.len()
    }

    /// How many phones attested in this epoch.
    pub fn epoch_attestation_count(&self) -> (n: usize)
        requires
            self.wf(),
        ensures
            n == self@.epoch_attestations.len(),
    {
        self.epoch_attestations.len()
    }
}

/// Where a key belongs among rising ones.
fn insertion_point(entries: &Vec<(PubKey, u64)>, key: &PubKey) -> (at: usize)
    requires
        keys_rise(entries@),
        forall|j: int| 0 <= j < entries@.len() ==> (#[trigger] entries@[j]).0 != *key,
    ensures
        at <= entries@.len(),
        forall|j: int| 0 <= j < at ==> bytes_less((#[trigger] entries@[j]).0@, key@),
        forall|j: int| at <= j < entries@.len() ==> bytes_less(key@, (#[trigger] entries@[j]).0@),
{
    let mut low: usize = 0;
    let mut high: usize = entries.len();
    while low < high
        invariant
            low <= high <= entries@.len(),
            keys_rise(entries@),
            forall|j: int| 0 <= j < entries@.len() ==> (#[trigger] entries@[j]).0 != *key,
            forall|j: int| 0 <= j < low ==> bytes_less((#[trigger] entries@[j]).0@, key@),
            forall|j: int|
                high <= j < entries@.len() ==> bytes_less(key@, (#[trigger] entries@[j]).0@),
        decreases high - low,
    {
        let mid: usize = low + (high - low) / 2;
        proof {
            let m = entries@[mid as int].0;
            bytes_less_total(m@, key@);
            if m@ == key@ {
                assert(m =~= *key);
            }
            assert forall|j: int| 0 <= j < mid && bytes_less(m@, key@) implies bytes_less(
                (#[trigger] entries@[j]).0@,
                key@,
            ) by {
                bytes_less_strict(entries@[j].0@, m@, key@);
            }
            assert forall|j: int|
                mid < j < entries@.len() && bytes_less(key@, m@) implies bytes_less(
                key@,
                (#[trigger] entries@[j]).0@,
            ) by {
                bytes_less_strict(key@, m@, entries@[j].0@);
            }
        }
        if key_less(&entries[mid].0, key) {
            low = mid + 1;
        } else {
            high = mid;
        }
    }
    low
}

/// No epoch is paid twice: after a block at which rewards were due, nothing is
/// due at any block of the same epoch.
pub proof fn no_epoch_is_paid_twice(
    s: RewardState,
    current_block: u64,
    rewards: Seq<u64>,
    later: u64,
)
    requires
        boundary_at(s, current_block) == EpochBoundary::Due || boundary_at(s, current_block)
            == EpochBoundary::NoAttestations,
        later / s.blocks_per_epoch == current_block / s.blocks_per_epoch,
    ensures
        boundary_at(after_boundary(s, current_block, rewards), later) == EpochBoundary::NotDue,
{
}

/// No payment exceeds the daily base, and none is for nothing or to nobody.
pub proof fn payments_are_capped(entries: Seq<(PubKey, u64)>, rewards: Seq<u64>, base: u64)
    ensures
        payments(entries, rewards, base).len() <= entries.len(),
        forall|i: int|
            0 <= i < payments(entries, rewards, base).len() ==> 0 < (#[trigger] payments(
                entries,
                rewards,
                base,
            )[i]).amount <= base && payments(entries, rewards, base)[i].address != ZERO_ADDRESS,
    decreases entries.len(),
{
    if entries.len() > 0 {
        payments_are_capped(entries.drop_last(), rewards, base);
        let rest = payments(entries.drop_last(), rewards, base);
        let all = payments(entries, rewards, base);
        assert forall|i: int| 0 <= i < all.len() implies 0 < (#[trigger] all[i]).amount <= base
            && all[i].address != ZERO_ADDRESS by {
            if i < rest.len() {
                assert(all[i] == rest[i]);
            }
        }
    }
}

/// The indices of payments are unique across blocks: those of an earlier block
/// are below those of a later one.
pub proof fn indices_are_unique(
    s: RewardState,
    t: RewardState,
    earlier: u64,
    later: u64,
    i: int,
    j: int,
)
    requires
        s.max_rewards_per_block == t.max_rewards_per_block,
        earlier < later,
        later * s.max_rewards_per_block <= u64::MAX,
        0 <= i < payments_in_block(s),
        0 <= j < payments_in_block(t),
    ensures
        first_index(s, earlier) + i < first_index(t, later) + j,
{
    let m = s.max_rewards_per_block as int;
    let a = earlier as int;
    let b = later as int;
    assert(a * m + m <= b * m) by (nonlinear_arith)
        requires
            a + 1 <= b,
            0 <= m,
    ;
    assert(0 <= a * m) by (nonlinear_arith)
        requires
            0 <= a,
            0 <= m,
    ;
}

/// A phone is paid at the last twenty bytes of the hash of its key.
pub proof fn phones_are_paid_at_their_address(pubkey: PubKey, address: Address)
    requires
        address@ == keccak256_of(pubkey@)@.subrange(12, 32),
    ensures
        pubkey_address(pubkey) == address,
{
    let found = pubkey_address(pubkey);
    assert(found@ == keccak256_of(pubkey@)@.subrange(12, 32));
    assert(found =~= address);
}

/// Every phone of the list is paid its reward, no more than the base, in the order
/// of the list; only a reward of nothing and the zero address are left out.
pub proof fn rewards_are_paid_in_order(
    entries: Seq<(PubKey, u64)>,
    rewards: Seq<u64>,
    base: u64,
) -> (at: Seq<int>)
    requires
        rewards.len() >= entries.len(),
    ensures
        at.len() == payments(entries, rewards, base).len(),
        forall|i: int, j: int| 0 <= i < j < at.len() ==> #[trigger] at[i] < #[trigger] at[j],
        forall|i: int|
            0 <= i < at.len() ==> {
                let k = #[trigger] at[i];
                let payment = payments(entries, rewards, base)[i];
                &&& 0 <= k < entries.len()
                &&& payment.address == pubkey_address(entries[k].0)
                &&& rewards[k] <= base ==> payment.amount == rewards[k]
                &&& rewards[k] > base ==> payment.amount == base
            },
        forall|k: int|
            0 <= k < entries.len() && rewards[k] > 0 && base > 0 && pubkey_address(
                (#[trigger] entries[k]).0,
            ) != ZERO_ADDRESS ==> at.contains(k),
    decreases entries.len(),
{
    if entries.len() == 0 {
        Seq::empty()
    } else {
        let rest = entries.drop_last();
        let last = entries.len() - 1;
        let kept = rewards_are_paid_in_order(rest, rewards, base);
        let before = payments(rest, rewards, base);
        let after = payments(entries, rewards, base);
        let at = if after.len() > before.len() {
            kept.push(last)
        } else {
            kept
        };
        assert forall|i: int| 0 <= i < kept.len() implies #[trigger] kept[i] < last
            && entries[kept[i]] == rest[kept[i]] && after[i] == before[i] by {}
        assert forall|k: int|
            0 <= k < entries.len() && rewards[k] > 0 && base > 0 && pubkey_address(
                (#[trigger] entries[k]).0,
            ) != ZERO_ADDRESS implies at.contains(k) by {
            if k < last {
                assert(rest[k] == entries[k]);
                let t = choose|t: int| 0 <= t < kept.len() && kept[t] == k;
                assert(at[t] == k);
            } else {
                assert(at[at.len() - 1] == k);
            }
        }
        at
    }
}

/// Rewards are due once a block lies in a later epoch than the last distribution,
/// the first full epoch over, somebody attested, and the queue is not full.
pub proof fn rewards_are_due_once_an_epoch(s: RewardState, current_block: u64)
    requires
        s.blocks_per_epoch > 0,
    ensures
        ({
            let n = s.blocks_per_epoch;
            let boundary = boundary_at(s, current_block);
            let over = current_block >= n && (s.last_distribution_block == 0
                || s.last_distribution_block / n < current_block / n);
            &&& boundary is NotDue <==> !over
            &&& boundary is NoAttestations <==> over && s.epoch_attestations.len() == 0
            &&& boundary is QueueFull <==> over && s.epoch_attestations.len() > 0 && s.queue.len()
                >= 1_000_000
            &&& boundary is Due <==> over && s.epoch_attestations.len() > 0 && s.queue.len()
                < 1_000_000
        }),
        boundary_at(RewardState { blocks_per_epoch: 0, ..s }, current_block) is NotDue,
{
}

/// A due distribution pays behind what waits, for as many phones as the queue has
/// room, starts a new count, and is remembered; no other boundary pays anything.
pub proof fn distributions_are_queued(s: RewardState, current_block: u64, rewards: Seq<u64>)
    requires
        s.epoch_attestations.dom().finite(),
        s.queue.len() <= 1_000_000,
    ensures
        ({
            let after = after_boundary(s, current_block, rewards);
            let boundary = boundary_at(s, current_block);
            let room = 1_000_000 - s.queue.len();
            let all = listing(s.epoch_attestations);
            &&& boundary is NotDue || boundary is QueueFull ==> after == s
            &&& boundary is NoAttestations ==> after.queue == s.queue
                && after.last_distribution_block == current_block
            &&& boundary is Due ==> {
                &&& after.last_distribution_block == current_block
                &&& after.epoch_attestations == Map::<PubKey, u64>::empty()
                &&& after.queue.take(s.queue.len() as int) == s.queue
                &&& s.epoch_attestations.len() <= room && all.len() == s.epoch_attestations.len()
                    ==> after.queue.skip(s.queue.len() as int) == payments(
                    all,
                    rewards,
                    s.daily_base_reward_gwei,
                )
                &&& s.epoch_attestations.len() > room ==> after.queue.skip(s.queue.len() as int)
                    == payments(all.take(room), rewards, s.daily_base_reward_gwei)
            }
            &&& after.blocks_per_epoch == s.blocks_per_epoch && after.max_rewards_per_block
                == s.max_rewards_per_block && after.daily_base_reward_gwei
                == s.daily_base_reward_gwei
        }),
{
    let after = after_boundary(s, current_block, rewards);
    let all = listing(s.epoch_attestations);
    if boundary_at(s, current_block) is Due {
        assert(after.queue.take(s.queue.len() as int) =~= s.queue);
        assert(all.take(all.len() as int) =~= all);
        let paid = payments(all.take(paid_count(s)), rewards, s.daily_base_reward_gwei);
        assert(after.queue.skip(s.queue.len() as int) =~= paid);
    }
}

/// A block pays what waits, but no more than its limit; its payments are numbered
/// from the block's number times that limit.
pub proof fn blocks_pay_up_to_their_limit(s: RewardState, block_number: u64)
    ensures
        payments_in_block(s) <= s.queue.len(),
        payments_in_block(s) <= s.max_rewards_per_block,
        payments_in_block(s) == s.queue.len() || payments_in_block(s) == s.max_rewards_per_block,
        block_number * s.max_rewards_per_block <= u64::MAX ==> first_index(s, block_number)
            == block_number * s.max_rewards_per_block,
        block_number * s.max_rewards_per_block > u64::MAX ==> first_index(s, block_number)
            == u64::MAX,
{
}

/// The attestations of an epoch are listed by their phones' keys, the smallest
/// first, each with its count, and none is missing.
pub proof fn listings_are_sorted_by_key(counts: Map<PubKey, u64>, entries: Seq<(PubKey, u64)>)
    requires
        is_listing(counts, entries),
    ensures
        forall|i: int, j: int|
            0 <= i < j < entries.len() ==> bytes_less(
                (#[trigger] entries[i]).0@,
                (#[trigger] entries[j]).0@,
            ),
        forall|i: int|
            0 <= i < entries.len() ==> counts.contains_key((#[trigger] entries[i]).0)
                && counts[entries[i].0] == entries[i].1,
        forall|key: PubKey| #[trigger]
            counts.contains_key(key) ==> entries.contains((key, counts[key])),
        listing(counts) == entries,
{
    assert forall|key: PubKey| #[trigger] counts.contains_key(key) implies entries.contains(
        (key, counts[key]),
    ) by {
        let i = choose|i: int| 0 <= i < entries.len() && (#[trigger] entries[i]).0 == key;
        assert(entries[i] == (key, counts[key]));
    }
    assert(is_listing(counts, listing(counts)));
    listing_is_unique(counts, entries, listing(counts));
}

} // verus!
