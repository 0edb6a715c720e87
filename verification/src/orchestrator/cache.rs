//! Block data that has arrived but is not finalized, and blocks whose data
//! consensus waits for.
use crate::keyed::{is_least_key, ByteMap, ByteSet};
use crate::primitives::{bytes_less, bytes_less_strict, bytes_less_total, B256};
use vstd::prelude::*;

verus! {

/// The most blocks whose data is cached.
pub const MAX_PENDING_BLOCK_DATA: usize = 16;

/// The cached data by block hash, and the blocks that are waited for.
#[verifier::ext_equal]
pub ghost struct PendingState {
    pub data: Map<B256, Seq<u8>>,
    pub executions: Set<B256>,
}

/// Nothing is cached and nothing waited for.
pub open spec fn nothing_pending() -> PendingState {
    PendingState { data: Map::empty(), executions: Set::empty() }
}

/// The key that leaves a full cache: the least in byte order, the protected
/// ones left out.
pub open spec fn victim(data: Map<B256, Seq<u8>>, protected: Seq<B256>) -> B256 {
    choose|key: B256| is_least_key(data, protected, key)
}

/// Every cached block is protected.
pub open spec fn all_protected(data: Map<B256, Seq<u8>>, protected: Seq<B256>) -> bool {
    forall|key: B256| #[trigger] data.contains_key(key) ==> protected.contains(key)
}

/// The cache with room for one more block, where a block can leave.
pub open spec fn with_room(data: Map<B256, Seq<u8>>, protected: Seq<B256>) -> Map<B256, Seq<u8>> {
    if data.len() >= MAX_PENDING_BLOCK_DATA && !all_protected(data, protected) {
        data.remove(victim(data, protected))
    } else {
        data
    }
}

/// A block can be taken in: there is room or an unprotected block to leave.
pub open spec fn has_room(data: Map<B256, Seq<u8>>, protected: Seq<B256>) -> bool {
    data.len() < MAX_PENDING_BLOCK_DATA || !all_protected(data, protected)
}

/// The cache after a block of this leader's own: data that is there stays.
pub open spec fn with_own_block(data: Map<B256, Seq<u8>>, hash: B256, block: Seq<u8>) -> Map<
    B256,
    Seq<u8>,
> {
    if data.contains_key(hash) {
        data
    } else {
        with_room(data, Seq::empty()).insert(hash, block)
    }
}

/// The cache after several blocks of this leader's own, oldest first.
pub open spec fn with_own_blocks(
    data: Map<B256, Seq<u8>>,
    blocks: Seq<(B256, Seq<u8>)>,
) -> Map<B256, Seq<u8>>
    decreases blocks.len(),
{
    if blocks.len() == 0 {
        data
    } else {
        with_own_block(with_own_blocks(data, blocks.drop_last()), blocks.last().0, blocks.last().1)
    }
}

/// The cached blocks and the awaited ones.
pub struct PendingBlocks {
    data: ByteMap<32, Vec<u8>>,
    executions: ByteSet<32>,
}

impl View for PendingBlocks {
    type V = PendingState;

    closed spec fn view(&self) -> PendingState {
        PendingState {
            data: self.data@.map_values(|bytes: Vec<u8>| bytes@),
            executions: self.executions@,
        }
    }
}

impl PendingBlocks {
    /// The cache is within its limit.
    pub closed spec fn wf(self) -> bool {
        self.data.wf() && self.executions.wf() && self.data@.dom().finite() && self.data@.len()
            <= MAX_PENDING_BLOCK_DATA
    }

    /// Nothing is pending.
    pub fn new() -> (pending: Self)
        ensures
            pending.wf(),
            pending@ == nothing_pending(),
    {
        let pending = PendingBlocks { data: ByteMap::new(), executions: ByteSet::new() };
        assert(pending@.data =~= Map::empty());
        pending
    }

    /// The cache never holds more than its limit.
    pub proof fn bounded(&self)
        requires
            self.wf(),
        ensures
            self@.data.dom().finite(),
            self@.data.len() <= MAX_PENDING_BLOCK_DATA,
    {
        assert(self@.data.dom() =~= self.data@.dom());
    }

    /// Whether a block's data is cached.
    pub fn has_data(&self, hash: &B256) -> (has: bool)
        requires
            self.wf(),
        ensures
            has == self@.data.contains_key(*hash),
    {
        self.data.contains_key(hash)
    }

    /// A block's data, where it is cached.
    pub fn data_of(&self, hash: &B256) -> (data: Option<&Vec<u8>>)
        requires
            self.wf(),
        ensures
            match data {
                Some(d) => self@.data.contains_key(*hash) && d@ == self@.data[*hash],
                None => !self@.data.contains_key(*hash),
            },
    {
        self.data.get(hash)
    }

    /// Whether a block is waited for.
    pub fn is_awaited(&self, hash: &B256) -> (awaited: bool)
        ensures
            awaited == self@.executions.contains(*hash),
    {
        self.executions.contains(hash)
    }

    fn make_room(&mut self, protected: &[B256]) -> (room: bool)
        requires
            old(self).wf(),
        ensures
            final(self)@ == (PendingState {
                data: with_room(old(self)@.data, protected@),
                ..old(self)@
            }),
            room == has_room(old(self)@.data, protected@),
            final(self).data.wf(),
            final(self).executions.wf(),
            final(self).data@.dom().finite(),
            final(self).data@.len() <= MAX_PENDING_BLOCK_DATA,
            room ==> final(self).data@.len() < MAX_PENDING_BLOCK_DATA,
    {
        let ghost before = self@.data;
        assert(before.dom() =~= self.data@.dom());
        if self.data.len() < MAX_PENDING_BLOCK_DATA {
            return true;
        }
        match self.data.least_key(protected) {
            Some(key) => {
                proof {
                    assert(is_least_key(before, protected@, key)) by {
                        assert(is_least_key(self.data@, protected@, key));
                        assert forall|other: B256| #[trigger]
                            before.contains_key(other) && !protected@.contains(
                                other,
                            ) implies other == key || bytes_less(
                            key@,
                            other@,
                        ) by {
                            assert(self.data@.contains_key(other));
                        }
                    }
                    least_is_unique(before, protected@, key);
                    assert(!all_protected(before, protected@));
                }
                let _ = self.data.remove(&key);
                assert(self@.data =~= before.remove(key));
                true
            },
            None => {
                assert(all_protected(before, protected@)) by {
                    assert forall|key: B256| #[trigger] before.contains_key(
                        key,
                    ) implies protected@.contains(key) by {
                        assert(self.data@.contains_key(key));
                    }
                }
                false
            },
        }
    }

    /// Caches the data of a block that is not cached yet. Where the cache is
    /// full the least unprotected block leaves; where there is none, nothing is
    /// cached.
    pub fn cache_pending_block_data(
        &mut self,
        hash: B256,
        data: Vec<u8>,
        protected: &[B256],
    ) -> (cached: bool)
        requires
            old(self).wf(),
            !old(self)@.data.contains_key(hash),
        ensures
            final(self).wf(),
            cached == has_room(old(self)@.data, protected@),
            final(self)@ == (PendingState {
                data: if cached {
                    with_room(old(self)@.data, protected@).insert(hash, data@)
                } else {
                    old(self)@.data
                },
                ..old(self)@
            }),
    {
        let ghost before = self@;
        let room = self.make_room(protected);
        if room {
            let ghost bytes = data@;
            let ghost with_space = self@.data;
            proof {
                assert(with_space.dom() =~= self.data@.dom());
            }
            self.data.insert(hash, data);
            assert(self@.data =~= with_space.insert(hash, bytes));
        } else {
            assert(self@.data =~= before.data);
        }
        room
    }

    /// Caches the data of this leader's own block, where it is not cached: the
    /// least block leaves a full cache.
    pub fn cache_own_block(&mut self, hash: B256, data: Vec<u8>)
        requires
            old(self).wf(),
        ensures
            final(self).wf(),
            final(self)@ == (PendingState {
                data: with_own_block(old(self)@.data, hash, data@),
                ..old(self)@
            }),
    {
        if self.data.contains_key(&hash) {
            return;
        }
        proof {
            self.bounded();
            if self@.data.len() >= MAX_PENDING_BLOCK_DATA {
                if self@.data.dom() =~= Set::empty() {
                    assert(self@.data.len() == 0);
                } else {
                    let key = self@.data.dom().choose();
                    assert(self@.data.contains_key(key));
                    assert(!Seq::<B256>::empty().contains(key));
                }
            }
        }
        let none: [B256; 0] = [];
        assert(none@ =~= Seq::<B256>::empty());
        let _ = self.cache_pending_block_data(hash, data, &none);
    }

    /// Takes a block's data out of the cache.
    pub fn take(&mut self, hash: &B256) -> (data: Option<Vec<u8>>)
        requires
            old(self).wf(),
        ensures
            final(self).wf(),
            final(self)@ == (PendingState { data: old(self)@.data.remove(*hash), ..old(self)@ }),
            match data {
                Some(d) => old(self)@.data.contains_key(*hash) && d@ == old(self)@.data[*hash],
                None => !old(self)@.data.contains_key(*hash),
            },
    {
        let ghost before = self@.data;
        let taken = self.data.remove(hash);
        assert(self@.data =~= before.remove(*hash));
        taken
    }

    /// Forgets all cached data and awaited blocks.
    pub fn clear(&mut self)
        ensures
            final(self).wf(),
            final(self)@ == nothing_pending(),
    {
        self.data.clear();
        self.executions.clear();
        assert(self@.data =~= Map::empty());
    }

    /// Forgets the awaited blocks.
    pub fn clear_awaited(&mut self)
        requires
            old(self).wf(),
        ensures
            final(self).wf(),
            final(self)@ == (PendingState { executions: Set::empty(), ..old(self)@ }),
    {
        self.executions.clear();
    }

    /// Waits for a block's data.
    pub fn await_block(&mut self, hash: B256)
        requires
            old(self).wf(),
        ensures
            final(self).wf(),
            final(self)@ == (PendingState {
                executions: old(self)@.executions.insert(hash),
                ..old(self)@
            }),
    {
        let _ = self.executions.insert(hash);
    }

    /// Waits no longer for a block's data.
    pub fn arrived(&mut self, hash: &B256)
        requires
            old(self).wf(),
        ensures
            final(self).wf(),
            final(self)@ == (PendingState {
                executions: old(self)@.executions.remove(*hash),
                ..old(self)@
            }),
    {
        let _ = self.executions.remove(hash);
    }
}

/// There is at most one least key.
proof fn least_is_unique(data: Map<B256, Seq<u8>>, protected: Seq<B256>, key: B256)
    requires
        is_least_key(data, protected, key),
    ensures
        victim(data, protected) == key,
{
    let other = victim(data, protected);
    assert(is_least_key(data, protected, other));
    if other != key {
        bytes_less_strict(key@, other@, key@);
    }
}

/// A block that was just cached is there, and so is every protected block that
/// was there before.
pub proof fn cached_and_protected_stay(
    data: Map<B256, Seq<u8>>,
    protected: Seq<B256>,
    hash: B256,
    block: Seq<u8>,
    kept: B256,
)
    requires
        has_room(data, protected),
        data.contains_key(kept),
        protected.contains(kept),
        kept != hash,
        data.dom().finite(),
    ensures
        with_room(data, protected).insert(hash, block).contains_key(hash),
        with_room(data, protected).insert(hash, block)[hash] == block,
        with_room(data, protected).insert(hash, block).contains_key(kept),
        with_room(data, protected).insert(hash, block)[kept] == data[kept],
{
    if data.len() >= MAX_PENDING_BLOCK_DATA && !all_protected(data, protected) {
        least_exists(data, protected);
        assert(is_least_key(data, protected, victim(data, protected)));
    }
}

/// Among finitely many keys, of which some are unprotected, one of those is the
/// least.
proof fn least_exists(data: Map<B256, Seq<u8>>, protected: Seq<B256>)
    requires
        data.dom().finite(),
        !all_protected(data, protected),
    ensures
        exists|key: B256| is_least_key(data, protected, key),
    decreases data.dom().len(),
{
    let first = choose|key: B256| #[trigger] data.contains_key(key) && !protected.contains(key);
    let rest = data.remove(first);
    assert(rest.dom() =~= data.dom().remove(first));
    if all_protected(rest, protected) {
        assert forall|other: B256| #[trigger]
            data.contains_key(other) && !protected.contains(other) implies other == first by {
            if other != first {
                assert(rest.contains_key(other));
            }
        }
        assert(is_least_key(data, protected, first));
    } else {
        least_exists(rest, protected);
        let next = choose|key: B256| is_least_key(rest, protected, key);
        bytes_less_total(first@, next@);
        if first@ == next@ {
            assert(first =~= next);
        }
        let least = if bytes_less(first@, next@) {
            first
        } else {
            next
        };
        assert forall|other: B256| #[trigger]
            data.contains_key(other) && !protected.contains(other) implies other == least
            || bytes_less(least@, other@) by {
            if other != first {
                assert(rest.contains_key(other));
                bytes_less_strict(first@, next@, other@);
            }
        }
        assert(rest.contains_key(next));
        assert(is_least_key(data, protected, least));
    }
}

/// Making room costs at most one block, only where there are sixteen, and never a
/// protected one. The others stay as they are.
pub proof fn room_costs_one_block(data: Map<B256, Seq<u8>>, protected: Seq<B256>, key: B256)
    requires
        data.dom().finite(),
    ensures
        ({
            let after = with_room(data, protected);
            &&& after.contains_key(key) ==> data.contains_key(key) && after[key] == data[key]
            &&& data.contains_key(key) && (data.len() < 16 || protected.contains(key))
                ==> after.contains_key(key)
            &&& data.len() <= after.len() + 1
            &&& after.len() <= data.len()
            &&& data.len() >= 16 && (exists|k: B256| #[trigger]
                data.contains_key(k) && !protected.contains(k)) ==> after.len() == data.len() - 1
                && has_room(data, protected)
            &&& data.len() < 16 ==> after == data && has_room(data, protected)
            &&& data.len() >= 16 && (forall|k: B256| #[trigger]
                data.contains_key(k) ==> protected.contains(k)) ==> !has_room(data, protected)
                && after == data
        }),
{
    if data.len() >= 16 && exists|k: B256| #[trigger]
        data.contains_key(k) && !protected.contains(k) {
        least_exists(data, protected);
        assert(is_least_key(data, protected, victim(data, protected)));
    }
}

/// The leader's own block is always cached: a block that is there stays, and a
/// new one gets in, at the cost of one other where there are sixteen.
pub proof fn own_blocks_get_in(data: Map<B256, Seq<u8>>, hash: B256, block: Seq<u8>, key: B256)
    requires
        data.dom().finite(),
        data.len() <= 16,
    ensures
        ({
            let after = with_own_block(data, hash, block);
            &&& after.contains_key(hash)
            &&& after[hash] == if data.contains_key(hash) {
                data[hash]
            } else {
                block
            }
            &&& data.contains_key(hash) ==> after == data
            &&& key != hash && after.contains_key(key) ==> data.contains_key(key) && after[key]
                == data[key]
            &&& data.contains_key(key) && data.len() < 16 ==> after.contains_key(key)
            &&& after.dom().finite()
            &&& data.len() <= after.len() <= 16
        }),
{
    room_costs_one_block(data, Seq::empty(), key);
    room_costs_one_block(data, Seq::empty(), hash);
    if data.len() >= 16 {
        assert(exists|k: B256| #[trigger] data.contains_key(k) && !Seq::<B256>::empty().contains(k))
            by {
            let k = data.dom().choose();
            assert(data.contains_key(k));
        }
    }
}

/// Of the leader's own blocks that came back the last one is cached.
pub proof fn the_last_own_block_is_cached(
    data: Map<B256, Seq<u8>>,
    blocks: Seq<(B256, Seq<u8>)>,
)
    requires
        data.dom().finite(),
        data.len() <= 16,
    ensures
        with_own_blocks(data, blocks).dom().finite(),
        with_own_blocks(data, blocks).len() <= 16,
        blocks.len() == 0 ==> with_own_blocks(data, blocks) == data,
        blocks.len() > 0 ==> with_own_blocks(data, blocks).contains_key(blocks.last().0),
        blocks.len() == 1 && !data.contains_key(blocks[0].0) ==> with_own_blocks(
            data,
            blocks,
        )[blocks[0].0] == blocks[0].1,
    decreases blocks.len(),
{
    if blocks.len() > 0 {
        the_last_own_block_is_cached(data, blocks.drop_last());
        own_blocks_get_in(
            with_own_blocks(data, blocks.drop_last()),
            blocks.last().0,
            blocks.last().1,
            blocks.last().0,
        );
    }
}

/// Nothing is pending: no data, and nothing waited for.
pub proof fn nothing_pending_is_empty(hash: B256)
    ensures
        !nothing_pending().data.contains_key(hash),
        !nothing_pending().executions.contains(hash),
{
}

} // verus!
