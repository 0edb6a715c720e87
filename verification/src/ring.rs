//! A buffer that keeps the newest entries.
use std::collections::VecDeque;
use vstd::prelude::*;

verus! {

/// The entries after `item` came in: the oldest leaves where the buffer is full.
pub open spec fn ring_push<T>(items: Seq<T>, limit: int, item: T) -> Seq<T> {
    if items.len() >= limit && items.len() > 0 {
        items.drop_first().push(item)
    } else {
        items.push(item)
    }
}

/// The entries after several came in, oldest first.
pub open spec fn ring_push_all<T>(items: Seq<T>, limit: int, new: Seq<T>) -> Seq<T>
    decreases new.len(),
{
    if new.len() == 0 {
        items
    } else {
        ring_push(ring_push_all(items, limit, new.drop_last()), limit, new.last())
    }
}

/// A buffer never holds more than its limit, or one entry where the limit is zero.
pub open spec fn ring_bound(limit: int) -> int {
    if limit == 0 {
        1
    } else {
        limit
    }
}

/// Entries in the order in which they came, at most `limit` of them.
#[derive(Debug)]
pub struct Ring<T> {
    items: VecDeque<T>,
    limit: usize,
}

impl<T> View for Ring<T> {
    type V = Seq<T>;

    closed spec fn view(&self) -> Seq<T> {
        self.items@
    }
}

impl<T> Ring<T> {
    /// How many entries are kept.
    pub closed spec fn limit(self) -> usize {
        self.limit
    }

    /// The buffer is within its limit.
    pub open spec fn wf(self) -> bool {
        self@.len() <= ring_bound(self.limit() as int)
    }

    /// An empty buffer.
    pub fn new(limit: usize) -> (ring: Self)
        ensures
            ring@ == Seq::<T>::empty(),
            ring.limit() == limit,
            ring.wf(),
    {
        Ring { items: VecDeque::new(), limit }
    }

    /// A buffer of these entries, oldest first.
    pub fn of_items(items: Vec<T>, limit: usize) -> (ring: Self)
        ensures
            ring@ == items@,
            ring.limit() == limit,
    {
        let ghost all = items@;
        let mut items = items;
        let mut queue: VecDeque<T> = VecDeque::new();
        while items.len() > 0
            invariant
                all =~= items@ + queue@,
            decreases items@.len(),
        {
            let ghost before = items@;
            let ghost held = queue@;
            if let Some(item) = items.pop() {
                queue.push_front(item);
                assert(items@ + queue@ =~= before + held);
            }
        }
        assert(queue@ =~= all);
        Ring { items: queue, limit }
    }

    /// Takes `item` in; the oldest entry leaves where the buffer is full.
    pub fn push(&mut self, item: T)
        ensures
            final(self)@ == ring_push(old(self)@, old(self).limit() as int, item),
            final(self).limit() == old(self).limit(),
            old(self).wf() ==> final(self).wf(),
    {
        if self.items.len() >= self.limit {
            let ghost before = self.items@;
            let popped = self.items.pop_front();
            assert(popped is Some ==> self.items@ =~= before.drop_first());
        }
        self.items.push_back(item);
    }

    /// How many entries there are.
    pub fn len(&self) -> (n: usize)
        ensures
            n == self@.len(),
    {
        self.items.len()
    }

    /// The entry at `i`, counted from the oldest.
    pub fn get(&self, i: usize) -> (item: &T)
        requires
            i < self@.len(),
        ensures
            *item == self@[i as int],
    {
        &self.items[i]
    }

    /// Puts `item` in the place of the entry at `i`.
    pub fn set(&mut self, i: usize, item: T)
        requires
            i < old(self)@.len(),
        ensures
            final(self)@ == old(self)@.update(i as int, item),
            final(self).limit() == old(self).limit(),
    {
        let ghost before = self.items@;
        let _ = self.items.remove(i);
        self.items.insert(i, item);
        assert(self.items@ =~= before.update(i as int, item));
    }

    /// Takes the oldest entry out.
    pub fn pop(&mut self) -> (item: Option<T>)
        ensures
            final(self).limit() == old(self).limit(),
            match item {
                Some(x) => old(self)@.len() > 0 && x == old(self)@[0] && final(self)@ == old(
                    self,
                )@.drop_first(),
                None => old(self)@.len() == 0 && final(self)@ == old(self)@,
            },
    {
        let ghost before = self.items@;
        let item = self.items.pop_front();
        assert(item is Some ==> self.items@ =~= before.drop_first());
        item
    }

    /// Takes everything out.
    pub fn clear(&mut self)
        ensures
            final(self)@ == Seq::<T>::empty(),
            final(self).limit() == old(self).limit(),
    {
        self.items.clear();
    }
}

/// Pushing keeps the newest entries, in order: what leaves is the oldest.
pub proof fn ring_keeps_newest<T>(items: Seq<T>, limit: int, item: T)
    requires
        0 < limit,
        items.len() <= limit,
    ensures
        ring_push(items, limit, item).len() <= limit,
        ring_push(items, limit, item).last() == item,
        ring_push(items, limit, item).drop_last().is_suffix_of(items),
{
    let after = ring_push(items, limit, item);
    if items.len() >= limit {
        assert(after.drop_last() =~= items.drop_first());
    } else {
        assert(after.drop_last() =~= items);
    }
}

/// Of several entries that come in, the last is kept last; all are kept where there
/// is room, behind those that were there.
pub proof fn all_are_kept_where_there_is_room<T>(items: Seq<T>, limit: int, new: Seq<T>)
    requires
        0 < limit,
        items.len() <= limit,
    ensures
        ({
            let after = ring_push_all(items, limit, new);
            &&& after.len() <= limit
            &&& new.len() == 0 ==> after == items
            &&& new.len() > 0 ==> after.len() > 0 && after.last() == new.last()
            &&& items.len() + new.len() <= limit ==> after == items + new
            &&& items.len() + new.len() > limit ==> after.len() == limit
        }),
    decreases new.len(),
{
    if new.len() > 0 {
        let rest = new.drop_last();
        all_are_kept_where_there_is_room(items, limit, rest);
        let before = ring_push_all(items, limit, rest);
        let after = ring_push_all(items, limit, new);
        if items.len() + new.len() <= limit {
            assert(after =~= items + new);
        }
    } else {
        assert(items + new =~= items);
    }
}

/// A full buffer gives up its oldest entry, and only that.
pub proof fn the_oldest_leaves<T>(items: Seq<T>, limit: int, item: T)
    requires
        0 < limit,
        items.len() <= limit,
    ensures
        items.len() < limit ==> ring_push(items, limit, item).drop_last() == items,
        items.len() == limit ==> ring_push(items, limit, item).drop_last() == items.drop_first(),
        ring_push(items, limit, item).last() == item,
{
    if items.len() < limit {
        assert(ring_push(items, limit, item).drop_last() =~= items);
    } else {
        assert(ring_push(items, limit, item).drop_last() =~= items.drop_first());
    }
}

} // verus!
