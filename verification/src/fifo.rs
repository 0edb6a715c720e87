//! A map of hashes that remembers the order in which its keys came.
use crate::keyed::distinct_keys;
use crate::primitives::{same_key, B256};
use vstd::prelude::*;

verus! {

/// A key is among the entries.
pub open spec fn fifo_has<V>(entries: Seq<(B256, V)>, key: B256) -> bool {
    exists|i: int| 0 <= i < entries.len() && (#[trigger] entries[i]).0 == key
}

/// Where a key stands among the entries.
pub open spec fn fifo_index<V>(entries: Seq<(B256, V)>, key: B256) -> int {
    choose|i: int| 0 <= i < entries.len() && (#[trigger] entries[i]).0 == key
}

/// The value under a key.
pub open spec fn fifo_value<V>(entries: Seq<(B256, V)>, key: B256) -> V {
    entries[fifo_index(entries, key)].1
}

/// The entries with another value under a key that is there.
pub open spec fn fifo_with<V>(entries: Seq<(B256, V)>, key: B256, value: V) -> Seq<(B256, V)> {
    entries.update(fifo_index(entries, key), (key, value))
}

/// A map of hashes, its entries in the order in which they came.
pub struct FifoMap<V> {
    entries: Vec<(B256, V)>,
}

impl<V> View for FifoMap<V> {
    type V = Seq<(B256, V)>;

    closed spec fn view(&self) -> Seq<(B256, V)> {
        self.entries@
    }
}

impl<V> FifoMap<V> {
    /// No key stands in the map twice.
    pub open spec fn wf(self) -> bool {
        distinct_keys(self@)
    }

    /// The empty map.
    pub fn new() -> (m: Self)
        ensures
            m.wf(),
            m@ == Seq::<(B256, V)>::empty(),
    {
        FifoMap { entries: Vec::new() }
    }

    /// How many entries there are.
    pub fn len(&self) -> (n: usize)
        ensures
            n == self@.len(),
    {
        self.entries.len()
    }

    fn find(&self, key: &B256) -> (at: Option<usize>)
        requires
            self.wf(),
        ensures
            match at {
                Some(i) => i < self@.len() && self@[i as int].0 == *key && fifo_has(self@, *key)
                    && fifo_index(self@, *key) == i,
                None => !fifo_has(self@, *key),
            },
    {
        let mut i: usize = 0;
        while i < self.entries.len()
            invariant
                self.wf(),
                i <= self@.len(),
                forall|j: int| 0 <= j < i ==> (#[trigger] self@[j]).0 != *key,
            decreases self@.len() - i,
        {
            if same_key(&self.entries[i].0, key) {
                proof {
                    assert(self@[i as int].0 == *key);
                    let k = fifo_index(self@, *key);
                    assert(self@[k].0 == *key);
                }
                return Some(i);
            }
            i += 1;
        }
        None
    }

    /// Whether a key is in the map.
    pub fn contains_key(&self, key: &B256) -> (present: bool)
        requires
            self.wf(),
        ensures
            present == fifo_has(self@, *key),
    {
        self.find(key).is_some()
    }

    /// The value under a key.
    pub fn get(&self, key: &B256) -> (value: Option<&V>)
        requires
            self.wf(),
        ensures
            match value {
                Some(v) => fifo_has(self@, *key) && *v == fifo_value(self@, *key),
                None => !fifo_has(self@, *key),
            },
    {
        match self.find(key) {
            Some(i) => Some(&self.entries[i].1),
            None => None,
        }
    }

    /// The entry at `i`, counted from the oldest.
    pub fn entry_at(&self, i: usize) -> (entry: &(B256, V))
        requires
            i < self@.len(),
        ensures
            *entry == self@[i as int],
    {
        &self.entries[i]
    }

    /// Puts another value under a key that is there.
    pub fn replace(&mut self, key: B256, value: V)
        requires
            old(self).wf(),
            fifo_has(old(self)@, key),
        ensures
            final(self).wf(),
            final(self)@ == fifo_with(old(self)@, key, value),
    {
        if let Some(i) = self.find(&key) {
            self.entries[i] = (key, value);
        }
    }

    /// Puts a new key behind the others.
    pub fn push(&mut self, key: B256, value: V)
        requires
            old(self).wf(),
            !fifo_has(old(self)@, key),
        ensures
            final(self).wf(),
            final(self)@ == old(self)@.push((key, value)),
    {
        let ghost before = self@;
        self.entries.push((key, value));
        proof {
            assert forall|i: int| 0 <= i < before.len() implies (#[trigger] before[i]).0 != key by {}
            assert(distinct_keys(self@));
        }
    }

    /// Takes the oldest entry out.
    pub fn pop_oldest(&mut self)
        requires
            old(self).wf(),
        ensures
            final(self).wf(),
            final(self)@ == if old(self)@.len() > 0 {
                old(self)@.drop_first()
            } else {
                old(self)@
            },
    {
        let ghost before = self@;
        if self.entries.len() > 0 {
            let _ = self.entries.remove(0);
            assert(self@ =~= before.drop_first());
            assert(distinct_keys(self@)) by {
                assert forall|i: int, j: int|
                    0 <= i < self@.len() && 0 <= j < self@.len() && i != j implies (
                #[trigger] self@[i]).0 != (#[trigger] self@[j]).0 by {
                    assert(self@[i] == before[i + 1] && self@[j] == before[j + 1]);
                }
            }
        }
    }
}

} // verus!
