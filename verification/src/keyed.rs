//! Collections keyed by fixed-size byte strings: a map and a set.
use crate::primitives::{bytes_less, bytes_less_strict, bytes_less_total, key_less, same_key};
use vstd::prelude::*;

verus! {

/// The position of `key` among `entries`.
spec fn at_key<const N: usize, V>(entries: Seq<([u8; N], V)>, key: [u8; N], i: int) -> bool {
    0 <= i < entries.len() && entries[i].0 == key
}

/// No key occurs twice.
pub open spec fn distinct_keys<const N: usize, V>(entries: Seq<([u8; N], V)>) -> bool {
    forall|i: int, j: int|
        0 <= i < entries.len() && 0 <= j < entries.len() && i != j ==> (#[trigger] entries[i]).0
            != (#[trigger] entries[j]).0
}

/// The map that a list of pairs with distinct keys stands for.
spec fn pairs_as_map<const N: usize, V>(entries: Seq<([u8; N], V)>) -> Map<[u8; N], V> {
    Map::new(
        |key: [u8; N]| exists|i: int| at_key(entries, key, i),
        |key: [u8; N]| entries[choose|i: int| at_key(entries, key, i)].1,
    )
}

proof fn pairs_entry<const N: usize, V>(entries: Seq<([u8; N], V)>, i: int)
    requires
        distinct_keys(entries),
        0 <= i < entries.len(),
    ensures
        pairs_as_map(entries).contains_key(entries[i].0),
        pairs_as_map(entries)[entries[i].0] == entries[i].1,
{
    assert(at_key(entries, entries[i].0, i));
}

proof fn pairs_len<const N: usize, V>(entries: Seq<([u8; N], V)>)
    requires
        distinct_keys(entries),
    ensures
        pairs_as_map(entries).dom().finite(),
        pairs_as_map(entries).len() == entries.len(),
    decreases entries.len(),
{
    if entries.len() == 0 {
        assert(pairs_as_map(entries) =~= Map::<[u8; N], V>::empty());
    } else {
        let rest = entries.drop_last();
        pairs_len(rest);
        pairs_push(rest, entries.last().0, entries.last().1);
        assert(rest.push(entries.last()) =~= entries);
    }
}

proof fn pairs_push<const N: usize, V>(entries: Seq<([u8; N], V)>, key: [u8; N], value: V)
    requires
        distinct_keys(entries),
        forall|i: int| 0 <= i < entries.len() ==> (#[trigger] entries[i]).0 != key,
    ensures
        distinct_keys(entries.push((key, value))),
        pairs_as_map(entries.push((key, value))) == pairs_as_map(entries).insert(key, value),
        !pairs_as_map(entries).contains_key(key),
{
    let after = entries.push((key, value));
    assert(distinct_keys(after));
    assert forall|k: [u8; N]| #[trigger]
        pairs_as_map(after).contains_key(k) <==> pairs_as_map(entries).insert(
            key,
            value,
        ).contains_key(k) by {
        if pairs_as_map(after).contains_key(k) {
            let i = choose|i: int| at_key(after, k, i);
            if i < entries.len() {
                assert(at_key(entries, k, i));
            }
        }
        if pairs_as_map(entries).contains_key(k) {
            let i = choose|i: int| at_key(entries, k, i);
            assert(at_key(after, k, i));
        }
        if k == key {
            assert(at_key(after, k, entries.len() as int));
        }
    }
    assert forall|k: [u8; N]| #[trigger]
        pairs_as_map(after).contains_key(k) implies pairs_as_map(after)[k] == pairs_as_map(
        entries,
    ).insert(key, value)[k] by {
        let i = choose|i: int| at_key(after, k, i);
        pairs_entry(after, i);
        if i < entries.len() {
            pairs_entry(entries, i);
        }
    }
    assert(pairs_as_map(after) =~= pairs_as_map(entries).insert(key, value));
}

proof fn pairs_update<const N: usize, V>(entries: Seq<([u8; N], V)>, i: int, value: V)
    requires
        distinct_keys(entries),
        0 <= i < entries.len(),
    ensures
        distinct_keys(entries.update(i, (entries[i].0, value))),
        pairs_as_map(entries.update(i, (entries[i].0, value))) == pairs_as_map(entries).insert(
            entries[i].0,
            value,
        ),
{
    let key = entries[i].0;
    let after = entries.update(i, (key, value));
    assert(distinct_keys(after));
    assert forall|k: [u8; N]| #[trigger]
        pairs_as_map(after).contains_key(k) <==> pairs_as_map(entries).insert(
            key,
            value,
        ).contains_key(k) by {
        if pairs_as_map(after).contains_key(k) {
            let j = choose|j: int| at_key(after, k, j);
            assert(at_key(entries, k, j));
        }
        if pairs_as_map(entries).contains_key(k) {
            let j = choose|j: int| at_key(entries, k, j);
            assert(at_key(after, k, j));
        }
        if k == key {
            assert(at_key(after, k, i));
        }
    }
    assert forall|k: [u8; N]| #[trigger]
        pairs_as_map(after).contains_key(k) implies pairs_as_map(after)[k] == pairs_as_map(
        entries,
    ).insert(key, value)[k] by {
        let j = choose|j: int| at_key(after, k, j);
        pairs_entry(after, j);
        pairs_entry(entries, j);
    }
    assert(pairs_as_map(after) =~= pairs_as_map(entries).insert(key, value));
}

proof fn pairs_remove<const N: usize, V>(entries: Seq<([u8; N], V)>, i: int)
    requires
        distinct_keys(entries),
        0 <= i < entries.len(),
    ensures
        distinct_keys(entries.remove(i)),
        pairs_as_map(entries.remove(i)) == pairs_as_map(entries).remove(entries[i].0),
{
    let key = entries[i].0;
    let after = entries.remove(i);
    assert forall|a: int, b: int|
        0 <= a < after.len() && 0 <= b < after.len() && a != b implies (#[trigger] after[a]).0 != (
    #[trigger] after[b]).0 by {
        let oa = if a < i {
            a
        } else {
            a + 1
        };
        let ob = if b < i {
            b
        } else {
            b + 1
        };
        assert(after[a] == entries[oa] && after[b] == entries[ob]);
    }
    assert forall|k: [u8; N]| #[trigger]
        pairs_as_map(after).contains_key(k) <==> pairs_as_map(entries).remove(key).contains_key(
        k,
    ) by {
        if pairs_as_map(after).contains_key(k) {
            let j = choose|j: int| at_key(after, k, j);
            let oj = if j < i {
                j
            } else {
                j + 1
            };
            assert(at_key(entries, k, oj));
            assert(entries[oj].0 != entries[i].0);
        }
        if pairs_as_map(entries).remove(key).contains_key(k) {
            let j = choose|j: int| at_key(entries, k, j);
            let nj = if j < i {
                j
            } else {
                j - 1
            };
            assert(at_key(after, k, nj));
        }
    }
    assert forall|k: [u8; N]| #[trigger]
        pairs_as_map(after).contains_key(k) implies pairs_as_map(after)[k] == pairs_as_map(
        entries,
    ).remove(key)[k] by {
        let j = choose|j: int| at_key(after, k, j);
        let oj = if j < i {
            j
        } else {
            j + 1
        };
        pairs_entry(after, j);
        pairs_entry(entries, oj);
        assert(after[j] == entries[oj]);
    }
    assert(pairs_as_map(after) =~= pairs_as_map(entries).remove(key));
}

/// `key` is the least key of the map in byte order, the skipped ones left out.
pub open spec fn is_least_key<const N: usize, V>(
    map: Map<[u8; N], V>,
    skipped: Seq<[u8; N]>,
    key: [u8; N],
) -> bool {
    &&& map.contains_key(key)
    &&& !skipped.contains(key)
    &&& forall|other: [u8; N]| #[trigger]
        map.contains_key(other) && !skipped.contains(other) ==> other == key || bytes_less(
            key@,
            other@,
        )
}

/// Whether `key` is among `keys`.
pub fn is_listed<const N: usize>(keys: &[[u8; N]], key: &[u8; N]) -> (listed: bool)
    ensures
        listed == keys@.contains(*key),
{
    let mut i: usize = 0;
    while i < keys.len()
        invariant
            i <= keys@.len(),
            forall|j: int| 0 <= j < i ==> keys@[j] != *key,
        decreases keys@.len() - i,
    {
        if same_key(&keys[i], key) {
            return true;
        }
        i += 1;
    }
    false
}

/// A map from `N`-byte keys, viewed as a mathematical map.
#[derive(Debug)]
pub struct ByteMap<const N: usize, V> {
    entries: Vec<([u8; N], V)>,
}

impl<const N: usize, V> View for ByteMap<N, V> {
    type V = Map<[u8; N], V>;

    closed spec fn view(&self) -> Map<[u8; N], V> {
        pairs_as_map(self.entries@)
    }
}

impl<const N: usize, V> ByteMap<N, V> {
    /// Each key stands in the map once.
    pub closed spec fn wf(self) -> bool {
        distinct_keys(self.entries@)
    }

    /// The empty map.
    pub fn new() -> (m: Self)
        ensures
            m.wf(),
            m@ == Map::<[u8; N], V>::empty(),
    {
        let m = ByteMap { entries: Vec::new() };
        assert(m@ =~= Map::<[u8; N], V>::empty());
        m
    }

    /// How many keys the map holds.
    pub fn len(&self) -> (n: usize)
        requires
            self.wf(),
        ensures
            n == self@.len(),
            self@.dom().finite(),
    {
        proof {
            pairs_len(self.entries@);
        }
        self.entries.len()
    }

    fn find(&self, key: &[u8; N]) -> (at: Option<usize>)
        requires
            self.wf(),
        ensures
            match at {
                Some(i) => i < self.entries@.len() && self.entries@[i as int].0 == *key
                    && self@.contains_key(*key) && self@[*key] == self.entries@[i as int].1,
                None => !self@.contains_key(*key) && forall|i: int|
                    0 <= i < self.entries@.len() ==> (#[trigger] self.entries@[i]).0 != *key,
            },
    {
        let mut i: usize = 0;
        while i < self.entries.len()
            invariant
                self.wf(),
                i <= self.entries@.len(),
                forall|j: int| 0 <= j < i ==> (#[trigger] self.entries@[j]).0 != *key,
            decreases self.entries@.len() - i,
        {
            if same_key(&self.entries[i].0, key) {
                proof {
                    pairs_entry(self.entries@, i as int);
                }
                return Some(i);
            }
            i += 1;
        }
        None
    }

    /// Whether the map holds `key`.
    pub fn contains_key(&self, key: &[u8; N]) -> (present: bool)
        requires
            self.wf(),
        ensures
            present == self@.contains_key(*key),
    {
        self.find(key).is_some()
    }

    /// The value under `key`, where there is one.
    pub fn get(&self, key: &[u8; N]) -> (value: Option<&V>)
        requires
            self.wf(),
        ensures
            match value {
                Some(v) => self@.contains_key(*key) && *v == self@[*key],
                None => !self@.contains_key(*key),
            },
    {
        match self.find(key) {
            Some(i) => Some(&self.entries[i].1),
            None => None,
        }
    }

    /// Puts `value` under `key`, in place of what stood there.
    pub fn insert(&mut self, key: [u8; N], value: V)
        requires
            old(self).wf(),
        ensures
            final(self).wf(),
            final(self)@ == old(self)@.insert(key, value),
    {
        match self.find(&key) {
            Some(i) => {
                proof {
                    pairs_update(self.entries@, i as int, value);
                }
                self.entries[i] = (key, value);
            },
            None => {
                proof {
                    pairs_push(self.entries@, key, value);
                }
                self.entries.push((key, value));
            },
        }
    }

    /// Takes `key` out of the map and hands back what stood under it.
    pub fn remove(&mut self, key: &[u8; N]) -> (value: Option<V>)
        requires
            old(self).wf(),
        ensures
            final(self).wf(),
            final(self)@ == old(self)@.remove(*key),
            match value {
                Some(v) => old(self)@.contains_key(*key) && v == old(self)@[*key],
                None => !old(self)@.contains_key(*key),
            },
    {
        match self.find(key) {
            Some(i) => {
                proof {
                    pairs_remove(self.entries@, i as int);
                }
                let (_, value) = self.entries.remove(i);
                Some(value)
            },
            None => {
                assert(self@ =~= self@.remove(*key));
                None
            },
        }
    }

    /// The keys, in the order in which they were first put in.
    pub closed spec fn keys(self) -> Seq<[u8; N]> {
        self.entries@.map_values(|e: ([u8; N], V)| e.0)
    }

    /// The keys are those of the map, each once.
    pub proof fn keys_are_the_domain(&self)
        requires
            self.wf(),
        ensures
            self.keys().no_duplicates(),
            self.keys().len() == self@.len(),
            self@.dom().finite(),
            forall|k: [u8; N]| #[trigger] self@.contains_key(k) <==> self.keys().contains(k),
    {
        pairs_len(self.entries@);
        assert forall|k: [u8; N]| #[trigger] self@.contains_key(k) <==> self.keys().contains(k) by {
            if self@.contains_key(k) {
                let i = choose|i: int| at_key(self.entries@, k, i);
                assert(self.keys()[i] == k);
            }
            if self.keys().contains(k) {
                let i = choose|i: int| 0 <= i < self.keys().len() && self.keys()[i] == k;
                assert(at_key(self.entries@, k, i));
            }
        }
    }

    /// The key that was put in as number `i`.
    pub fn key_at(&self, i: usize) -> (key: [u8; N])
        requires
            self.wf(),
            i < self.keys().len(),
        ensures
            key == self.keys()[i as int],
            self@.contains_key(key),
    {
        proof {
            self.keys_are_the_domain();
            pairs_entry(self.entries@, i as int);
        }
        self.entries[i].0
    }

    /// The least key in byte order, the skipped ones left out.
    pub fn least_key(&self, skipped: &[[u8; N]]) -> (key: Option<[u8; N]>)
        requires
            self.wf(),
        ensures
            match key {
                Some(k) => is_least_key(self@, skipped@, k),
                None => forall|k: [u8; N]| #[trigger]
                    self@.contains_key(k) ==> skipped@.contains(k),
            },
    {
        let mut least: Option<[u8; N]> = None;
        let mut i: usize = 0;
        while i < self.entries.len()
            invariant
                self.wf(),
                i <= self.entries@.len(),
                match least {
                    Some(k) => !skipped@.contains(k) && self@.contains_key(k) && forall|j: int|
                        #![trigger self.entries@[j]]
                        0 <= j < i && !skipped@.contains(self.entries@[j].0) ==> self.entries@[j].0
                            == k || bytes_less(k@, self.entries@[j].0@),
                    None => forall|j: int|
                        0 <= j < i ==> skipped@.contains((#[trigger] self.entries@[j]).0),
                },
            decreases self.entries@.len() - i,
        {
            let key: [u8; N] = self.entries[i].0;
            proof {
                pairs_entry(self.entries@, i as int);
            }
            if !is_listed(skipped, &key) {
                match least {
                    Some(k) => {
                        proof {
                            bytes_less_total(key@, k@);
                            if key@ == k@ {
                                assert(key =~= k);
                            }
                            assert forall|j: int|
                                #![trigger self.entries@[j]]
                                0 <= j < i && !skipped@.contains(self.entries@[j].0)
                                    && bytes_less(key@, k@) implies bytes_less(
                                key@,
                                self.entries@[j].0@,
                            ) by {
                                bytes_less_strict(key@, k@, self.entries@[j].0@);
                            }
                        }
                        if key_less(&key, &k) {
                            least = Some(key);
                        }
                    },
                    None => {
                        least = Some(key);
                    },
                }
            }
            i += 1;
        }
        proof {
            let all = self.entries@;
            assert forall|k: [u8; N]| #[trigger] self@.contains_key(k) implies exists|j: int|
                0 <= j < all.len() && (#[trigger] all[j]).0 == k by {
                let j = choose|j: int| at_key(all, k, j);
                assert(all[j].0 == k);
            }
        }
        least
    }

    /// Empties the map.
    pub fn clear(&mut self)
        ensures
            final(self).wf(),
            final(self)@ == Map::<[u8; N], V>::empty(),
    {
        self.entries.clear();
        assert(self@ =~= Map::<[u8; N], V>::empty());
    }
}

/// The elements of a list without repetition, as a set.
spec fn listed<const N: usize>(items: Seq<[u8; N]>) -> Set<[u8; N]> {
    items.to_set()
}

/// A set of `N`-byte keys, viewed as a mathematical set.
#[derive(Debug)]
pub struct ByteSet<const N: usize> {
    items: Vec<[u8; N]>,
}

impl<const N: usize> View for ByteSet<N> {
    type V = Set<[u8; N]>;

    closed spec fn view(&self) -> Set<[u8; N]> {
        listed(self.items@)
    }
}

impl<const N: usize> ByteSet<N> {
    /// Each key stands in the set once.
    pub closed spec fn wf(self) -> bool {
        self.items@.no_duplicates()
    }

    /// The empty set.
    pub fn new() -> (s: Self)
        ensures
            s.wf(),
            s@ == Set::<[u8; N]>::empty(),
    {
        let s = ByteSet { items: Vec::new() };
        assert(s@ =~= Set::<[u8; N]>::empty());
        s
    }

    /// How many keys the set holds.
    pub fn len(&self) -> (n: usize)
        requires
            self.wf(),
        ensures
            n == self@.len(),
            self@.finite(),
    {
        proof {
            self.items@.unique_seq_to_set();
        }
        self.items.len()
    }

    fn find(&self, key: &[u8; N]) -> (at: Option<usize>)
        ensures
            match at {
                Some(i) => i < self.items@.len() && self.items@[i as int] == *key
                    && self@.contains(*key),
                None => !self@.contains(*key),
            },
    {
        let mut i: usize = 0;
        while i < self.items.len()
            invariant
                i <= self.items@.len(),
                forall|j: int| 0 <= j < i ==> self.items@[j] != *key,
            decreases self.items@.len() - i,
        {
            if same_key(&self.items[i], key) {
                assert(self.items@.contains(*key));
                return Some(i);
            }
            i += 1;
        }
        None
    }

    /// Whether the set holds `key`.
    pub fn contains(&self, key: &[u8; N]) -> (present: bool)
        ensures
            present == self@.contains(*key),
    {
        self.find(key).is_some()
    }

    /// Puts `key` into the set; says whether it was new.
    pub fn insert(&mut self, key: [u8; N]) -> (new: bool)
        requires
            old(self).wf(),
        ensures
            final(self).wf(),
            final(self)@ == old(self)@.insert(key),
            new == !old(self)@.contains(key),
    {
        if self.contains(&key) {
            assert(self@ =~= self@.insert(key));
            return false;
        }
        let ghost before = self.items@;
        self.items.push(key);
        proof {
            before.lemma_push_to_set_commute(key);
            assert(self.items@.no_duplicates());
        }
        true
    }

    /// Takes `key` out of the set; says whether it was there.
    pub fn remove(&mut self, key: &[u8; N]) -> (present: bool)
        requires
            old(self).wf(),
        ensures
            final(self).wf(),
            final(self)@ == old(self)@.remove(*key),
            present == old(self)@.contains(*key),
    {
        match self.find(key) {
            Some(i) => {
                let ghost before = self.items@;
                self.items.remove(i);
                proof {
                    let after = self.items@;
                    assert forall|a: int, b: int|
                        0 <= a < after.len() && 0 <= b < after.len() && a != b implies after[a]
                        != after[b] by {
                        let oa = if a < i {
                            a
                        } else {
                            a + 1
                        };
                        let ob = if b < i {
                            b
                        } else {
                            b + 1
                        };
                        assert(after[a] == before[oa] && after[b] == before[ob]);
                    }
                    assert forall|k: [u8; N]|
                        listed(after).contains(k) <==> listed(before).remove(*key).contains(k) by {
                        if after.contains(k) {
                            let a = choose|a: int| 0 <= a < after.len() && after[a] == k;
                            let oa = if a < i {
                                a
                            } else {
                                a + 1
                            };
                            assert(before[oa] == k);
                            assert(before[i as int] == *key);
                        }
                        if before.contains(k) && k != *key {
                            let a = choose|a: int| 0 <= a < before.len() && before[a] == k;
                            let na = if a < i {
                                a
                            } else {
                                a - 1
                            };
                            assert(after[na] == k);
                        }
                    }
                    assert(self@ =~= listed(before).remove(*key));
                }
                true
            },
            None => {
                assert(self@ =~= self@.remove(*key));
                false
            },
        }
    }

    /// Empties the set.
    pub fn clear(&mut self)
        ensures
            final(self).wf(),
            final(self)@ == Set::<[u8; N]>::empty(),
    {
        self.items.clear();
        assert(self@ =~= Set::<[u8; N]>::empty());
    }
}

} // verus!
