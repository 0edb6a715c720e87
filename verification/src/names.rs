//! Collections keyed by text: a map and a set.
use vstd::prelude::*;
use vstd::string::StringExecFns;

verus! {

/// Whether two texts are the same.
pub fn same_text(a: &String, b: &String) -> (same: bool)
    ensures
        same == (a@ == b@),
{
    *a == *b
}

/// Whether two pieces of text are the same.
pub fn same_str(a: &str, b: &str) -> (same: bool)
    ensures
        same == (a@ == b@),
{
    let left = String::from_str(a);
    let right = String::from_str(b);
    left == right
}

/// A copy of a text.
pub fn copy_text(text: &String) -> (copy: String)
    ensures
        copy@ == text@,
{
    text.clone()
}

/// The entry at `i` is the one for `name`.
spec fn at_name<V>(entries: Seq<(String, V)>, name: Seq<char>, i: int) -> bool {
    0 <= i < entries.len() && entries[i].0@ == name
}

/// No name occurs twice.
spec fn distinct_names<V>(entries: Seq<(String, V)>) -> bool {
    forall|i: int, j: int|
        0 <= i < entries.len() && 0 <= j < entries.len() && i != j ==> (#[trigger] entries[i]).0@
            != (#[trigger] entries[j]).0@
}

/// The map that a list of pairs with distinct names stands for.
spec fn named<V>(entries: Seq<(String, V)>) -> Map<Seq<char>, V> {
    Map::new(
        |name: Seq<char>| exists|i: int| at_name(entries, name, i),
        |name: Seq<char>| entries[choose|i: int| at_name(entries, name, i)].1,
    )
}

proof fn named_entry<V>(entries: Seq<(String, V)>, i: int)
    requires
        distinct_names(entries),
        0 <= i < entries.len(),
    ensures
        named(entries).contains_key(entries[i].0@),
        named(entries)[entries[i].0@] == entries[i].1,
{
    assert(at_name(entries, entries[i].0@, i));
}

proof fn named_push<V>(entries: Seq<(String, V)>, entry: (String, V))
    requires
        distinct_names(entries),
        !named(entries).contains_key(entry.0@),
    ensures
        distinct_names(entries.push(entry)),
        named(entries.push(entry)) == named(entries).insert(entry.0@, entry.1),
{
    let after = entries.push(entry);
    assert forall|i: int| 0 <= i < entries.len() implies (#[trigger] entries[i]).0@ != entry.0@ by {
        if entries[i].0@ == entry.0@ {
            assert(at_name(entries, entry.0@, i));
        }
    }
    assert(distinct_names(after));
    assert forall|n: Seq<char>| #[trigger]
        named(after).contains_key(n) <==> named(entries).insert(entry.0@, entry.1).contains_key(
        n,
    ) by {
        if named(after).contains_key(n) {
            let i = choose|i: int| at_name(after, n, i);
            if i < entries.len() {
                assert(at_name(entries, n, i));
            }
        }
        if named(entries).contains_key(n) {
            let i = choose|i: int| at_name(entries, n, i);
            assert(at_name(after, n, i));
        }
        if n == entry.0@ {
            assert(at_name(after, n, entries.len() as int));
        }
    }
    assert forall|n: Seq<char>| #[trigger] named(after).contains_key(n) implies named(after)[n]
        == named(entries).insert(entry.0@, entry.1)[n] by {
        let i = choose|i: int| at_name(after, n, i);
        named_entry(after, i);
        if i < entries.len() {
            named_entry(entries, i);
        }
    }
    assert(named(after) =~= named(entries).insert(entry.0@, entry.1));
}

proof fn named_update<V>(entries: Seq<(String, V)>, i: int, entry: (String, V))
    requires
        distinct_names(entries),
        0 <= i < entries.len(),
        entry.0@ == entries[i].0@,
    ensures
        distinct_names(entries.update(i, entry)),
        named(entries.update(i, entry)) == named(entries).insert(entry.0@, entry.1),
{
    let after = entries.update(i, entry);
    assert(distinct_names(after));
    assert forall|n: Seq<char>| #[trigger]
        named(after).contains_key(n) <==> named(entries).insert(entry.0@, entry.1).contains_key(
        n,
    ) by {
        if named(after).contains_key(n) {
            let j = choose|j: int| at_name(after, n, j);
            assert(at_name(entries, n, j));
        }
        if named(entries).contains_key(n) {
            let j = choose|j: int| at_name(entries, n, j);
            assert(at_name(after, n, j));
        }
        if n == entry.0@ {
            assert(at_name(after, n, i));
        }
    }
    assert forall|n: Seq<char>| #[trigger] named(after).contains_key(n) implies named(after)[n]
        == named(entries).insert(entry.0@, entry.1)[n] by {
        let j = choose|j: int| at_name(after, n, j);
        named_entry(after, j);
        named_entry(entries, j);
    }
    assert(named(after) =~= named(entries).insert(entry.0@, entry.1));
}

proof fn named_len<V>(entries: Seq<(String, V)>)
    requires
        distinct_names(entries),
    ensures
        named(entries).dom().finite(),
        named(entries).len() == entries.len(),
    decreases entries.len(),
{
    if entries.len() == 0 {
        assert(named(entries) =~= Map::<Seq<char>, V>::empty());
    } else {
        let rest = entries.drop_last();
        named_len(rest);
        if named(rest).contains_key(entries.last().0@) {
            let i = choose|i: int| at_name(rest, entries.last().0@, i);
            assert(entries[i].0@ == entries[entries.len() - 1].0@);
        }
        named_push(rest, entries.last());
        assert(rest.push(entries.last()) =~= entries);
    }
}

/// The map that a list of pairs stands for: of two pairs with one name the later
/// counts.
pub open spec fn from_pairs<V>(pairs: Seq<(String, V)>) -> Map<Seq<char>, V>
    decreases pairs.len(),
{
    if pairs.len() == 0 {
        Map::empty()
    } else {
        from_pairs(pairs.drop_last()).insert(pairs.last().0@, pairs.last().1)
    }
}

/// A map from text, viewed as a mathematical map.
#[derive(Debug)]
pub struct NameMap<V> {
    entries: Vec<(String, V)>,
}

impl<V> View for NameMap<V> {
    type V = Map<Seq<char>, V>;

    closed spec fn view(&self) -> Map<Seq<char>, V> {
        named(self.entries@)
    }
}

impl<V> NameMap<V> {
    /// Each name stands in the map once.
    pub closed spec fn wf(self) -> bool {
        distinct_names(self.entries@)
    }

    /// The empty map.
    pub fn new() -> (m: Self)
        ensures
            m.wf(),
            m@ == Map::<Seq<char>, V>::empty(),
    {
        let m = NameMap { entries: Vec::new() };
        assert(m@ =~= Map::<Seq<char>, V>::empty());
        m
    }

    /// How many names the map holds.
    pub fn len(&self) -> (n: usize)
        requires
            self.wf(),
        ensures
            n == self@.len(),
            self@.dom().finite(),
    {
        proof {
            named_len(self.entries@);
        }
        self.entries.len()
    }

    fn find(&self, name: &str) -> (at: Option<usize>)
        requires
            self.wf(),
        ensures
            match at {
                Some(i) => i < self.entries@.len() && self.entries@[i as int].0@ == name@
                    && self@.contains_key(name@) && self@[name@] == self.entries@[i as int].1,
                None => !self@.contains_key(name@),
            },
    {
        let wanted: String = String::from_str(name);
        let mut i: usize = 0;
        while i < self.entries.len()
            invariant
                self.wf(),
                i <= self.entries@.len(),
                wanted@ == name@,
                forall|j: int| 0 <= j < i ==> (#[trigger] self.entries@[j]).0@ != name@,
            decreases self.entries@.len() - i,
        {
            if same_text(&self.entries[i].0, &wanted) {
                proof {
                    named_entry(self.entries@, i as int);
                }
                return Some(i);
            }
            i += 1;
        }
        None
    }

    /// The value under a name, where there is one.
    pub fn get(&self, name: &str) -> (value: Option<&V>)
        requires
            self.wf(),
        ensures
            match value {
                Some(v) => self@.contains_key(name@) && *v == self@[name@],
                None => !self@.contains_key(name@),
            },
    {
        match self.find(name) {
            Some(i) => Some(&self.entries[i].1),
            None => None,
        }
    }

    /// Puts a value under a name, in place of what stood there.
    pub fn insert(&mut self, name: String, value: V)
        requires
            old(self).wf(),
        ensures
            final(self).wf(),
            final(self)@ == old(self)@.insert(name@, value),
    {
        match self.find(name.as_str()) {
            Some(i) => {
                proof {
                    named_update(self.entries@, i as int, (name, value));
                }
                self.entries[i] = (name, value);
            },
            None => {
                proof {
                    named_push(self.entries@, (name, value));
                }
                self.entries.push((name, value));
            },
        }
    }
}

impl<V: Copy> NameMap<V> {
    /// The map that a list of pairs stands for.
    pub fn of_pairs(pairs: &Vec<(String, V)>) -> (m: Self)
        ensures
            m.wf(),
            m@ == from_pairs(pairs@),
    {
        let mut m: Self = NameMap::new();
        let mut i: usize = 0;
        assert(pairs@.take(0) =~= Seq::empty());
        while i < pairs.len()
            invariant
                i <= pairs@.len(),
                m.wf(),
                m@ == from_pairs(pairs@.take(i as int)),
            decreases pairs@.len() - i,
        {
            m.insert(copy_text(&pairs[i].0), pairs[i].1);
            proof {
                assert(pairs@.take(i + 1).drop_last() =~= pairs@.take(i as int));
                assert(pairs@.take(i + 1).last() == pairs@[i as int]);
            }
            i += 1;
        }
        assert(pairs@.take(i as int) =~= pairs@);
        m
    }

    /// The pairs, in the order in which their names were first put in.
    pub fn pairs(&self) -> (pairs: Vec<(String, V)>)
        requires
            self.wf(),
        ensures
            from_pairs(pairs@) == self@,
    {
        let mut pairs: Vec<(String, V)> = Vec::new();
        let mut i: usize = 0;
        assert(named(self.entries@.take(0)) =~= Map::<Seq<char>, V>::empty());
        while i < self.entries.len()
            invariant
                self.wf(),
                i <= self.entries@.len(),
                from_pairs(pairs@) == named(self.entries@.take(i as int)),
            decreases self.entries@.len() - i,
        {
            let ghost before = pairs@;
            let ghost taken = self.entries@.take(i as int);
            let ghost entry = self.entries@[i as int];
            pairs.push((copy_text(&self.entries[i].0), self.entries[i].1));
            proof {
                assert(pairs@.drop_last() =~= before);
                assert(distinct_names(taken)) by {
                    assert forall|a: int, b: int|
                        0 <= a < taken.len() && 0 <= b < taken.len() && a != b implies (
                    #[trigger] taken[a]).0@ != (#[trigger] taken[b]).0@ by {
                        assert(self.entries@[a].0@ != self.entries@[b].0@);
                    }
                }
                if named(taken).contains_key(entry.0@) {
                    let j = choose|j: int| at_name(taken, entry.0@, j);
                    assert(self.entries@[j].0@ == self.entries@[i as int].0@);
                }
                named_push(taken, entry);
                assert(taken.push(entry) =~= self.entries@.take(i + 1));
            }
            i += 1;
        }
        assert(self.entries@.take(i as int) =~= self.entries@);
        pairs
    }
}

/// A set of texts, viewed as a mathematical set.
#[derive(Debug)]
pub struct NameSet {
    names: NameMap<()>,
}

impl View for NameSet {
    type V = Set<Seq<char>>;

    closed spec fn view(&self) -> Set<Seq<char>> {
        self.names@.dom()
    }
}

impl NameSet {
    /// Each name stands in the set once.
    pub closed spec fn wf(self) -> bool {
        self.names.wf()
    }

    /// The empty set.
    pub fn new() -> (s: Self)
        ensures
            s.wf(),
            s@ == Set::<Seq<char>>::empty(),
    {
        let s = NameSet { names: NameMap::new() };
        assert(s@ =~= Set::<Seq<char>>::empty());
        s
    }

    /// How many names the set holds.
    pub fn len(&self) -> (n: usize)
        requires
            self.wf(),
        ensures
            n == self@.len(),
            self@.finite(),
    {
        self.names.len()
    }

    /// Whether the set holds a name.
    pub fn contains(&self, name: &str) -> (present: bool)
        requires
            self.wf(),
        ensures
            present == self@.contains(name@),
    {
        self.names.get(name).is_some()
    }

    /// Puts a name into the set.
    pub fn insert(&mut self, name: String)
        requires
            old(self).wf(),
        ensures
            final(self).wf(),
            final(self)@ == old(self)@.insert(name@),
    {
        let ghost before = self@;
        self.names.insert(name, ());
        assert(self@ =~= before.insert(name@));
    }
}

} // verus!
