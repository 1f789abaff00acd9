//! Maps keyed by strings, such as the tags of map elements, held as a list of
//! entries with distinct keys and viewed as a `Map` from key text to value.
use vstd::prelude::*;

verus! {

/// A map from strings to values. Keys are distinct; entries keep the order
/// in which their keys were first inserted.
pub struct StrMap<V> {
    entries: Vec<(String, V)>,
}

/// The map that a list of entries with distinct keys stands for.
pub open spec fn entries_map<V>(e: Seq<(String, V)>) -> Map<Seq<char>, V>
    decreases e.len(),
{
    if e.len() == 0 {
        Map::empty()
    } else {
        entries_map(e.drop_last()).insert(e.last().0@, e.last().1)
    }
}

/// No key occurs twice among the entries.
pub open spec fn distinct_keys<V>(e: Seq<(String, V)>) -> bool {
    forall|i: int, j: int| 0 <= i < j < e.len() ==> (#[trigger] e[i]).0@ != (#[trigger] e[j]).0@
}

/// The index of the entry whose key is `k`, if any.
pub open spec fn key_index<V>(e: Seq<(String, V)>, k: Seq<char>) -> Option<int>
    decreases e.len(),
{
    if e.len() == 0 {
        None
    } else if e.last().0@ == k {
        Some(e.len() - 1)
    } else {
        key_index(e.drop_last(), k)
    }
}

pub proof fn lemma_key_index<V>(e: Seq<(String, V)>, k: Seq<char>)
    requires
        distinct_keys(e),
    ensures
        entries_map(e).dom().finite(),
        entries_map(e).dom().len() == e.len(),
        match key_index(e, k) {
            Some(i) => 0 <= i < e.len() && e[i].0@ == k && entries_map(e).dom().contains(k)
                && entries_map(e)[k] == e[i].1,
            None => !entries_map(e).dom().contains(k) && forall|i: int|
                0 <= i < e.len() ==> (#[trigger] e[i]).0@ != k,
        },
    decreases e.len(),
{
    if e.len() > 0 {
        let d = e.drop_last();
        assert(distinct_keys(d)) by {
            assert forall|i: int, j: int| 0 <= i < j < d.len() implies (#[trigger] d[i]).0@ != (
            #[trigger] d[j]).0@ by {
                assert(d[i] == e[i] && d[j] == e[j]);
            }
        }
        lemma_key_index(d, k);
        lemma_key_index(d, e.last().0@);
        if key_index(d, e.last().0@) is Some {
            let i = key_index(d, e.last().0@)->0;
            assert(e[i] == d[i]);
            assert(e[i].0@ != e[e.len() - 1].0@);
        }
        assert(!entries_map(d).dom().contains(e.last().0@));
        if key_index(e, k) is None {
            assert forall|i: int| 0 <= i < e.len() implies (#[trigger] e[i]).0@ != k by {
                if i < e.len() - 1 {
                    assert(e[i] == d[i]);
                }
            }
        }
    }
}

/// Every entry's key is in the map, with that entry's value.
pub proof fn lemma_entry_in_map<V>(e: Seq<(String, V)>, i: int)
    requires
        distinct_keys(e),
        0 <= i < e.len(),
    ensures
        entries_map(e).dom().contains(e[i].0@),
        entries_map(e)[e[i].0@] == e[i].1,
{
    lemma_key_index(e, e[i].0@);
    let j = key_index(e, e[i].0@)->0;
    if j != i {
        if i < j {
            assert(e[i].0@ != e[j].0@);
        } else {
            assert(e[j].0@ != e[i].0@);
        }
    }
}

/// Replacing the value of the entry at `i` replaces the value of its key.
proof fn lemma_update_entry<V>(e: Seq<(String, V)>, i: int, ks: String, v: V)
    requires
        distinct_keys(e),
        0 <= i < e.len(),
        ks@ == e[i].0@,
    ensures
        distinct_keys(e.update(i, (ks, v))),
        entries_map(e.update(i, (ks, v))) == entries_map(e).insert(e[i].0@, v),
    decreases e.len(),
{
    let u = e.update(i, (ks, v));
    assert(distinct_keys(u)) by {
        assert forall|a: int, b: int| 0 <= a < b < u.len() implies (#[trigger] u[a]).0@ != (
        #[trigger] u[b]).0@ by {
            assert(u[a].0@ == e[a].0@ && u[b].0@ == e[b].0@);
        }
    }
    let d = e.drop_last();
    assert(distinct_keys(d)) by {
        assert forall|a: int, b: int| 0 <= a < b < d.len() implies (#[trigger] d[a]).0@ != (
        #[trigger] d[b]).0@ by {
            assert(d[a] == e[a] && d[b] == e[b]);
        }
    }
    if i == e.len() - 1 {
        assert(u.drop_last() =~= d);
        lemma_key_index(d, e[i].0@);
        assert(entries_map(u) =~= entries_map(e).insert(e[i].0@, v));
    } else {
        lemma_update_entry(d, i, ks, v);
        assert(u.drop_last() =~= d.update(i, (ks, v)));
        assert(e.last().0@ != e[i].0@);
        assert(entries_map(u) =~= entries_map(e).insert(e[i].0@, v));
    }
}

impl<V> StrMap<V> {
    #[verifier::type_invariant]
    spec fn keys_distinct(self) -> bool {
        distinct_keys(self.entries@)
    }

    /// The entries in key insertion order.
    pub closed spec fn entry_seq(self) -> Seq<(String, V)> {
        self.entries@
    }

    /// An empty map.
    pub fn new() -> (m: Self)
        ensures
            m@ == Map::<Seq<char>, V>::empty(),
            m.entry_seq().len() == 0,
    {
        StrMap { entries: Vec::new() }
    }

    /// The number of keys.
    pub fn len(&self) -> (n: usize)
        ensures
            n == self@.dom().len(),
            n == self.entry_seq().len(),
    {
        proof {
            use_type_invariant(self);
            lemma_key_index(self.entries@, Seq::empty());
        }
        self.entries.len()
    }

    /// Whether the map has no key.
    pub fn is_empty(&self) -> (b: bool)
        ensures
            b == (self@.dom().len() == 0),
    {
        self.len() == 0
    }

    /// The position of `key` among the entries.
    fn find(&self, key: &str) -> (r: Option<usize>)
        ensures
            match r {
                Some(i) => key_index(self.entries@, key@) == Some(i as int),
                None => key_index(self.entries@, key@) is None,
            },
    {
        proof {
            use_type_invariant(self);
        }
        let k = key.to_owned();
        let mut i = self.entries.len();
        assert(self.entries@.take(i as int) =~= self.entries@);
        while i > 0
            invariant
                i <= self.entries@.len(),
                k@ == key@,
                key_index(self.entries@, key@) == key_index(self.entries@.take(i as int), key@),
            decreases i,
        {
            let ghost t = self.entries@.take(i as int);
            assert(t.drop_last() =~= self.entries@.take(i - 1));
            if self.entries[i - 1].0 == k {
                return Some(i - 1);
            }
            i = i - 1;
        }
        None
    }

    /// The value of `key`, if it is in the map (`HashMap::get`).
    pub fn get(&self, key: &str) -> (r: Option<&V>)
        ensures
            self@.dom().contains(key@) ==> r == Some(&self@[key@]),
            !self@.dom().contains(key@) ==> r is None,
    {
        proof {
            use_type_invariant(self);
            lemma_key_index(self.entries@, key@);
        }
        match self.find(key) {
            Some(i) => {
                assert(self.entries@[i as int].1 == self@[key@]);
                Some(&self.entries[i].1)
            },
            None => None,
        }
    }

    /// Whether `key` is in the map (`HashMap::contains_key`).
    pub fn contains_key(&self, key: &str) -> (b: bool)
        ensures
            b == self@.dom().contains(key@),
    {
        proof {
            use_type_invariant(self);
            lemma_key_index(self.entries@, key@);
        }
        self.find(key).is_some()
    }

    /// Sets the value of `key`, replacing any earlier value (`HashMap::insert`).
    pub fn insert(&mut self, key: String, value: V)
        ensures
            final(self)@ == old(self)@.insert(key@, value),
    {
        proof {
            use_type_invariant(&*self);
            lemma_key_index(self.entries@, key@);
        }
        match self.find(key.as_str()) {
            Some(i) => {
                let ghost e = self.entries@;
                let mut entries = Vec::new();
                std::mem::swap(&mut entries, &mut self.entries);
                let k = entries[i].0.clone();
                proof {
                    lemma_update_entry(e, i as int, k, value);
                }
                entries.set(i, (k, value));
                assert(entries@ =~= e.update(i as int, (k, value)));
                self.entries = entries;
            },
            None => {
                let ghost e = self.entries@;
                let mut entries = Vec::new();
                std::mem::swap(&mut entries, &mut self.entries);
                entries.push((key, value));
                proof {
                    let n = entries@;
                    assert(n.drop_last() =~= e);
                    assert forall|a: int, b: int| 0 <= a < b < n.len() implies (#[trigger] n[a]).0@
                        != (#[trigger] n[b]).0@ by {
                        if b == n.len() - 1 {
                            assert(n[a] == e[a]);
                        } else {
                            assert(n[a] == e[a] && n[b] == e[b]);
                        }
                    }
                }
                self.entries = entries;
            },
        }
    }

    /// The entries, in key insertion order.
    pub fn entries(&self) -> (r: &Vec<(String, V)>)
        ensures
            r@ == self.entry_seq(),
            distinct_keys(r@),
            self@ == entries_map(r@),
            self@.dom().len() == r@.len(),
    {
        proof {
            use_type_invariant(self);
            lemma_key_index(self.entries@, Seq::empty());
        }
        &self.entries
    }
}

impl<V> View for StrMap<V> {
    type V = Map<Seq<char>, V>;

    closed spec fn view(&self) -> Map<Seq<char>, V> {
        entries_map(self.entries@)
    }
}

impl<V: Clone> Clone for StrMap<V> {
    fn clone(&self) -> (r: Self)
        ensures
            r@.dom() == self@.dom(),
            forall|k: Seq<char>| #[trigger] r@.dom().contains(k) ==> cloned(self@[k], r@[k]),
    {
        proof {
            use_type_invariant(self);
        }
        let mut out: Vec<(String, V)> = Vec::new();
        let n = self.entries.len();
        for i in 0..n
            invariant
                n == self.entries@.len(),
                distinct_keys(self.entries@),
                out@.len() == i,
                forall|j: int| 0 <= j < i ==> (#[trigger] out@[j]).0@ == self.entries@[j].0@
                    && cloned(self.entries@[j].1, out@[j].1),
        {
            let k = self.entries[i].0.clone();
            let v = self.entries[i].1.clone();
            out.push((k, v));
        }
        proof {
            let e = self.entries@;
            let o = out@;
            assert(distinct_keys(o)) by {
                assert forall|a: int, b: int| 0 <= a < b < o.len() implies (#[trigger] o[a]).0@
                    != (#[trigger] o[b]).0@ by {
                    assert(e[a].0@ != e[b].0@);
                }
            }
            assert forall|k: Seq<char>| entries_map(o).dom().contains(k) <==> entries_map(
                e,
            ).dom().contains(k) by {
                lemma_key_index(o, k);
                lemma_key_index(e, k);
                if key_index(o, k) is Some {
                    let i = key_index(o, k)->0;
                    lemma_entry_in_map(e, i);
                }
                if key_index(e, k) is Some {
                    let i = key_index(e, k)->0;
                    lemma_entry_in_map(o, i);
                }
            }
            assert(entries_map(o).dom() =~= entries_map(e).dom());
            assert forall|k: Seq<char>| #[trigger] entries_map(o).dom().contains(k) implies cloned(
                entries_map(e)[k],
                entries_map(o)[k],
            ) by {
                lemma_key_index(o, k);
                let i = key_index(o, k)->0;
                lemma_entry_in_map(e, i);
                lemma_entry_in_map(o, i);
            }
        }
        StrMap { entries: out }
    }
}

/// The tags of a map element: keys and values are text.
pub type Tags = StrMap<String>;

/// The tags as a map from key text to value text.
pub open spec fn tag_texts(t: Map<Seq<char>, String>) -> Map<Seq<char>, Seq<char>> {
    t.map_values(|v: String| v@)
}

/// A copy of the tags.
pub fn clone_tags(t: &Tags) -> (r: Tags)
    ensures
        r@ == t@,
{
    let r = t.clone();
    assert forall|k: Seq<char>| #[trigger] r@.dom().contains(k) implies r@[k] == t@[k] by {
        assert(cloned(t@[k], r@[k]));
    }
    assert(r@ =~= t@);
    r
}

/// The text of the tag `key` in `t`, if it is there.
pub open spec fn tag(t: Map<Seq<char>, String>, key: Seq<char>) -> Option<Seq<char>> {
    if t.dom().contains(key) {
        Some(t[key]@)
    } else {
        None
    }
}

/// What a read gives back of a write: after `insert(k, v)`, `get(k)` finds
/// `v`, and every other key keeps its value or stays absent.
pub proof fn law_get_after_insert<V>(m: Map<Seq<char>, V>, k: Seq<char>, v: V, other: Seq<char>)
    ensures
        m.insert(k, v).dom().contains(k),
        m.insert(k, v)[k] == v,
        other != k ==> (m.insert(k, v).dom().contains(other) == m.dom().contains(other)),
        other != k && m.dom().contains(other) ==> m.insert(k, v)[other] == m[other],
{
}

} // verus!
