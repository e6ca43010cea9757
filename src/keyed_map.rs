//! A finite map kept as a list of entries with distinct keys, for keys
//! that are compared through their identity (series keys, subjects).
use vstd::prelude::*;
use crate::types::SeriesKey;

verus! {

/// A key whose identity can be computed and compared.
pub trait MapKey: Sized {
    type Id;

    spec fn key_id(&self) -> Self::Id;

    fn same_key(&self, other: &Self) -> (r: bool)
        ensures
            r == (self.key_id() == other.key_id());
}

impl MapKey for SeriesKey {
    type Id = (Seq<char>, Seq<char>, u128);

    open spec fn key_id(&self) -> Self::Id {
        self@
    }

    fn same_key(&self, other: &Self) -> (r: bool) {
        self.same_as(other)
    }
}

impl MapKey for String {
    type Id = Seq<char>;

    open spec fn key_id(&self) -> Seq<char> {
        self@
    }

    fn same_key(&self, other: &Self) -> (r: bool) {
        *self == *other
    }
}

/// A map keyed by series.
pub type SeriesMap<V> = KeyedMap<SeriesKey, V>;

/// Entries of `s` under the key `id`.
pub open spec fn has_key<K: MapKey, V>(s: Seq<(K, V)>, id: K::Id) -> bool {
    exists|i: int| 0 <= i < s.len() && (#[trigger] s[i]).0.key_id() == id
}

/// No two entries of `s` share a key.
pub open spec fn distinct_keys<K: MapKey, V>(s: Seq<(K, V)>) -> bool {
    forall|i: int, j: int|
        0 <= i < s.len() && 0 <= j < s.len() && i != j ==> (#[trigger] s[i]).0.key_id() != (#[trigger] s[j]).0.key_id()
}

/// The map that the entries `s` stand for.
pub open spec fn entries_map<K: MapKey, V>(s: Seq<(K, V)>) -> Map<K::Id, V> {
    Map::new(
        |id: K::Id| has_key(s, id),
        |id: K::Id| s[choose|i: int| 0 <= i < s.len() && (#[trigger] s[i]).0.key_id() == id].1,
    )
}

pub proof fn lemma_entries_map_at<K: MapKey, V>(s: Seq<(K, V)>, i: int)
    requires
        distinct_keys(s),
        0 <= i < s.len(),
    ensures
        entries_map(s).contains_key(s[i].0.key_id()),
        entries_map(s)[s[i].0.key_id()] == s[i].1,
{
    let id = s[i].0.key_id();
    assert(has_key(s, id));
    let j = choose|j: int| 0 <= j < s.len() && (#[trigger] s[j]).0.key_id() == id;
    assert(j == i);
}

/// A finite map from keys to values.
pub struct KeyedMap<K, V> {
    entries: Vec<(K, V)>,
}

impl<K: MapKey, V> View for KeyedMap<K, V> {
    type V = Map<K::Id, V>;

    closed spec fn view(&self) -> Map<K::Id, V> {
        entries_map(self.entries@)
    }
}

impl<K: MapKey, V> KeyedMap<K, V> {
    pub closed spec fn wf(&self) -> bool {
        distinct_keys(self.entries@)
    }

    /// The entries, in the order in which their keys were first inserted.
    pub closed spec fn entries(&self) -> Seq<(K, V)> {
        self.entries@
    }

    pub proof fn lemma_entries(&self)
        requires
            self.wf(),
        ensures
            distinct_keys(self.entries()),
            self@ == entries_map(self.entries()),
    {
    }

    /// Each entry's key is in the map, with the entry's value, and each key
    /// of the map is the key of an entry.
    pub proof fn lemma_entries_view(&self)
        requires
            self.wf(),
        ensures
            distinct_keys(self.entries()),
            forall|i: int|
                0 <= i < self.entries().len() ==> self@.contains_key(
                    (#[trigger] self.entries()[i]).0.key_id(),
                ) && self@[self.entries()[i].0.key_id()] == self.entries()[i].1,
            forall|id: K::Id| #[trigger]
                self@.contains_key(id) ==> exists|i: int|
                    0 <= i < self.entries().len() && (#[trigger] self.entries()[i]).0.key_id() == id,
    {
        assert forall|i: int| 0 <= i < self.entries().len() implies self@.contains_key(
            (#[trigger] self.entries()[i]).0.key_id(),
        ) && self@[self.entries()[i].0.key_id()] == self.entries()[i].1 by {
            lemma_entries_map_at(self.entries@, i);
        }
        assert forall|id: K::Id| #[trigger] self@.contains_key(id) implies exists|i: int|
            0 <= i < self.entries().len() && (#[trigger] self.entries()[i]).0.key_id() == id by {
            assert(has_key(self.entries@, id));
            let i = choose|i: int| 0 <= i < self.entries@.len() && (#[trigger] self.entries@[i]).0.key_id() == id;
            assert(self.entries()[i] == self.entries@[i]);
        }
    }

    pub fn new() -> (r: KeyedMap<K, V>)
        ensures
            r.wf(),
            r@ == Map::<K::Id, V>::empty(),
            r.entries().len() == 0,
    {
        let r = KeyedMap { entries: Vec::new() };
        assert(r@ =~= Map::<K::Id, V>::empty());
        r
    }

    pub fn len(&self) -> (r: usize)
        ensures
            r == self.entries().len(),
    {
        self.entries.len()
    }

    fn find(&self, key: &K) -> (r: Option<usize>)
        requires
            self.wf(),
        ensures
            match r {
                Some(i) => i < self.entries@.len() && self.entries@[i as int].0.key_id() == key.key_id(),
                None => !has_key(self.entries@, key.key_id()),
            },
    {
        let mut i: usize = 0;
        while i < self.entries.len()
            invariant
                i <= self.entries@.len(),
                forall|j: int| 0 <= j < i ==> (#[trigger] self.entries@[j]).0.key_id() != key.key_id(),
            decreases self.entries@.len() - i,
        {
            if self.entries[i].0.same_key(key) {
                return Some(i);
            }
            i = i + 1;
        }
        None
    }

    pub fn contains_key(&self, key: &K) -> (r: bool)
        requires
            self.wf(),
        ensures
            r == self@.contains_key(key.key_id()),
    {
        self.find(key).is_some()
    }

    /// The value under `key`, if any.
    pub fn get(&self, key: &K) -> (r: Option<&V>)
        requires
            self.wf(),
        ensures
            match r {
                Some(v) => self@.contains_key(key.key_id()) && self@[key.key_id()] == *v,
                None => !self@.contains_key(key.key_id()),
            },
    {
        match self.find(key) {
            Some(i) => {
                proof {
                    lemma_entries_map_at(self.entries@, i as int);
                }
                Some(&self.entries[i].1)
            },
            None => None,
        }
    }

    /// Puts `value` under `key`, replacing what was there. A new key goes
    /// after all others.
    pub fn insert(&mut self, key: K, value: V)
        requires
            old(self).wf(),
        ensures
            final(self).wf(),
            final(self)@ == old(self)@.insert(key.key_id(), value),
            old(self)@.contains_key(key.key_id()) ==> final(self).entries().len() == old(self).entries().len(),
            !old(self)@.contains_key(key.key_id()) ==> final(self).entries() == old(self).entries().push(
                (key, value),
            ),
    {
        let ghost old_entries = self.entries@;
        let ghost id = key.key_id();
        match self.find(&key) {
            Some(i) => {
                self.entries.set(i, (key, value));
                proof {
                    let s = self.entries@;
                    assert(distinct_keys(s)) by {
                        assert forall|a: int, b: int|
                            0 <= a < s.len() && 0 <= b < s.len() && a != b implies (
                            #[trigger] s[a]).0.key_id() != (#[trigger] s[b]).0.key_id() by {
                            if a != i && b != i {
                                assert(old_entries[a] == s[a] && old_entries[b] == s[b]);
                            } else if a == i {
                                assert(old_entries[b] == s[b]);
                            } else {
                                assert(old_entries[a] == s[a]);
                            }
                        }
                    }
                    assert forall|k: K::Id| #[trigger] has_key(s, k) == has_key(old_entries, k)
                        by {
                        if has_key(s, k) {
                            let a = choose|a: int| 0 <= a < s.len() && (#[trigger] s[a]).0.key_id() == k;
                            if a == i {
                                assert(old_entries[i as int].0.key_id() == k);
                            } else {
                                assert(old_entries[a] == s[a]);
                            }
                        }
                        if has_key(old_entries, k) {
                            let a = choose|a: int|
                                0 <= a < old_entries.len() && (#[trigger] old_entries[a]).0.key_id() == k;
                            if a == i {
                                assert(s[i as int].0.key_id() == k);
                            } else {
                                assert(old_entries[a] == s[a]);
                            }
                        }
                    }
                    assert forall|k: K::Id| #[trigger]
                        entries_map(s).contains_key(k) implies entries_map(s)[k] == entries_map(
                        old_entries,
                    ).insert(id, value)[k] by {
                        let a = choose|a: int| 0 <= a < s.len() && (#[trigger] s[a]).0.key_id() == k;
                        lemma_entries_map_at(s, a);
                        if a != i {
                            assert(old_entries[a] == s[a]);
                            lemma_entries_map_at(old_entries, a);
                        }
                    }
                    assert(entries_map(s) =~= entries_map(old_entries).insert(id, value));
                }
            },
            None => {
                self.entries.push((key, value));
                proof {
                    let s = self.entries@;
                    let n = old_entries.len() as int;
                    assert(distinct_keys(s)) by {
                        assert forall|a: int, b: int|
                            0 <= a < s.len() && 0 <= b < s.len() && a != b implies (
                            #[trigger] s[a]).0.key_id() != (#[trigger] s[b]).0.key_id() by {
                            if a != n && b != n {
                                assert(old_entries[a] == s[a] && old_entries[b] == s[b]);
                            } else if a == n {
                                assert(old_entries[b] == s[b]);
                            } else {
                                assert(old_entries[a] == s[a]);
                            }
                        }
                    }
                    assert forall|k: K::Id| #[trigger]
                        has_key(s, k) == (has_key(old_entries, k) || k == id) by {
                        if has_key(s, k) {
                            let a = choose|a: int| 0 <= a < s.len() && (#[trigger] s[a]).0.key_id() == k;
                            if a != n {
                                assert(old_entries[a] == s[a]);
                            }
                        }
                        if has_key(old_entries, k) {
                            let a = choose|a: int|
                                0 <= a < old_entries.len() && (#[trigger] old_entries[a]).0.key_id() == k;
                            assert(old_entries[a] == s[a]);
                        }
                        if k == id {
                            assert(s[n].0.key_id() == k);
                        }
                    }
                    assert forall|k: K::Id| #[trigger]
                        entries_map(s).contains_key(k) implies entries_map(s)[k] == entries_map(
                        old_entries,
                    ).insert(id, value)[k] by {
                        let a = choose|a: int| 0 <= a < s.len() && (#[trigger] s[a]).0.key_id() == k;
                        lemma_entries_map_at(s, a);
                        if a != n {
                            assert(old_entries[a] == s[a]);
                            lemma_entries_map_at(old_entries, a);
                        }
                    }
                    assert(entries_map(s) =~= entries_map(old_entries).insert(id, value));
                }
            },
        }
    }

    /// Takes the value under `key` out of the map.
    pub fn remove(&mut self, key: &K) -> (r: Option<V>)
        requires
            old(self).wf(),
        ensures
            final(self).wf(),
            final(self)@ == old(self)@.remove(key.key_id()),
            match r {
                Some(v) => old(self)@.contains_key(key.key_id()) && old(self)@[key.key_id()] == v,
                None => !old(self)@.contains_key(key.key_id()),
            },
    {
        let ghost old_entries = self.entries@;
        let ghost id = key.key_id();
        match self.find(key) {
            Some(i) => {
                proof {
                    lemma_entries_map_at(old_entries, i as int);
                }
                let (_, v) = self.entries.remove(i);
                proof {
                    let s = self.entries@;
                    assert(forall|a: int| 0 <= a < s.len() ==> s[a] == old_entries[if a < i {
                        a
                    } else {
                        a + 1
                    }]);
                    assert(distinct_keys(s)) by {
                        assert forall|a: int, b: int|
                            0 <= a < s.len() && 0 <= b < s.len() && a != b implies (
                            #[trigger] s[a]).0.key_id() != (#[trigger] s[b]).0.key_id() by {
                            let a2 = if a < i {
                                a
                            } else {
                                a + 1
                            };
                            let b2 = if b < i {
                                b
                            } else {
                                b + 1
                            };
                            assert(s[a] == old_entries[a2] && s[b] == old_entries[b2]);
                        }
                    }
                    assert forall|k: K::Id| #[trigger]
                        has_key(s, k) == (has_key(old_entries, k) && k != id) by {
                        if has_key(s, k) {
                            let a = choose|a: int| 0 <= a < s.len() && (#[trigger] s[a]).0.key_id() == k;
                            let a2 = if a < i {
                                a
                            } else {
                                a + 1
                            };
                            assert(s[a] == old_entries[a2]);
                        }
                        if has_key(old_entries, k) && k != id {
                            let a = choose|a: int|
                                0 <= a < old_entries.len() && (#[trigger] old_entries[a]).0.key_id() == k;
                            if a < i {
                                assert(s[a] == old_entries[a]);
                            } else {
                                assert(a != i);
                                assert(s[a - 1] == old_entries[a]);
                            }
                        }
                    }
                    assert forall|k: K::Id| #[trigger]
                        entries_map(s).contains_key(k) implies entries_map(s)[k] == entries_map(
                        old_entries,
                    )[k] by {
                        let a = choose|a: int| 0 <= a < s.len() && (#[trigger] s[a]).0.key_id() == k;
                        lemma_entries_map_at(s, a);
                        let a2 = if a < i {
                            a
                        } else {
                            a + 1
                        };
                        assert(s[a] == old_entries[a2]);
                        lemma_entries_map_at(old_entries, a2);
                    }
                    assert(entries_map(s) =~= entries_map(old_entries).remove(id));
                }
                Some(v)
            },
            None => {
                assert(entries_map(old_entries) =~= entries_map(old_entries).remove(id));
                None
            },
        }
    }

    /// All entries, the map emptied.
    pub fn drain(self) -> (r: Vec<(K, V)>)
        requires
            self.wf(),
        ensures
            r@ == self.entries(),
    {
        self.entries
    }
}

} // verus!
