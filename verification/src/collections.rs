//! A finite map kept as a list of entries.
//!
//! The engine keys its maps by values whose equality is plain equality
//! (coordinates, type identifiers); `VecMap` gives such maps a contract over
//! `Map`, with the invariant that no key is stored twice.

use vstd::prelude::*;
use vstd::laws_eq::obeys_concrete_eq;

verus! {

/// No key occurs twice among the entries `s`.
pub open spec fn keys_distinct<K, V>(s: Seq<(K, V)>) -> bool {
    forall|i: int, j: int|
        #![trigger s[i], s[j]]
        0 <= i < s.len() && 0 <= j < s.len() && i != j ==> s[i].0 != s[j].0
}

/// The map that the entries `s` stand for: a key maps to the value of the
/// entry that holds it.
pub open spec fn entries_map<K, V>(s: Seq<(K, V)>) -> Map<K, V> {
    Map::new(
        |k: K| exists|i: int| #![trigger s[i]] 0 <= i < s.len() && s[i].0 == k,
        |k: K| s[choose|i: int| #![trigger s[i]] 0 <= i < s.len() && s[i].0 == k].1,
    )
}

/// With distinct keys, each entry is what the map holds at its key, and
/// the map holds no other key.
pub proof fn lemma_entries_map<K, V>(s: Seq<(K, V)>)
    requires
        keys_distinct(s),
    ensures
        forall|i: int|
            #![trigger s[i]]
            0 <= i < s.len() ==> entries_map(s).contains_key(s[i].0) && entries_map(s)[s[i].0]
                == s[i].1,
        forall|k: K|
            #[trigger] entries_map(s).contains_key(k) ==> exists|i: int|
                #![trigger s[i]]
                0 <= i < s.len() && s[i].0 == k,
{
    assert forall|i: int| #![trigger s[i]] 0 <= i < s.len() implies entries_map(s).contains_key(
        s[i].0,
    ) && entries_map(s)[s[i].0] == s[i].1 by {
        let k = s[i].0;
        assert(s[i].0 == k);
        let j = choose|j: int| #![trigger s[j]] 0 <= j < s.len() && s[j].0 == k;
        assert(j == i);
    }
}

/// Replacing the value of entry `i` replaces the map's value at its key.
pub proof fn lemma_entries_map_update<K, V>(s: Seq<(K, V)>, i: int, v: V)
    requires
        keys_distinct(s),
        0 <= i < s.len(),
    ensures
        keys_distinct(s.update(i, (s[i].0, v))),
        entries_map(s.update(i, (s[i].0, v))) == entries_map(s).insert(s[i].0, v),
{
    let s2 = s.update(i, (s[i].0, v));
    let k0 = s[i].0;
    assert forall|a: int, b: int|
        #![trigger s2[a], s2[b]]
        0 <= a < s2.len() && 0 <= b < s2.len() && a != b implies s2[a].0 != s2[b].0 by {
        assert(s2[a].0 == s[a].0);
        assert(s2[b].0 == s[b].0);
    }
    lemma_entries_map(s);
    lemma_entries_map(s2);
    let m = entries_map(s).insert(k0, v);
    assert forall|k: K| #[trigger] entries_map(s2).contains_key(k) implies m.contains_key(k)
        && entries_map(s2)[k] == m[k] by {
        let a = choose|a: int| #![trigger s2[a]] 0 <= a < s2.len() && s2[a].0 == k;
        assert(s2[a].0 == s[a].0);
        if a != i {
            assert(s2[a] == s[a]);
        }
    }
    assert forall|k: K| #[trigger] m.contains_key(k) implies entries_map(s2).contains_key(k) by {
        if k == k0 {
            assert(s2[i].0 == k0);
        } else {
            let a = choose|a: int| #![trigger s[a]] 0 <= a < s.len() && s[a].0 == k;
            assert(s2[a].0 == s[a].0);
        }
    }
    assert(entries_map(s2) =~= m);
}

/// Appending an entry with a new key adds that key to the map.
pub proof fn lemma_entries_map_push<K, V>(s: Seq<(K, V)>, k0: K, v: V)
    requires
        keys_distinct(s),
        forall|i: int| #![trigger s[i]] 0 <= i < s.len() ==> s[i].0 != k0,
    ensures
        keys_distinct(s.push((k0, v))),
        entries_map(s.push((k0, v))) == entries_map(s).insert(k0, v),
{
    let s2 = s.push((k0, v));
    assert forall|a: int, b: int|
        #![trigger s2[a], s2[b]]
        0 <= a < s2.len() && 0 <= b < s2.len() && a != b implies s2[a].0 != s2[b].0 by {
        if a < s.len() {
            assert(s2[a] == s[a]);
        }
        if b < s.len() {
            assert(s2[b] == s[b]);
        }
    }
    lemma_entries_map(s);
    lemma_entries_map(s2);
    let m = entries_map(s).insert(k0, v);
    assert forall|k: K| #[trigger] entries_map(s2).contains_key(k) implies m.contains_key(k)
        && entries_map(s2)[k] == m[k] by {
        let a = choose|a: int| #![trigger s2[a]] 0 <= a < s2.len() && s2[a].0 == k;
        if a < s.len() {
            assert(s2[a] == s[a]);
        }
    }
    assert forall|k: K| #[trigger] m.contains_key(k) implies entries_map(s2).contains_key(k) by {
        if k == k0 {
            assert(s2[s.len() as int].0 == k0);
        } else {
            let a = choose|a: int| #![trigger s[a]] 0 <= a < s.len() && s[a].0 == k;
            assert(s2[a] == s[a]);
        }
    }
    assert(entries_map(s2) =~= m);
}

/// A finite map kept as a list of `(key, value)` entries, no key twice.
#[derive(Debug)]
pub struct VecMap<K, V> {
    entries: Vec<(K, V)>,
}

impl<K, V> View for VecMap<K, V> {
    type V = Map<K, V>;

    closed spec fn view(&self) -> Map<K, V> {
        entries_map(self.entries@)
    }
}

impl<K: PartialEq, V> VecMap<K, V> {
    /// The map's invariant: no key is stored twice.
    pub closed spec fn wf(&self) -> bool {
        keys_distinct(self.entries@)
    }

    /// The empty map.
    pub fn new() -> (m: Self)
        ensures
            m.wf(),
            m@ == Map::<K, V>::empty(),
    {
        let m = VecMap { entries: Vec::new() };
        assert(m@ =~= Map::<K, V>::empty());
        m
    }

    /// The position of the entry that holds `key`, if one does.
    fn find(&self, key: &K) -> (r: Option<usize>)
        requires
            self.wf(),
            obeys_concrete_eq::<K>(),
        ensures
            match r {
                Some(i) => i < self.entries@.len() && self.entries@[i as int].0 == *key,
                None => forall|i: int|
                    #![trigger self.entries@[i]]
                    0 <= i < self.entries@.len() ==> self.entries@[i].0 != *key,
            },
            r is None <==> !self@.contains_key(*key),
            r matches Some(i) ==> self@[*key] == self.entries@[i as int].1,
    {
        proof {
            lemma_entries_map(self.entries@);
        }
        let mut i: usize = 0;
        while i < self.entries.len()
            invariant
                i <= self.entries@.len(),
                self.wf(),
                obeys_concrete_eq::<K>(),
                forall|j: int| #![trigger self.entries@[j]] 0 <= j < i ==> self.entries@[j].0 != *key,
            decreases self.entries@.len() - i,
        {
            proof {
                reveal(obeys_concrete_eq);
            }
            if self.entries[i].0 == *key {
                proof {
                    lemma_entries_map(self.entries@);
                }
                return Some(i);
            }
            i += 1;
        }
        None
    }

    /// The value that `key` maps to, if any.
    pub fn get(&self, key: &K) -> (r: Option<&V>)
        requires
            self.wf(),
            obeys_concrete_eq::<K>(),
        ensures
            match r {
                Some(v) => self@.contains_key(*key) && *v == self@[*key],
                None => !self@.contains_key(*key),
            },
    {
        match self.find(key) {
            Some(i) => Some(&self.entries[i].1),
            None => None,
        }
    }

    /// Whether some value is stored under `key`.
    pub fn contains_key(&self, key: &K) -> (r: bool)
        requires
            self.wf(),
            obeys_concrete_eq::<K>(),
        ensures
            r == self@.contains_key(*key),
    {
        self.find(key).is_some()
    }

    /// A mutable borrow of the value that `key` maps to, if any; whatever is
    /// written through it becomes the map's value at `key`.
    pub fn get_mut(&mut self, key: &K) -> (r: Option<&mut V>)
        requires
            old(self).wf(),
            obeys_concrete_eq::<K>(),
        ensures
            final(self).wf(),
            match r {
                Some(v) => {
                    &&& old(self)@.contains_key(*key)
                    &&& *v == old(self)@[*key]
                    &&& final(self)@ == old(self)@.insert(*key, *final(v))
                },
                None => {
                    &&& !old(self)@.contains_key(*key)
                    &&& final(self)@ == old(self)@
                },
            },
    {
        match self.find(key) {
            Some(i) => {
                let ghost s = self.entries@;
                let entry = &mut self.entries[i];
                let r = &mut entry.1;
                proof {
                    lemma_entries_map_update(s, i as int, *final(r));
                }
                Some(r)
            },
            None => None,
        }
    }

    /// Stores `value` under `key`; the value stored there before, if any, is
    /// handed back.
    pub fn insert(&mut self, key: K, value: V) -> (r: Option<V>)
        requires
            old(self).wf(),
            obeys_concrete_eq::<K>(),
        ensures
            final(self).wf(),
            final(self)@ == old(self)@.insert(key, value),
            match r {
                Some(v) => old(self)@.contains_key(key) && v == old(self)@[key],
                None => !old(self)@.contains_key(key),
            },
    {
        let ghost s = self.entries@;
        proof {
            lemma_entries_map(s);
        }
        match self.find(&key) {
            Some(i) => {
                let mut v = value;
                std::mem::swap(&mut self.entries[i].1, &mut v);
                proof {
                    assert(self.entries@ == s.update(i as int, (s[i as int].0, value)));
                    lemma_entries_map_update(s, i as int, value);
                }
                Some(v)
            },
            None => {
                self.entries.push((key, value));
                proof {
                    lemma_entries_map_push(s, key, value);
                }
                None
            },
        }
    }

    /// Removes `key` and hands back the value stored under it, if any.
    pub fn remove(&mut self, key: &K) -> (r: Option<V>)
        requires
            old(self).wf(),
            obeys_concrete_eq::<K>(),
        ensures
            final(self).wf(),
            final(self)@ == old(self)@.remove(*key),
            match r {
                Some(v) => old(self)@.contains_key(*key) && v == old(self)@[*key],
                None => !old(self)@.contains_key(*key),
            },
    {
        let ghost s = self.entries@;
        proof {
            lemma_entries_map(s);
        }
        match self.find(key) {
            Some(i) => {
                let (_, v) = self.entries.remove(i);
                proof {
                    let s2 = self.entries@;
                    assert(s2 == s.remove(i as int));
                    assert forall|a: int, b: int|
                        #![trigger s2[a], s2[b]]
                        0 <= a < s2.len() && 0 <= b < s2.len() && a != b implies s2[a].0
                        != s2[b].0 by {
                        let a0 = if a < i { a } else { a + 1 };
                        let b0 = if b < i { b } else { b + 1 };
                        assert(s2[a] == s[a0]);
                        assert(s2[b] == s[b0]);
                    }
                    lemma_entries_map(s2);
                    assert forall|k: K| #[trigger] entries_map(s2).contains_key(k) implies k
                        != *key by {
                        let a = choose|a: int| #![trigger s2[a]] 0 <= a < s2.len() && s2[a].0 == k;
                        let a0 = if a < i { a } else { a + 1 };
                        assert(s2[a] == s[a0]);
                    }
                    assert forall|k: K| #[trigger] entries_map(s).contains_key(k) && k != *key
                        implies entries_map(s2).contains_key(k) by {
                        let a = choose|a: int| #![trigger s[a]] 0 <= a < s.len() && s[a].0 == k;
                        let a2 = if a < i { a } else { a - 1 };
                        assert(s2[a2] == s[a]);
                    }
                    assert forall|k: K| #[trigger] entries_map(s2).contains_key(k) implies entries_map(s2)[k]
                        == entries_map(s)[k] by {
                        let a = choose|a: int| #![trigger s2[a]] 0 <= a < s2.len() && s2[a].0 == k;
                        let a0 = if a < i { a } else { a + 1 };
                        assert(s2[a] == s[a0]);
                    }
                    assert(entries_map(s2) =~= entries_map(s).remove(*key));
                }
                Some(v)
            },
            None => {
                proof {
                    assert(entries_map(s) =~= entries_map(s).remove(*key));
                }
                None
            },
        }
    }

    /// Removes every entry.
    pub fn clear(&mut self)
        ensures
            final(self).wf(),
            final(self)@ == Map::<K, V>::empty(),
    {
        self.entries.clear();
        assert(self@ =~= Map::<K, V>::empty());
    }
}

} // verus!
