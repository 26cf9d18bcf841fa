use vstd::prelude::*;

use crate::text::same_text;

verus! {

/// A table of values keyed by text, in insertion order. Its value is the
/// map from each key's characters to the value's view; no key occurs twice.
pub struct KeyedTable<V: View> {
    entries: Vec<(String, V)>,
    map: Ghost<Map<Seq<char>, V::V>>,
}

impl<V: View> View for KeyedTable<V> {
    type V = Map<Seq<char>, V::V>;

    closed spec fn view(&self) -> Map<Seq<char>, V::V> {
        self.map@
    }
}

impl<V: View> KeyedTable<V> {
    /// The number of entries.
    pub closed spec fn len(&self) -> nat {
        self.entries@.len()
    }

    /// The key of the entry at position `i`.
    pub closed spec fn key_at(&self, i: int) -> Seq<char> {
        self.entries@[i].0@
    }

    /// The value of the entry at position `i`.
    pub closed spec fn value_at(&self, i: int) -> V {
        self.entries@[i].1
    }

    /// The entries agree with the map and no key occurs twice.
    pub closed spec fn wf(&self) -> bool {
        let s = self.entries@;
        let m = self.map@;
        &&& forall|i: int| 0 <= i < s.len() ==> #[trigger] m.contains_key(s[i].0@) && m[s[i].0@] == s[i].1@
        &&& forall|k: Seq<char>| #[trigger] m.contains_key(k) ==> exists|i: int| 0 <= i < s.len() && #[trigger] s[i].0@ == k
        &&& forall|i: int, j: int| 0 <= i < j < s.len() ==> #[trigger] s[i].0@ != #[trigger] s[j].0@
        &&& m.dom().finite()
    }

    /// The entry at position `i` is in the map.
    pub proof fn lemma_entry(&self, i: int)
        requires
            self.wf(),
            0 <= i < self.len(),
        ensures
            self@.contains_key(self.key_at(i)),
            self@[self.key_at(i)] == self.value_at(i)@,
    {
        assert(self.map@.contains_key(self.entries@[i].0@));
    }

    /// Every key of the map is at some position.
    pub proof fn lemma_key(&self, k: Seq<char>) -> (i: int)
        requires
            self.wf(),
            self@.contains_key(k),
        ensures
            0 <= i < self.len(),
            self.key_at(i) == k,
    {
        choose|i: int| 0 <= i < self.entries@.len() && #[trigger] self.entries@[i].0@ == k
    }

    /// Entries at different positions have different keys.
    pub proof fn lemma_distinct(&self, i: int, j: int)
        requires
            self.wf(),
            0 <= i < self.len(),
            0 <= j < self.len(),
            i != j,
        ensures
            self.key_at(i) != self.key_at(j),
    {
        if i < j {
            assert(self.entries@[i].0@ != self.entries@[j].0@);
        } else {
            assert(self.entries@[j].0@ != self.entries@[i].0@);
        }
    }

    /// An empty table.
    pub fn new() -> (r: KeyedTable<V>)
        ensures
            r.wf(),
            r@ == Map::<Seq<char>, V::V>::empty(),
    {
        KeyedTable { entries: Vec::new(), map: Ghost(Map::empty()) }
    }

    /// The number of entries.
    pub fn size(&self) -> (r: usize)
        requires
            self.wf(),
        ensures
            r == self.len(),
            r == self@.dom().len(),
    {
        proof { self.lemma_size(); }
        self.entries.len()
    }

    /// The number of entries is the number of keys.
    proof fn lemma_size(&self)
        requires
            self.wf(),
        ensures
            self.len() == self@.dom().len(),
        decreases self.entries@.len(),
    {
        let s = self.entries@;
        let keys = Seq::new(s.len(), |i: int| s[i].0@);
        assert(keys.no_duplicates()) by {
            assert forall|i: int, j: int| 0 <= i < keys.len() && 0 <= j < keys.len() && i != j implies keys[i] != keys[j] by {
                if i < j {
                    assert(s[i].0@ != s[j].0@);
                } else {
                    assert(s[j].0@ != s[i].0@);
                }
            }
        }
        assert(keys.to_set() =~= self@.dom()) by {
            assert forall|k: Seq<char>| keys.to_set().contains(k) <==> self@.dom().contains(k) by {
                if self@.dom().contains(k) {
                    let i = self.lemma_key(k);
                    assert(keys[i] == k);
                }
                if keys.to_set().contains(k) {
                    let i = choose|i: int| 0 <= i < keys.len() && keys[i] == k;
                    assert(self.map@.contains_key(s[i].0@));
                }
            }
        }
        keys.unique_seq_to_set();
    }

    /// The entry at position `i`.
    pub fn entry(&self, i: usize) -> (r: (&String, &V))
        requires
            self.wf(),
            i < self.len(),
        ensures
            r.0@ == self.key_at(i as int),
            *r.1 == self.value_at(i as int),
    {
        let e = &self.entries[i];
        (&e.0, &e.1)
    }

    /// The position of `key`, or `None` when it is absent.
    pub fn position_of(&self, key: &str) -> (r: Option<usize>)
        requires
            self.wf(),
        ensures
            r is None <==> !self@.contains_key(key@),
            r matches Some(i) ==> i < self.len() && self.key_at(i as int) == key@,
    {
        let n = self.entries.len();
        let mut i: usize = 0;
        while i < n
            invariant
                self.wf(),
                n == self.entries@.len(),
                i <= n,
                forall|j: int| 0 <= j < i ==> self.entries@[j].0@ != key@,
            decreases n - i,
        {
            if same_text(self.entries[i].0.as_str(), key) {
                return Some(i);
            }
            i = i + 1;
        }
        proof {
            if self@.contains_key(key@) {
                let k = self.lemma_key(key@);
                assert(self.entries@[k].0@ == key@);
            }
        }
        None
    }

    /// The value stored under `key`, or `None` when it is absent.
    pub fn get(&self, key: &str) -> (r: Option<&V>)
        requires
            self.wf(),
        ensures
            r is Some <==> self@.contains_key(key@),
            r matches Some(v) ==> v@ == self@[key@],
    {
        match self.position_of(key) {
            None => None,
            Some(i) => {
                proof { self.lemma_entry(i as int); }
                Some(&self.entries[i].1)
            },
        }
    }

    /// Stores `value` under `key`, replacing what was stored there.
    pub fn insert(&mut self, key: String, value: V)
        requires
            old(self).wf(),
        ensures
            final(self).wf(),
            final(self)@ == old(self)@.insert(key@, value@),
    {
        let ghost old_s = self.entries@;
        let ghost old_m = self.map@;
        let ghost id = key@;
        let ghost cv = value@;
        let pos = self.position_of(key.as_str());
        match pos {
            Some(i) => {
                self.entries.set(i, (key, value));
            },
            None => {
                self.entries.push((key, value));
            },
        }
        self.map = Ghost(old_m.insert(id, cv));
        proof {
            let s = self.entries@;
            let m = self.map@;
            assert forall|i: int| 0 <= i < s.len() implies #[trigger] m.contains_key(s[i].0@) && m[s[i].0@] == s[i].1@ by {
                match pos {
                    Some(p) => {
                        if i != p {
                            assert(old_s[i] == s[i]);
                            assert(old_m.contains_key(old_s[i].0@));
                            if old_s[i].0@ == id {
                                assert(old_s[p as int].0@ == id);
                            }
                        }
                    },
                    None => {
                        if i != old_s.len() {
                            assert(old_s[i] == s[i]);
                            assert(old_m.contains_key(old_s[i].0@));
                        }
                    },
                }
            }
            assert forall|k: Seq<char>| #[trigger] m.contains_key(k) implies exists|i: int| 0 <= i < s.len() && #[trigger] s[i].0@ == k by {
                if k == id {
                    match pos {
                        Some(p) => { assert(s[p as int].0@ == k); },
                        None => { assert(s[old_s.len() as int].0@ == k); },
                    }
                } else {
                    let i = choose|i: int| 0 <= i < old_s.len() && #[trigger] old_s[i].0@ == k;
                    assert(s[i].0@ == k);
                }
            }
            assert forall|i: int, j: int| 0 <= i < j < s.len() implies #[trigger] s[i].0@ != #[trigger] s[j].0@ by {
                if s[i].0@ == id {
                    assert(old_m.contains_key(old_s[j].0@) || j == old_s.len());
                }
                if s[j].0@ == id {
                    assert(old_m.contains_key(old_s[i].0@));
                }
            }
        }
    }

    /// Removes `key` and gives back what was stored under it, or `None`
    /// when it was absent.
    pub fn remove(&mut self, key: &str) -> (r: Option<V>)
        requires
            old(self).wf(),
        ensures
            final(self).wf(),
            final(self)@ == old(self)@.remove(key@),
            r is Some <==> old(self)@.contains_key(key@),
            r matches Some(v) ==> v@ == old(self)@[key@],
    {
        let ghost old_s = self.entries@;
        let ghost old_m = self.map@;
        let ghost id = key@;
        match self.position_of(key) {
            None => {
                assert(self.map@ =~= old_m.remove(id));
                None
            },
            Some(i) => {
                proof { self.lemma_entry(i as int); }
                let (_, v) = self.entries.remove(i);
                self.map = Ghost(old_m.remove(id));
                proof {
                    let s = self.entries@;
                    let m = self.map@;
                    assert forall|k: int| 0 <= k < s.len() implies #[trigger] m.contains_key(s[k].0@) && m[s[k].0@] == s[k].1@ by {
                        if k < i {
                            assert(s[k] == old_s[k]);
                            assert(old_s[k].0@ != id);
                            assert(old_m.contains_key(old_s[k].0@));
                        } else {
                            assert(s[k] == old_s[k + 1]);
                            assert(old_s[k + 1].0@ != id);
                            assert(old_m.contains_key(old_s[k + 1].0@));
                        }
                    }
                    assert forall|key2: Seq<char>| #[trigger] m.contains_key(key2) implies exists|k: int| 0 <= k < s.len() && #[trigger] s[k].0@ == key2 by {
                        let k = choose|k: int| 0 <= k < old_s.len() && #[trigger] old_s[k].0@ == key2;
                        if k < i {
                            assert(s[k].0@ == key2);
                        } else {
                            assert(k != i);
                            assert(s[k - 1].0@ == key2);
                        }
                    }
                    assert forall|a: int, b: int| 0 <= a < b < s.len() implies #[trigger] s[a].0@ != #[trigger] s[b].0@ by {
                        let a2 = if a < i { a } else { a + 1 };
                        let b2 = if b < i { b } else { b + 1 };
                        assert(s[a] == old_s[a2]);
                        assert(s[b] == old_s[b2]);
                    }
                }
                Some(v)
            },
        }
    }
}

} // verus!
