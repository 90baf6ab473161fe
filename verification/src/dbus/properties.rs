//! Property tables as BlueZ hands them out over D-Bus: a map from names to
//! values, the values reduced to the kinds that the device logic reads.

use vstd::prelude::*;
use vstd::string::*;

verus! {

/// A property value, as far as the device logic reads it: a string, a
/// boolean, a 16-bit signed or an 8-bit unsigned integer; anything else is
/// `Other`.
#[derive(Debug)]
pub enum PropValue {
    Str(String),
    Bool(bool),
    I16(i16),
    U8(u8),
    Other,
}

/// A map from names to values in which each name occurs once.
pub struct StrMap<V> {
    entries: Vec<(String, V)>,
}

impl<V> StrMap<V> {
    /// No name occurs twice.
    #[verifier::type_invariant]
    closed spec fn keys_distinct(self) -> bool {
        forall|i: int, j: int|
            0 <= i < self.entries@.len() && 0 <= j < self.entries@.len() && i != j
                ==> self.entries@[i].0@ != self.entries@[j].0@
    }

    closed spec fn has_key_at(self, k: Seq<char>, i: int) -> bool {
        0 <= i < self.entries@.len() && self.entries@[i].0@ == k
    }

    /// The map's contents.
    pub closed spec fn view(self) -> Map<Seq<char>, V> {
        Map::new(
            |k: Seq<char>| exists|i: int| self.has_key_at(k, i),
            |k: Seq<char>| self.entries@[choose|i: int| self.has_key_at(k, i)].1,
        )
    }

    proof fn lemma_view_at(self, k: Seq<char>, i: int)
        requires
            self.keys_distinct(),
            self.has_key_at(k, i),
        ensures
            self.view().contains_key(k),
            self.view()[k] == self.entries@[i].1,
    {
        let c = choose|j: int| self.has_key_at(k, j);
        assert(self.has_key_at(k, c));
        assert(c == i);
    }

    /// An empty map.
    pub fn new() -> (m: Self)
        ensures
            m.view() == Map::<Seq<char>, V>::empty(),
    {
        let m = StrMap { entries: Vec::new() };
        assert(m.view() =~= Map::<Seq<char>, V>::empty());
        m
    }

    /// The number of names in the map.
    pub fn len(&self) -> (n: usize)
        ensures
            n == self.view().len(),
            self.view().dom().finite(),
    {
        proof {
            use_type_invariant(self);
            self.lemma_dom_len();
        }
        self.entries.len()
    }

    proof fn lemma_dom_len(self)
        requires
            self.keys_distinct(),
        ensures
            self.view().dom().finite(),
            self.view().dom().len() == self.entries@.len(),
    {
        let keys = self.entries@.map_values(|e: (String, V)| e.0@);
        assert(keys.no_duplicates()) by {
            assert forall|i: int, j: int|
                0 <= i < keys.len() && 0 <= j < keys.len() && i != j implies keys[i] != keys[j] by {
                assert(keys[i] == self.entries@[i].0@);
                assert(keys[j] == self.entries@[j].0@);
            }
        }
        assert(self.view().dom() =~= keys.to_set()) by {
            assert forall|k: Seq<char>| self.view().dom().contains(k) implies keys.to_set().contains(k) by {
                let i = choose|i: int| self.has_key_at(k, i);
                assert(keys[i] == k);
            }
            assert forall|k: Seq<char>| keys.to_set().contains(k) implies self.view().dom().contains(k) by {
                let i = choose|i: int| 0 <= i < keys.len() && keys[i] == k;
                assert(self.has_key_at(k, i));
            }
        }
        keys.unique_seq_to_set();
    }

    fn position(&self, key: &String) -> (r: Option<usize>)
        ensures
            match r {
                Some(i) => self.has_key_at(key@, i as int),
                None => !self.view().contains_key(key@),
            },
    {
        let mut i: usize = 0;
        while i < self.entries.len()
            invariant
                i <= self.entries@.len(),
                forall|j: int| 0 <= j < i ==> self.entries@[j].0@ != key@,
            decreases self.entries.len() - i,
        {
            if self.entries[i].0 == *key {
                return Some(i);
            }
            i = i + 1;
        }
        None
    }

    /// Whether the map holds a value under `key`.
    pub fn contains_key(&self, key: &str) -> (r: bool)
        ensures
            r == self.view().contains_key(key@),
    {
        let k = String::from_str(key);
        match self.position(&k) {
            Some(_) => true,
            None => false,
        }
    }

    /// The value held under `key`, if any.
    pub fn get(&self, key: &str) -> (r: Option<&V>)
        ensures
            match r {
                Some(v) => self.view().contains_key(key@) && *v == self.view()[key@],
                None => !self.view().contains_key(key@),
            },
    {
        proof {
            use_type_invariant(self);
        }
        let k = String::from_str(key);
        match self.position(&k) {
            Some(i) => {
                proof {
                    self.lemma_view_at(key@, i as int);
                }
                Some(&self.entries[i].1)
            },
            None => None,
        }
    }

    /// Puts `value` under `key`, in place of any value held there before.
    pub fn insert(&mut self, key: String, value: V)
        ensures
            final(self).view() == old(self).view().insert(key@, value),
    {
        proof {
            use_type_invariant(&*self);
        }
        let ghost old_map = *old(self);
        let ghost k = key@;
        let pos = self.position(&key);
        let mut entries: Vec<(String, V)> = Vec::new();
        std::mem::swap(&mut entries, &mut self.entries);
        match pos {
            Some(i) => {
                entries.set(i, (key, value));
                self.entries = entries;
                proof {
                    let new_map = *self;
                    assert forall|a: int, b: int|
                        0 <= a < new_map.entries@.len() && 0 <= b < new_map.entries@.len() && a != b
                            implies new_map.entries@[a].0@ != new_map.entries@[b].0@ by {
                        assert(old_map.entries@[a].0@ != old_map.entries@[b].0@);
                    }
                    assert forall|kk: Seq<char>| #[trigger] new_map.view().contains_key(kk)
                        == old_map.view().insert(k, value).contains_key(kk) by {
                        if old_map.view().contains_key(kk) {
                            let j = choose|j: int| old_map.has_key_at(kk, j);
                            assert(new_map.has_key_at(kk, j));
                        }
                        if new_map.view().contains_key(kk) {
                            let j = choose|j: int| new_map.has_key_at(kk, j);
                            assert(old_map.has_key_at(kk, j));
                        }
                    }
                    assert forall|kk: Seq<char>| new_map.view().contains_key(kk)
                        implies new_map.view()[kk] == old_map.view().insert(k, value)[kk] by {
                        let j = choose|j: int| new_map.has_key_at(kk, j);
                        new_map.lemma_view_at(kk, j);
                        if j != i as int {
                            assert(old_map.has_key_at(kk, j));
                            old_map.lemma_view_at(kk, j);
                        }
                    }
                    assert(new_map.view() =~= old_map.view().insert(k, value));
                }
            },
            None => {
                entries.push((key, value));
                proof {
                    let n = old_map.entries@.len() as int;
                    assert forall|a: int, b: int|
                        0 <= a < entries@.len() && 0 <= b < entries@.len() && a != b
                            implies entries@[a].0@ != entries@[b].0@ by {
                        if a < n && b < n {
                            assert(old_map.entries@[a].0@ != old_map.entries@[b].0@);
                        } else if a == n {
                            assert(!old_map.has_key_at(k, b));
                        } else {
                            assert(!old_map.has_key_at(k, a));
                        }
                    }
                }
                self.entries = entries;
                proof {
                    let new_map = *self;
                    let n = old_map.entries@.len() as int;
                    assert(new_map.has_key_at(k, n));
                    assert forall|kk: Seq<char>| #[trigger] new_map.view().contains_key(kk)
                        == old_map.view().insert(k, value).contains_key(kk) by {
                        if old_map.view().contains_key(kk) {
                            let j = choose|j: int| old_map.has_key_at(kk, j);
                            assert(new_map.has_key_at(kk, j));
                        }
                        if new_map.view().contains_key(kk) && kk != k {
                            let j = choose|j: int| new_map.has_key_at(kk, j);
                            assert(old_map.has_key_at(kk, j));
                        }
                    }
                    assert forall|kk: Seq<char>| new_map.view().contains_key(kk)
                        implies new_map.view()[kk] == old_map.view().insert(k, value)[kk] by {
                        let j = choose|j: int| new_map.has_key_at(kk, j);
                        new_map.lemma_view_at(kk, j);
                        if j != n {
                            assert(old_map.has_key_at(kk, j));
                            old_map.lemma_view_at(kk, j);
                        }
                    }
                    assert(new_map.view() =~= old_map.view().insert(k, value));
                }
            },
        }
    }
}

} // verus!
