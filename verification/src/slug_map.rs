//! A small map keyed by agent slug, holding at most one value per slug.
use vstd::prelude::*;
use crate::text::{owned, str_eq};

verus! {

/// Values keyed by slug; no slug occurs twice.
pub struct SlugMap<V> {
    entries: Vec<(String, V)>,
}

impl<V> SlugMap<V> {
    /// No two entries share a slug.
    #[verifier::type_invariant]
    closed spec fn distinct_keys(&self) -> bool {
        forall|i: int, j: int|
            0 <= i < self.entries.len() && 0 <= j < self.entries.len() && i != j
                ==> self.entries[i].0@ != self.entries[j].0@
    }

    /// Whether some entry has the slug `k`.
    closed spec fn has_key(&self, k: Seq<char>) -> bool {
        exists|i: int| 0 <= i < self.entries.len() && self.entries[i].0@ == k
    }

    /// The position of the entry with slug `k`.
    closed spec fn slot(&self, k: Seq<char>) -> int {
        choose|i: int| 0 <= i < self.entries.len() && self.entries[i].0@ == k
    }

    /// Position of the entry with slug `key`.
    fn position(&self, key: &str) -> (r: Option<usize>)
        ensures
            r matches Some(i) ==> i < self.entries.len() && self.entries[i as int].0@ == key@,
            r is None ==> !self.has_key(key@),
    {
        let n = self.entries.len();
        let mut i: usize = 0;
        while i < n
            invariant
                n == self.entries.len(),
                i <= n,
                forall|j: int| 0 <= j < i ==> self.entries[j].0@ != key@,
            decreases n - i,
        {
            if str_eq(self.entries[i].0.as_str(), key) {
                return Some(i);
            }
            i = i + 1;
        }
        None
    }
}

impl<V: View> SlugMap<V> {
    /// The map from slug to the view of its value.
    pub closed spec fn map_view(&self) -> Map<Seq<char>, V::V> {
        Map::new(|k: Seq<char>| self.has_key(k), |k: Seq<char>| self.entries[self.slot(k)].1@)
    }

    /// The entry at `i` is the one the map gives for its slug.
    proof fn lemma_slot(&self, i: int)
        requires
            self.distinct_keys(),
            0 <= i < self.entries.len(),
        ensures
            self.has_key(self.entries[i].0@),
            self.slot(self.entries[i].0@) == i,
            self.map_view().contains_key(self.entries[i].0@),
            self.map_view()[self.entries[i].0@] == self.entries[i].1@,
    {
        let k = self.entries[i].0@;
        assert(self.has_key(k));
        let j = self.slot(k);
        assert(0 <= j < self.entries.len() && self.entries[j].0@ == k);
    }

    /// After the entry at `i` of `before` became `(key, value)`, the map is
    /// `before`'s with `key` bound to `value`.
    proof fn lemma_replaced(&self, before: Self, i: int, key: Seq<char>, value: V::V)
        requires
            self.distinct_keys(),
            before.distinct_keys(),
            0 <= i < before.entries.len(),
            self.entries.len() == before.entries.len(),
            before.entries[i].0@ == key,
            self.entries[i].0@ == key,
            self.entries[i].1@ == value,
            forall|j: int| 0 <= j < self.entries.len() && j != i ==> self.entries[j] == before.entries[j],
        ensures
            self.map_view() == before.map_view().insert(key, value),
    {
        assert forall|k: Seq<char>|
            #![trigger self.map_view().contains_key(k)]
            self.map_view().contains_key(k) == before.map_view().insert(key, value).contains_key(k)
                && (self.map_view().contains_key(k) ==> self.map_view()[k]
                    == before.map_view().insert(key, value)[k]) by {
            if k == key {
                self.lemma_slot(i);
            } else if before.has_key(k) {
                let j = before.slot(k);
                before.lemma_slot(j);
                self.lemma_slot(j);
            } else if self.has_key(k) {
                let j = self.slot(k);
                assert(before.entries[j].0@ == k);
            }
        }
        assert(self.map_view() =~= before.map_view().insert(key, value));
    }

    /// After `(key, value)` was appended to `before`, which had no `key`, the
    /// map is `before`'s with `key` bound to `value`.
    proof fn lemma_appended(&self, before: Self, key: Seq<char>, value: V::V)
        requires
            self.distinct_keys(),
            before.distinct_keys(),
            !before.has_key(key),
            self.entries.len() == before.entries.len() + 1,
            self.entries[before.entries.len() as int].0@ == key,
            self.entries[before.entries.len() as int].1@ == value,
            forall|j: int| 0 <= j < before.entries.len() ==> self.entries[j] == before.entries[j],
        ensures
            self.map_view() == before.map_view().insert(key, value),
    {
        let n = before.entries.len() as int;
        assert forall|k: Seq<char>|
            #![trigger self.map_view().contains_key(k)]
            self.map_view().contains_key(k) == before.map_view().insert(key, value).contains_key(k)
                && (self.map_view().contains_key(k) ==> self.map_view()[k]
                    == before.map_view().insert(key, value)[k]) by {
            if k == key {
                self.lemma_slot(n);
            } else if before.has_key(k) {
                let j = before.slot(k);
                before.lemma_slot(j);
                self.lemma_slot(j);
            } else if self.has_key(k) {
                let j = self.slot(k);
                assert(j != n);
                assert(before.entries[j].0@ == k);
            }
        }
        assert(self.map_view() =~= before.map_view().insert(key, value));
    }

    /// An empty map.
    pub fn new() -> (r: SlugMap<V>)
        ensures
            r@ == Map::<Seq<char>, V::V>::empty(),
    {
        let r = SlugMap { entries: Vec::new() };
        assert(r.map_view() =~= Map::<Seq<char>, V::V>::empty());
        r
    }

    /// The value held for `key`.
    pub fn get(&self, key: &str) -> (r: Option<&V>)
        ensures
            r is Some <==> self@.contains_key(key@),
            r matches Some(v) ==> v@ == self@[key@],
    {
        proof {
            use_type_invariant(self);
        }
        match self.position(key) {
            Some(i) => {
                proof {
                    self.lemma_slot(i as int);
                }
                Some(&self.entries[i].1)
            },
            None => None,
        }
    }

    /// Holds `value` for `key`, replacing any value held for it before.
    pub fn insert(&mut self, key: &str, value: V)
        ensures
            final(self)@ == old(self)@.insert(key@, value@),
    {
        proof {
            use_type_invariant(&*self);
        }
        let ghost before = *self;
        let ghost v = value@;
        let entry = (owned(key), value);
        let mut entries = Vec::new();
        match self.position(key) {
            Some(i) => {
                std::mem::swap(&mut entries, &mut self.entries);
                entries.set(i, entry);
                self.entries = entries;
                proof {
                    self.lemma_replaced(before, i as int, key@, v);
                }
            },
            None => {
                std::mem::swap(&mut entries, &mut self.entries);
                entries.push(entry);
                self.entries = entries;
                proof {
                    self.lemma_appended(before, key@, v);
                }
            },
        }
    }

    /// Every slug with its value, each slug once, in no promised order.
    pub fn entries(&self) -> (r: Vec<(String, &V)>)
        ensures
            forall|k: Seq<char>| self@.contains_key(k) <==> exists|i: int| 0 <= i < r.len() && r[i].0@ == k,
            forall|i: int|
                0 <= i < r.len() ==> self@.contains_key(#[trigger] r[i].0@) && self@[r[i].0@] == r[i].1@,
            forall|i: int, j: int| 0 <= i < r.len() && 0 <= j < r.len() && i != j ==> r[i].0@ != r[j].0@,
    {
        proof {
            use_type_invariant(self);
        }
        let n = self.entries.len();
        let mut r: Vec<(String, &V)> = Vec::new();
        let mut i: usize = 0;
        while i < n
            invariant
                n == self.entries.len(),
                i <= n,
                r.len() == i,
                forall|j: int|
                    0 <= j < i ==> #[trigger] r[j].0@ == self.entries[j].0@ && r[j].1@ == self.entries[j].1@,
            decreases n - i,
        {
            let e = &self.entries[i];
            r.push((e.0.clone(), &e.1));
            i = i + 1;
        }
        assert forall|k: Seq<char>| self@.contains_key(k) implies exists|i: int| 0 <= i < r.len() && r[i].0@ == k by {
            let i = self.slot(k);
            assert(r[i].0@ == self.entries[i].0@);
        }
        assert forall|k: Seq<char>| (exists|i: int| 0 <= i < r.len() && r[i].0@ == k) implies self@.contains_key(k) by {
            let i = choose|i: int| 0 <= i < r.len() && r[i].0@ == k;
            assert(r[i].0@ == self.entries[i].0@);
            self.lemma_slot(i);
        }
        assert forall|i: int| 0 <= i < r.len() implies self@.contains_key(#[trigger] r[i].0@) && self@[r[i].0@] == r[i].1@ by {
            assert(r[i].0@ == self.entries[i].0@);
            self.lemma_slot(i);
        }
        assert forall|i: int, j: int| 0 <= i < r.len() && 0 <= j < r.len() && i != j implies r[i].0@ != r[j].0@ by {
            assert(r[i].0@ == self.entries[i].0@);
            assert(r[j].0@ == self.entries[j].0@);
        }
        r
    }
}

impl<V: View> View for SlugMap<V> {
    type V = Map<Seq<char>, V::V>;

    open spec fn view(&self) -> Map<Seq<char>, V::V> {
        self.map_view()
    }
}

} // verus!
