//! A map keyed by strings that keeps its entries in insertion order.
//!
//! The daemon keeps macros, profiles and tokens in maps keyed by name; this
//! type holds them as a vector of pairs whose keys never repeat, so that its
//! contents are a `Map` over character sequences and its order is the order
//! in which keys first arrived.
use vstd::prelude::*;
use crate::text::str_eq;

verus! {

/// A string-keyed map; no key occurs twice.
pub struct StrMap<V> {
    entries: Vec<(String, V)>,
}

/// `j` is where `x` stands in `s`, when nothing in `s` repeats.
pub proof fn lemma_index_of_unique<A>(s: Seq<A>, x: A, j: int)
    requires
        s.no_duplicates(),
        0 <= j < s.len(),
        s[j] == x,
    ensures
        s.index_of(x) == j,
        s.contains(x),
{
    assert(s.contains(x));
    let i = s.index_of(x);
    assert(0 <= i < s.len() && s[i] == x);
}

impl<V> StrMap<V> {
    /// The keys, in order.
    pub closed spec fn keys(&self) -> Seq<Seq<char>> {
        self.entries@.map_values(|e: (String, V)| e.0@)
    }

    /// The values, in the order of their keys.
    pub closed spec fn vals(&self) -> Seq<V> {
        self.entries@.map_values(|e: (String, V)| e.1)
    }

    /// No key occurs twice.
    pub open spec fn wf(&self) -> bool {
        self.keys().no_duplicates()
    }

    /// The contents as a map from key to value.
    pub open spec fn view(&self) -> Map<Seq<char>, V> {
        Map::new(|k: Seq<char>| self.keys().contains(k), |k: Seq<char>| self.vals()[self.keys().index_of(k)])
    }

    /// There are as many values as keys.
    pub proof fn lemma_lens(&self)
        ensures
            self.vals().len() == self.keys().len(),
    {
    }

    /// The number of entries.
    pub open spec fn spec_len(&self) -> nat {
        self.keys().len()
    }

    /// The keys are distinct, there are as many values as keys, and the map's
    /// domain is the set of keys; each value stands under its key.
    pub proof fn lemma_shape(&self)
        requires
            self.wf(),
        ensures
            self.keys().no_duplicates(),
            self.vals().len() == self.keys().len(),
            self.view().dom() == self.keys().to_set(),
            self.view().dom().finite(),
            self.view().dom().len() == self.keys().len(),
            forall|j: int|
                0 <= j < self.keys().len() ==> #[trigger] self.view()[self.keys()[j]]
                    == self.vals()[j],
    {
        assert(self.view().dom() =~= self.keys().to_set());
        self.keys().unique_seq_to_set();
        vstd::seq_lib::seq_to_set_is_finite(self.keys());
        assert forall|j: int| 0 <= j < self.keys().len() implies #[trigger] self.view()[self.keys()[j]]
            == self.vals()[j] by {
            lemma_index_of_unique(self.keys(), self.keys()[j], j);
        }
    }

    /// An empty map.
    pub fn new() -> (m: Self)
        ensures
            m.wf(),
            m.keys() == Seq::<Seq<char>>::empty(),
            m.view() == Map::<Seq<char>, V>::empty(),
    {
        let m = StrMap { entries: Vec::new() };
        assert(m.keys() =~= Seq::<Seq<char>>::empty());
        assert(m.view() =~= Map::<Seq<char>, V>::empty());
        m
    }

    /// The number of entries.
    pub fn len(&self) -> (n: usize)
        requires
            self.wf(),
        ensures
            n == self.spec_len(),
            n == self.view().dom().len(),
    {
        proof {
            self.lemma_shape();
        }
        self.entries.len()
    }

    /// The position of `key`, if present.
    pub fn find(&self, key: &str) -> (r: Option<usize>)
        ensures
            r matches Some(i) ==> i < self.keys().len() && self.keys()[i as int] == key@,
            r is None <==> !self.keys().contains(key@),
    {
        let n = self.entries.len();
        let mut i: usize = 0;
        while i < n
            invariant
                n == self.entries@.len(),
                i <= n,
                forall|j: int| 0 <= j < i ==> self.keys()[j] != key@,
            decreases n - i,
        {
            if str_eq(self.entries[i].0.as_str(), key) {
                assert(self.keys()[i as int] == key@);
                return Some(i);
            }
            i = i + 1;
        }
        assert(!self.keys().contains(key@));
        None
    }

    /// Whether `key` is present.
    pub fn contains_key(&self, key: &str) -> (r: bool)
        ensures
            r == self.view().contains_key(key@),
    {
        self.find(key).is_some()
    }

    /// The value stored under `key`.
    pub fn get(&self, key: &str) -> (r: Option<&V>)
        requires
            self.wf(),
        ensures
            r matches Some(v) ==> self.view().contains_key(key@) && *v == self.view()[key@],
            r is None ==> !self.view().contains_key(key@),
    {
        match self.find(key) {
            Some(i) => {
                proof {
                    self.lemma_shape();
                }
                Some(&self.entries[i].1)
            },
            None => None,
        }
    }

    /// The key at position `i`.
    pub fn key_at(&self, i: usize) -> (k: &String)
        requires
            i < self.spec_len(),
        ensures
            k@ == self.keys()[i as int],
    {
        &self.entries[i].0
    }

    /// The value at position `i`.
    pub fn value_at(&self, i: usize) -> (v: &V)
        requires
            i < self.spec_len(),
        ensures
            *v == self.vals()[i as int],
    {
        &self.entries[i].1
    }

    /// Stores `value` under `key`: in place when `key` is present, at the end otherwise.
    pub fn insert(&mut self, key: String, value: V)
        requires
            old(self).wf(),
        ensures
            final(self).wf(),
            final(self).view() == old(self).view().insert(key@, value),
            old(self).keys().contains(key@) ==> final(self).keys() == old(self).keys(),
            !old(self).keys().contains(key@) ==> final(self).keys() == old(self).keys().push(key@),
            forall|j: int|
                0 <= j < old(self).keys().len() && old(self).keys()[j] != key@ ==> final(self).vals()[j]
                    == old(self).vals()[j],
            !old(self).keys().contains(key@) ==> final(self).vals() == old(self).vals().push(value),
    {
        let ghost old_keys = self.keys();
        let ghost old_vals = self.vals();
        let ghost old_view = self.view();
        let ghost k = key@;
        match self.find(key.as_str()) {
            Some(i) => {
                assert(old_keys[i as int] == k);
                assert(old_keys.contains(k));
                let mut entries: Vec<(String, V)> = Vec::new();
                std::mem::swap(&mut entries, &mut self.entries);
                entries.set(i, (key, value));
                assert(self.keys() =~= Seq::<Seq<char>>::empty());
                self.entries = entries;
                assert(self.keys() =~= old_keys);
                assert(self.vals() =~= old_vals.update(i as int, value));
                proof {
                    assert forall|kk: Seq<char>| #[trigger] self.view().contains_key(kk) <==> old_view.insert(
                        k,
                        value,
                    ).contains_key(kk) by {}
                    assert forall|kk: Seq<char>| self.view().contains_key(kk) implies self.view()[kk]
                        == old_view.insert(k, value)[kk] by {
                        let j = old_keys.index_of(kk);
                        lemma_index_of_unique(old_keys, old_keys[j], j);
                        if kk == k {
                            lemma_index_of_unique(old_keys, k, i as int);
                        }
                    }
                    assert(self.view() =~= old_view.insert(k, value));
                }
            },
            None => {
                let mut entries: Vec<(String, V)> = Vec::new();
                std::mem::swap(&mut entries, &mut self.entries);
                entries.push((key, value));
                assert(self.keys() =~= Seq::<Seq<char>>::empty());
                self.entries = entries;
                assert(self.keys() =~= old_keys.push(k));
                assert(self.vals() =~= old_vals.push(value));
                proof {
                    assert forall|kk: Seq<char>| #[trigger] self.view().contains_key(kk) <==> old_view.insert(
                        k,
                        value,
                    ).contains_key(kk) by {
                        if kk == k {
                            assert(self.keys()[old_keys.len() as int] == k);
                        }
                        if old_keys.contains(kk) {
                            let j = old_keys.index_of(kk);
                            assert(self.keys()[j] == kk);
                        }
                        if self.keys().contains(kk) {
                            let j = self.keys().index_of(kk);
                            if j < old_keys.len() {
                                assert(old_keys[j] == kk);
                            }
                        }
                    }
                    assert forall|kk: Seq<char>| self.view().contains_key(kk) implies self.view()[kk]
                        == old_view.insert(k, value)[kk] by {
                        let j = self.keys().index_of(kk);
                        lemma_index_of_unique(self.keys(), self.keys()[j], j);
                        if kk != k {
                            lemma_index_of_unique(old_keys, kk, j);
                        }
                    }
                    assert(self.view() =~= old_view.insert(k, value));
                }
            },
        }
    }

    /// Removes `key`, returning the value stored under it.
    pub fn remove(&mut self, key: &str) -> (r: Option<V>)
        requires
            old(self).wf(),
        ensures
            final(self).wf(),
            final(self).view() == old(self).view().remove(key@),
            r matches Some(v) ==> old(self).view().contains_key(key@) && v == old(self).view()[key@],
            r is None <==> !old(self).view().contains_key(key@),
            r is None ==> final(self).keys() == old(self).keys() && final(self).vals() == old(self).vals(),
            r is Some ==> exists|i: int|
                0 <= i < old(self).keys().len() && old(self).keys()[i] == key@ && final(self).keys()
                    == old(self).keys().remove(i) && final(self).vals() == old(self).vals().remove(i),
    {
        let ghost old_keys = self.keys();
        let ghost old_vals = self.vals();
        let ghost old_view = self.view();
        let ghost k = key@;
        match self.find(key) {
            None => {
                assert(old_view.remove(k) =~= old_view);
                None
            },
            Some(i) => {
                proof {
                    lemma_index_of_unique(old_keys, k, i as int);
                }
                let mut entries: Vec<(String, V)> = Vec::new();
                std::mem::swap(&mut entries, &mut self.entries);
                let (_, v) = entries.remove(i);
                assert(self.keys() =~= Seq::<Seq<char>>::empty());
                self.entries = entries;
                assert(self.keys() =~= old_keys.remove(i as int));
                assert(self.vals() =~= old_vals.remove(i as int));
                proof {
                    assert forall|kk: Seq<char>| #[trigger] self.view().contains_key(kk) <==> old_view.remove(
                        k,
                    ).contains_key(kk) by {
                        if old_keys.contains(kk) && kk != k {
                            let j = old_keys.index_of(kk);
                            if j < i {
                                assert(self.keys()[j] == kk);
                            } else {
                                assert(self.keys()[j - 1] == kk);
                            }
                        }
                    }
                    assert forall|kk: Seq<char>| self.view().contains_key(kk) implies self.view()[kk]
                        == old_view.remove(k)[kk] by {
                        let j = self.keys().index_of(kk);
                        lemma_index_of_unique(self.keys(), self.keys()[j], j);
                        if j < i {
                            lemma_index_of_unique(old_keys, kk, j);
                        } else {
                            lemma_index_of_unique(old_keys, kk, j + 1);
                        }
                    }
                    assert(self.view() =~= old_view.remove(k));
                }
                Some(v)
            },
        }
    }
}

impl<V: Clone> StrMap<V> {
    /// Copies of the values, in order.
    pub fn values(&self) -> (r: Vec<V>)
        ensures
            r@.len() == self.vals().len(),
            forall|j: int| 0 <= j < r@.len() ==> cloned::<V>(self.vals()[j], #[trigger] r@[j]),
    {
        let n = self.entries.len();
        let mut out: Vec<V> = Vec::new();
        let mut i: usize = 0;
        while i < n
            invariant
                n == self.entries@.len(),
                i <= n,
                out@.len() == i,
                forall|j: int| 0 <= j < i ==> cloned::<V>(self.vals()[j], #[trigger] out@[j]),
            decreases n - i,
        {
            out.push(self.entries[i].1.clone());
            i = i + 1;
        }
        out
    }

    /// Copies of the keys, in order.
    pub fn key_list(&self) -> (r: Vec<String>)
        ensures
            r@.len() == self.keys().len(),
            forall|j: int| 0 <= j < r@.len() ==> #[trigger] r@[j]@ == self.keys()[j],
    {
        let n = self.entries.len();
        let mut out: Vec<String> = Vec::new();
        let mut i: usize = 0;
        while i < n
            invariant
                n == self.entries@.len(),
                i <= n,
                out@.len() == i,
                forall|j: int| 0 <= j < i ==> #[trigger] out@[j]@ == self.keys()[j],
            decreases n - i,
        {
            out.push(self.entries[i].0.clone());
            i = i + 1;
        }
        out
    }

    /// A copy of the map.
    pub fn duplicate(&self) -> (r: Self)
        ensures
            r.keys() == self.keys(),
            self.wf() ==> r.wf(),
            r.vals().len() == self.vals().len(),
            forall|j: int| 0 <= j < r.vals().len() ==> cloned::<V>(self.vals()[j], #[trigger] r.vals()[j]),
    {
        let n = self.entries.len();
        let mut out: Vec<(String, V)> = Vec::new();
        let mut i: usize = 0;
        while i < n
            invariant
                n == self.entries@.len(),
                i <= n,
                out@.len() == i,
                forall|j: int| 0 <= j < i ==> #[trigger] out@[j].0@ == self.keys()[j],
                forall|j: int| 0 <= j < i ==> cloned::<V>(self.vals()[j], #[trigger] out@[j].1),
            decreases n - i,
        {
            out.push((self.entries[i].0.clone(), self.entries[i].1.clone()));
            i = i + 1;
        }
        let r = StrMap { entries: out };
        assert(r.keys() =~= self.keys());
        r
    }
}

} // verus!
