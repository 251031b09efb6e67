//! A map from strings to values, kept as a list of entries with distinct
//! keys in insertion order.
use vstd::prelude::*;
use crate::text::str_eq;

verus! {

/// The value stored under `k` in a list of entries (the first one found).
pub open spec fn lookup<V>(es: Seq<(Seq<char>, V)>, k: Seq<char>) -> Option<V>
    decreases es.len(),
{
    if es.len() == 0 {
        None
    } else if es[0].0 == k {
        Some(es[0].1)
    } else {
        lookup(es.drop_first(), k)
    }
}

/// No key occurs twice.
pub open spec fn distinct_keys<V>(es: Seq<(Seq<char>, V)>) -> bool {
    forall|i: int, j: int| 0 <= i < j < es.len() ==> es[i].0 != es[j].0
}

/// Under distinct keys, the entry at `i` is what its key looks up.
pub proof fn lemma_lookup_at<V>(es: Seq<(Seq<char>, V)>, i: int)
    requires
        distinct_keys(es),
        0 <= i < es.len(),
    ensures
        lookup(es, es[i].0) == Some(es[i].1),
    decreases es.len(),
{
    if i > 0 {
        assert(es[0].0 != es[i].0);
        assert(distinct_keys(es.drop_first()));
        lemma_lookup_at(es.drop_first(), i - 1);
    }
}

/// A key that no entry has looks up nothing.
pub proof fn lemma_lookup_absent<V>(es: Seq<(Seq<char>, V)>, k: Seq<char>)
    requires
        forall|i: int| 0 <= i < es.len() ==> es[i].0 != k,
    ensures
        lookup(es, k) is None,
    decreases es.len(),
{
    if es.len() > 0 {
        lemma_lookup_absent(es.drop_first(), k);
    }
}

/// A key that looks something up belongs to an entry.
pub proof fn lemma_lookup_found<V>(es: Seq<(Seq<char>, V)>, k: Seq<char>)
    requires
        lookup(es, k) is Some,
    ensures
        exists|i: int| 0 <= i < es.len() && es[i].0 == k && lookup(es, k) == Some(es[i].1),
    decreases es.len(),
{
    if es[0].0 != k {
        lemma_lookup_found(es.drop_first(), k);
        let i = choose|i: int| 0 <= i < es.drop_first().len() && es.drop_first()[i].0 == k && lookup(es.drop_first(), k) == Some(es.drop_first()[i].1);
        assert(es[i + 1] == es.drop_first()[i]);
    }
}

/// The map that a list of entries stands for.
pub open spec fn entries_map<V>(es: Seq<(Seq<char>, V)>) -> Map<Seq<char>, V> {
    Map::new(|k: Seq<char>| lookup(es, k) is Some, |k: Seq<char>| lookup(es, k)->0)
}

/// A map from strings to values.
#[derive(Debug, Clone, PartialEq)]
pub struct StringMap<V> {
    entries: Vec<(String, V)>,
}

impl<V> StringMap<V> {
    /// The entries, in order.
    pub closed spec fn spec_entries(&self) -> Seq<(Seq<char>, V)> {
        self.entries@.map_values(|e: (String, V)| (e.0@, e.1))
    }

    /// The keys, in order.
    pub open spec fn spec_keys(&self) -> Seq<Seq<char>> {
        self.spec_entries().map_values(|e: (Seq<char>, V)| e.0)
    }

    /// The map the entries stand for.
    pub open spec fn spec_map(&self) -> Map<Seq<char>, V> {
        entries_map(self.spec_entries())
    }

    /// Keys are distinct.
    pub open spec fn wf(&self) -> bool {
        distinct_keys(self.spec_entries())
    }

    /// An empty map.
    pub fn new() -> (r: Self)
        ensures
            r.wf(),
            r.spec_entries() == Seq::<(Seq<char>, V)>::empty(),
            r.spec_map() == Map::<Seq<char>, V>::empty(),
    {
        let r = StringMap { entries: Vec::new() };
        assert(r.spec_entries() =~= Seq::<(Seq<char>, V)>::empty());
        assert(r.spec_map() =~= Map::<Seq<char>, V>::empty());
        r
    }

    /// The number of entries.
    pub fn len(&self) -> (r: usize)
        ensures
            r == self.spec_entries().len(),
    {
        self.entries.len()
    }

    /// The position of the entry for `key`.
    pub fn index_of(&self, key: &str) -> (r: Option<usize>)
        ensures
            match r {
                Some(i) => i < self.spec_entries().len() && self.spec_entries()[i as int].0 == key@
                    && lookup(self.spec_entries(), key@) == Some(self.spec_entries()[i as int].1),
                None => lookup(self.spec_entries(), key@) is None,
            },
    {
        let ghost es = self.spec_entries();
        let mut i: usize = 0;
        assert(es.skip(0) == es);
        while i < self.entries.len()
            invariant
                i <= self.entries.len(),
                es == self.spec_entries(),
                es.len() == self.entries.len(),
                lookup(es, key@) == lookup(es.skip(i as int), key@),
            decreases self.entries.len() - i,
        {
            assert(es[i as int].0 == self.entries@[i as int].0@);
            if str_eq(self.entries[i].0.as_str(), key) {
                assert(es.skip(i as int)[0] == es[i as int]);
                return Some(i);
            }
            assert(es.skip(i as int).drop_first() == es.skip(i + 1));
            i = i + 1;
        }
        None
    }

    /// The value stored under `key`.
    pub fn get(&self, key: &str) -> (r: Option<&V>)
        ensures
            match r {
                Some(v) => lookup(self.spec_entries(), key@) == Some(*v),
                None => lookup(self.spec_entries(), key@) is None,
            },
    {
        match self.index_of(key) {
            Some(i) => Some(&self.entries[i].1),
            None => None,
        }
    }

    /// Whether a value is stored under `key`.
    pub fn contains_key(&self, key: &str) -> (r: bool)
        ensures
            r == (lookup(self.spec_entries(), key@) is Some),
    {
        self.index_of(key).is_some()
    }

    /// Stores `value` under `key`, replacing what was stored there.
    pub fn insert(&mut self, key: String, value: V)
        requires
            old(self).wf(),
        ensures
            final(self).wf(),
            final(self).spec_map() == old(self).spec_map().insert(key@, value),
            !old(self).spec_map().contains_key(key@) ==> final(self).spec_entries()
                == old(self).spec_entries().push((key@, value)),
    {
        let ghost es = self.spec_entries();
        let ghost k = key@;
        match self.index_of(key.as_str()) {
            Some(i) => {
                self.entries.set(i, (key, value));
                let ghost es2 = self.spec_entries();
                assert(es2 == es.update(i as int, (k, value)));
                assert(distinct_keys(es2));
                assert forall|q: Seq<char>| #[trigger] lookup(es2, q) == (if q == k { Some(value) } else { lookup(es, q) }) by {
                    if q == k {
                        lemma_lookup_at(es2, i as int);
                    } else if lookup(es, q) is Some {
                        lemma_lookup_found(es, q);
                        let j = choose|j: int| 0 <= j < es.len() && es[j].0 == q && lookup(es, q) == Some(es[j].1);
                        lemma_lookup_at(es2, j);
                    } else {
                        assert forall|j: int| 0 <= j < es2.len() implies es2[j].0 != q by {
                            if j != i {
                                if es[j].0 == q {
                                    lemma_lookup_at(es, j);
                                }
                            }
                        }
                        lemma_lookup_absent(es2, q);
                    }
                }
                assert(self.spec_map() =~= old(self).spec_map().insert(k, value));
            },
            None => {
                self.entries.push((key, value));
                let ghost es2 = self.spec_entries();
                assert(es2 == es.push((k, value)));
                assert forall|j: int| 0 <= j < es.len() implies es[j].0 != k by {
                    if es[j].0 == k {
                        lemma_lookup_at(es, j);
                    }
                }
                assert(distinct_keys(es2));
                assert forall|q: Seq<char>| #[trigger] lookup(es2, q) == (if q == k { Some(value) } else { lookup(es, q) }) by {
                    if q == k {
                        lemma_lookup_at(es2, es.len() as int);
                    } else if lookup(es, q) is Some {
                        lemma_lookup_found(es, q);
                        let j = choose|j: int| 0 <= j < es.len() && es[j].0 == q && lookup(es, q) == Some(es[j].1);
                        lemma_lookup_at(es2, j);
                    } else {
                        assert forall|j: int| 0 <= j < es2.len() implies es2[j].0 != q by {
                            if j < es.len() && es[j].0 == q {
                                lemma_lookup_at(es, j);
                            }
                        }
                        lemma_lookup_absent(es2, q);
                    }
                }
                assert(self.spec_map() =~= old(self).spec_map().insert(k, value));
            },
        }
    }

    /// Removes and returns the value stored under `key`.
    pub fn remove(&mut self, key: &str) -> (r: Option<V>)
        requires
            old(self).wf(),
        ensures
            final(self).wf(),
            final(self).spec_map() == old(self).spec_map().remove(key@),
            r == lookup(old(self).spec_entries(), key@),
    {
        let ghost es = self.spec_entries();
        let ghost k = key@;
        match self.index_of(key) {
            Some(i) => {
                let (_, v) = self.entries.remove(i);
                let ghost es2 = self.spec_entries();
                assert(es2 =~= es.remove(i as int));
                assert(distinct_keys(es2)) by {
                    assert forall|a: int, b: int| 0 <= a < b < es2.len() implies es2[a].0 != es2[b].0 by {
                        let a2 = if a < i { a } else { a + 1 };
                        let b2 = if b < i { b } else { b + 1 };
                        assert(es2[a] == es[a2]);
                        assert(es2[b] == es[b2]);
                    }
                }
                assert forall|q: Seq<char>| #[trigger] lookup(es2, q) == (if q == k { None } else { lookup(es, q) }) by {
                    if q == k {
                        assert forall|j: int| 0 <= j < es2.len() implies es2[j].0 != q by {
                            let j2 = if j < i { j } else { j + 1 };
                            assert(es2[j] == es[j2]);
                        }
                        lemma_lookup_absent(es2, q);
                    } else if lookup(es, q) is Some {
                        lemma_lookup_found(es, q);
                        let j = choose|j: int| 0 <= j < es.len() && es[j].0 == q && lookup(es, q) == Some(es[j].1);
                        let j2 = if j < i { j } else { j - 1 };
                        assert(es2[j2] == es[j]);
                        lemma_lookup_at(es2, j2);
                    } else {
                        assert forall|j: int| 0 <= j < es2.len() implies es2[j].0 != q by {
                            let j2 = if j < i { j } else { j + 1 };
                            assert(es2[j] == es[j2]);
                            if es[j2].0 == q {
                                lemma_lookup_at(es, j2);
                            }
                        }
                        lemma_lookup_absent(es2, q);
                    }
                }
                assert(self.spec_map() =~= old(self).spec_map().remove(k));
                Some(v)
            },
            None => {
                assert(old(self).spec_map().remove(k) =~= old(self).spec_map());
                None
            },
        }
    }

    /// The key and value of the entry at position `i`.
    pub fn entry_at(&self, i: usize) -> (r: (&String, &V))
        requires
            i < self.spec_entries().len(),
        ensures
            (r.0@, *r.1) == self.spec_entries()[i as int],
    {
        let e = &self.entries[i];
        (&e.0, &e.1)
    }

    /// The keys, in order.
    pub fn keys(&self) -> (r: Vec<String>)
        ensures
            r.deep_view() == self.spec_keys(),
    {
        let mut out: Vec<String> = Vec::new();
        let mut i: usize = 0;
        while i < self.entries.len()
            invariant
                i <= self.entries.len(),
                out.deep_view() == self.spec_keys().take(i as int),
            decreases self.entries.len() - i,
        {
            assert(self.spec_entries()[i as int] == (self.entries@[i as int].0@, self.entries@[i as int].1));
            assert(self.spec_keys()[i as int] == self.entries@[i as int].0@);
            let ghost before = out.deep_view();
            let k = self.entries[i].0.clone();
            assert(k@ == self.entries@[i as int].0@);
            out.push(k);
            assert(out.deep_view() =~= before.push(self.spec_keys()[i as int]));
            assert(self.spec_keys().take(i + 1) =~= self.spec_keys().take(i as int).push(self.spec_keys()[i as int]));
            i = i + 1;
        }
        assert(self.spec_keys().take(self.entries.len() as int) =~= self.spec_keys());
        out
    }
}

impl<V> StringMap<V> {
    /// Under distinct keys, the keys are exactly the map's domain, each once.
    pub proof fn lemma_keys_are_domain(&self)
        requires
            self.wf(),
        ensures
            forall|k: Seq<char>| self.spec_map().contains_key(k) <==> self.spec_keys().contains(k),
            self.spec_keys().no_duplicates(),
    {
        let es = self.spec_entries();
        assert forall|i: int, j: int|
            0 <= i < self.spec_keys().len() && 0 <= j < self.spec_keys().len() && i != j
            implies self.spec_keys()[i] != self.spec_keys()[j] by {
            if i < j {
                assert(es[i].0 != es[j].0);
            } else {
                assert(es[j].0 != es[i].0);
            }
        }
        assert forall|k: Seq<char>| self.spec_map().contains_key(k) <==> self.spec_keys().contains(k) by {
            if self.spec_map().contains_key(k) {
                lemma_lookup_found(es, k);
                let i = choose|i: int| 0 <= i < es.len() && es[i].0 == k && lookup(es, k) == Some(es[i].1);
                assert(self.spec_keys()[i] == k);
            }
            if self.spec_keys().contains(k) {
                let i = choose|i: int| 0 <= i < self.spec_keys().len() && self.spec_keys()[i] == k;
                lemma_lookup_at(es, i);
            }
        }
    }
}

impl StringMap<String> {
    /// A copy with the same entries, in the same order.
    pub fn duplicate(&self) -> (r: Self)
        ensures
            r.spec_entries() == self.spec_entries(),
    {
        let mut entries: Vec<(String, String)> = Vec::new();
        let mut i: usize = 0;
        while i < self.entries.len()
            invariant
                i <= self.entries.len(),
                entries@ == self.entries@.take(i as int),
            decreases self.entries.len() - i,
        {
            let e = &self.entries[i];
            entries.push((e.0.clone(), e.1.clone()));
            assert(self.entries@.take(i + 1) == self.entries@.take(i as int).push(self.entries@[i as int]));
            i = i + 1;
        }
        assert(self.entries@.take(self.entries.len() as int) == self.entries@);
        StringMap { entries }
    }
}

impl<V: Copy> StringMap<V> {
    /// A copy with the same entries, in the same order.
    pub fn copied(&self) -> (r: Self)
        ensures
            r.spec_entries() == self.spec_entries(),
    {
        let mut entries: Vec<(String, V)> = Vec::new();
        let mut i: usize = 0;
        while i < self.entries.len()
            invariant
                i <= self.entries.len(),
                entries@ == self.entries@.take(i as int),
            decreases self.entries.len() - i,
        {
            let e = &self.entries[i];
            entries.push((e.0.clone(), e.1));
            assert(self.entries@.take(i + 1) == self.entries@.take(i as int).push(self.entries@[i as int]));
            i = i + 1;
        }
        assert(self.entries@.take(self.entries.len() as int) == self.entries@);
        StringMap { entries }
    }
}

/// The map from keys to the text of their values.
pub open spec fn text_map(m: StringMap<String>) -> Map<Seq<char>, Seq<char>> {
    m.spec_map().map_values(|s: String| s@)
}

/// The entries as (key, value text) pairs, in order.
pub open spec fn text_entries(m: StringMap<String>) -> Seq<(Seq<char>, Seq<char>)> {
    m.spec_entries().map_values(|e: (Seq<char>, String)| (e.0, e.1@))
}

} // verus!
