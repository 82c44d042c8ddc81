//! A small insertion-ordered map keyed by strings.
use vstd::prelude::*;
use crate::text::str_eq;

verus! {

/// String-keyed map stored as a list of entries with distinct keys, in
/// insertion order.
#[derive(Debug)]
pub struct StrMap<V> {
    entries: Vec<(String, V)>,
}

/// The entries `e` hold pairwise distinct keys.
pub open spec fn keys_distinct<V>(e: Seq<(String, V)>) -> bool {
    forall|i: int, j: int| 0 <= i < e.len() && 0 <= j < e.len() && i != j ==> e[i].0@ != e[j].0@
}

/// Some entry of `e` has key `k`.
pub open spec fn has_key<V>(e: Seq<(String, V)>, k: Seq<char>) -> bool {
    exists|i: int| 0 <= i < e.len() && e[i].0@ == k
}

/// The model of a list of entries with distinct keys.
pub open spec fn entries_map<V: View>(e: Seq<(String, V)>) -> Map<Seq<char>, V::V> {
    Map::new(
        |k: Seq<char>| has_key(e, k),
        |k: Seq<char>| e[choose|i: int| 0 <= i < e.len() && e[i].0@ == k].1@,
    )
}

impl<V: View> View for StrMap<V> {
    type V = Map<Seq<char>, V::V>;

    closed spec fn view(&self) -> Map<Seq<char>, V::V> {
        entries_map(self.entries@)
    }
}

proof fn lemma_entries_map_at<V: View>(e: Seq<(String, V)>, i: int)
    requires
        keys_distinct(e),
        0 <= i < e.len(),
    ensures
        entries_map(e).contains_key(e[i].0@),
        entries_map(e)[e[i].0@] == e[i].1@,
{
    let k = e[i].0@;
    assert(has_key(e, k));
    let w = choose|j: int| 0 <= j < e.len() && e[j].0@ == k;
    assert(w == i);
}

impl<V> StrMap<V> {
    #[verifier::type_invariant]
    closed spec fn inv(self) -> bool {
        keys_distinct(self.entries@)
    }
}

impl<V: View> StrMap<V> {
    /// The entries in insertion order.
    pub closed spec fn entry_seq(&self) -> Seq<(String, V)> {
        self.entries@
    }

    /// The map's model is determined by its entries (no run-time effect).
    pub fn lemma_entries(&self)
        ensures
            keys_distinct(self.entry_seq()),
            self@ == entries_map(self.entry_seq()),
            forall|i: int| 0 <= i < self.entry_seq().len() ==> #[trigger] self@.contains_key(
                self.entry_seq()[i].0@,
            ) && self@[self.entry_seq()[i].0@] == self.entry_seq()[i].1@,
            forall|k: Seq<char>| self@.contains_key(k) <==> has_key(self.entry_seq(), k),
    {
        proof {
        use_type_invariant(self);
        assert forall|i: int| 0 <= i < self.entry_seq().len() implies #[trigger] self@.contains_key(
            self.entry_seq()[i].0@,
        ) && self@[self.entry_seq()[i].0@] == self.entry_seq()[i].1@ by {
            lemma_entries_map_at(self.entries@, i);
        }
        }
    }

    /// The map has finitely many keys (no run-time effect).
    pub fn lemma_dom_finite(&self)
        ensures
            self@.dom().finite(),
    {
        proof {
            let e = self.entries@;
            let ks = e.map_values(|x: (String, V)| x.0@);
            assert(self@.dom() =~= ks.to_set()) by {
                assert forall|k: Seq<char>| self@.dom().contains(k) <==> ks.to_set().contains(k) by {
                    if has_key(e, k) {
                        let i = choose|i: int| 0 <= i < e.len() && e[i].0@ == k;
                        assert(ks[i] == k);
                    }
                    if ks.to_set().contains(k) {
                        let i = choose|i: int| 0 <= i < ks.len() && ks[i] == k;
                        assert(e[i].0@ == k);
                    }
                }
            }
            vstd::seq_lib::seq_to_set_is_finite(ks);
        }
    }

    /// An empty map.
    pub fn new() -> (r: Self)
        ensures
            r@ == Map::<Seq<char>, V::V>::empty(),
    {
        let r = StrMap { entries: Vec::new() };
        assert(r@ =~= Map::<Seq<char>, V::V>::empty());
        r
    }

    /// Number of entries.
    pub fn len(&self) -> (n: usize)
        ensures
            n == self@.dom().len(),
            n == self.entry_seq().len(),
    {
        proof {
            use_type_invariant(self);
            self.lemma_dom_len();
        }
        self.entries.len()
    }

    proof fn lemma_dom_len(&self)
        requires
            keys_distinct(self.entries@),
        ensures
            self@.dom().len() == self.entries@.len(),
    {
        let e = self.entries@;
        let keys = e.map_values(|p: (String, V)| p.0@);
        assert(keys.no_duplicates()) by {
            assert forall|i: int, j: int|
                0 <= i < keys.len() && 0 <= j < keys.len() && i != j implies keys[i] != keys[j] by {}
        }
        keys.unique_seq_to_set();
        assert(self@.dom() =~= keys.to_set()) by {
            assert forall|k: Seq<char>| self@.dom().contains(k) <==> keys.to_set().contains(k) by {
                if self@.dom().contains(k) {
                    let i = choose|i: int| 0 <= i < e.len() && e[i].0@ == k;
                    assert(keys[i] == k);
                }
                if keys.to_set().contains(k) {
                    let i = choose|i: int| 0 <= i < keys.len() && keys[i] == k;
                    assert(has_key(e, k));
                }
            }
        }
    }

    /// Position of the entry with key `k`, if any.
    fn index_of(&self, k: &str) -> (r: Option<usize>)
        ensures
            match r {
                Some(i) => i < self.entries@.len() && self.entries@[i as int].0@ == k@,
                None => !has_key(self.entries@, k@),
            },
    {
        let mut i: usize = 0;
        while i < self.entries.len()
            invariant
                i <= self.entries@.len(),
                forall|j: int| 0 <= j < i ==> self.entries@[j].0@ != k@,
            decreases self.entries@.len() - i,
        {
            if str_eq(self.entries[i].0.as_str(), k) {
                return Some(i);
            }
            i = i + 1;
        }
        None
    }

    /// Whether `k` is a key.
    pub fn contains_key(&self, k: &str) -> (r: bool)
        ensures
            r == self@.contains_key(k@),
    {
        proof {
            use_type_invariant(self);
        }
        self.index_of(k).is_some()
    }

    /// The value stored under `k`.
    pub fn get(&self, k: &str) -> (r: Option<&V>)
        ensures
            match r {
                Some(v) => self@.contains_key(k@) && self@[k@] == v@,
                None => !self@.contains_key(k@),
            },
    {
        proof {
            use_type_invariant(self);
        }
        match self.index_of(k) {
            Some(i) => {
                proof {
                    lemma_entries_map_at(self.entries@, i as int);
                }
                Some(&self.entries[i].1)
            },
            None => None,
        }
    }

    /// Stores `v` under `k`, replacing an existing value in place.
    pub fn insert(&mut self, k: String, v: V)
        ensures
            final(self)@ == old(self)@.insert(k@, v@),
    {
        proof {
            use_type_invariant(&*self);
        }
        let ghost old_e = self.entries@;
        match self.index_of(k.as_str()) {
            Some(i) => {
                let mut entries: Vec<(String, V)> = Vec::new();
                std::mem::swap(&mut entries, &mut self.entries);
                entries.set(i, (k, v));
                let ghost e = entries@;
                proof {
                    assert(keys_distinct(e)) by {
                        assert forall|a: int, b: int|
                            0 <= a < e.len() && 0 <= b < e.len() && a != b implies e[a].0@ != e[b].0@ by {
                            assert(old_e[a].0@ != old_e[b].0@);
                        }
                    }
                    assert forall|key: Seq<char>| #[trigger] has_key(e, key) <==> has_key(old_e, key)
                        || key == k@ by {
                        if has_key(old_e, key) && key != k@ {
                            let j = choose|j: int| 0 <= j < old_e.len() && old_e[j].0@ == key;
                            assert(e[j] == old_e[j]);
                        }
                        if has_key(e, key) {
                            let j = choose|j: int| 0 <= j < e.len() && e[j].0@ == key;
                            if j != i {
                                assert(e[j] == old_e[j]);
                            }
                        }
                        if key == k@ {
                            assert(e[i as int].0@ == key);
                        }
                    }
                    assert forall|key: Seq<char>| has_key(e, key) implies entries_map(e)[key]
                        == old_e_insert(old_e, k@, v@)[key] by {
                        let j = choose|j: int| 0 <= j < e.len() && e[j].0@ == key;
                        lemma_entries_map_at(e, j);
                        if j != i {
                            assert(e[j] == old_e[j]);
                            lemma_entries_map_at(old_e, j);
                        }
                    }
                    assert(entries_map(e) =~= entries_map(old_e).insert(k@, v@));
                }
                self.entries = entries;
            },
            None => {
                let mut entries: Vec<(String, V)> = Vec::new();
                std::mem::swap(&mut entries, &mut self.entries);
                entries.push((k, v));
                let ghost e = entries@;
                proof {
                    let n = old_e.len() as int;
                    assert(keys_distinct(e)) by {
                        assert forall|a: int, b: int|
                            0 <= a < e.len() && 0 <= b < e.len() && a != b implies e[a].0@ != e[b].0@ by {
                            if a < n && b < n {
                                assert(old_e[a].0@ != old_e[b].0@);
                            } else if a == n {
                                assert(old_e[b] == e[b]);
                            } else {
                                assert(old_e[a] == e[a]);
                            }
                        }
                    }
                    assert forall|key: Seq<char>| #[trigger] has_key(e, key) <==> has_key(old_e, key)
                        || key == k@ by {
                        if has_key(old_e, key) {
                            let j = choose|j: int| 0 <= j < old_e.len() && old_e[j].0@ == key;
                            assert(e[j] == old_e[j]);
                        }
                        if has_key(e, key) {
                            let j = choose|j: int| 0 <= j < e.len() && e[j].0@ == key;
                            if j < n {
                                assert(e[j] == old_e[j]);
                            }
                        }
                        if key == k@ {
                            assert(e[n].0@ == key);
                        }
                    }
                    assert forall|key: Seq<char>| has_key(e, key) implies entries_map(e)[key]
                        == old_e_insert(old_e, k@, v@)[key] by {
                        let j = choose|j: int| 0 <= j < e.len() && e[j].0@ == key;
                        lemma_entries_map_at(e, j);
                        if j < n {
                            assert(e[j] == old_e[j]);
                            lemma_entries_map_at(old_e, j);
                        }
                    }
                    assert(entries_map(e) =~= entries_map(old_e).insert(k@, v@));
                }
                self.entries = entries;
            },
        }
    }

    /// Removes the entry stored under `k`, if any.
    pub fn remove(&mut self, k: &str)
        ensures
            final(self)@ == old(self)@.remove(k@),
    {
        proof {
            use_type_invariant(&*self);
        }
        let ghost old_e = self.entries@;
        match self.index_of(k) {
            Some(i) => {
                let mut entries: Vec<(String, V)> = Vec::new();
                std::mem::swap(&mut entries, &mut self.entries);
                entries.remove(i);
                let ghost e = entries@;
                proof {
                    assert(forall|j: int| 0 <= j < i ==> e[j] == old_e[j]);
                    assert(forall|j: int| i <= j < e.len() ==> e[j] == old_e[j + 1]);
                    assert(keys_distinct(e)) by {
                        assert forall|a: int, b: int|
                            0 <= a < e.len() && 0 <= b < e.len() && a != b implies e[a].0@ != e[b].0@ by {
                            let a2 = if a < i { a } else { a + 1 };
                            let b2 = if b < i { b } else { b + 1 };
                            assert(e[a] == old_e[a2]);
                            assert(e[b] == old_e[b2]);
                        }
                    }
                    assert forall|key: Seq<char>| #[trigger] has_key(e, key) <==> has_key(old_e, key)
                        && key != k@ by {
                        if has_key(old_e, key) && key != k@ {
                            let j = choose|j: int| 0 <= j < old_e.len() && old_e[j].0@ == key;
                            assert(j != i);
                            let j2 = if j < i { j } else { j - 1 };
                            assert(e[j2] == old_e[j]);
                        }
                        if has_key(e, key) {
                            let j = choose|j: int| 0 <= j < e.len() && e[j].0@ == key;
                            let j2 = if j < i { j } else { j + 1 };
                            assert(e[j] == old_e[j2]);
                            assert(j2 != i);
                        }
                    }
                    assert forall|key: Seq<char>| has_key(e, key) implies entries_map(e)[key]
                        == entries_map(old_e)[key] by {
                        let j = choose|j: int| 0 <= j < e.len() && e[j].0@ == key;
                        lemma_entries_map_at(e, j);
                        let j2 = if j < i { j } else { j + 1 };
                        assert(e[j] == old_e[j2]);
                        lemma_entries_map_at(old_e, j2);
                    }
                    assert(entries_map(e) =~= entries_map(old_e).remove(k@));
                }
                self.entries = entries;
            },
            None => {
                proof {
                    assert(entries_map(old_e) =~= entries_map(old_e).remove(k@));
                }
            },
        }
    }

    /// The entries in insertion order.
    pub fn entries(&self) -> (r: &Vec<(String, V)>)
        ensures
            r@ == self.entry_seq(),
    {
        &self.entries
    }
}

/// `entries_map(e).insert(k, v)`, named for readability in proofs.
pub open spec fn old_e_insert<V: View>(e: Seq<(String, V)>, k: Seq<char>, v: V::V) -> Map<Seq<char>, V::V> {
    entries_map(e).insert(k, v)
}

} // verus!
