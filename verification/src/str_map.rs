//! A map keyed by strings that keeps its keys in ascending text order, so
//! that walking it yields entries in the same order as a `BTreeMap<String, _>`.

use vstd::prelude::*;

use crate::text::{
    compare_text, lemma_text_lt_irreflexive, lemma_text_lt_transitive, lemma_text_order_equal,
    lemma_text_order_flip, text_lt, text_order, TextOrder,
};

verus! {

/// A value that can be copied into an equal (by view) value.
pub trait Snapshot: View + Sized {
    fn snapshot(&self) -> (r: Self)
        ensures
            r@ == self@,
    ;
}

/// Every key sorts strictly before every later key.
pub open spec fn strictly_sorted(ks: Seq<Seq<char>>) -> bool {
    forall|i: int, j: int| 0 <= i < j < ks.len() ==> text_lt(#[trigger] ks[i], #[trigger] ks[j])
}

/// A string-keyed map whose entries are kept in ascending key order.
#[derive(Debug)]
pub struct StrMap<V> {
    entries: Vec<(String, V)>,
}

/// A set of strings, kept in ascending order.
pub type StrSet = StrMap<()>;

impl<V: View> View for StrMap<V> {
    type V = Map<Seq<char>, V::V>;

    closed spec fn view(&self) -> Map<Seq<char>, V::V> {
        Map::new(
            |k: Seq<char>| self.keys().contains(k),
            |k: Seq<char>| self.entries@[self.keys().index_of(k)].1@,
        )
    }
}

proof fn lemma_sorted_distinct(ks: Seq<Seq<char>>, i: int, j: int)
    requires
        strictly_sorted(ks),
        0 <= i < ks.len(),
        0 <= j < ks.len(),
        ks[i] == ks[j],
    ensures
        i == j,
{
    if i < j {
        assert(text_lt(ks[i], ks[j]));
        lemma_text_lt_irreflexive(ks[i]);
    } else if j < i {
        assert(text_lt(ks[j], ks[i]));
        lemma_text_lt_irreflexive(ks[i]);
    }
}

impl<V> StrMap<V> {
    /// The keys in ascending order.
    pub closed spec fn keys(&self) -> Seq<Seq<char>> {
        self.entries@.map_values(|e: (String, V)| e.0@)
    }

    #[verifier::type_invariant]
    closed spec fn keys_in_order(&self) -> bool {
        strictly_sorted(self.keys())
    }
}

impl<V: View> StrMap<V> {

    proof fn lemma_entry(&self, i: int)
        requires
            strictly_sorted(self.keys()),
            0 <= i < self.entries@.len(),
        ensures
            self@.contains_key(self.entries@[i].0@),
            self@[self.entries@[i].0@] == self.entries@[i].1@,
            self.keys()[i] == self.entries@[i].0@,
    {
        let k = self.entries@[i].0@;
        assert(self.keys()[i] == k);
        assert(self.keys().contains(k));
        let j = self.keys().index_of(k);
        lemma_sorted_distinct(self.keys(), i, j);
    }

    proof fn lemma_domain(&self)
        requires
            strictly_sorted(self.keys()),
        ensures
            self@.dom() == self.keys().to_set(),
            self.keys().no_duplicates(),
            self@.dom().finite(),
            self@.len() == self.keys().len(),
            self.keys().len() == self.entries@.len(),
    {
        assert(self@.dom() =~= self.keys().to_set());
        assert forall|i: int, j: int|
            0 <= i < self.keys().len() && 0 <= j < self.keys().len() && i != j implies self.keys()[i]
            != self.keys()[j] by {
            if self.keys()[i] == self.keys()[j] {
                lemma_sorted_distinct(self.keys(), i, j);
            }
        }
        self.keys().unique_seq_to_set();
    }

    /// An empty map.
    pub fn new() -> (r: Self)
        ensures
            r@ == Map::<Seq<char>, V::V>::empty(),
            r.keys() == Seq::<Seq<char>>::empty(),
    {
        let r = StrMap { entries: Vec::new() };
        assert(r@ =~= Map::<Seq<char>, V::V>::empty());
        assert(r.keys() =~= Seq::<Seq<char>>::empty());
        r
    }

    /// Where `key` is, or where it would go.
    fn find(&self, key: &str) -> (r: Result<usize, usize>)
        ensures
            match r {
                Ok(i) => i < self.entries@.len() && self.keys()[i as int] == key@,
                Err(p) => {
                    &&& p <= self.entries@.len()
                    &&& forall|j: int| 0 <= j < p ==> text_lt(#[trigger] self.keys()[j], key@)
                    &&& forall|j: int|
                        p <= j < self.entries@.len() ==> text_lt(key@, #[trigger] self.keys()[j])
                },
            },
    {
        proof {
            use_type_invariant(self);
        }
        let n = self.entries.len();
        let mut i: usize = 0;
        while i < n
            invariant
                n == self.entries@.len(),
                i <= n,
                strictly_sorted(self.keys()),
                forall|j: int| 0 <= j < i ==> text_lt(#[trigger] self.keys()[j], key@),
            decreases n - i,
        {
            let order = compare_text(self.entries[i].0.as_str(), key);
            assert(self.keys()[i as int] == self.entries@[i as int].0@);
            match order {
                TextOrder::Less => {
                    i = i + 1;
                },
                TextOrder::Equal => {
                    proof {
                        lemma_text_order_equal(self.keys()[i as int], key@);
                    }
                    return Ok(i);
                },
                TextOrder::Greater => {
                    proof {
                        lemma_text_order_flip(self.keys()[i as int], key@);
                        assert forall|j: int| i <= j < n implies text_lt(
                            key@,
                            #[trigger] self.keys()[j],
                        ) by {
                            if j > i {
                                lemma_text_lt_transitive(key@, self.keys()[i as int], self.keys()[j]);
                            }
                        }
                    }
                    return Err(i);
                },
            }
        }
        Err(n)
    }

    proof fn lemma_absent(&self, key: Seq<char>, p: int)
        requires
            strictly_sorted(self.keys()),
            0 <= p <= self.entries@.len(),
            forall|j: int| 0 <= j < p ==> text_lt(#[trigger] self.keys()[j], key),
            forall|j: int| p <= j < self.entries@.len() ==> text_lt(key, #[trigger] self.keys()[j]),
        ensures
            !self@.contains_key(key),
    {
        if self.keys().contains(key) {
            let j = self.keys().index_of(key);
            lemma_text_lt_irreflexive(key);
            if j < p {
                assert(text_lt(self.keys()[j], key));
            } else {
                assert(text_lt(key, self.keys()[j]));
            }
        }
    }

    /// Whether `key` is present.
    pub fn contains_key(&self, key: &str) -> (r: bool)
        ensures
            r == self@.contains_key(key@),
    {
        proof {
            use_type_invariant(self);
        }
        match self.find(key) {
            Ok(i) => {
                proof {
                    self.lemma_entry(i as int);
                }
                true
            },
            Err(p) => {
                proof {
                    self.lemma_absent(key@, p as int);
                }
                false
            },
        }
    }

    /// The value stored under `key`.
    pub fn get(&self, key: &str) -> (r: Option<&V>)
        ensures
            match r {
                Some(v) => self@.contains_key(key@) && v@ == self@[key@],
                None => !self@.contains_key(key@),
            },
    {
        proof {
            use_type_invariant(self);
        }
        match self.find(key) {
            Ok(i) => {
                proof {
                    self.lemma_entry(i as int);
                }
                Some(&self.entries[i].1)
            },
            Err(p) => {
                proof {
                    self.lemma_absent(key@, p as int);
                }
                None
            },
        }
    }

    /// The number of entries.
    pub fn len(&self) -> (r: usize)
        ensures
            r == self@.len(),
            r == self.keys().len(),
            self@.dom().finite(),
            self@.dom() == self.keys().to_set(),
            strictly_sorted(self.keys()),
    {
        proof {
            use_type_invariant(self);
            self.lemma_domain();
        }
        self.entries.len()
    }

    /// Whether the map has no entries.
    pub fn is_empty(&self) -> (r: bool)
        ensures
            r == (self@.len() == 0),
            r == (self@ == Map::<Seq<char>, V::V>::empty()),
    {
        proof {
            use_type_invariant(self);
            self.lemma_domain();
        }
        if self.entries.len() == 0 {
            assert(self@ =~= Map::<Seq<char>, V::V>::empty());
            true
        } else {
            proof {
                self.lemma_entry(0);
            }
            false
        }
    }

    /// The `i`-th key in ascending order.
    pub fn key_at(&self, i: usize) -> (r: &String)
        requires
            i < self.keys().len(),
        ensures
            r@ == self.keys()[i as int],
            self@.contains_key(r@),
    {
        proof {
            use_type_invariant(self);
            self.lemma_entry(i as int);
        }
        &self.entries[i].0
    }

    /// The value under the `i`-th key in ascending order.
    pub fn value_at(&self, i: usize) -> (r: &V)
        requires
            i < self.keys().len(),
        ensures
            self@.contains_key(self.keys()[i as int]),
            r@ == self@[self.keys()[i as int]],
    {
        proof {
            use_type_invariant(self);
            self.lemma_entry(i as int);
        }
        &self.entries[i].1
    }

    /// Stores `value` under `key`, replacing what was there.
    pub fn insert(&mut self, key: String, value: V)
        ensures
            final(self)@ == old(self)@.insert(key@, value@),
    {
        proof {
            use_type_invariant(&*self);
        }
        let ghost old_keys = self.keys();
        let ghost old_entries = self.entries@;
        let ghost k = key@;
        let ghost vv = value@;
        let found = self.find(key.as_str());
        let mut entries: Vec<(String, V)> = Vec::new();
        std::mem::swap(&mut entries, &mut self.entries);
        let ghost pos: int;
        match found {
            Ok(i) => {
                let _ = entries.remove(i);
                entries.insert(i, (key, value));
                proof {
                    pos = i as int;
                }
            },
            Err(p) => {
                entries.insert(p, (key, value));
                proof {
                    pos = p as int;
                }
            },
        }
        let ghost new_keys = entries@.map_values(|e: (String, V)| e.0@);
        proof {
            assert forall|i: int, j: int| 0 <= i < j < new_keys.len() implies text_lt(
                #[trigger] new_keys[i],
                #[trigger] new_keys[j],
            ) by {
                if found is Ok {
                    assert(new_keys[i] == old_keys[i] || i == pos);
                    if i == pos {
                        assert(new_keys[j] == old_keys[j]);
                    } else if j == pos {
                        assert(new_keys[i] == old_keys[i]);
                    } else {
                        assert(new_keys[i] == old_keys[i]);
                        assert(new_keys[j] == old_keys[j]);
                    }
                } else {
                    if i < pos && j < pos {
                        assert(new_keys[i] == old_keys[i]);
                        assert(new_keys[j] == old_keys[j]);
                    } else if i < pos && j == pos {
                        assert(new_keys[i] == old_keys[i]);
                    } else if i < pos && j > pos {
                        assert(new_keys[i] == old_keys[i]);
                        assert(new_keys[j] == old_keys[j - 1]);
                        assert(text_lt(old_keys[i], k));
                        assert(text_lt(k, old_keys[j - 1]));
                        lemma_text_lt_transitive(old_keys[i], k, old_keys[j - 1]);
                    } else if i == pos {
                        assert(new_keys[j] == old_keys[j - 1]);
                    } else {
                        assert(new_keys[i] == old_keys[i - 1]);
                        assert(new_keys[j] == old_keys[j - 1]);
                    }
                }
            }
        }
        self.entries = entries;
        proof {
            let ghost expected = old(self)@.insert(k, vv);
            assert(self.keys() == new_keys);
            assert forall|x: Seq<char>| #[trigger] self@.contains_key(x) <==> expected.contains_key(
                x,
            ) by {
                if self@.contains_key(x) {
                    let t = self.keys().index_of(x);
                    if t != pos {
                        let s = if found is Err && t > pos { t - 1 } else { t };
                        assert(self.entries@[t] == old_entries[s]);
                        old(self).lemma_entry(s);
                    }
                }
                if expected.contains_key(x) {
                    if x == k {
                        self.lemma_entry(pos);
                    } else {
                        let s = old_keys.index_of(x);
                        let t = if found is Err && s >= pos { s + 1 } else { s };
                        if found is Ok && s == pos {
                            assert(old_keys[s] == k);
                        }
                        assert(self.entries@[t] == old_entries[s]);
                        self.lemma_entry(t);
                    }
                }
            }
            assert forall|x: Seq<char>| #[trigger] self@.contains_key(x) implies self@[x]
                == expected[x] by {
                let t = self.keys().index_of(x);
                self.lemma_entry(t);
                if t == pos {
                    assert(self.entries@[t].0@ == k);
                } else {
                    let s = if found is Err && t > pos { t - 1 } else { t };
                    assert(self.entries@[t] == old_entries[s]);
                    old(self).lemma_entry(s);
                    if self.entries@[t].0@ == k {
                        self.lemma_entry(pos);
                        lemma_sorted_distinct(self.keys(), t, pos);
                    }
                }
            }
            assert(self@ =~= expected);
        }
    }

    /// Takes the value stored under `key` out of the map.
    pub fn remove(&mut self, key: &str) -> (r: Option<V>)
        ensures
            final(self)@ == old(self)@.remove(key@),
            match r {
                Some(v) => old(self)@.contains_key(key@) && v@ == old(self)@[key@],
                None => !old(self)@.contains_key(key@),
            },
    {
        proof {
            use_type_invariant(&*self);
        }
        let ghost old_keys = self.keys();
        let ghost old_entries = self.entries@;
        match self.find(key) {
            Err(p) => {
                proof {
                    self.lemma_absent(key@, p as int);
                    assert(self@.remove(key@) =~= self@);
                }
                None
            },
            Ok(i) => {
                proof {
                    self.lemma_entry(i as int);
                }
                let mut entries: Vec<(String, V)> = Vec::new();
                std::mem::swap(&mut entries, &mut self.entries);
                let (_, v) = entries.remove(i);
                let ghost new_keys = entries@.map_values(|e: (String, V)| e.0@);
                proof {
                    assert forall|a: int, b: int| 0 <= a < b < new_keys.len() implies text_lt(
                        #[trigger] new_keys[a],
                        #[trigger] new_keys[b],
                    ) by {
                        let sa = if a >= i { a + 1 } else { a };
                        let sb = if b >= i { b + 1 } else { b };
                        assert(new_keys[a] == old_keys[sa]);
                        assert(new_keys[b] == old_keys[sb]);
                    }
                }
                self.entries = entries;
                proof {
                    let ghost expected = old(self)@.remove(key@);
                    assert(self.keys() == new_keys);
                    assert forall|x: Seq<char>| #[trigger] self@.contains_key(x) <==> expected.contains_key(
                        x,
                    ) by {
                        if self@.contains_key(x) {
                            let t = self.keys().index_of(x);
                            let s = if t >= i { t + 1 } else { t };
                            assert(self.entries@[t] == old_entries[s]);
                            old(self).lemma_entry(s);
                            if x == key@ {
                                old(self).lemma_entry(i as int);
                                lemma_sorted_distinct(old_keys, s, i as int);
                            }
                        }
                        if expected.contains_key(x) {
                            let s = old_keys.index_of(x);
                            assert(s != i);
                            let t = if s > i { s - 1 } else { s };
                            assert(self.entries@[t] == old_entries[s]);
                            self.lemma_entry(t);
                        }
                    }
                    assert forall|x: Seq<char>| #[trigger] self@.contains_key(x) implies self@[x]
                        == expected[x] by {
                        let t = self.keys().index_of(x);
                        self.lemma_entry(t);
                        let s = if t >= i { t + 1 } else { t };
                        assert(self.entries@[t] == old_entries[s]);
                        old(self).lemma_entry(s);
                    }
                    assert(self@ =~= expected);
                }
                Some(v)
            },
        }
    }
}

impl<V: Snapshot> Snapshot for StrMap<V> {
    fn snapshot(&self) -> (r: Self) {
        proof {
            use_type_invariant(self);
        }
        let n = self.entries.len();
        let mut copied: Vec<(String, V)> = Vec::new();
        let mut i: usize = 0;
        while i < n
            invariant
                n == self.entries@.len(),
                i <= n,
                copied@.len() == i,
                forall|j: int|
                    0 <= j < i ==> (#[trigger] copied@[j]).0 == self.entries@[j].0 && copied@[j].1@
                        == self.entries@[j].1@,
            decreases n - i,
        {
            let key = self.entries[i].0.clone();
            let value = self.entries[i].1.snapshot();
            copied.push((key, value));
            i = i + 1;
        }
        assert(copied@.map_values(|e: (String, V)| e.0@) =~= self.keys());
        let r = StrMap { entries: copied };
        proof {
            assert(r.keys() =~= self.keys());
            assert forall|k: Seq<char>| #[trigger] r@.contains_key(k) implies r@[k] == self@[k] by {
                let t = r.keys().index_of(k);
                assert(r.entries@[t].1@ == self.entries@[t].1@);
            }
            assert(r@ =~= self@);
        }
        r
    }
}

impl Snapshot for () {
    fn snapshot(&self) -> (r: Self) {
    }
}

} // verus!
