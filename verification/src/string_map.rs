//! A map keyed by strings that remembers the order in which keys were first inserted.

use vstd::prelude::*;

verus! {

/// No key occurs twice in `pairs`.
pub open spec fn keys_unique<V>(pairs: Seq<(Seq<char>, V)>) -> bool {
    forall|i: int, j: int|
        0 <= i < pairs.len() && 0 <= j < pairs.len() && i != j ==> #[trigger] pairs[i].0
            != #[trigger] pairs[j].0
}

/// Some entry of `pairs` has the key `k`.
pub open spec fn has_key<V>(pairs: Seq<(Seq<char>, V)>, k: Seq<char>) -> bool {
    exists|i: int| 0 <= i < pairs.len() && #[trigger] pairs[i].0 == k
}

/// The position of an entry of `pairs` with key `k`.
pub open spec fn key_index<V>(pairs: Seq<(Seq<char>, V)>, k: Seq<char>) -> int {
    choose|i: int| 0 <= i < pairs.len() && #[trigger] pairs[i].0 == k
}

/// The map that a sequence of entries with distinct keys stands for.
pub open spec fn pairs_map<V>(pairs: Seq<(Seq<char>, V)>) -> Map<Seq<char>, V> {
    Map::new(|k: Seq<char>| has_key(pairs, k), |k: Seq<char>| pairs[key_index(pairs, k)].1)
}

/// The entries after `insert(k, v)`: an entry with key `k` gets the new value in
/// place; otherwise the entry is appended.
pub open spec fn pairs_insert<V>(pairs: Seq<(Seq<char>, V)>, k: Seq<char>, v: V) -> Seq<
    (Seq<char>, V),
> {
    if has_key(pairs, k) {
        pairs.map_values(|e: (Seq<char>, V)| if e.0 == k { (k, v) } else { e })
    } else {
        pairs.push((k, v))
    }
}

/// In a sequence with distinct keys, the entry at `i` is the one found for its key.
pub proof fn lemma_key_index<V>(pairs: Seq<(Seq<char>, V)>, i: int)
    requires
        keys_unique(pairs),
        0 <= i < pairs.len(),
    ensures
        has_key(pairs, pairs[i].0),
        key_index(pairs, pairs[i].0) == i,
        pairs_map(pairs).dom().contains(pairs[i].0),
        pairs_map(pairs)[pairs[i].0] == pairs[i].1,
{
    let k = pairs[i].0;
    assert(has_key(pairs, k));
    let j = key_index(pairs, k);
    assert(pairs[j].0 == k);
}

/// Inserting into a sequence with distinct keys keeps the keys distinct and
/// inserts into the map it stands for.
pub proof fn lemma_pairs_insert<V>(pairs: Seq<(Seq<char>, V)>, k: Seq<char>, v: V)
    requires
        keys_unique(pairs),
    ensures
        keys_unique(pairs_insert(pairs, k, v)),
        pairs_map(pairs_insert(pairs, k, v)) == pairs_map(pairs).insert(k, v),
{
    let p2 = pairs_insert(pairs, k, v);
    if has_key(pairs, k) {
        let j = key_index(pairs, k);
        assert(pairs[j].0 == k);
        assert forall|a: int, b: int|
            0 <= a < p2.len() && 0 <= b < p2.len() && a != b implies #[trigger] p2[a].0
            != #[trigger] p2[b].0 by {
            assert(p2[a].0 == pairs[a].0);
            assert(p2[b].0 == pairs[b].0);
        }
        assert forall|q: Seq<char>| #[trigger]
            pairs_map(p2).dom().contains(q) <==> pairs_map(pairs).insert(k, v).dom().contains(
                q,
            ) by {
            if has_key(p2, q) {
                let i = key_index(p2, q);
                assert(pairs[i].0 == q);
            }
            if has_key(pairs, q) {
                let i = key_index(pairs, q);
                assert(p2[i].0 == q);
            }
        }
        assert forall|q: Seq<char>| #[trigger]
            pairs_map(p2).dom().contains(q) implies pairs_map(p2)[q] == pairs_map(pairs).insert(
                k,
                v,
            )[q] by {
            if q == k {
                lemma_key_index(p2, j);
            } else {
                let i = key_index(pairs, q);
                assert(pairs[i].0 == q);
                assert(p2[i] == pairs[i]);
                lemma_key_index(p2, i);
                lemma_key_index(pairs, i);
            }
        }
        assert(pairs_map(p2) =~= pairs_map(pairs).insert(k, v));
    } else {
        let n = pairs.len() as int;
        assert forall|a: int, b: int|
            0 <= a < p2.len() && 0 <= b < p2.len() && a != b implies #[trigger] p2[a].0
            != #[trigger] p2[b].0 by {
            if a == n {
                assert(pairs[b].0 == p2[b].0);
            } else if b == n {
                assert(pairs[a].0 == p2[a].0);
            }
        }
        assert forall|q: Seq<char>| #[trigger]
            pairs_map(p2).dom().contains(q) <==> pairs_map(pairs).insert(k, v).dom().contains(
                q,
            ) by {
            if has_key(p2, q) {
                let i = key_index(p2, q);
                if i < n {
                    assert(pairs[i].0 == q);
                }
            }
            if has_key(pairs, q) {
                let i = key_index(pairs, q);
                assert(p2[i].0 == q);
            }
            if q == k {
                assert(p2[n].0 == q);
            }
        }
        assert forall|q: Seq<char>| #[trigger]
            pairs_map(p2).dom().contains(q) implies pairs_map(p2)[q] == pairs_map(pairs).insert(
                k,
                v,
            )[q] by {
            if q == k {
                lemma_key_index(p2, n);
            } else {
                let i = key_index(pairs, q);
                assert(pairs[i].0 == q);
                assert(p2[i] == pairs[i]);
                lemma_key_index(p2, i);
                lemma_key_index(pairs, i);
            }
        }
        assert(pairs_map(p2) =~= pairs_map(pairs).insert(k, v));
    }
}

/// Removing the entry at `j` from a sequence with distinct keys keeps the keys
/// distinct and removes its key from the map it stands for.
pub proof fn lemma_pairs_remove<V>(pairs: Seq<(Seq<char>, V)>, j: int)
    requires
        keys_unique(pairs),
        0 <= j < pairs.len(),
    ensures
        keys_unique(pairs.remove(j)),
        pairs_map(pairs.remove(j)) == pairs_map(pairs).remove(pairs[j].0),
{
    let p2 = pairs.remove(j);
    let k = pairs[j].0;
    assert forall|a: int, b: int|
        0 <= a < p2.len() && 0 <= b < p2.len() && a != b implies #[trigger] p2[a].0
        != #[trigger] p2[b].0 by {
        let a2 = if a < j { a } else { a + 1 };
        let b2 = if b < j { b } else { b + 1 };
        assert(p2[a] == pairs[a2]);
        assert(p2[b] == pairs[b2]);
    }
    assert forall|q: Seq<char>| #[trigger]
        pairs_map(p2).dom().contains(q) <==> pairs_map(pairs).remove(k).dom().contains(q) by {
        if has_key(p2, q) {
            let i = key_index(p2, q);
            let i2 = if i < j { i } else { i + 1 };
            assert(p2[i] == pairs[i2]);
            assert(pairs[i2].0 == q);
        }
        if has_key(pairs, q) && q != k {
            let i = key_index(pairs, q);
            assert(i != j);
            let i1 = if i < j { i } else { i - 1 };
            assert(p2[i1] == pairs[i]);
        }
    }
    assert forall|q: Seq<char>| #[trigger]
        pairs_map(p2).dom().contains(q) implies pairs_map(p2)[q] == pairs_map(pairs).remove(k)[q] by {
        let i = key_index(pairs, q);
        assert(pairs[i].0 == q);
        assert(i != j);
        let i1 = if i < j { i } else { i - 1 };
        assert(p2[i1] == pairs[i]);
        lemma_key_index(p2, i1);
        lemma_key_index(pairs, i);
    }
    assert(pairs_map(p2) =~= pairs_map(pairs).remove(k));
}

/// A map from strings to values that keeps its keys distinct and in the order in
/// which they were first inserted.
#[derive(Debug)]
pub struct StringMap<V> {
    entries: Vec<(String, V)>,
}

impl<V> StringMap<V> {
    /// The entries, in insertion order, with keys by their text.
    pub closed spec fn pairs(self) -> Seq<(Seq<char>, V)> {
        self.entries@.map_values(|e: (String, V)| (e.0@, e.1))
    }

    #[verifier::type_invariant]
    closed spec fn keys_are_distinct(self) -> bool {
        keys_unique(self.pairs())
    }

    /// Creates an empty map.
    pub fn new() -> (res: StringMap<V>)
        ensures
            res.pairs() == Seq::<(Seq<char>, V)>::empty(),
            res@ == Map::<Seq<char>, V>::empty(),
    {
        let res = StringMap { entries: Vec::new() };
        assert(res.pairs() =~= Seq::<(Seq<char>, V)>::empty());
        assert(res@ =~= Map::<Seq<char>, V>::empty());
        res
    }

    /// The number of entries.
    pub fn len(&self) -> (res: usize)
        ensures
            res == self.pairs().len(),
    {
        self.entries.len()
    }

    /// Whether the map has no entries.
    pub fn is_empty(&self) -> (res: bool)
        ensures
            res == (self.pairs().len() == 0),
            res == (self@ == Map::<Seq<char>, V>::empty()),
    {
        proof {
            use_type_invariant(self);
            if self.pairs().len() != 0 {
                lemma_key_index(self.pairs(), 0);
                assert(self@.dom().contains(self.pairs()[0].0));
            } else {
                assert(self@ =~= Map::<Seq<char>, V>::empty());
            }
        }
        self.entries.len() == 0
    }

    /// The key and the value of the entry at position `i` (in insertion order).
    pub fn entry_at(&self, i: usize) -> (res: (&String, &V))
        requires
            i < self.pairs().len(),
        ensures
            res.0@ == self.pairs()[i as int].0,
            *res.1 == self.pairs()[i as int].1,
    {
        let e = &self.entries[i];
        (&e.0, &e.1)
    }

    /// The position of the entry with key `key`, if any.
    fn find(&self, key: &String) -> (res: Option<usize>)
        ensures
            res matches Some(i) ==> i < self.pairs().len() && self.pairs()[i as int].0 == key@
                && key_index(self.pairs(), key@) == i,
            res is None ==> !has_key(self.pairs(), key@),
    {
        proof {
            use_type_invariant(self);
        }
        let n = self.entries.len();
        let mut i: usize = 0;
        while i < n
            invariant
                n == self.pairs().len(),
                i <= n,
                keys_unique(self.pairs()),
                forall|j: int| 0 <= j < i ==> #[trigger] self.pairs()[j].0 != key@,
            decreases n - i,
        {
            if self.entries[i].0 == *key {
                proof {
                    lemma_key_index(self.pairs(), i as int);
                }
                return Some(i);
            }
            i = i + 1;
        }
        None
    }

    /// The value stored under `key`, if any.
    pub fn get(&self, key: &str) -> (res: Option<&V>)
        ensures
            res is Some <==> self@.dom().contains(key@),
            res matches Some(v) ==> *v == self@[key@],
    {
        let k = String::from_str(key);
        match self.find(&k) {
            Some(i) => {
                proof {
                    use_type_invariant(self);
                    lemma_key_index(self.pairs(), i as int);
                }
                Some(&self.entries[i].1)
            },
            None => None,
        }
    }

    /// Stores `value` under `key`, replacing the value of an existing entry in place
    /// or appending a new entry.
    pub fn insert(&mut self, key: String, value: V)
        ensures
            final(self).pairs() == pairs_insert(old(self).pairs(), key@, value),
            final(self)@ == old(self)@.insert(key@, value),
    {
        proof {
            use_type_invariant(&*self);
            lemma_pairs_insert(old(self).pairs(), key@, value);
        }
        let ghost k = key@;
        let found = self.find(&key);
        let mut entries: Vec<(String, V)> = Vec::new();
        std::mem::swap(&mut entries, &mut self.entries);
        let ghost before = entries@;
        match found {
            Some(i) => {
                entries.set(i, (key, value));
                proof {
                    assert forall|a: int| 0 <= a < before.len() && a != i implies #[trigger] before[a].0@ != k by {
                        assert(old(self).pairs()[a].0 != old(self).pairs()[i as int].0);
                    }
                    assert(entries@.map_values(|e: (String, V)| (e.0@, e.1)) =~= pairs_insert(
                        old(self).pairs(),
                        k,
                        value,
                    ));
                }
            },
            None => {
                entries.push((key, value));
                proof {
                    assert(entries@.map_values(|e: (String, V)| (e.0@, e.1)) =~= pairs_insert(
                        old(self).pairs(),
                        k,
                        value,
                    ));
                }
            },
        }
        self.entries = entries;
    }

    /// Removes the entry with key `key` and returns its value, if there was one; the
    /// other entries keep their order.
    pub fn remove(&mut self, key: &str) -> (res: Option<V>)
        ensures
            res is Some <==> old(self)@.dom().contains(key@),
            res matches Some(v) ==> v == old(self)@[key@],
            final(self)@ == old(self)@.remove(key@),
            res is None ==> final(self).pairs() == old(self).pairs(),
            res is Some ==> final(self).pairs() == old(self).pairs().remove(
                key_index(old(self).pairs(), key@),
            ),
    {
        proof {
            use_type_invariant(&*self);
        }
        let k = String::from_str(key);
        match self.find(&k) {
            Some(i) => {
                proof {
                    lemma_key_index(old(self).pairs(), i as int);
                    lemma_pairs_remove(old(self).pairs(), i as int);
                }
                let mut entries: Vec<(String, V)> = Vec::new();
                std::mem::swap(&mut entries, &mut self.entries);
                let e = entries.remove(i);
                proof {
                    assert(entries@.map_values(|e: (String, V)| (e.0@, e.1)) =~= old(
                        self,
                    ).pairs().remove(i as int));
                }
                self.entries = entries;
                Some(e.1)
            },
            None => {
                proof {
                    assert(old(self)@.remove(key@) =~= old(self)@);
                }
                None
            },
        }
    }
}

impl<V: Clone> Clone for StringMap<V> {
    /// Clones every key and value; the keys and their order stay the same.
    fn clone(&self) -> (res: Self)
        ensures
            res.pairs().len() == self.pairs().len(),
            forall|i: int| 0 <= i < self.pairs().len() ==> #[trigger] res.pairs()[i].0 == self.pairs()[i].0,
    {
        proof {
            use_type_invariant(self);
        }
        let n = self.entries.len();
        let mut entries: Vec<(String, V)> = Vec::new();
        let mut i: usize = 0;
        while i < n
            invariant
                n == self.pairs().len(),
                i <= n,
                entries.len() == i,
                forall|j: int| 0 <= j < i ==> #[trigger] entries@[j].0@ == self.pairs()[j].0,
            decreases n - i,
        {
            let e = &self.entries[i];
            entries.push((e.0.clone(), e.1.clone()));
            i = i + 1;
        }
        let res = StringMap { entries };
        proof {
            assert(res.pairs().len() == self.pairs().len());
            assert forall|a: int, b: int|
                0 <= a < res.pairs().len() && 0 <= b < res.pairs().len() && a != b implies #[trigger] res.pairs()[a].0
                != #[trigger] res.pairs()[b].0 by {
                assert(res.pairs()[a].0 == self.pairs()[a].0);
                assert(res.pairs()[b].0 == self.pairs()[b].0);
            }
        }
        res
    }
}

impl<V> View for StringMap<V> {
    type V = Map<Seq<char>, V>;

    open spec fn view(&self) -> Map<Seq<char>, V> {
        pairs_map(self.pairs())
    }
}

} // verus!
