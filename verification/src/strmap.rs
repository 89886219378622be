//! A small map keyed by strings, kept as an association list in ascending key
//! order, as a `BTreeMap` iterates. Lookups see the last entry with a given
//! key; `insert` replaces an entry with the same key or puts the new entry in
//! its ordered place.

use vstd::prelude::*;
use crate::text::{lemma_seq_lt_irrefl, lemma_seq_lt_total, lemma_seq_lt_trans, seq_lt, str_eq, str_lt};

verus! {

/// A string-keyed map kept as an association list in ascending key order.
#[derive(Debug, Clone, PartialEq, Eq)]
pub struct StrMap<V> {
    entries: Vec<(String, V)>,
}

/// Index of the last entry whose key is `k`, if any.
pub open spec fn key_index<V>(e: Seq<(String, V)>, k: Seq<char>) -> Option<int>
    decreases e.len(),
{
    if e.len() == 0 {
        None
    } else if e.last().0@ == k {
        Some(e.len() - 1)
    } else {
        key_index(e.drop_last(), k)
    }
}

/// Whether no two entries share a key.
pub open spec fn keys_distinct<V>(e: Seq<(String, V)>) -> bool {
    forall|i: int, j: int| 0 <= i < j < e.len() ==> #[trigger] e[i].0@ != #[trigger] e[j].0@
}

/// Facts about `key_index`.
pub proof fn lemma_key_index<V>(e: Seq<(String, V)>, k: Seq<char>)
    ensures
        key_index(e, k) matches Some(i) ==> 0 <= i < e.len() && e[i].0@ == k && forall|j: int|
            i < j < e.len() ==> e[j].0@ != k,
        key_index(e, k) is None ==> forall|j: int| 0 <= j < e.len() ==> e[j].0@ != k,
    decreases e.len(),
{
    if e.len() > 0 {
        lemma_key_index(e.drop_last(), k);
        assert forall|j: int| 0 <= j < e.len() - 1 implies e.drop_last()[j] == e[j] by {}
    }
}

/// The last-entry index is determined by the entries at and after it.
proof fn lemma_key_index_at<V>(e: Seq<(String, V)>, k: Seq<char>, i: int)
    requires
        0 <= i < e.len(),
        e[i].0@ == k,
        forall|j: int| i < j < e.len() ==> e[j].0@ != k,
    ensures
        key_index(e, k) == Some(i),
    decreases e.len(),
{
    if i < e.len() - 1 {
        lemma_key_index_at(e.drop_last(), k, i);
    }
}

/// The entries after `insert(k, v)`: an entry with key `k` at the end of the
/// ordered run is replaced, otherwise the pair goes before the greater keys.
pub open spec fn map_insert<V>(e: Seq<(String, V)>, k: String, v: V) -> Seq<(String, V)>
    decreases e.len(),
{
    if e.len() == 0 {
        seq![(k, v)]
    } else if e.last().0@ == k@ {
        e.drop_last().push((k, v))
    } else if seq_lt(e.last().0@, k@) {
        e.push((k, v))
    } else {
        map_insert(e.drop_last(), k, v).push(e.last())
    }
}

/// Whether the keys ascend strictly.
pub open spec fn sorted_keys<V>(e: Seq<(String, V)>) -> bool {
    forall|i: int, j: int| 0 <= i < j < e.len() ==> seq_lt(#[trigger] e[i].0@, #[trigger] e[j].0@)
}

/// Keys below a bound stay below it after inserting a key below it.
proof fn lemma_insert_bound<V>(e: Seq<(String, V)>, k: String, v: V, b: Seq<char>)
    requires
        forall|i: int| 0 <= i < e.len() ==> seq_lt(#[trigger] e[i].0@, b),
        seq_lt(k@, b),
    ensures
        forall|i: int| 0 <= i < map_insert(e, k, v).len() ==> seq_lt(#[trigger] map_insert(e, k, v)[i].0@, b),
    decreases e.len(),
{
    let r = map_insert(e, k, v);
    if e.len() == 0 {
        assert(r =~= seq![(k, v)]);
        assert forall|i: int| 0 <= i < r.len() implies seq_lt(#[trigger] r[i].0@, b) by {}
    } else if e.last().0@ == k@ {
        assert forall|i: int| 0 <= i < r.len() implies seq_lt(#[trigger] r[i].0@, b) by {
            if i < e.len() - 1 {
                assert(r[i] == e[i]);
            }
        }
    } else if seq_lt(e.last().0@, k@) {
        assert forall|i: int| 0 <= i < r.len() implies seq_lt(#[trigger] r[i].0@, b) by {
            if i < e.len() {
                assert(r[i] == e[i]);
            }
        }
    } else {
        let d = e.drop_last();
        assert forall|i: int| 0 <= i < d.len() implies seq_lt(#[trigger] d[i].0@, b) by {
            assert(d[i] == e[i]);
        }
        lemma_insert_bound(d, k, v, b);
        let m = map_insert(d, k, v);
        assert forall|i: int| 0 <= i < r.len() implies seq_lt(#[trigger] r[i].0@, b) by {
            if i < m.len() {
                assert(r[i] == m[i]);
            } else {
                assert(r[i] == e[e.len() - 1]);
            }
        }
    }
}

/// Inserting keeps the keys ascending.
pub proof fn lemma_insert_sorted<V>(e: Seq<(String, V)>, k: String, v: V)
    requires
        sorted_keys(e),
    ensures
        sorted_keys(map_insert(e, k, v)),
    decreases e.len(),
{
    let r = map_insert(e, k, v);
    if e.len() == 0 {
    } else if e.last().0@ == k@ {
        assert forall|i: int, j: int| 0 <= i < j < r.len() implies seq_lt(#[trigger] r[i].0@, #[trigger] r[j].0@) by {
            assert(e[i].0@ == r[i].0@);
            assert(e[j].0@ == r[j].0@);
        }
    } else if seq_lt(e.last().0@, k@) {
        assert forall|i: int, j: int| 0 <= i < j < r.len() implies seq_lt(#[trigger] r[i].0@, #[trigger] r[j].0@) by {
            if j == e.len() {
                if i < e.len() - 1 {
                    lemma_seq_lt_trans(e[i].0@, e.last().0@, k@);
                }
            }
        }
    } else {
        let d = e.drop_last();
        let last = e.last();
        lemma_seq_lt_total(last.0@, k@);
        assert(sorted_keys(d)) by {
            assert forall|i: int, j: int| 0 <= i < j < d.len() implies seq_lt(#[trigger] d[i].0@, #[trigger] d[j].0@) by {
                assert(d[i] == e[i] && d[j] == e[j]);
            }
        }
        lemma_insert_sorted(d, k, v);
        assert forall|i: int| 0 <= i < d.len() implies seq_lt(#[trigger] d[i].0@, last.0@) by {
            assert(d[i] == e[i]);
        }
        lemma_insert_bound(d, k, v, last.0@);
        let m = map_insert(d, k, v);
        assert(r == m.push(last));
        assert forall|i: int, j: int| 0 <= i < j < r.len() implies seq_lt(#[trigger] r[i].0@, #[trigger] r[j].0@) by {
            if j == m.len() {
                assert(r[i] == m[i]);
            } else {
                assert(r[i] == m[i] && r[j] == m[j]);
            }
        }
    }
}

/// In ascending entries, inserting adds an entry exactly when the key is new.
pub proof fn lemma_insert_len<V>(e: Seq<(String, V)>, k: String, v: V)
    requires
        sorted_keys(e),
    ensures
        map_insert(e, k, v).len() == e.len() + if key_index(e, k@) is Some {
            0int
        } else {
            1int
        },
    decreases e.len(),
{
    lemma_key_index(e, k@);
    if e.len() == 0 {
    } else if e.last().0@ == k@ {
    } else if seq_lt(e.last().0@, k@) {
        assert forall|j: int| 0 <= j < e.len() implies e[j].0@ != k@ by {
            if j < e.len() - 1 {
                lemma_seq_lt_trans(e[j].0@, e.last().0@, k@);
            }
            if e[j].0@ == k@ {
                lemma_seq_lt_irrefl(k@);
            }
        }
        assert(key_index(e, k@) is None);
    } else {
        let d = e.drop_last();
        assert(sorted_keys(d)) by {
            assert forall|i: int, j: int| 0 <= i < j < d.len() implies seq_lt(#[trigger] d[i].0@, #[trigger] d[j].0@) by {
                assert(d[i] == e[i] && d[j] == e[j]);
            }
        }
        lemma_insert_len(d, k, v);
    }
}

/// After `map_insert(e, k, v)` the value under `k` is `v`, and every other
/// key keeps its value.
#[verifier::rlimit(40)]
pub proof fn lemma_map_insert_lookup<V>(e: Seq<(String, V)>, k: String, v: V, q: Seq<char>)
    ensures
        q == k@ ==> (key_index(map_insert(e, k, v), q) matches Some(i) && map_insert(e, k, v)[i].1 == v),
        q != k@ ==> (match key_index(e, q) {
            Some(i) => (key_index(map_insert(e, k, v), q) matches Some(j) && map_insert(e, k, v)[j].1 == e[i].1),
            None => key_index(map_insert(e, k, v), q) is None,
        }),
    decreases e.len(),
{
    let r = map_insert(e, k, v);
    lemma_key_index(e, q);
    if e.len() == 0 {
        assert(r.drop_last() =~= Seq::<(String, V)>::empty());
        assert(r.last() == (k, v));
        assert(key_index(r.drop_last(), q) is None);
        if q != k@ {
            assert(key_index(r, q) == key_index(r.drop_last(), q));
        }
    } else if e.last().0@ == k@ {
        let d = e.drop_last();
        assert(r.drop_last() == d);
        assert(r.last() == (k, v));
        lemma_key_index(d, q);
        if q != k@ {
            assert(key_index(r, q) == key_index(d, q));
            assert(key_index(e, q) == key_index(d, q));
            if let Some(i) = key_index(d, q) {
                assert(r[i] == d[i] && d[i] == e[i]);
            }
        }
    } else if seq_lt(e.last().0@, k@) {
        assert(r.drop_last() == e);
        assert(r.last() == (k, v));
        if q != k@ {
            assert(key_index(r, q) == key_index(e, q));
            if let Some(i) = key_index(e, q) {
                assert(r[i] == e[i]);
            }
        }
    } else {
        let d = e.drop_last();
        let m = map_insert(d, k, v);
        lemma_map_insert_lookup(d, k, v, q);
        lemma_key_index(m, q);
        lemma_key_index(d, q);
        assert(r.drop_last() == m);
        assert(r.last() == e.last());
        if q == e.last().0@ {
            assert(key_index(e, q) == Some(e.len() - 1));
            assert(key_index(r, q) == Some(r.len() - 1));
        } else {
            assert(key_index(e, q) == key_index(d, q));
            assert(key_index(r, q) == key_index(m, q));
            if q == k@ {
                let i = key_index(m, q)->0;
                assert(r[i] == m[i]);
            } else {
                if let Some(i) = key_index(d, q) {
                    let j = key_index(m, q)->0;
                    assert(r[j] == m[j]);
                    assert(d[i] == e[i]);
                }
            }
        }
    }
}

impl<V> StrMap<V> {
    /// The entries, in ascending key order.
    pub closed spec fn entries(self) -> Seq<(String, V)> {
        self.entries@
    }

    /// The value stored under `k`, if any.
    pub open spec fn lookup(self, k: Seq<char>) -> Option<V> {
        match key_index(self.entries(), k) {
            Some(i) => Some(self.entries()[i].1),
            None => None,
        }
    }

    /// Whether `k` has an entry.
    pub open spec fn has(self, k: Seq<char>) -> bool {
        key_index(self.entries(), k) is Some
    }

    /// An empty map.
    pub fn new() -> (m: Self)
        ensures
            m.entries() == Seq::<(String, V)>::empty(),
    {
        StrMap { entries: Vec::new() }
    }

    /// Number of entries.
    pub fn len(&self) -> (n: usize)
        ensures
            n == self.entries().len(),
    {
        self.entries.len()
    }

    /// Whether the map has no entries.
    pub fn is_empty(&self) -> (b: bool)
        ensures
            b == (self.entries().len() == 0),
    {
        self.entries.len() == 0
    }

    /// Position of the last entry for `k`.
    fn index_of(&self, k: &str) -> (r: Option<usize>)
        ensures
            match r {
                Some(i) => key_index(self.entries(), k@) == Some(i as int) && i < self.entries().len(),
                None => key_index(self.entries(), k@) is None,
            },
    {
        let n = self.entries.len();
        let mut i: usize = n;
        while i > 0
            invariant
                i <= n,
                n == self.entries@.len(),
                forall|j: int| i <= j < n ==> self.entries@[j].0@ != k@,
            decreases i,
        {
            if str_eq(self.entries[i - 1].0.as_str(), k) {
                proof { lemma_key_index_at(self.entries@, k@, i - 1); }
                return Some(i - 1);
            }
            i = i - 1;
        }
        proof { lemma_key_index(self.entries@, k@); }
        None
    }

    /// The value stored under `k`.
    pub fn get(&self, k: &str) -> (r: Option<&V>)
        ensures
            match r {
                Some(v) => self.lookup(k@) == Some(*v),
                None => self.lookup(k@) is None,
            },
    {
        match self.index_of(k) {
            Some(i) => Some(&self.entries[i].1),
            None => None,
        }
    }

    /// Whether `k` has an entry.
    pub fn contains_key(&self, k: &str) -> (b: bool)
        ensures
            b == self.has(k@),
    {
        self.index_of(k).is_some()
    }

    /// Sets the value under `k`, keeping the keys in ascending order.
    pub fn insert(&mut self, k: String, v: V)
        ensures
            final(self).entries() == map_insert(old(self).entries(), k, v),
    {
        insert_ordered(&mut self.entries, k, v);
    }

    /// Borrow the entries in ascending key order.
    pub fn as_slice(&self) -> (s: &[(String, V)])
        ensures
            s@ == self.entries(),
    {
        self.entries.as_slice()
    }
}

/// Ordered insertion into an association list.
fn insert_ordered<V>(e: &mut Vec<(String, V)>, k: String, v: V)
    ensures
        final(e)@ == map_insert(old(e)@, k, v),
    decreases old(e)@.len(),
{
    let n = e.len();
    if n == 0 {
        e.push((k, v));
        assert(e@ =~= seq![(k, v)]);
        return;
    }
    if str_eq(e[n - 1].0.as_str(), k.as_str()) {
        let _ = e.pop();
        e.push((k, v));
        return;
    }
    if str_lt(e[n - 1].0.as_str(), k.as_str()) {
        e.push((k, v));
        return;
    }
    let last = e.pop().unwrap();
    insert_ordered(e, k, v);
    e.push(last);
}

/// Index of the last pair whose key is `k`.
pub open spec fn pair_index<V>(e: Seq<(Seq<char>, V)>, k: Seq<char>) -> Option<int>
    decreases e.len(),
{
    if e.len() == 0 {
        None
    } else if e.last().0 == k {
        Some(e.len() - 1)
    } else {
        pair_index(e.drop_last(), k)
    }
}

/// The pairs after setting `k` to `v`, in the manner of `map_insert`.
pub open spec fn pairs_insert<V>(e: Seq<(Seq<char>, V)>, k: Seq<char>, v: V) -> Seq<(Seq<char>, V)>
    decreases e.len(),
{
    if e.len() == 0 {
        seq![(k, v)]
    } else if e.last().0 == k {
        e.drop_last().push((k, v))
    } else if seq_lt(e.last().0, k) {
        e.push((k, v))
    } else {
        pairs_insert(e.drop_last(), k, v).push(e.last())
    }
}

/// The entries with their keys as character sequences.
pub open spec fn keyed_views<V>(e: Seq<(String, V)>) -> Seq<(Seq<char>, V)> {
    e.map_values(|p: (String, V)| (p.0@, p.1))
}

proof fn lemma_keyed_insert<V>(e: Seq<(String, V)>, k: String, v: V)
    ensures
        keyed_views(map_insert(e, k, v)) == pairs_insert(keyed_views(e), k@, v),
    decreases e.len(),
{
    if e.len() == 0 {
        assert(keyed_views(map_insert(e, k, v)) =~= seq![(k@, v)]);
    } else {
        assert(keyed_views(e).drop_last() =~= keyed_views(e.drop_last()));
        if e.last().0@ == k@ {
            assert(keyed_views(map_insert(e, k, v)) =~= keyed_views(e).drop_last().push((k@, v)));
        } else if seq_lt(e.last().0@, k@) {
            assert(keyed_views(map_insert(e, k, v)) =~= keyed_views(e).push((k@, v)));
        } else {
            lemma_keyed_insert(e.drop_last(), k, v);
            assert(keyed_views(map_insert(e, k, v)) =~= keyed_views(map_insert(e.drop_last(), k, v)).push(
                keyed_views(e).last(),
            ));
        }
    }
}

impl StrMap<bool> {
    /// The entries with their keys as character sequences.
    pub open spec fn flags(self) -> Seq<(Seq<char>, bool)> {
        keyed_views(self.entries())
    }

    /// Sets `k` to `v`, described over the character views of the keys.
    pub fn insert_flag(&mut self, k: String, v: bool)
        ensures
            final(self).flags() == pairs_insert(old(self).flags(), k@, v),
            final(self).entries() == map_insert(old(self).entries(), k, v),
    {
        proof { lemma_keyed_insert(self.entries(), k, v); }
        self.insert(k, v);
    }
}

/// The value of the last pair whose key is `k`.
pub open spec fn pairs_lookup<V>(e: Seq<(Seq<char>, V)>, k: Seq<char>) -> Option<V> {
    match pair_index(e, k) {
        Some(i) => Some(e[i].1),
        None => None,
    }
}

/// A found index lies within the pairs and names a pair with that key.
pub proof fn lemma_pair_index_bound<V>(e: Seq<(Seq<char>, V)>, k: Seq<char>)
    ensures
        pair_index(e, k) matches Some(i) ==> 0 <= i < e.len() && e[i].0 == k,
    decreases e.len(),
{
    if e.len() > 0 {
        lemma_pair_index_bound(e.drop_last(), k);
    }
}

/// Looking a key up goes by the last pair first.
pub proof fn lemma_pairs_lookup_last<V>(e: Seq<(Seq<char>, V)>, k: Seq<char>)
    requires
        e.len() > 0,
    ensures
        pairs_lookup(e, k) == if e.last().0 == k { Some(e.last().1) } else { pairs_lookup(e.drop_last(), k) },
{
    lemma_pair_index_bound(e.drop_last(), k);
}

/// After setting `k` to `v`, `k` gives `v` and every other key what it gave before.
pub proof fn lemma_pairs_insert_lookup<V>(e: Seq<(Seq<char>, V)>, k: Seq<char>, v: V, q: Seq<char>)
    ensures
        pairs_lookup(pairs_insert(e, k, v), q) == if q == k { Some(v) } else { pairs_lookup(e, q) },
    decreases e.len(),
{
    let r = pairs_insert(e, k, v);
    if e.len() == 0 {
        lemma_pairs_lookup_last(r, q);
        assert(r.drop_last() =~= Seq::<(Seq<char>, V)>::empty());
    } else if e.last().0 == k {
        lemma_pairs_lookup_last(r, q);
        lemma_pairs_lookup_last(e, q);
        assert(r.drop_last() =~= e.drop_last());
    } else if seq_lt(e.last().0, k) {
        lemma_pairs_lookup_last(r, q);
        assert(r.drop_last() =~= e);
    } else {
        let d = pairs_insert(e.drop_last(), k, v);
        lemma_pairs_lookup_last(r, q);
        lemma_pairs_lookup_last(e, q);
        assert(r.drop_last() =~= d);
        lemma_pairs_insert_lookup(e.drop_last(), k, v, q);
    }
}

/// The character views of string pairs.
pub open spec fn pair_views(e: Seq<(String, String)>) -> Seq<(Seq<char>, Seq<char>)> {
    e.map_values(|p: (String, String)| (p.0@, p.1@))
}

proof fn lemma_pair_index(e: Seq<(String, String)>, k: Seq<char>)
    ensures
        pair_index(pair_views(e), k) == key_index(e, k),
    decreases e.len(),
{
    if e.len() > 0 {
        lemma_pair_index(e.drop_last(), k);
        assert(pair_views(e).drop_last() == pair_views(e.drop_last()));
    }
}

proof fn lemma_pairs_insert(e: Seq<(String, String)>, k: String, v: String)
    ensures
        pair_views(map_insert(e, k, v)) == pairs_insert(pair_views(e), k@, v@),
    decreases e.len(),
{
    if e.len() == 0 {
        assert(pair_views(map_insert(e, k, v)) =~= seq![(k@, v@)]);
    } else {
        assert(pair_views(e).drop_last() =~= pair_views(e.drop_last()));
        if e.last().0@ == k@ {
            assert(pair_views(map_insert(e, k, v)) =~= pair_views(e).drop_last().push((k@, v@)));
        } else if seq_lt(e.last().0@, k@) {
            assert(pair_views(map_insert(e, k, v)) =~= pair_views(e).push((k@, v@)));
        } else {
            lemma_pairs_insert(e.drop_last(), k, v);
            assert(pair_views(map_insert(e, k, v)) =~= pair_views(map_insert(e.drop_last(), k, v)).push(
                pair_views(e).last(),
            ));
        }
    }
}

impl StrMap<String> {
    /// The entries as pairs of character sequences.
    pub open spec fn pairs(self) -> Seq<(Seq<char>, Seq<char>)> {
        pair_views(self.entries())
    }

    /// Sets `k` to `v`, described over the character views.
    pub fn insert_str(&mut self, k: String, v: String)
        ensures
            final(self).pairs() == pairs_insert(old(self).pairs(), k@, v@),
            final(self).entries() == map_insert(old(self).entries(), k, v),
    {
        proof { lemma_pairs_insert(self.entries(), k, v); }
        self.insert(k, v);
    }

    /// The value of `k`, described over the character views.
    pub fn get_str(&self, k: &str) -> (r: Option<&String>)
        ensures
            match r {
                Some(v) => pairs_lookup(self.pairs(), k@) == Some(v@),
                None => pairs_lookup(self.pairs(), k@) is None,
            },
    {
        proof { lemma_pair_index(self.entries(), k@); lemma_key_index(self.entries(), k@); }
        self.get(k)
    }
}

} // verus!
