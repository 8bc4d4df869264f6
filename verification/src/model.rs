//! The mathematical model of a cache: the sequence of its entries, ordered from
//! the least recently used (index 0) to the most recently used (the last index).
use vstd::prelude::*;

verus! {

/// An entry of the cache: a key and its value.
pub type Entry = (u64, u64);

/// No two entries share a key.
pub open spec fn unique_keys(s: Seq<Entry>) -> bool {
    forall|i: int, j: int|
        0 <= i < s.len() && 0 <= j < s.len() && i != j ==> #[trigger] s[i].0 != #[trigger] s[j].0
}

/// Some entry has the key `k`.
pub open spec fn contains_key(s: Seq<Entry>, k: u64) -> bool {
    exists|i: int| 0 <= i < s.len() && #[trigger] s[i].0 == k
}

/// The position of the entry with key `k` (meaningful when there is one).
pub open spec fn key_position(s: Seq<Entry>, k: u64) -> int {
    choose|i: int| 0 <= i < s.len() && #[trigger] s[i].0 == k
}

/// The value stored under `k`, if any.
pub open spec fn value_of(s: Seq<Entry>, k: u64) -> Option<u64> {
    if contains_key(s, k) {
        Some(s[key_position(s, k)].1)
    } else {
        None
    }
}

/// The entries without the one whose key is `k`; the others keep their order.
pub open spec fn without(s: Seq<Entry>, k: u64) -> Seq<Entry> {
    if contains_key(s, k) {
        s.remove(key_position(s, k))
    } else {
        s
    }
}

/// Writing `v` under `k` in a map that keeps insertion order: any old entry for `k`
/// leaves its place, and `(k, v)` becomes the last entry.
pub open spec fn put(s: Seq<Entry>, k: u64, v: u64) -> Seq<Entry> {
    without(s, k).push((k, v))
}

/// Using the entry with key `k`: it moves to the end, unchanged; without such an
/// entry nothing changes.
pub open spec fn refresh(s: Seq<Entry>, k: u64) -> Seq<Entry> {
    if contains_key(s, k) {
        without(s, k).push(s[key_position(s, k)])
    } else {
        s
    }
}

/// The `n` most recently used entries, or all of them where there are no more than `n`.
pub open spec fn most_recent(s: Seq<Entry>, n: nat) -> Seq<Entry> {
    if s.len() > n {
        s.subrange(s.len() - n, s.len() as int)
    } else {
        s
    }
}

/// Inserting into a cache of capacity `cap`: the pair is written and becomes the most
/// recently used entry; when that leaves more than `cap` entries, the least recently
/// used one is dropped.
pub open spec fn insert_evicting(s: Seq<Entry>, cap: nat, k: u64, v: u64) -> Seq<Entry> {
    let t = put(s, k, v);
    if t.len() > cap {
        t.drop_first()
    } else {
        t
    }
}

/// Inserting `items` one after the other, in their order.
pub open spec fn insert_all(s: Seq<Entry>, cap: nat, items: Seq<Entry>) -> Seq<Entry>
    decreases items.len(),
{
    if items.len() == 0 {
        s
    } else {
        let last = items.last();
        insert_evicting(insert_all(s, cap, items.drop_last()), cap, last.0, last.1)
    }
}

/// The keys of the entries, in their order.
pub open spec fn keys_of(s: Seq<Entry>) -> Seq<u64> {
    s.map_values(|e: Entry| e.0)
}

/// Where the keys are unique, the entry with key `k` is at `key_position` and only there.
pub proof fn lemma_key_position(s: Seq<Entry>, k: u64)
    requires
        unique_keys(s),
        contains_key(s, k),
    ensures
        0 <= key_position(s, k) < s.len(),
        s[key_position(s, k)].0 == k,
        forall|i: int| 0 <= i < s.len() && #[trigger] s[i].0 == k ==> i == key_position(s, k),
        value_of(s, k) == Some(s[key_position(s, k)].1),
{
}

/// An entry at a known position gives the value of its key.
pub proof fn lemma_value_at(s: Seq<Entry>, i: int)
    requires
        unique_keys(s),
        0 <= i < s.len(),
    ensures
        contains_key(s, s[i].0),
        key_position(s, s[i].0) == i,
        value_of(s, s[i].0) == Some(s[i].1),
{
    assert(contains_key(s, s[i].0));
    lemma_key_position(s, s[i].0);
}

/// Removing the entry of `k` keeps the keys unique, removes `k` and keeps every other
/// key's value.
pub proof fn lemma_without(s: Seq<Entry>, k: u64)
    requires
        unique_keys(s),
    ensures
        unique_keys(without(s, k)),
        !contains_key(without(s, k), k),
        forall|j: u64| j != k ==> #[trigger] value_of(without(s, k), j) == value_of(s, j),
        without(s, k).len() == if contains_key(s, k) { s.len() - 1 } else { s.len() as int },
{
    if contains_key(s, k) {
        let p = key_position(s, k);
        lemma_key_position(s, k);
        let t = s.remove(p);
        s.remove_ensures(p);
        assert forall|a: int, b: int|
            0 <= a < t.len() && 0 <= b < t.len() && a != b implies #[trigger] t[a].0
            != #[trigger] t[b].0 by {
            let sa = if a < p { a } else { a + 1 };
            let sb = if b < p { b } else { b + 1 };
            assert(t[a] == s[sa]);
            assert(t[b] == s[sb]);
        }
        assert forall|i: int| 0 <= i < t.len() implies #[trigger] t[i].0 != k by {
            let si = if i < p { i } else { i + 1 };
            assert(t[i] == s[si]);
        }
        assert forall|j: u64| j != k implies #[trigger] value_of(without(s, k), j) == value_of(
            s,
            j,
        ) by {
            if contains_key(s, j) {
                lemma_key_position(s, j);
                let q = key_position(s, j);
                let tq = if q < p { q } else { q - 1 };
                assert(t[tq] == s[q]);
                lemma_value_at(t, tq);
            } else {
                if contains_key(t, j) {
                    let i = choose|i: int| 0 <= i < t.len() && #[trigger] t[i].0 == j;
                    let si = if i < p { i } else { i + 1 };
                    assert(t[i] == s[si]);
                }
            }
        }
    }
}

/// Writing `(k, v)` keeps the keys unique, makes `v` the value of `k` and keeps
/// every other key's value.
pub proof fn lemma_put(s: Seq<Entry>, k: u64, v: u64)
    requires
        unique_keys(s),
    ensures
        unique_keys(put(s, k, v)),
        put(s, k, v).last() == (k, v),
        value_of(put(s, k, v), k) == Some(v),
        forall|j: u64| j != k ==> #[trigger] value_of(put(s, k, v), j) == value_of(s, j),
        put(s, k, v).len() == if contains_key(s, k) { s.len() as int } else { s.len() + 1 as int },
{
    lemma_without(s, k);
    let w = without(s, k);
    let t = w.push((k, v));
    assert forall|a: int, b: int|
        0 <= a < t.len() && 0 <= b < t.len() && a != b implies #[trigger] t[a].0
        != #[trigger] t[b].0 by {
        if a < w.len() && b < w.len() {
            assert(t[a] == w[a] && t[b] == w[b]);
        } else if a < w.len() {
            assert(t[a] == w[a]);
        } else if b < w.len() {
            assert(t[b] == w[b]);
        }
    }
    lemma_value_at(t, w.len() as int);
    assert forall|j: u64| j != k implies #[trigger] value_of(put(s, k, v), j) == value_of(s, j) by {
        assert(value_of(w, j) == value_of(s, j));
        if contains_key(w, j) {
            lemma_key_position(w, j);
            let q = key_position(w, j);
            assert(t[q] == w[q]);
            lemma_value_at(t, q);
        } else {
            if contains_key(t, j) {
                let i = choose|i: int| 0 <= i < t.len() && #[trigger] t[i].0 == j;
                if i < w.len() {
                    assert(t[i] == w[i]);
                }
            }
        }
    }
}

/// Dropping the first entry keeps the keys unique, removes that entry's key and keeps
/// every other key's value.
pub proof fn lemma_drop_first(s: Seq<Entry>)
    requires
        unique_keys(s),
        s.len() > 0,
    ensures
        unique_keys(s.drop_first()),
        !contains_key(s.drop_first(), s[0].0),
        forall|j: u64| j != s[0].0 ==> #[trigger] value_of(s.drop_first(), j) == value_of(s, j),
{
    let t = s.drop_first();
    assert forall|a: int, b: int|
        0 <= a < t.len() && 0 <= b < t.len() && a != b implies #[trigger] t[a].0
        != #[trigger] t[b].0 by {
        assert(t[a] == s[a + 1] && t[b] == s[b + 1]);
    }
    assert forall|i: int| 0 <= i < t.len() implies #[trigger] t[i].0 != s[0].0 by {
        assert(t[i] == s[i + 1]);
    }
    assert forall|j: u64| j != s[0].0 implies #[trigger] value_of(t, j) == value_of(s, j) by {
        if contains_key(s, j) {
            lemma_key_position(s, j);
            let q = key_position(s, j);
            assert(q > 0);
            assert(t[q - 1] == s[q]);
            lemma_value_at(t, q - 1);
        } else {
            if contains_key(t, j) {
                let i = choose|i: int| 0 <= i < t.len() && #[trigger] t[i].0 == j;
                assert(t[i] == s[i + 1]);
            }
        }
    }
}

/// A contiguous part of a sequence with unique keys has unique keys.
pub proof fn lemma_subrange_unique(s: Seq<Entry>, lo: int, hi: int)
    requires
        unique_keys(s),
        0 <= lo <= hi <= s.len(),
    ensures
        unique_keys(s.subrange(lo, hi)),
{
    let t = s.subrange(lo, hi);
    assert forall|a: int, b: int|
        0 <= a < t.len() && 0 <= b < t.len() && a != b implies #[trigger] t[a].0
        != #[trigger] t[b].0 by {
        assert(t[a] == s[a + lo] && t[b] == s[b + lo]);
    }
}

/// Using the entry of `k` keeps the keys unique, the number of entries and every
/// key's value, and makes that entry the last one.
pub proof fn lemma_refresh(s: Seq<Entry>, k: u64)
    requires
        unique_keys(s),
    ensures
        unique_keys(refresh(s, k)),
        refresh(s, k).len() == s.len(),
        forall|j: u64| #[trigger] value_of(refresh(s, k), j) == value_of(s, j),
        contains_key(s, k) ==> refresh(s, k).last().0 == k,
{
    if contains_key(s, k) {
        lemma_key_position(s, k);
        let e = s[key_position(s, k)];
        assert(put(s, k, e.1) == refresh(s, k));
        lemma_put(s, k, e.1);
    }
}

/// Changing the value of one entry in place keeps the keys, and with them their
/// uniqueness; every other key keeps its value.
pub proof fn lemma_update_value(s: Seq<Entry>, k: u64, x: u64)
    requires
        unique_keys(s),
        contains_key(s, k),
    ensures
        unique_keys(s.update(key_position(s, k), (k, x))),
        value_of(s.update(key_position(s, k), (k, x)), k) == Some(x),
        forall|j: u64| j != k ==> #[trigger] value_of(s.update(key_position(s, k), (k, x)), j)
            == value_of(s, j),
{
    lemma_key_position(s, k);
    let p = key_position(s, k);
    let t = s.update(p, (k, x));
    assert forall|a: int, b: int|
        0 <= a < t.len() && 0 <= b < t.len() && a != b implies #[trigger] t[a].0
        != #[trigger] t[b].0 by {
        assert(t[a].0 == s[a].0 && t[b].0 == s[b].0);
    }
    lemma_value_at(t, p);
    assert forall|j: u64| j != k implies #[trigger] value_of(t, j) == value_of(s, j) by {
        if contains_key(s, j) {
            lemma_key_position(s, j);
            let q = key_position(s, j);
            assert(t[q] == s[q]);
            lemma_value_at(t, q);
        } else {
            if contains_key(t, j) {
                let i = choose|i: int| 0 <= i < t.len() && #[trigger] t[i].0 == j;
                assert(t[i].0 == s[i].0);
            }
        }
    }
}

/// Inserting into a cache whose keys are unique and which holds at most `cap` entries
/// gives a cache with the same two properties.
pub proof fn lemma_insert_evicting_valid(s: Seq<Entry>, cap: nat, k: u64, v: u64)
    requires
        unique_keys(s),
        s.len() <= cap,
    ensures
        unique_keys(insert_evicting(s, cap, k, v)),
        insert_evicting(s, cap, k, v).len() <= cap,
{
    lemma_put(s, k, v);
    let t = put(s, k, v);
    if t.len() > cap {
        lemma_drop_first(t);
    }
}

} // verus!
