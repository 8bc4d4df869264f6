//! Properties of the cache that span its operations, stated over the model that the
//! operations' contracts use (`LruCache::insert` gives `insert_evicting`, `LruCache::get`
//! gives `refresh`, `LruCache::remove` gives `without`, `LruCache::set_capacity` gives
//! `most_recent`).
use crate::model::{
    contains_key, insert_all, insert_evicting, keys_of, lemma_drop_first,
    lemma_insert_evicting_valid, lemma_key_position, lemma_put, lemma_refresh,
    lemma_subrange_unique, lemma_value_at, lemma_without, most_recent, put, refresh,
    unique_keys, value_of, without, Entry,
};
use crate::text::{debug_text, decimal, digit_char, entry_text};
use vstd::prelude::*;

verus! {

/// A cache whose keys are unique and which holds at most `cap` entries.
pub open spec fn valid(s: Seq<Entry>, cap: nat) -> bool {
    unique_keys(s) && s.len() <= cap
}

/// In a cache that can hold at least one pair, a look-up right after inserting `(k, v)`
/// finds `v`, and `k` is then the most recently used key.
pub proof fn law_read_after_insert(s: Seq<Entry>, cap: nat, k: u64, v: u64)
    requires
        valid(s, cap),
        cap > 0,
    ensures
        value_of(insert_evicting(s, cap, k, v), k) == Some(v),
        insert_evicting(s, cap, k, v).last() == (k, v),
{
    lemma_put(s, k, v);
    let t = put(s, k, v);
    if t.len() > cap {
        assert(t[t.len() - 1] == (k, v));
        assert(t[0].0 != t[t.len() - 1].0);
        lemma_drop_first(t);
        assert(t.drop_first().last() == t.last());
    }
}

/// Inserting never leaves the cache invalid: the keys stay unique and the number of pairs
/// stays within the capacity. It grows by one, up to the capacity, when the key is new,
/// and stays the same when the key was there.
pub proof fn law_insert_size(s: Seq<Entry>, cap: nat, k: u64, v: u64)
    requires
        valid(s, cap),
    ensures
        valid(insert_evicting(s, cap, k, v), cap),
        contains_key(s, k) ==> insert_evicting(s, cap, k, v).len() == s.len(),
        !contains_key(s, k) && s.len() < cap ==> insert_evicting(s, cap, k, v).len() == s.len()
            + 1,
        !contains_key(s, k) && s.len() == cap ==> insert_evicting(s, cap, k, v).len() == cap,
{
    lemma_put(s, k, v);
    lemma_insert_evicting_valid(s, cap, k, v);
}

/// Updating a key that is already in the cache evicts nothing: the value changes, the pair
/// becomes the most recently used one, and every other pair stays, in its order.
pub proof fn law_update_evicts_nothing(s: Seq<Entry>, cap: nat, k: u64, v: u64)
    requires
        valid(s, cap),
        contains_key(s, k),
    ensures
        insert_evicting(s, cap, k, v) == put(s, k, v),
        put(s, k, v) == without(s, k).push((k, v)),
        forall|j: u64| j != k ==> #[trigger] value_of(insert_evicting(s, cap, k, v), j)
            == value_of(s, j),
{
    lemma_put(s, k, v);
}

/// Inserting a new key into a full cache removes exactly the least recently used pair:
/// the others stay, in their order, and the new pair comes last.
pub proof fn law_eviction_removes_least_recent(s: Seq<Entry>, cap: nat, k: u64, v: u64)
    requires
        valid(s, cap),
        !contains_key(s, k),
        s.len() == cap,
        cap > 0,
    ensures
        insert_evicting(s, cap, k, v) == s.drop_first().push((k, v)),
        !contains_key(insert_evicting(s, cap, k, v), s[0].0),
        forall|j: u64|
            j != k && j != s[0].0 ==> #[trigger] value_of(insert_evicting(s, cap, k, v), j)
                == value_of(s, j),
{
    lemma_put(s, k, v);
    let t = put(s, k, v);
    assert(t == s.push((k, v)));
    assert(t.drop_first() =~= s.drop_first().push((k, v)));
    assert(t[0] == s[0]);
    lemma_drop_first(t);
}

/// While the cache does not overflow, inserting `(k, v)` leaves the value of every other
/// key as it was.
pub proof fn law_insert_keeps_other_keys(s: Seq<Entry>, cap: nat, k: u64, v: u64, j: u64)
    requires
        valid(s, cap),
        j != k,
        contains_key(s, k) || s.len() < cap,
    ensures
        value_of(insert_evicting(s, cap, k, v), j) == value_of(s, j),
{
    lemma_put(s, k, v);
}

/// A look-up changes no value and no key: it only makes the found pair the most recently
/// used one. A look-up of a missing key changes nothing.
pub proof fn law_get_keeps_contents(s: Seq<Entry>, k: u64)
    requires
        unique_keys(s),
    ensures
        unique_keys(refresh(s, k)),
        refresh(s, k).len() == s.len(),
        forall|j: u64| #[trigger] value_of(refresh(s, k), j) == value_of(s, j),
        contains_key(s, k) ==> refresh(s, k).last().0 == k,
        !contains_key(s, k) ==> refresh(s, k) == s,
{
    lemma_refresh(s, k);
}

/// A key just looked up survives the next insertion of any other key, whatever evicts:
/// "used" protects a pair from being the least recently used one, as long as the cache
/// holds at least two pairs.
pub proof fn law_get_protects_from_eviction(s: Seq<Entry>, cap: nat, k: u64, j: u64, v: u64)
    requires
        valid(s, cap),
        cap >= 2,
        contains_key(s, k),
        j != k,
    ensures
        value_of(insert_evicting(refresh(s, k), cap, j, v), k) == value_of(s, k),
        contains_key(insert_evicting(refresh(s, k), cap, j, v), k),
{
    lemma_refresh(s, k);
    let r = refresh(s, k);
    lemma_put(r, j, v);
    let t = put(r, j, v);
    lemma_key_position(s, k);
    if t.len() > cap {
        assert(!contains_key(r, j));
        assert(t == r.push((j, v)));
        assert(t[0] == r[0]);
        assert(r.len() >= 2);
        assert(r[r.len() - 1].0 == k);
        assert(r[0].0 != r[r.len() - 1].0);
        lemma_drop_first(t);
    }
}

/// After a key is removed, a look-up of it finds nothing; every other key keeps its
/// value, and the cache holds one pair fewer exactly when the key was there.
pub proof fn law_remove_then_lookup(s: Seq<Entry>, k: u64)
    requires
        unique_keys(s),
    ensures
        value_of(without(s, k), k) is None,
        forall|j: u64| j != k ==> #[trigger] value_of(without(s, k), j) == value_of(s, j),
        without(s, k).len() == if contains_key(s, k) { s.len() - 1 } else { s.len() as int },
        unique_keys(without(s, k)),
{
    lemma_without(s, k);
}

/// Shrinking the capacity to `n` keeps the `n` most recently used pairs (all of them when
/// there are no more), in their order.
pub proof fn law_set_capacity_keeps_most_recent(s: Seq<Entry>, n: nat)
    requires
        unique_keys(s),
    ensures
        unique_keys(most_recent(s, n)),
        most_recent(s, n).len() == if s.len() > n { n } else { s.len() },
        forall|i: int|
            0 <= i < most_recent(s, n).len() ==> #[trigger] most_recent(s, n)[i] == s[s.len()
                - most_recent(s, n).len() + i],
{
    if s.len() > n {
        lemma_subrange_unique(s, s.len() - n, s.len() as int);
    }
}

/// A look-up finds the value stored beside the key, wherever that entry stands.
pub proof fn law_lookup_finds_stored_value(s: Seq<Entry>, p: int)
    requires
        unique_keys(s),
        0 <= p < s.len(),
    ensures
        contains_key(s, s[p].0),
        value_of(s, s[p].0) == Some(s[p].1),
{
    lemma_value_at(s, p);
}

/// A look-up of a key that no entry holds finds nothing.
pub proof fn law_lookup_of_absent_key(s: Seq<Entry>, k: u64)
    requires
        forall|i: int| 0 <= i < s.len() ==> s[i].0 != k,
    ensures
        !contains_key(s, k),
        value_of(s, k) is None,
{
}

/// Inserting a key that is absent into a cache with room left only appends the pair:
/// every other pair stays, in its order, and nothing is evicted.
pub proof fn law_insert_absent_with_room(s: Seq<Entry>, cap: nat, k: u64, v: u64)
    requires
        valid(s, cap),
        forall|i: int| 0 <= i < s.len() ==> s[i].0 != k,
        s.len() < cap,
    ensures
        insert_evicting(s, cap, k, v) == s.push((k, v)),
{
    assert(!contains_key(s, k));
}

/// Inserting a key that is absent into a full cache appends the pair and drops the first
/// (least recently used) pair; with capacity 0 the cache stays empty.
pub proof fn law_insert_absent_when_full(s: Seq<Entry>, cap: nat, k: u64, v: u64)
    requires
        valid(s, cap),
        forall|i: int| 0 <= i < s.len() ==> s[i].0 != k,
        s.len() == cap,
    ensures
        insert_evicting(s, cap, k, v) == s.push((k, v)).drop_first(),
        cap == 0 ==> insert_evicting(s, cap, k, v).len() == 0,
{
    assert(!contains_key(s, k));
}

/// Inserting a key that is present, at position `p`, takes its pair out of its place and
/// appends the new pair at the end; the others keep their order and nothing is evicted.
pub proof fn law_insert_present(s: Seq<Entry>, cap: nat, k: u64, v: u64, p: int)
    requires
        valid(s, cap),
        0 <= p < s.len(),
        s[p].0 == k,
    ensures
        insert_evicting(s, cap, k, v) == s.remove(p).push((k, v)),
{
    assert(contains_key(s, k));
    lemma_key_position(s, k);
    s.remove_ensures(p);
}

/// A look-up of a key present at position `p` moves that pair, unchanged, to the end;
/// the others keep their order.
pub proof fn law_get_present_moves_to_end(s: Seq<Entry>, k: u64, p: int)
    requires
        unique_keys(s),
        0 <= p < s.len(),
        s[p].0 == k,
    ensures
        refresh(s, k) == s.remove(p).push(s[p]),
{
    assert(contains_key(s, k));
    lemma_key_position(s, k);
}

/// A look-up of an absent key changes nothing.
pub proof fn law_get_absent_changes_nothing(s: Seq<Entry>, k: u64)
    requires
        forall|i: int| 0 <= i < s.len() ==> s[i].0 != k,
    ensures
        refresh(s, k) == s,
{
    assert(!contains_key(s, k));
}

/// Removing a key present at position `p` takes out exactly that pair; removing an
/// absent key changes nothing.
pub proof fn law_remove_takes_out_one_pair(s: Seq<Entry>, k: u64, p: int)
    requires
        unique_keys(s),
        0 <= p < s.len(),
        s[p].0 == k,
    ensures
        without(s, k) == s.remove(p),
{
    assert(contains_key(s, k));
    lemma_key_position(s, k);
}

/// Removing an absent key changes nothing.
pub proof fn law_remove_absent_changes_nothing(s: Seq<Entry>, k: u64)
    requires
        forall|i: int| 0 <= i < s.len() ==> s[i].0 != k,
    ensures
        without(s, k) == s,
{
    assert(!contains_key(s, k));
}

/// Extending by no pairs changes nothing.
pub proof fn law_extend_by_nothing(s: Seq<Entry>, cap: nat)
    ensures
        insert_all(s, cap, Seq::<Entry>::empty()) == s,
{
}

/// Extending by `items` followed by one more pair is extending by `items` and then
/// inserting that pair; so extending by one pair is inserting it, in any cache.
pub proof fn law_extend_then_insert(s: Seq<Entry>, cap: nat, items: Seq<Entry>, k: u64, v: u64)
    ensures
        insert_all(s, cap, items.push((k, v))) == insert_evicting(
            insert_all(s, cap, items),
            cap,
            k,
            v,
        ),
        insert_all(s, cap, seq![(k, v)]) == insert_evicting(s, cap, k, v),
{
    assert(items.push((k, v)).drop_last() =~= items);
    let one = seq![(k, v)];
    assert(one.drop_last() =~= Seq::<Entry>::empty());
    assert(one.last() == (k, v));
    assert(insert_all(s, cap, one.drop_last()) == s);
}

/// Walking with write access visits every key, in order from the least recently used.
pub proof fn law_iter_mut_visits_every_key(s: Seq<Entry>)
    ensures
        keys_of(s).len() == s.len(),
        forall|i: int| 0 <= i < s.len() ==> #[trigger] keys_of(s)[i] == s[i].0,
{
}

/// Each pair is shown as its key, `: ` and its value, both in decimal.
pub proof fn law_entry_text(e: Entry)
    ensures
        entry_text(e) == decimal(e.0 as nat) + seq![':', ' '] + decimal(e.1 as nat),
{
}

/// Decimal digits: one digit below ten, else the digits of `n / 10` followed by the last
/// digit; the digit `d` is the character with code `48 + d`.
pub proof fn law_decimal(n: nat)
    ensures
        n < 10 ==> decimal(n) == seq![digit_char(n as int)],
        n >= 10 ==> decimal(n) == decimal(n / 10).push(digit_char((n % 10) as int)),
        decimal(n).len() >= 1,
        forall|d: int| 0 <= d < 10 ==> #[trigger] digit_char(d) as int == 48 + d,
{
    assert(decimal(n).len() >= 1) by {
        if n >= 10 {
            assert(decimal(n) == decimal(n / 10).push(digit_char((n % 10) as int)));
        }
    }
}

/// An empty cache shows as `{}`; one pair shows as `{` the pair `}`.
pub proof fn law_debug_text_small(e: Entry)
    ensures
        debug_text(Seq::<Entry>::empty()) == seq!['{', '}'],
        debug_text(seq![e]) == seq!['{'] + entry_text(e) + seq!['}'],
{
    assert(debug_text(Seq::<Entry>::empty()) =~= seq!['{', '}']);
}

/// The text shows every pair: for two or more pairs, it is the text of all but the least
/// recently used pair, with `, `, that pair and `}` in place of its closing `}`.
pub proof fn law_debug_text_shows_every_pair(s: Seq<Entry>)
    requires
        s.len() >= 2,
    ensures
        debug_text(s) == debug_text(s.drop_first()).drop_last() + seq![',', ' '] + entry_text(
            s[0],
        ) + seq!['}'],
{
    let inner = crate::text::entries_text_backwards(s.drop_first());
    assert((seq!['{'] + inner + seq!['}']).drop_last() =~= seq!['{'] + inner);
    assert(debug_text(s) =~= seq!['{'] + inner + seq![',', ' '] + entry_text(s[0]) + seq![
        '}',
    ]);
}

} // verus!
