//! The least-recently-used cache.
use crate::iter::{Iter, IterMut};
use crate::linked_map::{
    entries, map_clear, map_clone, map_entries, map_get_mut, map_get_refresh, map_insert,
    map_is_empty, map_len, map_new, map_pop_front, map_remove, map_with_hasher,
};
use crate::model::{
    contains_key, insert_all, insert_evicting, key_position, keys_of, lemma_drop_first,
    lemma_insert_evicting_valid, lemma_key_position, lemma_put, lemma_refresh,
    lemma_update_value, lemma_without, most_recent, refresh, unique_keys, value_of, without,
    Entry,
};
use crate::text::{debug_text, entries_debug_text};
use linked_hash_map::LinkedHashMap;
use std::collections::hash_map::RandomState;
use vstd::prelude::*;

verus! {

/// An LRU cache: it holds at most `capacity` key-value pairs, and when one more would
/// not fit, the pair used longest ago goes.
pub struct LruCache {
    map: LinkedHashMap<u64, u64>,
    max_size: usize,
}

impl View for LruCache {
    /// The entries, from the least recently used to the most recently used.
    type V = Seq<Entry>;

    closed spec fn view(&self) -> Seq<Entry> {
        entries(self.map)
    }
}

impl LruCache {
    /// The number of pairs the cache may hold.
    pub closed spec fn cap(&self) -> nat {
        self.max_size as nat
    }

    /// What every cache keeps: no key twice, and no more entries than its capacity.
    pub open spec fn wf(&self) -> bool {
        &&& unique_keys(self@)
        &&& self@.len() <= self.cap()
    }

    /// Creates an empty cache that can hold at most `capacity` items.
    pub fn new(capacity: usize) -> (c: LruCache)
        ensures
            c.wf(),
            c@ == Seq::<Entry>::empty(),
            c.cap() == capacity,
    {
        LruCache { map: map_new(), max_size: capacity }
    }

    /// Creates an empty cache that can hold at most `capacity` items with the given hash
    /// state.
    pub fn with_hash_state(capacity: usize, hash_state: RandomState) -> (c: LruCache)
        ensures
            c.wf(),
            c@ == Seq::<Entry>::empty(),
            c.cap() == capacity,
    {
        LruCache { map: map_with_hasher(hash_state), max_size: capacity }
    }

    /// Inserts a key-value pair into the cache. If the key already existed, the old value
    /// is returned. The pair becomes the most recently used one; if the cache then holds
    /// more pairs than its capacity, the least recently used pair is removed.
    pub fn insert(&mut self, k: u64, v: u64) -> (r: Option<u64>)
        requires
            old(self).wf(),
            old(self)@.len() < usize::MAX,
        ensures
            final(self).wf(),
            r == value_of(old(self)@, k),
            final(self)@ == insert_evicting(old(self)@, old(self).cap(), k, v),
            final(self).cap() == old(self).cap(),
    {
        proof {
            lemma_insert_evicting_valid(self@, self.cap(), k, v);
            lemma_put(self@, k, v);
        }
        let old_val = map_insert(&mut self.map, k, v);
        if self.len() > self.capacity() {
            self.remove_lru();
        }
        old_val
    }

    /// Returns the value corresponding to the given key in the cache, and makes that pair
    /// the most recently used one.
    pub fn get(&mut self, k: &u64) -> (r: Option<&u64>)
        requires
            old(self).wf(),
        ensures
            final(self).wf(),
            r is Some <==> contains_key(old(self)@, *k),
            r matches Some(x) ==> value_of(old(self)@, *k) == Some(*x),
            final(self)@ == refresh(old(self)@, *k),
            final(self).cap() == old(self).cap(),
    {
        proof {
            lemma_refresh(self@, *k);
        }
        map_get_refresh(&mut self.map, k)
    }

    /// Removes the given key from the cache and returns its corresponding value.
    pub fn remove(&mut self, k: &u64) -> (r: Option<u64>)
        requires
            old(self).wf(),
        ensures
            final(self).wf(),
            r == value_of(old(self)@, *k),
            final(self)@ == without(old(self)@, *k),
            final(self).cap() == old(self).cap(),
    {
        proof {
            lemma_without(self@, *k);
        }
        map_remove(&mut self.map, k)
    }

    /// Returns the maximum number of key-value pairs the cache can hold.
    pub fn capacity(&self) -> (r: usize)
        ensures
            r == self.cap(),
    {
        self.max_size
    }

    /// Sets the number of key-value pairs the cache can hold. Removes least-recently-used
    /// key-value pairs if necessary.
    pub fn set_capacity(&mut self, capacity: usize)
        requires
            old(self).wf(),
        ensures
            final(self).wf(),
            final(self)@ == most_recent(old(self)@, capacity as nat),
            final(self).cap() == capacity,
    {
        let len = self.len();
        if capacity < len {
            let mut i = capacity;
            while i < len
                invariant
                    capacity <= i <= len,
                    len == old(self)@.len(),
                    self.max_size == old(self).max_size,
                    unique_keys(self@),
                    self@ == old(self)@.subrange(i - capacity, len as int),
                decreases len - i,
            {
                proof {
                    lemma_drop_first(self@);
                }
                self.remove_lru();
                i = i + 1;
            }
        }
        proof {
            if len <= capacity {
                assert(self@ =~= old(self)@);
            }
        }
        self.max_size = capacity;
    }

    /// Removes the least recently used pair, if there is one.
    fn remove_lru(&mut self)
        ensures
            old(self)@.len() == 0 ==> final(self)@ == old(self)@,
            old(self)@.len() > 0 ==> final(self)@ == old(self)@.drop_first(),
            final(self).max_size == old(self).max_size,
    {
        let _ = map_pop_front(&mut self.map);
    }

    /// Returns the number of key-value pairs in the cache.
    pub fn len(&self) -> (r: usize)
        ensures
            r == self@.len(),
    {
        map_len(&self.map)
    }

    /// Returns `true` if the cache contains no key-value pairs.
    pub fn is_empty(&self) -> (r: bool)
        ensures
            r == (self@.len() == 0),
    {
        map_is_empty(&self.map)
    }

    /// The cache as text: `{k: v, ...}`, from the most recently used pair to the least
    /// recently used one, keys and values in decimal.
    pub fn debug_string(&self) -> (r: String)
        ensures
            r@ == debug_text(self@),
    {
        let items = map_entries(&self.map);
        entries_debug_text(&items)
    }

    /// Gives access, in place, to the value of `k`; the pair does not count as used.
    pub(crate) fn value_mut(&mut self, k: &u64) -> (r: Option<&mut u64>)
        requires
            old(self).wf(),
        ensures
            final(self).wf(),
            final(self).cap() == old(self).cap(),
            !contains_key(old(self)@, *k) ==> r is None && final(self)@ == old(self)@,
            contains_key(old(self)@, *k) ==> r is Some && Some(*r.unwrap()) == value_of(
                old(self)@,
                *k,
            ) && final(self)@ == old(self)@.update(
                key_position(old(self)@, *k),
                (*k, *final(r.unwrap())),
            ),
    {
        proof {
            if contains_key(self@, *k) {
                lemma_key_position(self@, *k);
                assert forall|x: u64| #[trigger] unique_keys(self@.update(key_position(self@, *k), (*k, x))) by {
                    lemma_update_value(self@, *k, x);
                }
            }
        }
        map_get_mut(&mut self.map, k)
    }

    /// The pairs, from the least recently used to the most recently used. Walking over
    /// them does not change which pairs count as recently used.
    pub fn iter(&self) -> (it: Iter)
        ensures
            it.rest() == self@,
    {
        Iter::from_entries(map_entries(&self.map))
    }

    /// The keys, from the least recently used to the most recently used, as a cursor that
    /// gives write access to each key's value (see `IterMut::next`). This does not change
    /// which pairs count as recently used.
    pub fn iter_mut(&mut self) -> (it: IterMut)
        ensures
            it.rest() == keys_of(old(self)@),
            final(self)@ == old(self)@,
            final(self).cap() == old(self).cap(),
    {
        let items = map_entries(&self.map);
        let mut keys: Vec<u64> = Vec::new();
        let mut i: usize = 0;
        while i < items.len()
            invariant
                i <= items@.len(),
                keys@ == keys_of(items@.subrange(0, i as int)),
            decreases items@.len() - i,
        {
            keys.push(items[i].0);
            i = i + 1;
            assert(keys@ =~= keys_of(items@.subrange(0, i as int)));
        }
        assert(items@.subrange(0, items@.len() as int) =~= items@);
        IterMut::from_keys(keys)
    }

    /// Inserts the pairs of `items` one after the other, in their order, as `insert` does.
    pub fn extend(&mut self, items: Vec<Entry>)
        requires
            old(self).wf(),
            old(self)@.len() + items@.len() <= usize::MAX,
        ensures
            final(self).wf(),
            final(self)@ == insert_all(old(self)@, old(self).cap(), items@),
            final(self).cap() == old(self).cap(),
    {
        let mut i: usize = 0;
        while i < items.len()
            invariant
                i <= items@.len(),
                self.wf(),
                self.cap() == old(self).cap(),
                self@ == insert_all(old(self)@, old(self).cap(), items@.subrange(0, i as int)),
                self@.len() <= old(self)@.len() + i,
                old(self)@.len() + items@.len() <= usize::MAX,
            decreases items@.len() - i,
        {
            let (k, v) = items[i];
            proof {
                lemma_put(self@, k, v);
            }
            self.insert(k, v);
            proof {
                let done = items@.subrange(0, i + 1);
                assert(done.drop_last() =~= items@.subrange(0, i as int));
                assert(done.last() == (k, v));
            }
            i = i + 1;
        }
        assert(items@.subrange(0, items@.len() as int) =~= items@);
    }

    /// Removes all key-value pairs from the cache.
    pub fn clear(&mut self)
        ensures
            final(self).wf(),
            final(self)@ == Seq::<Entry>::empty(),
            final(self).cap() == old(self).cap(),
    {
        map_clear(&mut self.map)
    }
}

impl Clone for LruCache {
    fn clone(&self) -> (r: Self)
        ensures
            r@ == self@,
            r.cap() == self.cap(),
    {
        LruCache { map: map_clone(&self.map), max_size: self.max_size }
    }
}

} // verus!
