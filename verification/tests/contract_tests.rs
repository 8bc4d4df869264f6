use lru_cache::{LruCache, Iter};
use std::collections::hash_map::RandomState;

fn keys_and_values(cache: &LruCache) -> Vec<(u64, u64)> {
    let mut it = cache.iter();
    let mut out = Vec::new();
    while let Some(e) = it.next() {
        out.push(e);
    }
    out
}

#[test]
fn doc_example_module() {
    let mut cache = LruCache::new(2);
    cache.insert(1, 10);
    cache.insert(2, 20);
    cache.insert(3, 30);
    assert!(cache.get(&1).is_none());
    assert_eq!(*cache.get(&2).unwrap(), 20);
    assert_eq!(*cache.get(&3).unwrap(), 30);
    cache.insert(2, 22);
    assert_eq!(*cache.get(&2).unwrap(), 22);
    cache.insert(6, 60);
    assert!(cache.get(&3).is_none());
    cache.set_capacity(1);
    assert!(cache.get(&2).is_none());
}

#[test]
fn doc_example_new_and_capacity() {
    let cache = LruCache::new(10);
    assert_eq!(cache.capacity(), 10);
    assert_eq!(cache.len(), 0);
    assert!(cache.is_empty());
}

#[test]
fn doc_example_get_after_update() {
    let mut cache = LruCache::new(2);
    cache.insert(1, 1);
    cache.insert(2, 2);
    cache.insert(2, 3);
    cache.insert(3, 4);
    assert_eq!(cache.get(&1), None);
    assert_eq!(cache.get(&2), Some(&3));
}

#[test]
fn doc_example_remove() {
    let mut cache = LruCache::new(2);
    cache.insert(2, 1);
    assert_eq!(cache.remove(&1), None);
    assert_eq!(cache.remove(&2), Some(1));
    assert_eq!(cache.remove(&2), None);
    assert_eq!(cache.len(), 0);
}

#[test]
fn doc_example_set_capacity() {
    let mut cache = LruCache::new(2);
    cache.insert(1, 1);
    cache.insert(2, 2);
    cache.insert(3, 3);
    assert_eq!(cache.get(&1), None);
    assert_eq!(cache.get(&2), Some(&2));
    assert_eq!(cache.get(&3), Some(&3));
    cache.set_capacity(3);
    cache.insert(1, 1);
    cache.insert(2, 2);
    assert_eq!(cache.get(&1), Some(&1));
    assert_eq!(cache.get(&2), Some(&2));
    assert_eq!(cache.get(&3), Some(&3));
    cache.set_capacity(1);
    assert_eq!(cache.get(&1), None);
    assert_eq!(cache.get(&2), None);
    assert_eq!(cache.get(&3), Some(&3));
}

#[test]
fn doc_example_iter() {
    let mut cache = LruCache::new(2);
    cache.insert(1, 10);
    cache.insert(2, 20);
    cache.insert(3, 30);
    assert_eq!(keys_and_values(&cache), [(2, 20), (3, 30)]);
}

#[test]
fn doc_example_iter_mut_writes_in_place() {
    let mut cache = LruCache::new(2);
    cache.insert(1, 10);
    cache.insert(2, 20);
    cache.insert(3, 30);
    let mut n = 2;
    let mut it = cache.iter_mut();
    while let Some((k, v)) = it.next(&mut cache) {
        assert_eq!(k, n);
        assert_eq!(*v, n * 10);
        *v *= 10;
        n += 1;
    }
    assert_eq!(n, 4);
    // Writing through the cursor did not change which pair is the least recent.
    assert_eq!(keys_and_values(&cache), [(2, 200), (3, 300)]);
    assert_eq!(cache.get(&2), Some(&200));
    assert_eq!(cache.get(&3), Some(&300));
}

#[test]
fn insert_returns_the_previous_value() {
    let mut cache = LruCache::new(3);
    assert_eq!(cache.insert(7, 70), None);
    assert_eq!(cache.insert(7, 71), Some(70));
    assert_eq!(cache.insert(8, 80), None);
    assert_eq!(cache.insert(7, 72), Some(71));
    assert_eq!(keys_and_values(&cache), [(8, 80), (7, 72)]);
}

#[test]
fn zero_capacity_keeps_nothing() {
    let mut cache = LruCache::new(0);
    assert_eq!(cache.insert(1, 10), None);
    assert_eq!(cache.len(), 0);
    assert_eq!(cache.get(&1), None);
    assert_eq!(cache.debug_string(), "{}");
}

#[test]
fn read_after_insert_finds_the_value() {
    let mut cache = LruCache::new(1);
    cache.insert(5, 50);
    cache.insert(6, 60);
    assert_eq!(cache.get(&6), Some(&60));
    assert_eq!(cache.get(&5), None);
}

#[test]
fn get_protects_from_eviction() {
    let mut cache = LruCache::new(2);
    cache.insert(1, 10);
    cache.insert(2, 20);
    assert_eq!(cache.get(&1), Some(&10));
    cache.insert(3, 30);
    assert_eq!(keys_and_values(&cache), [(1, 10), (3, 30)]);
}

#[test]
fn get_of_missing_key_changes_nothing() {
    let mut cache = LruCache::new(3);
    cache.insert(1, 10);
    cache.insert(2, 20);
    assert_eq!(cache.get(&9), None);
    assert_eq!(keys_and_values(&cache), [(1, 10), (2, 20)]);
}

#[test]
fn update_evicts_nothing() {
    let mut cache = LruCache::new(2);
    cache.insert(1, 10);
    cache.insert(2, 20);
    cache.insert(1, 11);
    assert_eq!(keys_and_values(&cache), [(2, 20), (1, 11)]);
}

#[test]
fn set_capacity_larger_keeps_everything() {
    let mut cache = LruCache::new(2);
    cache.insert(1, 10);
    cache.insert(2, 20);
    cache.set_capacity(5);
    assert_eq!(cache.capacity(), 5);
    assert_eq!(keys_and_values(&cache), [(1, 10), (2, 20)]);
    cache.set_capacity(0);
    assert_eq!(cache.len(), 0);
    assert!(cache.is_empty());
}

#[test]
fn clear_keeps_capacity() {
    let mut cache = LruCache::new(4);
    cache.insert(1, 10);
    cache.clear();
    assert_eq!(cache.capacity(), 4);
    assert!(cache.is_empty());
    cache.insert(2, 20);
    assert_eq!(cache.len(), 1);
}

#[test]
fn with_hash_state_starts_empty() {
    let mut cache = LruCache::with_hash_state(2, RandomState::new());
    assert_eq!(cache.capacity(), 2);
    assert!(cache.is_empty());
    cache.insert(1, 10);
    cache.insert(2, 20);
    cache.insert(3, 30);
    assert_eq!(keys_and_values(&cache), [(2, 20), (3, 30)]);
}

#[test]
fn clone_copies_pairs_and_order() {
    let mut cache = LruCache::new(3);
    cache.insert(3, 30);
    cache.insert(1, 10);
    cache.insert(2, 20);
    cache.get(&3);
    let mut copy = cache.clone();
    assert_eq!(copy.capacity(), 3);
    assert_eq!(keys_and_values(&copy), [(1, 10), (2, 20), (3, 30)]);
    copy.insert(4, 40);
    assert_eq!(keys_and_values(&copy), [(2, 20), (3, 30), (4, 40)]);
    assert_eq!(keys_and_values(&cache), [(1, 10), (2, 20), (3, 30)]);
}

#[test]
fn extend_inserts_in_order() {
    let mut cache = LruCache::new(2);
    cache.insert(9, 90);
    cache.extend(vec![(1, 10), (2, 20), (1, 11)]);
    assert_eq!(keys_and_values(&cache), [(2, 20), (1, 11)]);
}

#[test]
fn iter_from_both_ends() {
    let mut cache = LruCache::new(4);
    cache.insert(1, 10);
    cache.insert(2, 20);
    cache.insert(3, 30);
    let mut it: Iter = cache.iter();
    assert_eq!(it.size_hint(), (3, Some(3)));
    assert_eq!(it.next(), Some((1, 10)));
    assert_eq!(it.next_back(), Some((3, 30)));
    let mut copy = it.clone();
    assert_eq!(it.len(), 1);
    assert_eq!(it.next(), Some((2, 20)));
    assert_eq!(it.next(), None);
    assert_eq!(it.next_back(), None);
    assert_eq!(copy.next_back(), Some((2, 20)));
    assert_eq!(copy.size_hint(), (0, Some(0)));
}

#[test]
fn iter_mut_skips_keys_removed_meanwhile() {
    let mut cache = LruCache::new(3);
    cache.insert(1, 10);
    cache.insert(2, 20);
    let mut it = cache.iter_mut();
    assert_eq!(it.size_hint(), (2, Some(2)));
    cache.remove(&1);
    assert!(it.next(&mut cache).is_none());
    assert_eq!(it.len(), 1);
    let (k, v) = it.next(&mut cache).unwrap();
    assert_eq!((k, *v), (2, 20));
}

#[test]
fn debug_string_of_large_numbers() {
    let mut cache = LruCache::new(2);
    cache.insert(0, u64::MAX);
    cache.insert(1234567890, 9);
    assert_eq!(cache.debug_string(), "{1234567890: 9, 0: 18446744073709551615}");
}
