use lru_cache::LruCache;

fn assert_opt_eq(opt: Option<&u64>, v: u64) {
    assert!(opt.is_some());
    assert!(opt.unwrap() == &v);
}

fn collect_iter(cache: &LruCache) -> Vec<(u64, u64)> {
    let mut it = cache.iter();
    let mut out = Vec::new();
    while let Some(e) = it.next() {
        out.push(e);
    }
    out
}

fn collect_iter_rev(cache: &LruCache) -> Vec<(u64, u64)> {
    let mut it = cache.iter();
    let mut out = Vec::new();
    while let Some(e) = it.next_back() {
        out.push(e);
    }
    out
}

fn collect_iter_mut(cache: &mut LruCache) -> Vec<(u64, u64)> {
    let mut it = cache.iter_mut();
    let mut out = Vec::new();
    while let Some((k, v)) = it.next(cache) {
        out.push((k, *v));
    }
    out
}

fn collect_iter_mut_rev(cache: &mut LruCache) -> Vec<(u64, u64)> {
    let mut it = cache.iter_mut();
    let mut out = Vec::new();
    while let Some((k, v)) = it.next_back(cache) {
        out.push((k, *v));
    }
    out
}

#[test]
fn test_put_and_get() {
    let mut cache = LruCache::new(2);
    cache.insert(1, 10);
    cache.insert(2, 20);
    assert_opt_eq(cache.get(&1), 10);
    assert_opt_eq(cache.get(&2), 20);
    assert_eq!(cache.len(), 2);
}

// Keys and values of this cache are integers: the key "1" is 1, and the two byte
// vectors [10, 10] and [10, 19] are the values 10 and 19.
#[test]
fn test_put_update() {
    let mut cache = LruCache::new(1);
    cache.insert(1, 10);
    cache.insert(1, 19);
    assert_opt_eq(cache.get(&1), 19);
    assert_eq!(cache.len(), 1);
}

// Keys and values of this cache are integers: "fooN" is the key N and "barN" the value
// N, "bar2update" the value 22.
#[test]
fn test_expire_lru() {
    let mut cache = LruCache::new(2);
    cache.insert(1, 1);
    cache.insert(2, 2);
    cache.insert(3, 3);
    assert!(cache.get(&1).is_none());
    cache.insert(2, 22);
    cache.insert(4, 4);
    assert!(cache.get(&3).is_none());
}

#[test]
fn test_pop() {
    let mut cache = LruCache::new(2);
    cache.insert(1, 10);
    cache.insert(2, 20);
    assert_eq!(cache.len(), 2);
    let opt1 = cache.remove(&1);
    assert!(opt1.is_some());
    assert_eq!(opt1.unwrap(), 10);
    assert!(cache.get(&1).is_none());
    assert_eq!(cache.len(), 1);
}

#[test]
fn test_change_capacity() {
    let mut cache = LruCache::new(2);
    assert_eq!(cache.capacity(), 2);
    cache.insert(1, 10);
    cache.insert(2, 20);
    cache.set_capacity(1);
    assert!(cache.get(&1).is_none());
    assert_eq!(cache.capacity(), 1);
}

#[test]
fn test_debug() {
    let mut cache = LruCache::new(3);
    cache.insert(1, 10);
    cache.insert(2, 20);
    cache.insert(3, 30);
    assert_eq!(cache.debug_string(), "{3: 30, 2: 20, 1: 10}");
    cache.insert(2, 22);
    assert_eq!(cache.debug_string(), "{2: 22, 3: 30, 1: 10}");
    cache.insert(6, 60);
    assert_eq!(cache.debug_string(), "{6: 60, 2: 22, 3: 30}");
    cache.get(&3);
    assert_eq!(cache.debug_string(), "{3: 30, 6: 60, 2: 22}");
    cache.set_capacity(2);
    assert_eq!(cache.debug_string(), "{3: 30, 6: 60}");
}

#[test]
fn test_remove() {
    let mut cache = LruCache::new(3);
    cache.insert(1, 10);
    cache.insert(2, 20);
    cache.insert(3, 30);
    cache.insert(4, 40);
    cache.insert(5, 50);
    cache.remove(&3);
    cache.remove(&4);
    assert!(cache.get(&3).is_none());
    assert!(cache.get(&4).is_none());
    cache.insert(6, 60);
    cache.insert(7, 70);
    cache.insert(8, 80);
    assert!(cache.get(&5).is_none());
    assert_opt_eq(cache.get(&6), 60);
    assert_opt_eq(cache.get(&7), 70);
    assert_opt_eq(cache.get(&8), 80);
}

#[test]
fn test_clear() {
    let mut cache = LruCache::new(2);
    cache.insert(1, 10);
    cache.insert(2, 20);
    cache.clear();
    assert!(cache.get(&1).is_none());
    assert!(cache.get(&2).is_none());
    assert_eq!(cache.debug_string(), "{}");
}

#[test]
fn test_iter() {
    let mut cache = LruCache::new(3);
    cache.insert(1, 10);
    cache.insert(2, 20);
    cache.insert(3, 30);
    cache.insert(4, 40);
    cache.insert(5, 50);
    assert_eq!(collect_iter(&cache), [(3, 30), (4, 40), (5, 50)]);
    assert_eq!(collect_iter_mut(&mut cache), [(3, 30), (4, 40), (5, 50)]);
    assert_eq!(collect_iter_rev(&cache), [(5, 50), (4, 40), (3, 30)]);
    assert_eq!(collect_iter_mut_rev(&mut cache), [(5, 50), (4, 40), (3, 30)]);
}
