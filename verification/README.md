# lru_cache

A least-recently-used cache of `u64` keys and values, built on
`linked_hash_map::LinkedHashMap` and verified with Verus.

- `src/model.rs`: the cache as a sequence of entries, least recently used first, and
  the operations on that sequence that the contracts speak of.
- `src/linked_map.rs`: the trusted contracts of the linked hash map's methods.
- `src/cache.rs`: `LruCache`, each method proved against the model.
- `src/iter.rs`: `Iter` and `IterMut`, walking the pairs in least- to most-recently-used order.
- `src/text.rs`: the `{k: v, ...}` text form.
- `src/laws.rs`: properties that span the operations, proved over the model.
- `app/lib.rs`: `Iterator`, `Debug` and `Extend` for thin wrappers around the library's types.
