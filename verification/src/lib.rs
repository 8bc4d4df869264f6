//! A cache that holds a limited number of key-value pairs. When the capacity of the
//! cache is exceeded, the least recently used pair (where "used" means a look-up or
//! putting the pair into the cache) is removed.
pub mod cache;
pub mod iter;
pub mod laws;
pub mod linked_map;
pub mod model;
pub mod text;

pub use cache::LruCache;
pub use iter::{Iter, IterMut};
