//! Walking over a cache's pairs in least- to most-recently-used order. Walking does not
//! change which pairs count as recently used.
use crate::cache::LruCache;
use crate::model::{contains_key, key_position, value_of, Entry};
use vstd::prelude::*;

verus! {

/// The pairs of a cache, from the least to the most recently used, taken from either end.
pub struct Iter {
    items: Vec<Entry>,
    front: usize,
    back: usize,
}

impl Iter {
    #[verifier::type_invariant]
    spec fn inv(self) -> bool {
        self.front <= self.back <= self.items.len()
    }

    /// The pairs not yet taken, in order.
    pub closed spec fn rest(self) -> Seq<Entry> {
        self.items@.subrange(self.front as int, self.back as int)
    }

    /// Walks over `items` in order.
    pub(crate) fn from_entries(items: Vec<Entry>) -> (it: Iter)
        ensures
            it.rest() == items@,
    {
        let back = items.len();
        let it = Iter { items, front: 0, back };
        assert(it.rest() =~= it.items@);
        it
    }

    /// Takes the next pair from the front.
    pub fn next(&mut self) -> (r: Option<Entry>)
        ensures
            old(self).rest().len() == 0 ==> r is None && final(self).rest() == old(self).rest(),
            old(self).rest().len() > 0 ==> r == Some(old(self).rest()[0]) && final(self).rest()
                == old(self).rest().drop_first(),
    {
        proof {
            use_type_invariant(&*self);
        }
        if self.front < self.back {
            let e = self.items[self.front];
            self.front = self.front + 1;
            assert(self.rest() =~= old(self).rest().drop_first());
            Some(e)
        } else {
            None
        }
    }

    /// Takes the next pair from the back.
    pub fn next_back(&mut self) -> (r: Option<Entry>)
        ensures
            old(self).rest().len() == 0 ==> r is None && final(self).rest() == old(self).rest(),
            old(self).rest().len() > 0 ==> r == Some(old(self).rest().last())
                && final(self).rest() == old(self).rest().drop_last(),
    {
        proof {
            use_type_invariant(&*self);
        }
        if self.front < self.back {
            self.back = self.back - 1;
            let e = self.items[self.back];
            assert(self.rest() =~= old(self).rest().drop_last());
            Some(e)
        } else {
            None
        }
    }

    /// The number of pairs not yet taken, as a lower and an upper bound.
    pub fn size_hint(&self) -> (r: (usize, Option<usize>))
        ensures
            r == (self.rest().len() as usize, Some(self.rest().len() as usize)),
    {
        let n = self.len();
        (n, Some(n))
    }

    /// The number of pairs not yet taken.
    pub fn len(&self) -> (r: usize)
        ensures
            r == self.rest().len(),
    {
        proof {
            use_type_invariant(self);
        }
        self.back - self.front
    }
}

impl Clone for Iter {
    fn clone(&self) -> (r: Self)
        ensures
            r.rest() == self.rest(),
    {
        proof {
            use_type_invariant(self);
        }
        let mut items: Vec<Entry> = Vec::new();
        let mut i: usize = 0;
        while i < self.items.len()
            invariant
                i <= self.items@.len(),
                items@ == self.items@.subrange(0, i as int),
            decreases self.items@.len() - i,
        {
            items.push(self.items[i]);
            i = i + 1;
            assert(items@ =~= self.items@.subrange(0, i as int));
        }
        assert(items@ =~= self.items@);
        Iter { items, front: self.front, back: self.back }
    }
}

/// A cursor over the keys of a cache, from the least to the most recently used, that
/// gives write access to each key's value in the cache it is applied to.
pub struct IterMut {
    keys: Vec<u64>,
    front: usize,
    back: usize,
}

impl IterMut {
    #[verifier::type_invariant]
    spec fn inv(self) -> bool {
        self.front <= self.back <= self.keys.len()
    }

    /// The keys not yet visited, in order.
    pub closed spec fn rest(self) -> Seq<u64> {
        self.keys@.subrange(self.front as int, self.back as int)
    }

    /// Visits `keys` in order.
    pub(crate) fn from_keys(keys: Vec<u64>) -> (it: IterMut)
        ensures
            it.rest() == keys@,
    {
        let back = keys.len();
        let it = IterMut { keys, front: 0, back };
        assert(it.rest() =~= it.keys@);
        it
    }

    /// Visits the next key from the front: gives that key and access to its value in
    /// `cache`, or `None` when no key is left or `cache` no longer holds it.
    pub fn next<'a>(&mut self, cache: &'a mut LruCache) -> (r: Option<(u64, &'a mut u64)>)
        requires
            old(cache).wf(),
        ensures
            final(cache).wf(),
            final(cache).cap() == old(cache).cap(),
            old(self).rest().len() == 0 ==> r is None && final(self).rest() == old(self).rest()
                && final(cache)@ == old(cache)@,
            old(self).rest().len() > 0 ==> final(self).rest() == old(self).rest().drop_first(),
            old(self).rest().len() > 0 && !contains_key(old(cache)@, old(self).rest()[0]) ==> r is None
                && final(cache)@ == old(cache)@,
            old(self).rest().len() > 0 && contains_key(old(cache)@, old(self).rest()[0]) ==> r is Some
                && r.unwrap().0 == old(self).rest()[0] && Some(*r.unwrap().1) == value_of(
                old(cache)@,
                old(self).rest()[0],
            ) && final(cache)@ == old(cache)@.update(
                key_position(old(cache)@, old(self).rest()[0]),
                (old(self).rest()[0], *final(r.unwrap().1)),
            ),
    {
        proof {
            use_type_invariant(&*self);
        }
        if self.front < self.back {
            let k = self.keys[self.front];
            self.front = self.front + 1;
            assert(self.rest() =~= old(self).rest().drop_first());
            match cache.value_mut(&k) {
                Some(v) => Some((k, v)),
                None => None,
            }
        } else {
            None
        }
    }

    /// Visits the next key from the back: gives that key and access to its value in
    /// `cache`, or `None` when no key is left or `cache` no longer holds it.
    pub fn next_back<'a>(&mut self, cache: &'a mut LruCache) -> (r: Option<(u64, &'a mut u64)>)
        requires
            old(cache).wf(),
        ensures
            final(cache).wf(),
            final(cache).cap() == old(cache).cap(),
            old(self).rest().len() == 0 ==> r is None && final(self).rest() == old(self).rest()
                && final(cache)@ == old(cache)@,
            old(self).rest().len() > 0 ==> final(self).rest() == old(self).rest().drop_last(),
            old(self).rest().len() > 0 && !contains_key(old(cache)@, old(self).rest().last()) ==> r is None
                && final(cache)@ == old(cache)@,
            old(self).rest().len() > 0 && contains_key(old(cache)@, old(self).rest().last()) ==> r is Some
                && r.unwrap().0 == old(self).rest().last() && Some(*r.unwrap().1) == value_of(
                old(cache)@,
                old(self).rest().last(),
            ) && final(cache)@ == old(cache)@.update(
                key_position(old(cache)@, old(self).rest().last()),
                (old(self).rest().last(), *final(r.unwrap().1)),
            ),
    {
        proof {
            use_type_invariant(&*self);
        }
        if self.front < self.back {
            self.back = self.back - 1;
            let k = self.keys[self.back];
            assert(self.rest() =~= old(self).rest().drop_last());
            match cache.value_mut(&k) {
                Some(v) => Some((k, v)),
                None => None,
            }
        } else {
            None
        }
    }

    /// The number of keys not yet visited, as a lower and an upper bound.
    pub fn size_hint(&self) -> (r: (usize, Option<usize>))
        ensures
            r == (self.rest().len() as usize, Some(self.rest().len() as usize)),
    {
        let n = self.len();
        (n, Some(n))
    }

    /// The number of keys not yet visited.
    pub fn len(&self) -> (r: usize)
        ensures
            r == self.rest().len(),
    {
        proof {
            use_type_invariant(self);
        }
        self.back - self.front
    }
}

} // verus!
