//! The linked hash map of the `linked_hash_map` crate, as this library uses it: keys and
//! values are `u64`, and the map keeps its entries in order, from the front (the entry
//! inserted or refreshed longest ago) to the back (the latest one).
//!
//! Everything in this file is trusted: the contracts restate what the crate's source
//! shows of each method, over `entries`, a name for the sequence a map holds.
use crate::model::{contains_key, key_position, put, refresh, unique_keys, value_of, without, Entry};
use linked_hash_map::LinkedHashMap;
use std::collections::hash_map::RandomState;
use vstd::prelude::*;

verus! {

/// `linked_hash_map::LinkedHashMap`, declared so that it can stand in fields and
/// signatures; Verus sees nothing inside a value of it.
#[verifier::external_type_specification]
#[verifier::external_body]
#[verifier::reject_recursive_types(K)]
#[verifier::reject_recursive_types(V)]
#[verifier::reject_recursive_types(S)]
pub struct ExLinkedHashMap<K, V, S>(LinkedHashMap<K, V, S>);

/// The entries a linked hash map holds, from its front to its back.
pub uninterp spec fn entries(m: LinkedHashMap<u64, u64>) -> Seq<Entry>;

/// `LinkedHashMap::new`: claims the new map is empty.
#[verifier::external_body]
pub(crate) fn map_new() -> (m: LinkedHashMap<u64, u64>)
    ensures
        entries(m) == Seq::<Entry>::empty(),
{
    LinkedHashMap::new()
}

/// `LinkedHashMap::with_hasher`: claims the new map is empty (the hasher decides where
/// keys are hashed, not the order of the entries).
#[verifier::external_body]
pub(crate) fn map_with_hasher(hash_builder: RandomState) -> (m: LinkedHashMap<u64, u64>)
    ensures
        entries(m) == Seq::<Entry>::empty(),
{
    LinkedHashMap::with_hasher(hash_builder)
}

/// `LinkedHashMap::insert`: claims it returns the old value of `k`, if any, and that
/// the entry of `k` leaves its place and `(k, v)` is attached at the back.
#[verifier::external_body]
pub(crate) fn map_insert(m: &mut LinkedHashMap<u64, u64>, k: u64, v: u64) -> (r: Option<u64>)
    requires
        unique_keys(entries(*old(m))),
        entries(*old(m)).len() < usize::MAX,
    ensures
        r == value_of(entries(*old(m)), k),
        entries(*final(m)) == put(entries(*old(m)), k, v),
{
    m.insert(k, v)
}

/// `LinkedHashMap::get_refresh`: claims it returns the value of `k`, if any, and moves
/// that entry, unchanged, to the back.
#[verifier::external_body]
pub(crate) fn map_get_refresh<'a>(m: &'a mut LinkedHashMap<u64, u64>, k: &u64) -> (r: Option<
    &'a u64,
>)
    requires
        unique_keys(entries(*old(m))),
    ensures
        r is Some <==> contains_key(entries(*old(m)), *k),
        r matches Some(x) ==> value_of(entries(*old(m)), *k) == Some(*x),
        entries(*final(m)) == refresh(entries(*old(m)), *k),
{
    m.get_refresh(k).map(|x| &*x)
}

/// `LinkedHashMap::get_mut`: claims it gives access to the value of `k`, if any, in its
/// place; what is written through it becomes that entry's value, and nothing moves.
#[verifier::external_body]
pub(crate) fn map_get_mut<'a>(m: &'a mut LinkedHashMap<u64, u64>, k: &u64) -> (r: Option<
    &'a mut u64,
>)
    requires
        unique_keys(entries(*old(m))),
    ensures
        !contains_key(entries(*old(m)), *k) ==> r is None && entries(*final(m)) == entries(
            *old(m),
        ),
        contains_key(entries(*old(m)), *k) ==> r is Some && Some(*r.unwrap()) == value_of(
            entries(*old(m)),
            *k,
        ) && entries(*final(m)) == entries(*old(m)).update(
            key_position(entries(*old(m)), *k),
            (*k, *final(r.unwrap())),
        ),
{
    m.get_mut(k)
}

/// `LinkedHashMap::remove`: claims it returns the value of `k`, if any, and takes that
/// entry out; the others keep their order.
#[verifier::external_body]
pub(crate) fn map_remove(m: &mut LinkedHashMap<u64, u64>, k: &u64) -> (r: Option<u64>)
    requires
        unique_keys(entries(*old(m))),
    ensures
        r == value_of(entries(*old(m)), *k),
        entries(*final(m)) == without(entries(*old(m)), *k),
{
    m.remove(k)
}

/// `LinkedHashMap::pop_front`: claims it takes out and returns the front entry, or
/// returns `None` and changes nothing when the map is empty.
#[verifier::external_body]
pub(crate) fn map_pop_front(m: &mut LinkedHashMap<u64, u64>) -> (r: Option<Entry>)
    ensures
        entries(*old(m)).len() == 0 ==> r is None && entries(*final(m)) == entries(*old(m)),
        entries(*old(m)).len() > 0 ==> r == Some(entries(*old(m))[0]) && entries(*final(m))
            == entries(*old(m)).drop_first(),
{
    m.pop_front()
}

/// `LinkedHashMap::len`: claims it returns the number of entries.
#[verifier::external_body]
pub(crate) fn map_len(m: &LinkedHashMap<u64, u64>) -> (r: usize)
    ensures
        r == entries(*m).len(),
{
    m.len()
}

/// `LinkedHashMap::is_empty`: claims it tells whether there is no entry.
#[verifier::external_body]
pub(crate) fn map_is_empty(m: &LinkedHashMap<u64, u64>) -> (r: bool)
    ensures
        r == (entries(*m).len() == 0),
{
    m.is_empty()
}

/// `LinkedHashMap::clear`: claims it leaves the map empty.
#[verifier::external_body]
pub(crate) fn map_clear(m: &mut LinkedHashMap<u64, u64>)
    ensures
        entries(*final(m)) == Seq::<Entry>::empty(),
{
    m.clear()
}

/// `LinkedHashMap::iter`, each item copied out: claims the items come from the front
/// to the back.
#[verifier::external_body]
pub(crate) fn map_entries(m: &LinkedHashMap<u64, u64>) -> (r: Vec<Entry>)
    ensures
        r@ == entries(*m),
{
    m.iter().map(|(k, v)| (*k, *v)).collect()
}

/// `LinkedHashMap::clone`: claims the copy holds the same entries in the same order (it
/// re-inserts them from the front to the back).
#[verifier::external_body]
pub(crate) fn map_clone(m: &LinkedHashMap<u64, u64>) -> (r: LinkedHashMap<u64, u64>)
    ensures
        entries(r) == entries(*m),
{
    m.clone()
}

} // verus!
