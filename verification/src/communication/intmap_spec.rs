//! What the library relies on of `intmap::IntMap`.

use vstd::prelude::*;

verus! {

/// `intmap::IntMap`, a map from 64 bit keys to values. What a map holds is
/// known through `entries` alone.
#[verifier::external_type_specification]
#[verifier::external_body]
#[verifier::reject_recursive_types(V)]
pub struct ExIntMap<V>(intmap::IntMap<V>);

/// A map from ids to indices.
pub type IndexMap = intmap::IntMap<u64>;

/// What an `IntMap` holds: the value of each key that was inserted and not
/// removed since.
pub uninterp spec fn entries(m: IndexMap) -> Map<u64, u64>;

/// The map without entries.
pub open spec fn no_entries() -> Map<u64, u64> {
    Map::empty()
}

/// Calls `IntMap::new`: the new map holds nothing.
#[verifier::external_body]
pub(crate) fn intmap_new() -> (m: IndexMap)
    ensures
        entries(m) == no_entries(),
{
    intmap::IntMap::new()
}

/// Calls `IntMap::insert`: the key holds the new value, the other keys
/// keep theirs, and the value that the key held before comes back.
#[verifier::external_body]
pub(crate) fn intmap_insert(m: &mut IndexMap, key: u64, value: u64) -> (prev: Option<u64>)
    ensures
        entries(*final(m)) == entries(*old(m)).insert(key, value),
        prev == lookup(entries(*old(m)), key),
{
    m.insert(key, value)
}

/// Calls `IntMap::get`: the value of the key, if it has one.
#[verifier::external_body]
pub(crate) fn intmap_get(m: &IndexMap, key: u64) -> (r: Option<u64>)
    ensures
        r == lookup(entries(*m), key),
{
    m.get(key).copied()
}

/// Calls `IntMap::remove`: the key holds nothing any more, the other keys
/// keep their values, and the value that the key held comes back.
#[verifier::external_body]
pub(crate) fn intmap_remove(m: &mut IndexMap, key: u64) -> (prev: Option<u64>)
    ensures
        entries(*final(m)) == entries(*old(m)).remove(key),
        prev == lookup(entries(*old(m)), key),
{
    m.remove(key)
}

/// The value of `key` in `m`, if it has one.
pub open spec fn lookup(m: Map<u64, u64>, key: u64) -> Option<u64> {
    if m.dom().contains(key) {
        Some(m[key])
    } else {
        None
    }
}

} // verus!
