//! Hash maps keyed by integers, with the fast hasher of `rustc_hash`.

use rustc_hash::FxHashMap;
use vstd::prelude::*;

verus! {

/// The hasher of `rustc_hash`'s maps. Nothing is claimed of it.
#[verifier::external_type_specification]
#[verifier::external_body]
pub struct ExFxBuildHasher(rustc_hash::FxBuildHasher);

/// A map without entries.
pub open spec fn no_entries<V>() -> Map<u64, V> {
    Map::empty()
}

/// `FxHashMap::default`: an empty map.
#[verifier::external_body]
pub(crate) fn map_new<V>() -> (r: FxHashMap<u64, V>)
    ensures
        r@ == no_entries::<V>(),
{
    FxHashMap::default()
}

/// `FxHashMap::insert`: the key has the new value, and nothing else changes.
#[verifier::external_body]
pub(crate) fn map_insert<V>(map: &mut FxHashMap<u64, V>, key: u64, value: V)
    ensures
        final(map)@ == old(map)@.insert(key, value),
{
    map.insert(key, value);
}

/// `FxHashMap::remove`: the key is gone, and its value, if it had one, is handed out.
#[verifier::external_body]
pub(crate) fn map_remove<V>(map: &mut FxHashMap<u64, V>, key: u64) -> (r: Option<V>)
    ensures
        final(map)@ == old(map)@.remove(key),
        r is Some <==> old(map)@.dom().contains(key),
        r matches Some(value) ==> value == old(map)@[key],
{
    map.remove(&key)
}

/// `FxHashMap::get`: the value of the key, if it has one.
#[verifier::external_body]
pub(crate) fn map_get<'a, V>(map: &'a FxHashMap<u64, V>, key: u64) -> (r: Option<&'a V>)
    ensures
        r is Some <==> map@.dom().contains(key),
        r matches Some(value) ==> *value == map@[key],
{
    map.get(&key)
}

} // verus!
