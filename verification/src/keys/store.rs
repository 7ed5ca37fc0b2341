//! The concurrent collections that hold the keys.

use vstd::prelude::*;

use crate::keys::keymanager::{MountedKey, StoredKey};
use crate::keys::model::{enumerates, mounted_views, views, MountedKeyView, StoredKeyView};

use dashmap::{DashMap, DashSet};

verus! {

/// The map type of the `dashmap` crate.
#[verifier::external_type_specification]
#[verifier::external_body]
#[verifier::reject_recursive_types(K)]
#[verifier::reject_recursive_types(V)]
#[verifier::reject_recursive_types(S)]
pub struct ExDashMap<K, V, S>(DashMap<K, V, S>);

/// The set type of the `dashmap` crate.
#[verifier::external_type_specification]
#[verifier::external_body]
#[verifier::reject_recursive_types(K)]
#[verifier::reject_recursive_types(S)]
pub struct ExDashSet<K, S>(DashSet<K, S>);

/// The stored keys that a map holds, by identifier.
pub uninterp spec fn keystore_contents(map: DashMap<u128, StoredKey>) -> Map<u128, StoredKeyView>;

/// The mounted keys that a map holds, by identifier.
pub uninterp spec fn keymount_contents(map: DashMap<u128, MountedKey>) -> Map<u128, MountedKeyView>;

/// The identifiers that a set holds.
pub uninterp spec fn queue_contents(set: DashSet<u128>) -> Set<u128>;

/// `DashMap::new`, for stored keys: an empty map.
#[verifier::external_body]
pub(crate) fn keystore_new() -> (map: DashMap<u128, StoredKey>)
    ensures
        (keystore_contents(map) == Map::<u128, StoredKeyView>::empty()),
{
    DashMap::new()
}

/// `DashMap::contains_key`, for stored keys: whether the map has an entry for the identifier.
#[verifier::external_body]
pub(crate) fn keystore_contains(map: &DashMap<u128, StoredKey>, id: u128) -> (result: bool)
    ensures
        result == keystore_contents(*map).contains_key(id),
{
    map.contains_key(&id)
}

/// `DashMap::get`, for stored keys: a copy of the entry for the identifier, where there is one.
#[verifier::external_body]
pub(crate) fn keystore_get(map: &DashMap<u128, StoredKey>, id: u128) -> (result: Option<StoredKey>)
    ensures
        result is Some <==> keystore_contents(*map).contains_key(id),
        result matches Some(key) ==> key@ == keystore_contents(*map)[id],
{
    map.get(&id).map(|entry| entry.value().clone())
}

/// `DashMap::insert`, for stored keys: the entry for the identifier becomes the given key.
#[verifier::external_body]
pub(crate) fn keystore_insert(map: &mut DashMap<u128, StoredKey>, id: u128, key: StoredKey)
    ensures
        keystore_contents(*final(map)) == keystore_contents(*old(map)).insert(id, key@),
{
    map.insert(id, key);
}

/// `DashMap::remove`, for stored keys: the entry for the identifier goes.
#[verifier::external_body]
pub(crate) fn keystore_remove(map: &mut DashMap<u128, StoredKey>, id: u128)
    ensures
        keystore_contents(*final(map)) == keystore_contents(*old(map)).remove(id),
{
    map.remove(&id);
}

/// `DashMap::iter`, for stored keys: a copy of each entry, once. The order is not fixed.
#[verifier::external_body]
pub(crate) fn keystore_values(map: &DashMap<u128, StoredKey>) -> (keys: Vec<StoredKey>)
    ensures
        enumerates(views(keys@), keystore_contents(*map)),
{
    map.iter().map(|entry| entry.value().clone()).collect()
}

/// `DashMap::new`, for mounted keys: an empty map.
#[verifier::external_body]
pub(crate) fn keymount_new() -> (map: DashMap<u128, MountedKey>)
    ensures
        (keymount_contents(map) == Map::<u128, MountedKeyView>::empty()),
{
    DashMap::new()
}

/// `DashMap::get`, for mounted keys: a copy of the entry for the identifier, where there is one.
#[verifier::external_body]
pub(crate) fn keymount_get(map: &DashMap<u128, MountedKey>, id: u128) -> (result: Option<MountedKey>)
    ensures
        result is Some <==> keymount_contents(*map).contains_key(id),
        result matches Some(key) ==> key@ == keymount_contents(*map)[id],
{
    map.get(&id).map(|entry| entry.value().clone())
}

/// `DashMap::insert`, for mounted keys: the entry for the identifier becomes the given key.
#[verifier::external_body]
pub(crate) fn keymount_insert(map: &mut DashMap<u128, MountedKey>, id: u128, key: MountedKey)
    ensures
        keymount_contents(*final(map)) == keymount_contents(*old(map)).insert(id, key@),
{
    map.insert(id, key);
}

/// `DashMap::remove`, for mounted keys: the entry for the identifier goes; the result tells whether
/// there was one.
#[verifier::external_body]
pub(crate) fn keymount_remove(map: &mut DashMap<u128, MountedKey>, id: u128) -> (result: bool)
    ensures
        result == keymount_contents(*old(map)).contains_key(id),
        keymount_contents(*final(map)) == keymount_contents(*old(map)).remove(id),
{
    map.remove(&id).is_some()
}

/// `DashMap::clear`, for mounted keys: no entry is left.
#[verifier::external_body]
pub(crate) fn keymount_clear(map: &mut DashMap<u128, MountedKey>)
    ensures
        (keymount_contents(*final(map)) == Map::<u128, MountedKeyView>::empty()),
{
    map.clear();
}

/// `DashMap::iter`, for mounted keys: a copy of each entry, once. The order is not fixed.
#[verifier::external_body]
pub(crate) fn keymount_values(map: &DashMap<u128, MountedKey>) -> (keys: Vec<MountedKey>)
    ensures
        enumerates(mounted_views(keys@), keymount_contents(*map)),
{
    map.iter().map(|entry| entry.value().clone()).collect()
}

/// `DashSet::new`: an empty set.
#[verifier::external_body]
pub(crate) fn queue_new() -> (set: DashSet<u128>)
    ensures
        queue_contents(set) == Set::<u128>::empty(),
{
    DashSet::new()
}

/// `DashSet::contains`: whether the identifier is in the set.
#[verifier::external_body]
pub(crate) fn queue_contains(set: &DashSet<u128>, id: u128) -> (result: bool)
    ensures
        result == queue_contents(*set).contains(id),
{
    set.contains(&id)
}

/// `DashSet::insert`: the identifier is in the set afterwards.
#[verifier::external_body]
pub(crate) fn queue_insert(set: &mut DashSet<u128>, id: u128)
    ensures
        queue_contents(*final(set)) == queue_contents(*old(set)).insert(id),
{
    set.insert(id);
}

/// `DashSet::remove`: the identifier is not in the set afterwards; the result tells whether it was
/// before.
#[verifier::external_body]
pub(crate) fn queue_remove(set: &mut DashSet<u128>, id: u128) -> (result: bool)
    ensures
        result == queue_contents(*old(set)).contains(id),
        queue_contents(*final(set)) == queue_contents(*old(set)).remove(id),
{
    set.remove(&id).is_some()
}

/// `DashSet::iter`: each identifier in the set, once. The order is not fixed.
#[verifier::external_body]
pub(crate) fn queue_values(set: &DashSet<u128>) -> (ids: Vec<u128>)
    ensures
        ids@.no_duplicates(),
        ids@.to_set() == queue_contents(*set),
{
    set.iter().map(|id| *id).collect()
}

} // verus!
