//! What holds of the key manager across operations.

use vstd::prelude::*;

use crate::crypto::stream::Algorithm;
use crate::error::{Error, Result};
use crate::keys::hashing::{password_hash, HashingAlgorithm};
use crate::keys::model::{
    enumerates, hash_for, hashed_keys, lists_in_order, master_key_under, mounted_ids, plain_key,
    rewraps_fit, unlocked_root_key, verification_key_among, KeyManagerView, KeyMaterialView,
    MountedKeyView, RewrapView, StoredKeyView,
};
use crate::keys::sealing::KeyDetails;
use crate::primitives::MASTER_PASSWORD_CONTEXT;

verus! {

// Unlocking.

/// Unlocking that can start succeeds exactly if the password and the secret key open the
/// verification key. It then changes nothing but the root key.
pub proof fn unlocking_opens_the_verification_key(
    state: KeyManagerView,
    password: Seq<u8>,
    secret: Option<Seq<u8>>,
)
    requires
        state.unlock_begun().1 is Ok,
    ensures
        state.unlocked(password, secret).1 is Ok <==> unlocked_root_key(
            state.verification_key->0,
            password,
            secret,
        ) is Ok,
        unlocked_root_key(state.verification_key->0, password, secret) matches Ok(root_key)
            ==> state.unlocked(password, secret).0 == (KeyManagerView {
            root_key: Some(root_key),
            ..state
        }),
{
}

/// A password and a secret key that do not open the verification key are answered with one error,
/// whichever of the two is wrong, and change nothing.
pub proof fn wrong_details_are_refused(
    state: KeyManagerView,
    password: Seq<u8>,
    secret: Option<Seq<u8>>,
    hashed_password: Seq<u8>,
)
    requires
        state.unlock_begun().1 is Ok,
        hash_for(state.verification_key->0, password, secret) == Ok::<Seq<u8>, Error>(
            hashed_password,
        ),
        master_key_under(hashed_password, state.verification_key->0, MASTER_PASSWORD_CONTEXT@) is Err,
    ensures
        state.unlocked(password, secret) == (
            state,
            Err::<(), Error>(Error::IncorrectKeymanagerDetails),
        ),
{
}

/// Unlocking is refused once there is a root key, and changes nothing then.
pub proof fn unlocking_twice_is_refused(
    state: KeyManagerView,
    password: Seq<u8>,
    secret: Option<Seq<u8>>,
    other_password: Seq<u8>,
    other_secret: Option<Seq<u8>>,
)
    requires
        state.unlocked(password, secret).1 is Ok,
    ensures
        ({
            let after = state.unlocked(password, secret).0;
            after.unlocked(other_password, other_secret) == (
                after,
                Err::<(), Error>(Error::KeyAlreadyMounted),
            )
        }),
{
}

/// While unlocking is under way, it cannot be started again.
pub proof fn unlocking_under_way_is_not_started_again(
    state: KeyManagerView,
    password: Seq<u8>,
    secret: Option<Seq<u8>>,
)
    requires
        state.unlock_begun().1 is Ok,
    ensures
        ({
            let begun = state.unlock_begun().0;
            begun.unlocked(password, secret) == (begun, Err::<(), Error>(Error::KeyAlreadyQueued))
        }),
{
}

/// Locking and unlocking again gives the same state back: every key reads as before.
pub proof fn locking_is_undone_by_unlocking(
    state: KeyManagerView,
    password: Seq<u8>,
    secret: Option<Seq<u8>>,
)
    requires
        state.root_key is Some,
        state.verification_key is Some,
        !state.queue.contains(0),
        unlocked_root_key(state.verification_key->0, password, secret) == Ok::<Seq<u8>, Error>(
            state.root_key->0,
        ),
    ensures
        state.locked().unlocked(password, secret) == (state, Ok::<(), Error>(())),
{
    unlocking_opens_the_verification_key(state.locked(), password, secret);
}

/// Without a root key no key can be read.
pub proof fn locked_keys_cannot_be_read(state: KeyManagerView, id: u128)
    ensures
        state.locked().key(id) == (if state.keystore.contains_key(id) {
            Err::<Seq<u8>, Error>(Error::NoMasterPassword)
        } else {
            Err::<Seq<u8>, Error>(Error::KeyNotFound)
        }),
{
}

/// Changing the master password leaves every key readable as before, and touches nothing but the
/// verification key.
pub proof fn changing_the_password_keeps_the_keys(
    state: KeyManagerView,
    password: Seq<u8>,
    secret: Option<Seq<u8>>,
    algorithm: Algorithm,
    hashing_algorithm: HashingAlgorithm,
    material: KeyMaterialView,
    id: u128,
)
    ensures
        ({
            let (after, result) = state.rekeyed(
                password,
                secret,
                algorithm,
                hashing_algorithm,
                material,
            );
            &&& after == (KeyManagerView { verification_key: after.verification_key, ..state })
            &&& after.key(id) == state.key(id)
            &&& result matches Ok(key) ==> after.verification_key == Some(key)
            &&& result is Err ==> after == state
        }),
{
}

/// After a change of the master password it is the new verification key that decides, for the old
/// details as for any others: they unlock exactly if they open it, and where they do not decrypt its
/// master key they are refused, and change nothing.
pub proof fn the_new_verification_key_decides(
    state: KeyManagerView,
    password: Seq<u8>,
    secret: Option<Seq<u8>>,
    algorithm: Algorithm,
    hashing_algorithm: HashingAlgorithm,
    material: KeyMaterialView,
    old_password: Seq<u8>,
    old_secret: Option<Seq<u8>>,
)
    requires
        state.rekeyed(password, secret, algorithm, hashing_algorithm, material).1 is Ok,
        !state.queue.contains(0),
    ensures
        ({
            let (after, result) = state.rekeyed(
                password,
                secret,
                algorithm,
                hashing_algorithm,
                material,
            );
            let key = result->Ok_0;
            let locked = after.locked();
            let hashed_password = hash_for(key, old_password, old_secret);
            &&& locked.unlocked(old_password, old_secret).1 is Ok <==> unlocked_root_key(
                key,
                old_password,
                old_secret,
            ) is Ok
            &&& hashed_password is Ok && master_key_under(
                hashed_password->Ok_0,
                key,
                MASTER_PASSWORD_CONTEXT@,
            ) is Err ==> locked.unlocked(old_password, old_secret) == (
                locked,
                Err::<(), Error>(Error::IncorrectKeymanagerDetails),
            )
        }),
{
}

// Mounting.

/// Mounting succeeds exactly for a key that is neither mounted nor in the queue, that can be read,
/// and that can be hashed. It then adds the hash of the key to the keymount, and changes nothing
/// else.
pub proof fn mounting_hashes_the_key(state: KeyManagerView, id: u128)
    ensures
        state.mounting(id).1 is Ok <==> {
            &&& !state.keymount.contains_key(id)
            &&& !state.queue.contains(id)
            &&& state.key(id) is Ok
            &&& password_hash(
                state.keystore[id].hashing_algorithm,
                state.key(id)->Ok_0,
                state.keystore[id].content_salt,
                None,
            ) is Ok
        },
        state.mounting(id).1 is Ok ==> {
            let hashed_key = password_hash(
                state.keystore[id].hashing_algorithm,
                state.key(id)->Ok_0,
                state.keystore[id].content_salt,
                None,
            )->Ok_0;
            state.mounting(id).0 == (KeyManagerView {
                keymount: state.keymount.insert(
                    id,
                    MountedKeyView { uuid: state.keystore[id].uuid, hashed_key },
                ),
                ..state
            })
        },
{
}

/// A key is not mounted twice.
pub proof fn mounting_twice_is_refused(state: KeyManagerView, id: u128)
    requires
        state.mounting(id).1 is Ok,
    ensures
        ({
            let after = state.mounting(id).0;
            after.mounting(id) == (after, Err::<(), Error>(Error::KeyAlreadyMounted))
        }),
{
}

/// While a key is being mounted, mounting it cannot be started again.
pub proof fn mounting_under_way_is_not_started_again(state: KeyManagerView, id: u128)
    requires
        state.mount_begun(id).1 is Ok,
    ensures
        ({
            let begun = state.mount_begun(id).0;
            begun.mounting(id) == (begun, Err::<(), Error>(Error::KeyAlreadyQueued))
        }),
{
}

/// Unmounting undoes mounting.
pub proof fn unmounting_undoes_mounting(state: KeyManagerView, id: u128)
    requires
        state.mounting(id).1 is Ok,
    ensures
        state.mounting(id).0.unmounted(id) == (state, Ok::<(), Error>(())),
{
    mounting_hashes_the_key(state, id);
}

/// Unmounting leaves the keystore as it is, and a key that is not mounted cannot be unmounted.
pub proof fn unmounting_keeps_the_keystore(state: KeyManagerView, id: u128)
    ensures
        ({
            let after = state.unmounted(id).0;
            &&& after.keystore == state.keystore
            &&& after.mounted(id) == Err::<MountedKeyView, Error>(Error::KeyNotFound)
            &&& after.unmounted(id) == (after, Err::<(), Error>(Error::KeyNotMounted))
            &&& forall|other: u128| other != id ==> #[trigger] after.mounted(other)
                == state.mounted(other)
        }),
{
}

/// Once the keymount was emptied no key is mounted.
pub proof fn emptying_unmounts_every_key(state: KeyManagerView, id: u128)
    ensures
        state.all_unmounted().mounted(id) == Err::<MountedKeyView, Error>(Error::KeyNotFound),
        state.all_unmounted().keystore == state.keystore,
{
}

/// What was taken out of the queue is not in it any more.
pub proof fn dequeueing_twice_is_refused(state: KeyManagerView, id: u128)
    ensures
        ({
            let after = state.dequeue(id).0;
            &&& !after.queue.contains(id)
            &&& after.dequeue(id) == (after, Err::<(), Error>(Error::KeyNotQueued))
            &&& forall|other: u128| other != id ==> (#[trigger] after.queue.contains(other)
                <==> state.queue.contains(other))
        }),
{
}

// The keystore.

/// Adding a key touches no other key.
pub proof fn adding_keeps_other_keys(
    state: KeyManagerView,
    details: KeyDetails,
    material: KeyMaterialView,
    key: Seq<u8>,
    other: u128,
)
    requires
        other != details.uuid@,
    ensures
        ({
            let (after, result) = state.added(details, material, key);
            &&& after.stored(other) == state.stored(other)
            &&& after.key(other) == state.key(other)
            &&& after == (KeyManagerView { keystore: after.keystore, ..state })
            &&& result is Err ==> after == state
        }),
{
}

/// A removed key is gone from the keystore and the keymount, and is not the default.
pub proof fn removing_forgets_the_key(state: KeyManagerView, id: u128)
    requires
        state.valid(),
    ensures
        state.removed(id).stored(id) == Err::<StoredKeyView, Error>(Error::KeyNotFound),
        state.removed(id).mounted(id) == Err::<MountedKeyView, Error>(Error::KeyNotFound),
        state.removed(id).default != Some(id),
        state.removed(id).removed(id) == state.removed(id),
{
}

/// Removing a key touches no other key.
pub proof fn removing_keeps_other_keys(state: KeyManagerView, id: u128, other: u128)
    requires
        other != id,
    ensures
        state.removed(id).stored(other) == state.stored(other),
        state.removed(id).mounted(other) == state.mounted(other),
        state.removed(id).key(other) == state.key(other),
        state.removed(id).default == Some(other) <==> state.default == Some(other),
        state.removed(id).root_key == state.root_key,
        state.removed(id).verification_key == state.verification_key,
        state.removed(id).queue == state.queue,
{
}

/// Removing a key that was just added leads back to where it was not there.
pub proof fn removing_undoes_adding(
    state: KeyManagerView,
    details: KeyDetails,
    material: KeyMaterialView,
    key: Seq<u8>,
)
    requires
        state.valid(),
        !state.keystore.contains_key(details.uuid@),
    ensures
        state.added(details, material, key).0.removed(details.uuid@) == state,
{
}

/// The default key is the one that was set last.
pub proof fn default_is_what_was_set(state: KeyManagerView, id: u128)
    ensures
        state.with_default(id).1 is Ok <==> state.keystore.contains_key(id),
        state.with_default(id).1 is Ok ==> state.with_default(id).0.default_key() == Ok::<
            u128,
            Error,
        >(id),
        state.with_default(id).1 is Err ==> state.with_default(id).0 == state,
{
}

/// The automount flag of a key is the one that was set last, and setting it changes nothing else.
pub proof fn automount_is_what_was_set(state: KeyManagerView, id: u128, status: bool, other: u128)
    requires
        state.keystore.contains_key(id),
    ensures
        ({
            let (after, result) = state.with_automount(id, status);
            &&& result is Ok
            &&& after.keystore[id] == (StoredKeyView { automount: status, ..state.keystore[id] })
            &&& after.with_automount(id, status) == (after, result)
            &&& after.with_automount(id, state.keystore[id].automount).0 == state
            &&& other != id ==> after.stored(other) == state.stored(other)
            &&& after.key(other) == state.key(other)
        }),
{
}

/// Once a key was saved it is not kept in memory only, so it is not saved twice; what it holds
/// stays the same.
pub proof fn saving_happens_once(state: KeyManagerView, id: u128, other: u128)
    requires
        state.synced(id).1 is Ok,
    ensures
        ({
            let (after, result) = state.synced(id);
            &&& after.stored(id) == result
            &&& after.keystore[id] == (StoredKeyView { memory_only: false, ..state.keystore[id] })
            &&& after.synced(id) == (after, Err::<StoredKeyView, Error>(Error::KeyNotMemoryOnly))
            &&& other != id ==> after.stored(other) == state.stored(other)
            &&& after.key(other) == state.key(other)
        }),
{
}

// Loading stored keys.

/// Whether `index` is the first place in `keys` where the identifier stands.
pub open spec fn first_with_id(keys: Seq<StoredKeyView>, id: u128, index: int) -> bool {
    &&& 0 <= index < keys.len()
    &&& keys[index].uuid == id
    &&& forall|earlier: int| 0 <= earlier < index ==> (#[trigger] keys[earlier]).uuid != id
}

/// Loading touches the keystore and the verification key only. A key that is in the keystore is
/// never replaced; of several new keys with one identifier the first is taken; and the last key
/// with the nil identifier becomes the verification key.
pub proof fn loading_adds_new_keys(state: KeyManagerView, keys: Seq<StoredKeyView>)
    requires
        state.valid(),
    ensures
        ({
            let after = state.populated(keys);
            &&& after == (KeyManagerView {
                keystore: after.keystore,
                verification_key: after.verification_key,
                ..state
            })
            &&& after.verification_key == (match verification_key_among(keys) {
                Some(key) => Some(key),
                None => state.verification_key,
            })
            &&& forall|id: u128|
                state.keystore.contains_key(id) ==> #[trigger] after.stored(id) == state.stored(id)
            &&& forall|id: u128, index: int|
                id != 0 && !state.keystore.contains_key(id) && #[trigger] first_with_id(
                    keys,
                    id,
                    index,
                ) ==> after.stored(id) == Ok::<StoredKeyView, Error>(keys[index])
            &&& forall|id: u128| #[trigger]
                after.keystore.contains_key(id) ==> state.keystore.contains_key(id) || exists|
                    index: int,
                |
                    #[trigger] first_with_id(keys, id, index)
            &&& after.valid()
        }),
    decreases keys.len(),
{
    if keys.len() > 0 {
        let shorter = keys.drop_last();
        let before = state.populated(shorter);
        let after = state.populated(keys);
        loading_adds_new_keys(state, shorter);
        assert forall|id: u128| state.keystore.contains_key(id) implies #[trigger] after.stored(id)
            == state.stored(id) by {
            assert(before.stored(id) == state.stored(id));
        }
        assert forall|id: u128, index: int|
            id != 0 && !state.keystore.contains_key(id) && #[trigger] first_with_id(
                keys,
                id,
                index,
            ) implies after.stored(id) == Ok::<StoredKeyView, Error>(keys[index]) by {
            if index < shorter.len() {
                assert(forall|earlier: int| #![trigger shorter[earlier]]
                    0 <= earlier < index ==> shorter[earlier] == keys[earlier]);
                assert(first_with_id(shorter, id, index));
            }
        }
        assert forall|id: u128| #[trigger] after.keystore.contains_key(id) implies
            state.keystore.contains_key(id) || exists|index: int| #[trigger]
            first_with_id(keys, id, index) by {
            if before.keystore.contains_key(id) && !state.keystore.contains_key(id) {
                let index = choose|index: int| #[trigger] first_with_id(shorter, id, index);
                assert forall|earlier: int| 0 <= earlier < index implies (
                #[trigger] keys[earlier]).uuid != id by {
                    assert(shorter[earlier] == keys[earlier]);
                }
                assert(first_with_id(keys, id, index));
            } else if !before.keystore.contains_key(id) {
                assert forall|earlier: int| 0 <= earlier < keys.len() - 1 implies (
                #[trigger] keys[earlier]).uuid != id by {
                    if keys[earlier].uuid == id {
                        loaded_keys_are_stored(state, shorter, earlier);
                    }
                }
                assert(first_with_id(keys, id, keys.len() - 1));
            }
        }
    }
}

/// Every loaded key but a verification key has its identifier in the keystore.
pub proof fn loaded_keys_are_stored(
    state: KeyManagerView,
    keys: Seq<StoredKeyView>,
    index: int,
)
    requires
        0 <= index < keys.len(),
        keys[index].uuid != 0,
    ensures
        state.populated(keys).keystore.contains_key(keys[index].uuid),
    decreases keys.len(),
{
    if index < keys.len() - 1 {
        loaded_keys_are_stored(state, keys.drop_last(), index);
    }
}

/// Keys whose identifiers are in the keystore are loaded to no effect.
pub proof fn loading_known_keys_changes_nothing(state: KeyManagerView, keys: Seq<StoredKeyView>)
    requires
        forall|index: int|
            0 <= index < keys.len() ==> state.keystore.contains_key((#[trigger] keys[index]).uuid),
    ensures
        state.populated(keys) == state,
    decreases keys.len(),
{
    if keys.len() > 0 {
        loading_known_keys_changes_nothing(state, keys.drop_last());
    }
}

/// Loading what the keystore of one key manager holds into a new one gives the same keystore.
pub proof fn dumped_keys_load_again(state: KeyManagerView, keys: Seq<StoredKeyView>)
    requires
        state.valid(),
        enumerates(keys, state.keystore),
    ensures
        KeyManagerView::empty().populated(keys).keystore == state.keystore,
{
    let order = choose|order: Seq<u128>| lists_in_order(keys, state.keystore, order);
    let fresh = KeyManagerView::empty();
    let after = fresh.populated(keys);
    loading_adds_new_keys(fresh, keys);
    assert forall|index: int| 0 <= index < keys.len() implies (#[trigger] keys[index]).uuid
        == order[index] && state.keystore.contains_key(order[index]) by {
        assert(order.to_set().contains(order[index]));
    }
    assert forall|id: u128| #[trigger] state.keystore.contains_key(id) implies
        after.keystore.contains_key(id) by {
        let index = order.index_of(id);
        loaded_keys_are_stored(fresh, keys, index);
    }
}

// Importing.

/// An import, also one that fails halfway, changes nothing but the keystore, and there it only
/// adds keys, under identifiers of the backup.
pub proof fn importing_only_adds_keys(
    state: KeyManagerView,
    keys: Seq<StoredKeyView>,
    backup_root_key: Seq<u8>,
    rewraps: Seq<RewrapView>,
)
    ensures
        ({
            let after = state.imported(keys, backup_root_key, rewraps).0;
            &&& after == (KeyManagerView { keystore: after.keystore, ..state })
            &&& forall|id: u128|
                state.keystore.contains_key(id) ==> #[trigger] after.stored(id) == state.stored(id)
            &&& forall|id: u128| #[trigger]
                after.keystore.contains_key(id) && !state.keystore.contains_key(id) ==> id != 0
                    && after.keystore[id].uuid == id && exists|index: int|
                    0 <= index < keys.len() && (#[trigger] keys[index]).uuid == id
        }),
    decreases keys.len(),
{
    if keys.len() > 0 {
        let shorter = keys.drop_last();
        let (before, added) = state.imported(shorter, backup_root_key, rewraps.drop_last());
        let after = state.imported(keys, backup_root_key, rewraps).0;
        importing_only_adds_keys(state, shorter, backup_root_key, rewraps.drop_last());
        assert forall|id: u128| state.keystore.contains_key(id) implies #[trigger] after.stored(id)
            == state.stored(id) by {
            assert(before.stored(id) == state.stored(id));
        }
    }
}

/// After an import that succeeded every key of the backup is in the keystore, but for verification
/// keys.
pub proof fn imported_keys_are_stored(
    state: KeyManagerView,
    keys: Seq<StoredKeyView>,
    backup_root_key: Seq<u8>,
    rewraps: Seq<RewrapView>,
    index: int,
)
    requires
        state.imported(keys, backup_root_key, rewraps).1 is Ok,
        0 <= index < keys.len(),
        keys[index].uuid != 0,
    ensures
        state.imported(keys, backup_root_key, rewraps).0.keystore.contains_key(keys[index].uuid),
    decreases keys.len(),
{
    if index < keys.len() - 1 {
        imported_keys_are_stored(
            state,
            keys.drop_last(),
            backup_root_key,
            rewraps.drop_last(),
            index,
        );
    }
}

/// The keys that an import returns are those that it added to the keystore.
pub proof fn import_returns_the_added_keys(
    state: KeyManagerView,
    keys: Seq<StoredKeyView>,
    backup_root_key: Seq<u8>,
    rewraps: Seq<RewrapView>,
)
    requires
        state.imported(keys, backup_root_key, rewraps).1 is Ok,
    ensures
        ({
            let (after, added) = state.imported(keys, backup_root_key, rewraps);
            let added = added->Ok_0;
            &&& forall|i: int|
                0 <= i < added.len() ==> {
                    let id = (#[trigger] added[i]).uuid;
                    &&& !state.keystore.contains_key(id)
                    &&& after.keystore.contains_key(id)
                    &&& after.keystore[id] == added[i]
                }
            &&& forall|i: int, j: int|
                0 <= i < j < added.len() ==> (#[trigger] added[i]).uuid != (
                #[trigger] added[j]).uuid
            &&& forall|id: u128| #[trigger]
                after.keystore.contains_key(id) && !state.keystore.contains_key(id) ==> exists|
                    i: int,
                |
                    0 <= i < added.len() && (#[trigger] added[i]).uuid == id
        }),
    decreases keys.len(),
{
    if keys.len() > 0 {
        let shorter = keys.drop_last();
        let (before, earlier) = state.imported(shorter, backup_root_key, rewraps.drop_last());
        let (after, added) = state.imported(keys, backup_root_key, rewraps);
        let earlier = earlier->Ok_0;
        let added = added->Ok_0;
        import_returns_the_added_keys(state, shorter, backup_root_key, rewraps.drop_last());
        importing_only_adds_keys(state, shorter, backup_root_key, rewraps.drop_last());
        assert forall|i: int| 0 <= i < added.len() implies {
            let id = (#[trigger] added[i]).uuid;
            &&& !state.keystore.contains_key(id)
            &&& after.keystore.contains_key(id)
            &&& after.keystore[id] == added[i]
        } by {
            let id = keys.last().uuid;
            if i == earlier.len() && state.keystore.contains_key(id) {
                assert(before.stored(id) == state.stored(id));
            }
        }
        assert forall|id: u128| #[trigger]
            after.keystore.contains_key(id) && !state.keystore.contains_key(id) implies exists|
            i: int,
        |
            0 <= i < added.len() && (#[trigger] added[i]).uuid == id by {
            if before.keystore.contains_key(id) {
                let i = choose|i: int| 0 <= i < earlier.len() && (#[trigger] earlier[i]).uuid == id;
                assert(added[i] == earlier[i]);
            } else {
                assert(added[added.len() - 1].uuid == id);
            }
        }
    }
}

/// The keys that an import added read as they did in the backup. An import that succeeded added
/// every new key; one that failed may have added some.
pub proof fn imported_keys_read_as_in_the_backup(
    state: KeyManagerView,
    keys: Seq<StoredKeyView>,
    backup_root_key: Seq<u8>,
    after: KeyManagerView,
    result: Result<Seq<StoredKeyView>>,
    index: int,
)
    requires
        state.import_leads_to(keys, backup_root_key, after, result),
        state.is_new_in(keys, index),
    ensures
        result is Ok ==> after.keystore.contains_key(keys[index].uuid),
        after.keystore.contains_key(keys[index].uuid) ==> after.key(keys[index].uuid) == plain_key(
            backup_root_key,
            keys[index],
        ),
{
    let rewraps = choose|rewraps: Seq<RewrapView>| #[trigger]
        rewraps_fit(rewraps, keys) && state.imported(keys, backup_root_key, rewraps) == (
            after,
            result,
        );
    importing_only_adds_keys(state, keys, backup_root_key, rewraps);
    if result is Ok {
        imported_keys_are_stored(state, keys, backup_root_key, rewraps, index);
    }
}

/// Importing a backup whose keys are all in the keystore changes nothing and adds nothing. So a
/// backup that was imported can be imported again to no effect.
pub proof fn importing_known_keys_changes_nothing(
    state: KeyManagerView,
    keys: Seq<StoredKeyView>,
    backup_root_key: Seq<u8>,
    rewraps: Seq<RewrapView>,
)
    requires
        forall|index: int|
            0 <= index < keys.len() && (#[trigger] keys[index]).uuid != 0
                ==> state.keystore.contains_key(keys[index].uuid),
    ensures
        state.imported(keys, backup_root_key, rewraps) == (
            state,
            Ok::<Seq<StoredKeyView>, Error>(Seq::empty()),
        ),
    decreases keys.len(),
{
    if keys.len() > 0 {
        importing_known_keys_changes_nothing(
            state,
            keys.drop_last(),
            backup_root_key,
            rewraps.drop_last(),
        );
    }
}

// Listing.

/// A listing has every entry of the map, once.
pub proof fn listing_is_complete<V>(values: Seq<V>, map: Map<u128, V>, id: u128)
    requires
        enumerates(values, map),
    ensures
        values.len() == map.dom().len(),
        map.contains_key(id) ==> values.contains(map[id]),
{
    let order = choose|order: Seq<u128>| lists_in_order(values, map, order);
    order.unique_seq_to_set();
    if map.contains_key(id) {
        let index = order.index_of(id);
        assert(values[index] == map[id]);
    }
}

/// The hash of a key that was mounted is among the listed ones.
pub proof fn mounted_key_is_listed(state: KeyManagerView, id: u128, hashes: Seq<Seq<u8>>)
    requires
        state.mounting(id).1 is Ok,
        enumerates(hashes, hashed_keys(state.mounting(id).0.keymount)),
    ensures
        hashes.contains(
            password_hash(
                state.keystore[id].hashing_algorithm,
                state.key(id)->Ok_0,
                state.keystore[id].content_salt,
                None,
            )->Ok_0,
        ),
{
    mounting_hashes_the_key(state, id);
    listing_is_complete(hashes, hashed_keys(state.mounting(id).0.keymount), id);
}

/// The identifiers of the mounted keys are listed once each, and are those under which the keys
/// are mounted.
pub proof fn mounted_ids_are_listed_once(state: KeyManagerView, ids: Seq<u128>)
    requires
        state.valid(),
        enumerates(ids, mounted_ids(state.keymount)),
    ensures
        ids.no_duplicates(),
        ids.to_set() == state.keymount.dom(),
{
    let map = mounted_ids(state.keymount);
    let order = choose|order: Seq<u128>| lists_in_order(ids, map, order);
    assert(ids =~= order);
}

} // verus!
