//! What each operation of the key manager does: what it returns, what it changes, and what it
//! leaves alone.

use vstd::prelude::*;

use crate::crypto::stream::{nonce_len, Algorithm};
use crate::error::{Error, Result};
use crate::keys::hashing::{password_hash, HashingAlgorithm};
use crate::keys::key_laws::backups_open_with_their_details;
use crate::keys::keymanager::{
    mounted_key_of, optional_stored_key_of, protected_bytes, secret_key_bytes, stored_keys_of,
    text_bytes, uuid_of, uuid_values, MountedKey, StoredKey, StoredKeyVersion,
};
use crate::keys::laws::{
    import_returns_the_added_keys, imported_keys_are_stored, importing_only_adds_keys,
};
use crate::keys::model::{
    backup_root_key, enumerates, hashed_keys, key_under, lists_in_order, master_key_under,
    mounted_ids, plain_key,
    rewrapped_key, rewraps_fit, sealed_key, stands_before, views,
    KeyManagerView, KeyMaterialView, MountedKeyView, RewrapView, StoredKeyView,
};
use crate::keys::sealing::KeyDetails;
use crate::primitives::{KEY_LEN, MASTER_PASSWORD_CONTEXT, ROOT_KEY_CONTEXT, SALT_LEN};
use crate::protected::Protected;
use crate::uuid::Uuid;

verus! {

// What values stand for.

/// A text stands for its UTF-8 bytes. A secret key goes where it goes as those bytes, and no secret
/// key is none.
pub proof fn texts_stand_for_their_bytes(text: Protected<String>)
    ensures
        text_bytes(text) == vstd::utf8::encode_utf8(text@@),
        secret_key_bytes(Some(text)) == Some(vstd::utf8::encode_utf8(text@@)),
        secret_key_bytes(None) is None,
{
}

/// Secret keys that differ in their bytes are told apart, and so are having one and having none.
pub proof fn secret_keys_are_told_apart(one: Option<Protected<String>>, other: Option<
    Protected<String>,
>)
    ensures
        secret_key_bytes(one) == secret_key_bytes(other) <==> {
            ||| one is None && other is None
            ||| one is Some && other is Some && vstd::utf8::encode_utf8(one->0@@)
                == vstd::utf8::encode_utf8(other->0@@)
        },
{
}

/// A result stands for what is in it, and an error for itself.
pub proof fn results_stand_for_what_they_hold(
    keys: Result<Vec<StoredKey>>,
    key: Result<Option<StoredKey>>,
    uuid: Result<Uuid>,
    mounted: Result<MountedKey>,
)
    ensures
        keys matches Ok(list) ==> stored_keys_of(keys) == Ok::<Seq<StoredKeyView>, Error>(
            views(list@),
        ),
        keys matches Err(error) ==> stored_keys_of(keys) == Err::<Seq<StoredKeyView>, Error>(error),
        key matches Ok(Some(stored)) ==> optional_stored_key_of(key) == Ok::<
            Option<StoredKeyView>,
            Error,
        >(Some(stored@)),
        key matches Ok(None) ==> optional_stored_key_of(key) == Ok::<Option<StoredKeyView>, Error>(
            None,
        ),
        key matches Err(error) ==> optional_stored_key_of(key) == Err::<
            Option<StoredKeyView>,
            Error,
        >(error),
        uuid matches Ok(id) ==> uuid_of(uuid) == Ok::<u128, Error>(id.value),
        uuid matches Err(error) ==> uuid_of(uuid) == Err::<u128, Error>(error),
        mounted matches Ok(stored) ==> mounted_key_of(mounted) == Ok::<MountedKeyView, Error>(
            stored@,
        ),
        mounted matches Err(error) ==> mounted_key_of(mounted) == Err::<MountedKeyView, Error>(
            error,
        ),
{
}

/// Several hashes and several identifiers stand for what each of them stands for, in their order.
pub proof fn lists_stand_for_each(keys: Seq<Protected<[u8; KEY_LEN]>>, uuids: Seq<Uuid>, i: int)
    ensures
        protected_bytes(keys).len() == keys.len(),
        uuid_values(uuids).len() == uuids.len(),
        0 <= i < keys.len() ==> protected_bytes(keys)[i] == keys[i]@@,
        0 <= i < uuids.len() ==> uuid_values(uuids)[i] == uuids[i].value,
{
}

/// A key manager that knows nothing.
pub proof fn nothing_is_known_at_first()
    ensures
        KeyManagerView::empty().root_key is None,
        KeyManagerView::empty().verification_key is None,
        KeyManagerView::empty().default is None,
        KeyManagerView::empty().keystore.dom() == Set::<u128>::empty(),
        KeyManagerView::empty().keymount.dom() == Set::<u128>::empty(),
        KeyManagerView::empty().queue == Set::<u128>::empty(),
        KeyManagerView::empty().valid(),
{
}

/// What it takes for a key manager to be valid.
pub proof fn valid_managers_file_keys_by_identifier(state: KeyManagerView)
    ensures
        state.valid() <==> {
            &&& state.root_key is Some ==> state.root_key->0.len() == KEY_LEN
            &&& state.verification_key is Some ==> state.verification_key->0.uuid == 0
            &&& !state.keystore.contains_key(0)
            &&& state.default is Some ==> state.keystore.contains_key(state.default->0)
            &&& forall|id: u128| #[trigger]
                state.keystore.contains_key(id) ==> state.keystore[id].uuid == id
            &&& forall|id: u128| #[trigger]
                state.keymount.contains_key(id) ==> {
                    &&& state.keystore.contains_key(id)
                    &&& state.keymount[id].uuid == id
                    &&& state.keymount[id].hashed_key.len() == KEY_LEN
                }
        },
{
}

// Reading.

/// What is read is what is held, as it is; what is not held is not found.
pub proof fn reading_gives_what_is_held(state: KeyManagerView, id: u128)
    ensures
        state.keystore.contains_key(id) ==> state.stored(id) == Ok::<StoredKeyView, Error>(
            state.keystore[id],
        ),
        !state.keystore.contains_key(id) ==> state.stored(id) == Err::<StoredKeyView, Error>(
            Error::KeyNotFound,
        ),
        state.keymount.contains_key(id) ==> state.mounted(id) == Ok::<MountedKeyView, Error>(
            state.keymount[id],
        ),
        !state.keymount.contains_key(id) ==> state.mounted(id) == Err::<MountedKeyView, Error>(
            Error::KeyNotFound,
        ),
        state.default matches Some(default) ==> state.default_key() == Ok::<u128, Error>(default),
        state.default is None ==> state.default_key() == Err::<u128, Error>(Error::NoDefaultKeySet),
{
}

/// A key is read by opening what is stored with the root key in use.
pub proof fn reading_a_key_opens_it(state: KeyManagerView, id: u128)
    ensures
        !state.keystore.contains_key(id) ==> state.key(id) == Err::<Seq<u8>, Error>(
            Error::KeyNotFound,
        ),
        state.keystore.contains_key(id) && state.root_key is None ==> state.key(id) == Err::<
            Seq<u8>,
            Error,
        >(Error::NoMasterPassword),
        state.keystore.contains_key(id) && state.root_key is Some ==> state.key(id) == plain_key(
            state.root_key->0,
            state.keystore[id],
        ),
{
}

/// Whether some mounted key has this hash.
pub open spec fn is_a_mounted_hash(state: KeyManagerView, hash: Seq<u8>) -> bool {
    exists|id: u128| #[trigger]
        state.keymount.contains_key(id) && state.keymount[id].hashed_key == hash
}

/// Whether some mounted key carries this identifier.
pub open spec fn is_a_mounted_id(state: KeyManagerView, uuid: u128) -> bool {
    exists|id: u128| #[trigger]
        state.keymount.contains_key(id) && state.keymount[id].uuid == uuid
}

/// Whether this key is stored.
pub open spec fn is_a_stored_key(state: KeyManagerView, key: StoredKeyView) -> bool {
    exists|id: u128| #[trigger] state.keystore.contains_key(id) && state.keystore[id] == key
}

/// Every mounted key's hash is listed, and nothing else is.
pub proof fn listed_hashes_are_those_of_mounted_keys(state: KeyManagerView, hashes: Seq<Seq<u8>>)
    requires
        enumerates(hashes, hashed_keys(state.keymount)),
    ensures
        hashes.len() == state.keymount.dom().len(),
        forall|id: u128| #[trigger]
            state.keymount.contains_key(id) ==> hashes.contains(state.keymount[id].hashed_key),
        forall|i: int| 0 <= i < hashes.len() ==> is_a_mounted_hash(state, #[trigger] hashes[i]),
{
    let map = hashed_keys(state.keymount);
    let order = choose|order: Seq<u128>| lists_in_order(hashes, map, order);
    assert(map.dom() =~= state.keymount.dom());
    order.unique_seq_to_set();
    assert forall|id: u128| #[trigger] state.keymount.contains_key(id) implies hashes.contains(
        state.keymount[id].hashed_key,
    ) by {
        let index = order.index_of(id);
        assert(hashes[index] == map[id]);
    }
}

/// The identifier that every mounted key carries is listed, and nothing else is.
pub proof fn listed_ids_are_those_of_mounted_keys(state: KeyManagerView, ids: Seq<u128>)
    requires
        enumerates(ids, mounted_ids(state.keymount)),
    ensures
        ids.len() == state.keymount.dom().len(),
        forall|id: u128| #[trigger]
            state.keymount.contains_key(id) ==> ids.contains(state.keymount[id].uuid),
        forall|i: int| 0 <= i < ids.len() ==> is_a_mounted_id(state, #[trigger] ids[i]),
{
    let map = mounted_ids(state.keymount);
    let order = choose|order: Seq<u128>| lists_in_order(ids, map, order);
    assert(map.dom() =~= state.keymount.dom());
    order.unique_seq_to_set();
    assert forall|id: u128| #[trigger] state.keymount.contains_key(id) implies ids.contains(
        state.keymount[id].uuid,
    ) by {
        let index = order.index_of(id);
        assert(ids[index] == map[id]);
    }
}

/// Every stored key is in a dump, and nothing else is.
pub proof fn dumped_keys_are_those_of_the_keystore(
    state: KeyManagerView,
    keys: Seq<StoredKeyView>,
)
    requires
        enumerates(keys, state.keystore),
    ensures
        keys.len() == state.keystore.dom().len(),
        forall|id: u128| #[trigger]
            state.keystore.contains_key(id) ==> keys.contains(state.keystore[id]),
        forall|i: int| 0 <= i < keys.len() ==> is_a_stored_key(state, #[trigger] keys[i]),
{
    let order = choose|order: Seq<u128>| lists_in_order(keys, state.keystore, order);
    order.unique_seq_to_set();
    assert forall|id: u128| #[trigger] state.keystore.contains_key(id) implies keys.contains(
        state.keystore[id],
    ) by {
        let index = order.index_of(id);
        assert(keys[index] == state.keystore[id]);
    }
    assert forall|i: int| 0 <= i < keys.len() implies is_a_stored_key(state, #[trigger] keys[i]) by {
        assert(state.keystore.contains_key(order[i]));
    }
}

// Changing single things.

/// Making a key the default changes the default alone, and only a stored key can be made it.
pub proof fn setting_the_default_changes_it_alone(state: KeyManagerView, id: u128)
    ensures
        state.keystore.contains_key(id) ==> {
            let (after, result) = state.with_default(id);
            &&& result == Ok::<(), Error>(())
            &&& after.default == Some(id)
            &&& after == (KeyManagerView { default: after.default, ..state })
        },
        !state.keystore.contains_key(id) ==> state.with_default(id) == (
            state,
            Err::<(), Error>(Error::KeyNotFound),
        ),
{
}

/// Setting the automount flag changes that flag of that key alone.
pub proof fn setting_automount_changes_it_alone(state: KeyManagerView, id: u128, status: bool)
    ensures
        state.keystore.contains_key(id) ==> {
            let (after, result) = state.with_automount(id, status);
            &&& result == Ok::<(), Error>(())
            &&& after.keystore.dom() == state.keystore.dom()
            &&& after.keystore[id].automount == status
            &&& (StoredKeyView {
                automount: state.keystore[id].automount,
                ..after.keystore[id]
            }) == state.keystore[id]
            &&& forall|other: u128| other != id ==> #[trigger] after.keystore[other]
                == state.keystore[other]
            &&& after == (KeyManagerView { keystore: after.keystore, ..state })
        },
        !state.keystore.contains_key(id) ==> state.with_automount(id, status) == (
            state,
            Err::<(), Error>(Error::KeyNotFound),
        ),
{
}

/// Saving a key clears the memory-only flag of that key alone, and returns the key as it then is.
pub proof fn saving_clears_the_flag_alone(state: KeyManagerView, id: u128)
    ensures
        state.keystore.contains_key(id) && state.keystore[id].memory_only ==> {
            let (after, result) = state.synced(id);
            &&& after.keystore.dom() == state.keystore.dom()
            &&& result == Ok::<StoredKeyView, Error>(after.keystore[id])
            &&& !after.keystore[id].memory_only
            &&& (StoredKeyView { memory_only: true, ..after.keystore[id] }) == state.keystore[id]
            &&& forall|other: u128| other != id ==> #[trigger] after.keystore[other]
                == state.keystore[other]
            &&& after == (KeyManagerView { keystore: after.keystore, ..state })
        },
        state.keystore.contains_key(id) && !state.keystore[id].memory_only ==> state.synced(id) == (
            state,
            Err::<StoredKeyView, Error>(Error::KeyNotMemoryOnly),
        ),
        !state.keystore.contains_key(id) ==> state.synced(id) == (
            state,
            Err::<StoredKeyView, Error>(Error::KeyNotFound),
        ),
{
}

/// Locking forgets the root key, and nothing else.
pub proof fn locking_forgets_the_root_key_alone(state: KeyManagerView)
    ensures
        state.locked().root_key is None,
        state.locked() == (KeyManagerView { root_key: state.locked().root_key, ..state }),
{
}

/// Unmounting takes one key out of the keymount, and nothing else.
pub proof fn unmounting_changes_the_keymount_alone(state: KeyManagerView, id: u128)
    ensures
        state.keymount.contains_key(id) ==> {
            let (after, result) = state.unmounted(id);
            &&& result == Ok::<(), Error>(())
            &&& after.keymount.dom() == state.keymount.dom().remove(id)
            &&& forall|other: u128| other != id ==> #[trigger] after.keymount[other]
                == state.keymount[other]
            &&& after == (KeyManagerView { keymount: after.keymount, ..state })
        },
        !state.keymount.contains_key(id) ==> state.unmounted(id) == (
            state,
            Err::<(), Error>(Error::KeyNotMounted),
        ),
{
}

/// Emptying the keymount takes every key out of it, and nothing else.
pub proof fn emptying_changes_the_keymount_alone(state: KeyManagerView)
    ensures
        state.all_unmounted().keymount.dom() == Set::<u128>::empty(),
        state.all_unmounted() == (KeyManagerView {
            keymount: state.all_unmounted().keymount,
            ..state
        }),
{
}

/// Taking an identifier out of the queue tells whether it was in it, and changes nothing else.
pub proof fn dequeueing_changes_the_queue_alone(state: KeyManagerView, id: u128)
    ensures
        state.queue.contains(id) <==> state.dequeue(id).1 == Ok::<(), Error>(()),
        !state.queue.contains(id) <==> state.dequeue(id).1 == Err::<(), Error>(Error::KeyNotQueued),
        forall|other: u128| #[trigger]
            state.dequeue(id).0.queue.contains(other) <==> other != id && state.queue.contains(
                other,
            ),
        state.dequeue(id).0 == (KeyManagerView { queue: state.dequeue(id).0.queue, ..state }),
        state.dequeued(id) == state.dequeue(id).0,
{
}

/// Removing takes one key out of the keystore, the keymount and the default, and nothing else. A key
/// that is not in the keystore is removed to no effect.
pub proof fn removing_changes_one_key_alone(state: KeyManagerView, id: u128)
    ensures
        state.keystore.contains_key(id) ==> {
            let after = state.removed(id);
            &&& after.keystore.dom() == state.keystore.dom().remove(id)
            &&& after.keymount.dom() == state.keymount.dom().remove(id)
            &&& after.default == if state.default == Some(id) {
                None
            } else {
                state.default
            }
            &&& forall|other: u128| other != id ==> #[trigger] after.keystore[other]
                == state.keystore[other]
            &&& forall|other: u128| other != id ==> #[trigger] after.keymount[other]
                == state.keymount[other]
            &&& after == (KeyManagerView {
                keystore: after.keystore,
                keymount: after.keymount,
                default: after.default,
                ..state
            })
        },
        !state.keystore.contains_key(id) ==> state.removed(id) == state,
{
}

// Adding.

/// A key is added under the identifier that is returned. It carries what the caller chose, and is
/// sealed under the root key in use. Nothing else changes.
pub proof fn added_keys_carry_what_was_chosen(
    state: KeyManagerView,
    details: KeyDetails,
    material: KeyMaterialView,
    key: Seq<u8>,
)
    requires
        state.added(details, material, key).1 is Ok,
    ensures
        ({
            let (after, result) = state.added(details, material, key);
            let id = result->Ok_0;
            let stored = after.keystore[id];
            &&& id == details.uuid.value
            &&& state.root_key is Some
            &&& after.keystore.dom() == state.keystore.dom().insert(id)
            &&& stored.uuid == id
            &&& stored.version == StoredKeyVersion::V1
            &&& stored.algorithm == details.algorithm
            &&& stored.hashing_algorithm == details.hashing_algorithm
            &&& stored.memory_only == details.memory_only
            &&& stored.automount == details.automount
            &&& stored.content_salt == material.content_salt
            &&& stored.salt == material.salt
            &&& stored.master_key_nonce == material.master_key_nonce
            &&& stored.key_nonce == material.key_nonce
            &&& sealed_key(state.root_key->0, ROOT_KEY_CONTEXT@, details, material, key) == Ok::<
                StoredKeyView,
                Error,
            >(stored)
            &&& forall|other: u128| other != id ==> #[trigger] after.keystore[other]
                == state.keystore[other]
            &&& after == (KeyManagerView { keystore: after.keystore, ..state })
        }),
{
}

/// A key is not added without a root key, nor where it cannot be sealed; then nothing changes.
pub proof fn adding_fails_without_effect(
    state: KeyManagerView,
    details: KeyDetails,
    material: KeyMaterialView,
    key: Seq<u8>,
)
    ensures
        state.root_key is None ==> state.added(details, material, key) == (
            state,
            Err::<u128, Error>(Error::NoMasterPassword),
        ),
        state.root_key is Some ==> match sealed_key(
            state.root_key->0,
            ROOT_KEY_CONTEXT@,
            details,
            material,
            key,
        ) {
            Ok(_) => state.added(details, material, key).1 is Ok,
            Err(error) => state.added(details, material, key) == (state, Err::<u128, Error>(error)),
        },
{
}

// Changing the password.

/// A new verification key carries the algorithms that were asked for, replaces the one in use, and
/// seals the root key in use under the new password and secret key, hashed with the new algorithm.
pub proof fn new_verification_keys_carry_what_was_chosen(
    state: KeyManagerView,
    password: Seq<u8>,
    secret: Option<Seq<u8>>,
    algorithm: Algorithm,
    hashing_algorithm: HashingAlgorithm,
    material: KeyMaterialView,
)
    requires
        state.rekeyed(password, secret, algorithm, hashing_algorithm, material).1 is Ok,
    ensures
        ({
            let (after, result) = state.rekeyed(
                password,
                secret,
                algorithm,
                hashing_algorithm,
                material,
            );
            let key = result->Ok_0;
            let hash = password_hash(hashing_algorithm, password, key.content_salt, secret);
            &&& key.uuid == 0
            &&& key.version == StoredKeyVersion::V1
            &&& key.algorithm == algorithm
            &&& key.hashing_algorithm == hashing_algorithm
            &&& !key.memory_only
            &&& !key.automount
            &&& key.content_salt == material.content_salt
            &&& key.salt == material.salt
            &&& key.master_key_nonce == material.master_key_nonce
            &&& key.key_nonce == material.key_nonce
            &&& state.root_key is Some
            &&& hash is Ok
            &&& sealed_key(
                hash->Ok_0,
                MASTER_PASSWORD_CONTEXT@,
                KeyDetails {
                    uuid: Uuid { value: 0 },
                    algorithm,
                    hashing_algorithm,
                    memory_only: false,
                    automount: false,
                },
                material,
                state.root_key->0,
            ) == Ok::<StoredKeyView, Error>(key)
            &&& after.verification_key == Some(key)
            &&& after == (KeyManagerView { verification_key: after.verification_key, ..state })
        }),
{
}

/// The password is not changed where it cannot be hashed, where there is no root key, or where the
/// root key cannot be sealed, in this order; then nothing changes.
pub proof fn changing_the_password_fails_without_effect(
    state: KeyManagerView,
    password: Seq<u8>,
    secret: Option<Seq<u8>>,
    algorithm: Algorithm,
    hashing_algorithm: HashingAlgorithm,
    material: KeyMaterialView,
)
    ensures
        ({
            let outcome = state.rekeyed(password, secret, algorithm, hashing_algorithm, material);
            match password_hash(hashing_algorithm, password, material.content_salt, secret) {
                Ok(hashed_password) => match state.root_key {
                    Some(root_key) => match sealed_key(
                        hashed_password,
                        MASTER_PASSWORD_CONTEXT@,
                        KeyDetails {
                            uuid: Uuid { value: 0 },
                            algorithm,
                            hashing_algorithm,
                            memory_only: false,
                            automount: false,
                        },
                        material,
                        root_key,
                    ) {
                        Ok(_) => outcome.1 is Ok,
                        Err(error) => outcome == (state, Err::<StoredKeyView, Error>(error)),
                    },
                    None => outcome == (
                        state,
                        Err::<StoredKeyView, Error>(Error::NoMasterPassword),
                    ),
                },
                Err(error) => outcome == (state, Err::<StoredKeyView, Error>(error)),
            }
        }),
{
}

// Unlocking.

/// Unlocking starts exactly where there is no root key, none is under way, and there is a
/// verification key, which is then what is returned; only the queue changes.
pub proof fn unlocking_starts_where_it_may(state: KeyManagerView)
    ensures
        ({
            let (after, result) = state.unlock_begun();
            if state.root_key is Some {
                after == state && result == Err::<StoredKeyView, Error>(Error::KeyAlreadyMounted)
            } else if state.queue.contains(0) {
                after == state && result == Err::<StoredKeyView, Error>(Error::KeyAlreadyQueued)
            } else if state.verification_key is None {
                after == state && result == Err::<StoredKeyView, Error>(Error::NoVerificationKey)
            } else {
                &&& result == Ok::<StoredKeyView, Error>(state.verification_key->0)
                &&& after.queue == state.queue.insert(0)
                &&& after == (KeyManagerView { queue: after.queue, ..state })
            }
        }),
{
}

/// Where unlocking may not start, it is refused for the same reason, and nothing changes.
pub proof fn unlocking_is_refused_where_it_may_not_start(
    state: KeyManagerView,
    password: Seq<u8>,
    secret: Option<Seq<u8>>,
)
    ensures
        state.root_key is Some ==> state.unlocked(password, secret) == (
            state,
            Err::<(), Error>(Error::KeyAlreadyMounted),
        ),
        state.root_key is None && state.queue.contains(0) ==> state.unlocked(password, secret) == (
            state,
            Err::<(), Error>(Error::KeyAlreadyQueued),
        ),
        state.root_key is None && !state.queue.contains(0) && state.verification_key is None
            ==> state.unlocked(password, secret) == (
            state,
            Err::<(), Error>(Error::NoVerificationKey),
        ),
{
}

/// Unlocking goes by the password and the secret key together, hashed as the verification key asks.
/// What comes of it: the error of hashing; one error for details that do not decrypt the master
/// key; the error of decrypting the root key, with the nil identifier left in the queue; or the root
/// key. Nothing else changes.
pub proof fn unlocking_goes_by_password_and_secret(
    state: KeyManagerView,
    key: StoredKeyView,
    password: Seq<u8>,
    secret: Option<Seq<u8>>,
)
    requires
        state.root_key is None,
        !state.queue.contains(0),
        state.verification_key == Some(key),
    ensures
        ({
            let outcome = state.unlocked(password, secret);
            let left_queued = KeyManagerView { queue: state.queue.insert(0), ..state };
            match password_hash(key.hashing_algorithm, password, key.content_salt, secret) {
                Err(error) => outcome == (state, Err::<(), Error>(error)),
                Ok(hash) => match master_key_under(hash, key, MASTER_PASSWORD_CONTEXT@) {
                    Err(_) => outcome == (
                        state,
                        Err::<(), Error>(Error::IncorrectKeymanagerDetails),
                    ),
                    Ok(master_key) => if master_key.len() != KEY_LEN {
                        outcome == (left_queued, Err::<(), Error>(Error::VecArrSizeMismatch))
                    } else {
                        match key_under(master_key, key) {
                            Err(error) => outcome == (left_queued, Err::<(), Error>(error)),
                            Ok(root_key) => if root_key.len() != KEY_LEN {
                                outcome == (state, Err::<(), Error>(Error::VecArrSizeMismatch))
                            } else {
                                outcome == (
                                    KeyManagerView { root_key: Some(root_key), ..state },
                                    Ok::<(), Error>(()),
                                )
                            },
                        }
                    },
                },
            }
        }),
{
}

/// The steps of unlocking: how each goes on with what came of the work before it.
pub proof fn steps_of_unlocking(
    state: KeyManagerView,
    key: StoredKeyView,
    hash: Result<Seq<u8>>,
    master_key: Result<Seq<u8>>,
    root_key: Result<Seq<u8>>,
)
    ensures
        match hash {
            Ok(hash) => state.unlock_hashed(key, Ok(hash)) == state.unlock_master_key(
                key,
                master_key_under(hash, key, MASTER_PASSWORD_CONTEXT@),
            ),
            Err(error) => state.unlock_hashed(key, Err(error)) == (
                KeyManagerView { queue: state.queue.remove(0), ..state },
                Err::<(), Error>(error),
            ),
        },
        match master_key {
            Ok(bytes) => if bytes.len() == KEY_LEN {
                state.unlock_master_key(key, Ok(bytes)) == state.unlock_root_key(
                    key_under(bytes, key),
                )
            } else {
                state.unlock_master_key(key, Ok(bytes)) == (
                    state,
                    Err::<(), Error>(Error::VecArrSizeMismatch),
                )
            },
            Err(error) => state.unlock_master_key(key, Err(error)) == (
                KeyManagerView { queue: state.queue.remove(0), ..state },
                Err::<(), Error>(Error::IncorrectKeymanagerDetails),
            ),
        },
        match root_key {
            Ok(bytes) => if bytes.len() == KEY_LEN {
                state.unlock_root_key(Ok(bytes)) == (
                    KeyManagerView {
                        root_key: Some(bytes),
                        queue: state.queue.remove(0),
                        ..state
                    },
                    if state.queue.contains(0) {
                        Ok::<(), Error>(())
                    } else {
                        Err::<(), Error>(Error::KeyNotQueued)
                    },
                )
            } else {
                state.unlock_root_key(Ok(bytes)) == (
                    KeyManagerView { queue: state.queue.remove(0), ..state },
                    Err::<(), Error>(Error::VecArrSizeMismatch),
                )
            },
            Err(error) => state.unlock_root_key(Err(error)) == (state, Err::<(), Error>(error)),
        },
{
}

// Mounting.

/// Mounting starts exactly for a stored key that is neither mounted nor being mounted, which is then
/// what is returned; only the queue changes.
pub proof fn mounting_starts_where_it_may(state: KeyManagerView, id: u128)
    ensures
        ({
            let (after, result) = state.mount_begun(id);
            if state.keymount.contains_key(id) {
                after == state && result == Err::<StoredKeyView, Error>(Error::KeyAlreadyMounted)
            } else if state.queue.contains(id) {
                after == state && result == Err::<StoredKeyView, Error>(Error::KeyAlreadyQueued)
            } else if !state.keystore.contains_key(id) {
                after == state && result == Err::<StoredKeyView, Error>(Error::KeyNotFound)
            } else {
                &&& result == Ok::<StoredKeyView, Error>(state.keystore[id])
                &&& after.queue == state.queue.insert(id)
                &&& after == (KeyManagerView { queue: after.queue, ..state })
            }
        }),
{
}

/// Where mounting may not start, it is refused for the same reason, and nothing changes.
pub proof fn mounting_is_refused_where_it_may_not_start(state: KeyManagerView, id: u128)
    ensures
        state.keymount.contains_key(id) ==> state.mounting(id) == (
            state,
            Err::<(), Error>(Error::KeyAlreadyMounted),
        ),
        !state.keymount.contains_key(id) && state.queue.contains(id) ==> state.mounting(id) == (
            state,
            Err::<(), Error>(Error::KeyAlreadyQueued),
        ),
        !state.keymount.contains_key(id) && !state.queue.contains(id)
            && !state.keystore.contains_key(id) ==> state.mounting(id) == (
            state,
            Err::<(), Error>(Error::KeyNotFound),
        ),
{
}

/// Mounting opens the key with the root key and hashes it with the algorithm and the content salt of
/// the stored key, without a secret. What comes of it: for want of a root key, an error and the key
/// left in the queue; one error for a master key that does not decrypt; the error of decrypting or
/// of hashing the key; or the hash in the keymount. Nothing else changes.
pub proof fn mounting_opens_and_hashes(state: KeyManagerView, id: u128)
    requires
        !state.keymount.contains_key(id),
        !state.queue.contains(id),
        state.keystore.contains_key(id),
    ensures
        ({
            let outcome = state.mounting(id);
            let stored = state.keystore[id];
            let left_queued = KeyManagerView { queue: state.queue.insert(id), ..state };
            match state.root_key {
                None => outcome == (left_queued, Err::<(), Error>(Error::NoMasterPassword)),
                Some(root_key) => match master_key_under(root_key, stored, ROOT_KEY_CONTEXT@) {
                    Err(_) => outcome == (state, Err::<(), Error>(Error::IncorrectPassword)),
                    Ok(master_key) => if master_key.len() != KEY_LEN {
                        outcome == (left_queued, Err::<(), Error>(Error::VecArrSizeMismatch))
                    } else {
                        match key_under(master_key, stored) {
                            Err(error) => outcome == (state, Err::<(), Error>(error)),
                            Ok(key) => match password_hash(
                                stored.hashing_algorithm,
                                key,
                                stored.content_salt,
                                None,
                            ) {
                                Err(error) => outcome == (state, Err::<(), Error>(error)),
                                Ok(hashed_key) => outcome == (
                                    KeyManagerView {
                                        keymount: state.keymount.insert(
                                            id,
                                            MountedKeyView { uuid: stored.uuid, hashed_key },
                                        ),
                                        ..state
                                    },
                                    Ok::<(), Error>(()),
                                ),
                            },
                        }
                    },
                },
            }
        }),
{
}

/// A key that was mounted is handed out as the hash of the key itself: with the algorithm and the
/// content salt of the stored key, and without a secret.
pub proof fn mounted_keys_are_handed_out_hashed(
    state: KeyManagerView,
    id: u128,
    hashes: Seq<Seq<u8>>,
)
    requires
        state.mounting(id).1 is Ok,
        enumerates(hashes, hashed_keys(state.mounting(id).0.keymount)),
    ensures
        ({
            let after = state.mounting(id).0;
            let stored = state.keystore[id];
            let hash = password_hash(
                stored.hashing_algorithm,
                plain_key(state.root_key->0, stored)->Ok_0,
                stored.content_salt,
                None,
            );
            &&& state.keystore.contains_key(id)
            &&& state.root_key is Some
            &&& plain_key(state.root_key->0, stored) is Ok
            &&& hash is Ok
            &&& after.mounted(id) == Ok::<MountedKeyView, Error>(
                MountedKeyView { uuid: stored.uuid, hashed_key: hash->Ok_0 },
            )
            &&& hashes.contains(hash->Ok_0)
        }),
{
    let after = state.mounting(id).0;
    listed_hashes_are_those_of_mounted_keys(after, hashes);
}

/// The steps of mounting: how each goes on with what came of the work before it.
pub proof fn steps_of_mounting(
    state: KeyManagerView,
    id: u128,
    stored: StoredKeyView,
    master_key: Result<Seq<u8>>,
    key: Result<Seq<u8>>,
    hash: Result<Seq<u8>>,
)
    ensures
        match state.root_key {
            Some(root_key) => state.mount_opened(id, stored) == state.mount_master_key(
                id,
                stored,
                master_key_under(root_key, stored, ROOT_KEY_CONTEXT@),
            ),
            None => state.mount_opened(id, stored) == (
                state,
                Err::<Seq<u8>, Error>(Error::NoMasterPassword),
            ),
        },
        match master_key {
            Ok(bytes) => if bytes.len() == KEY_LEN {
                state.mount_master_key(id, stored, Ok(bytes)) == state.mount_key(
                    id,
                    key_under(bytes, stored),
                )
            } else {
                state.mount_master_key(id, stored, Ok(bytes)) == (
                    state,
                    Err::<Seq<u8>, Error>(Error::VecArrSizeMismatch),
                )
            },
            Err(error) => state.mount_master_key(id, stored, Err(error)) == (
                KeyManagerView { queue: state.queue.remove(id), ..state },
                Err::<Seq<u8>, Error>(Error::IncorrectPassword),
            ),
        },
        match key {
            Ok(bytes) => state.mount_key(id, Ok(bytes)) == (state, Ok::<Seq<u8>, Error>(bytes)),
            Err(error) => state.mount_key(id, Err(error)) == (
                KeyManagerView { queue: state.queue.remove(id), ..state },
                Err::<Seq<u8>, Error>(error),
            ),
        },
        match hash {
            Ok(hashed_key) => state.mount_hashed(id, stored, Ok(hashed_key)) == (
                KeyManagerView {
                    keymount: state.keymount.insert(
                        id,
                        MountedKeyView { uuid: stored.uuid, hashed_key },
                    ),
                    queue: state.queue.remove(id),
                    ..state
                },
                if state.queue.contains(id) {
                    Ok::<(), Error>(())
                } else {
                    Err::<(), Error>(Error::KeyNotQueued)
                },
            ),
            Err(error) => state.mount_hashed(id, stored, Err(error)) == (
                KeyManagerView { queue: state.queue.remove(id), ..state },
                Err::<(), Error>(error),
            ),
        },
{
}

// Loading.

/// Loading one key: one that is known is passed over, one with the nil identifier becomes the
/// verification key, and any other is stored as it is.
pub proof fn loading_one_key(state: KeyManagerView, key: StoredKeyView)
    ensures
        state.keystore.contains_key(key.uuid) ==> state.populated(seq![key]) == state,
        !state.keystore.contains_key(key.uuid) && key.uuid == 0 ==> state.populated(seq![key]) == (
        KeyManagerView { verification_key: Some(key), ..state }),
        !state.keystore.contains_key(key.uuid) && key.uuid != 0 ==> state.populated(seq![key]) == (
        KeyManagerView { keystore: state.keystore.insert(key.uuid, key), ..state }),
{
    reveal_with_fuel(KeyManagerView::populated, 2);
}

/// Loading some keys and then others is loading them all.
pub proof fn loading_goes_key_by_key(
    state: KeyManagerView,
    first: Seq<StoredKeyView>,
    second: Seq<StoredKeyView>,
)
    ensures
        state.populated(first).populated(second) == state.populated(first + second),
    decreases second.len(),
{
    if second.len() > 0 {
        assert((first + second).drop_last() =~= first + second.drop_last());
        loading_goes_key_by_key(state, first, second.drop_last());
    }
}

// Importing.

/// What unlocks a vault opens its backup, and nothing else does: a backup with the verification key
/// of a vault gives its root key to exactly the password and the secret key that unlock the vault.
pub proof fn backups_open_with_what_unlocks_the_vault(
    vault: KeyManagerView,
    keys: Seq<StoredKeyView>,
    index: int,
    password: Seq<u8>,
    secret: Option<Seq<u8>>,
)
    requires
        vault.unlock_begun().1 is Ok,
        0 <= index < keys.len(),
        keys[index].uuid == 0,
        vault.verification_key == Some(keys[index]),
        forall|later: int| index < later < keys.len() ==> (#[trigger] keys[later]).uuid != 0,
    ensures
        vault.unlocked(password, secret).1 is Ok <==> backup_root_key(keys, password, secret) is Ok,
        backup_root_key(keys, password, secret) matches Ok(root_key) ==> vault.unlocked(
            password,
            secret,
        ).0.root_key == Some(root_key),
{
    backups_open_with_their_details(keys, index, password, secret, Seq::empty());
}

/// Whether a key of a backup is one to be added: it has an identifier that is not nil, not in the
/// keystore, and not that of an earlier key of the backup.
pub open spec fn is_to_be_added(
    state: KeyManagerView,
    keys: Seq<StoredKeyView>,
    index: int,
) -> bool {
    &&& 0 <= index < keys.len()
    &&& keys[index].uuid != 0
    &&& !state.keystore.contains_key(keys[index].uuid)
    &&& forall|earlier: int|
        0 <= earlier < index ==> (#[trigger] keys[earlier]).uuid != keys[index].uuid
}

/// A new key of a backup is added as it is, but for how its master key is wrapped. It then reads
/// under the root key in use as it read in the backup.
pub proof fn imports_bring_new_keys_over(
    state: KeyManagerView,
    keys: Seq<StoredKeyView>,
    backup_root_key: Seq<u8>,
    after: KeyManagerView,
    result: Result<Seq<StoredKeyView>>,
    index: int,
)
    requires
        state.import_leads_to(keys, backup_root_key, after, result),
        is_to_be_added(state, keys, index),
    ensures
        result is Ok ==> after.keystore.contains_key(keys[index].uuid),
        after.keystore.contains_key(keys[index].uuid) ==> {
            let key = keys[index];
            let added = after.keystore[key.uuid];
            &&& added == (StoredKeyView {
                master_key: added.master_key,
                master_key_nonce: added.master_key_nonce,
                salt: added.salt,
                ..key
            })
            &&& state.root_key is Some
            &&& plain_key(state.root_key->0, added) == plain_key(backup_root_key, key)
            &&& after.key(key.uuid) == plain_key(backup_root_key, key)
        },
{
    let rewraps = choose|rewraps: Seq<RewrapView>| #[trigger]
        rewraps_fit(rewraps, keys) && state.imported(keys, backup_root_key, rewraps) == (
            after,
            result,
        );
    importing_only_adds_keys(state, keys, backup_root_key, rewraps);
    assert(state.is_new_in(keys, index));
    if result is Ok {
        imported_keys_are_stored(state, keys, backup_root_key, rewraps, index);
    }
}

/// An import changes nothing but the keystore, leaves every key that was there as it is, and adds
/// keys of the backup only. One that succeeds returns exactly the keys that it added.
pub proof fn imports_change_nothing_else(
    state: KeyManagerView,
    keys: Seq<StoredKeyView>,
    backup_root_key: Seq<u8>,
    after: KeyManagerView,
    result: Result<Seq<StoredKeyView>>,
)
    requires
        state.import_leads_to(keys, backup_root_key, after, result),
    ensures
        after == (KeyManagerView { keystore: after.keystore, ..state }),
        forall|id: u128| #[trigger]
            state.keystore.contains_key(id) ==> after.keystore.contains_key(id)
                && after.keystore[id] == state.keystore[id],
        forall|id: u128| #[trigger]
            after.keystore.contains_key(id) && !state.keystore.contains_key(id) ==> id != 0
                && exists|index: int| 0 <= index < keys.len() && (#[trigger] keys[index]).uuid == id,
        result matches Ok(added) ==> {
            &&& forall|i: int|
                0 <= i < added.len() ==> {
                    let id = (#[trigger] added[i]).uuid;
                    &&& !state.keystore.contains_key(id)
                    &&& after.keystore.contains_key(id)
                    &&& after.keystore[id] == added[i]
                }
            &&& forall|i: int, j: int|
                0 <= i < j < added.len() ==> (#[trigger] added[i]).uuid != (
                #[trigger] added[j]).uuid
            &&& forall|id: u128| #[trigger]
                after.keystore.contains_key(id) && !state.keystore.contains_key(id)
                    ==> added.contains(after.keystore[id])
        },
{
    let rewraps = choose|rewraps: Seq<RewrapView>| #[trigger]
        rewraps_fit(rewraps, keys) && state.imported(keys, backup_root_key, rewraps) == (
            after,
            result,
        );
    importing_only_adds_keys(state, keys, backup_root_key, rewraps);
    assert forall|id: u128| #[trigger] state.keystore.contains_key(id) implies
        after.keystore.contains_key(id) && after.keystore[id] == state.keystore[id] by {
        assert(after.stored(id) == state.stored(id));
    }
    if result is Ok {
        import_returns_the_added_keys(state, keys, backup_root_key, rewraps);
        let added = result->Ok_0;
        assert forall|id: u128| #[trigger]
            after.keystore.contains_key(id) && !state.keystore.contains_key(id) implies
            added.contains(after.keystore[id]) by {
            let i = choose|i: int| 0 <= i < added.len() && (#[trigger] added[i]).uuid == id;
        }
    }
}

/// An import succeeds exactly if each key to be added can be opened with the root key of the backup,
/// and there is a root key in use to wrap it under.
pub proof fn imports_succeed_where_every_new_key_opens(
    state: KeyManagerView,
    keys: Seq<StoredKeyView>,
    backup_root_key: Seq<u8>,
    after: KeyManagerView,
    result: Result<Seq<StoredKeyView>>,
)
    requires
        state.import_leads_to(keys, backup_root_key, after, result),
    ensures
        result is Ok <==> forall|index: int| #[trigger]
            is_to_be_added(state, keys, index) ==> state.root_key is Some && master_key_under(
                backup_root_key,
                keys[index],
                ROOT_KEY_CONTEXT@,
            ) is Ok,
{
    assert forall|index: int| #[trigger] is_to_be_added(state, keys, index) <==> state.is_new_in(
        keys,
        index,
    ) by {}
    assert forall|index: int| #[trigger] state.is_new_in(keys, index) <==> is_to_be_added(
        state,
        keys,
        index,
    ) by {}
}

/// An import that fails stops at the first new key that cannot be opened or wrapped. Its error tells
/// which, and exactly the new keys before it were added.
pub proof fn imports_stop_at_the_first_failure(
    state: KeyManagerView,
    keys: Seq<StoredKeyView>,
    backup_root_key: Seq<u8>,
    after: KeyManagerView,
    error: Error,
) -> (index: int)
    requires
        state.import_leads_to(
            keys,
            backup_root_key,
            after,
            Err::<Seq<StoredKeyView>, Error>(error),
        ),
    ensures
        is_to_be_added(state, keys, index),
        error == if master_key_under(backup_root_key, keys[index], ROOT_KEY_CONTEXT@) is Err {
            Error::IncorrectPassword
        } else {
            Error::NoMasterPassword
        },
        error == Error::NoMasterPassword ==> state.root_key is None,
        forall|earlier: int|
            earlier < index && #[trigger] is_to_be_added(state, keys, earlier)
                ==> state.root_key is Some && master_key_under(
                backup_root_key,
                keys[earlier],
                ROOT_KEY_CONTEXT@,
            ) is Ok,
        forall|id: u128| #[trigger]
            after.keystore.contains_key(id) <==> {
                ||| state.keystore.contains_key(id)
                ||| id != 0 && exists|earlier: int|
                    0 <= earlier < index && (#[trigger] keys[earlier]).uuid == id
            },
{
    let index = choose|index: int| #[trigger]
        state.import_stops_at(keys, backup_root_key, index, after, error);
    assert forall|earlier: int|
        earlier < index && #[trigger] is_to_be_added(state, keys, earlier) implies
        state.root_key is Some && master_key_under(
        backup_root_key,
        keys[earlier],
        ROOT_KEY_CONTEXT@,
    ) is Ok by {
        assert(state.is_new_in(keys, earlier));
    }
    assert forall|id: u128| #[trigger] after.keystore.contains_key(id) <==> {
        ||| state.keystore.contains_key(id)
        ||| id != 0 && exists|earlier: int|
            0 <= earlier < index && (#[trigger] keys[earlier]).uuid == id
    } by {
        assert(stands_before(keys, id, index) ==> after.keystore.contains_key(id));
    }
    index
}

/// The keys that an import returns come in the order of the backup.
pub proof fn imported_keys_come_in_order(
    state: KeyManagerView,
    keys: Seq<StoredKeyView>,
    backup_root_key: Seq<u8>,
    after: KeyManagerView,
    added: Seq<StoredKeyView>,
    i: int,
    j: int,
    index_i: int,
    index_j: int,
)
    requires
        state.import_leads_to(
            keys,
            backup_root_key,
            after,
            Ok::<Seq<StoredKeyView>, Error>(added),
        ),
        0 <= i < j < added.len(),
        is_to_be_added(state, keys, index_i),
        is_to_be_added(state, keys, index_j),
        keys[index_i].uuid == added[i].uuid,
        keys[index_j].uuid == added[j].uuid,
    ensures
        index_i < index_j,
{
    let rewraps = choose|rewraps: Seq<RewrapView>| #[trigger]
        rewraps_fit(rewraps, keys) && state.imported(keys, backup_root_key, rewraps) == (
            after,
            Ok::<Seq<StoredKeyView>, Error>(added),
        );
    lemma_added_in_order(state, keys, backup_root_key, rewraps, i, j, index_i, index_j);
}

proof fn lemma_added_in_order(
    state: KeyManagerView,
    keys: Seq<StoredKeyView>,
    backup_root_key: Seq<u8>,
    rewraps: Seq<RewrapView>,
    i: int,
    j: int,
    index_i: int,
    index_j: int,
)
    requires
        state.imported(keys, backup_root_key, rewraps).1 is Ok,
        0 <= i < j < state.imported(keys, backup_root_key, rewraps).1->Ok_0.len(),
        is_to_be_added(state, keys, index_i),
        is_to_be_added(state, keys, index_j),
        keys[index_i].uuid == state.imported(keys, backup_root_key, rewraps).1->Ok_0[i].uuid,
        keys[index_j].uuid == state.imported(keys, backup_root_key, rewraps).1->Ok_0[j].uuid,
    ensures
        index_i < index_j,
    decreases keys.len(),
{
    let shorter = keys.drop_last();
    let rest = rewraps.drop_last();
    let (before, earlier) = state.imported(shorter, backup_root_key, rest);
    let earlier = earlier->Ok_0;
    let last = keys.len() - 1;
    import_returns_the_added_keys(state, keys, backup_root_key, rewraps);
    import_returns_the_added_keys(state, shorter, backup_root_key, rest);
    importing_only_adds_keys(state, shorter, backup_root_key, rest);
    let place = choose|place: int|
        0 <= place < shorter.len() && (#[trigger] shorter[place]).uuid == earlier[i].uuid;
    if j < earlier.len() {
        let other = choose|other: int|
            0 <= other < shorter.len() && (#[trigger] shorter[other]).uuid == earlier[j].uuid;
        lemma_added_in_order(state, shorter, backup_root_key, rest, i, j, index_i, index_j);
    } else if index_j < last {
        imported_keys_are_stored(state, shorter, backup_root_key, rest, index_j);
    }
}

/// The nonce and the salt of an added key have the lengths that nonces and salts have.
pub proof fn imported_keys_have_fitting_wraps(
    state: KeyManagerView,
    keys: Seq<StoredKeyView>,
    backup_root_key: Seq<u8>,
    after: KeyManagerView,
    result: Result<Seq<StoredKeyView>>,
    id: u128,
)
    requires
        state.import_leads_to(keys, backup_root_key, after, result),
        after.keystore.contains_key(id),
        !state.keystore.contains_key(id),
    ensures
        after.keystore[id].salt.len() == SALT_LEN,
        after.keystore[id].master_key_nonce.len() == nonce_len(after.keystore[id].algorithm),
{
    let rewraps = choose|rewraps: Seq<RewrapView>| #[trigger]
        rewraps_fit(rewraps, keys) && state.imported(keys, backup_root_key, rewraps) == (
            after,
            result,
        );
    lemma_added_wraps_fit(state, keys, backup_root_key, rewraps, id);
}

proof fn lemma_added_wraps_fit(
    state: KeyManagerView,
    keys: Seq<StoredKeyView>,
    backup_root_key: Seq<u8>,
    rewraps: Seq<RewrapView>,
    id: u128,
)
    requires
        rewraps_fit(rewraps, keys),
        state.imported(keys, backup_root_key, rewraps).0.keystore.contains_key(id),
        !state.keystore.contains_key(id),
    ensures
        ({
            let key = state.imported(keys, backup_root_key, rewraps).0.keystore[id];
            key.salt.len() == SALT_LEN && key.master_key_nonce.len() == nonce_len(key.algorithm)
        }),
    decreases keys.len(),
{
    if keys.len() > 0 {
        let shorter = keys.drop_last();
        let rest = rewraps.drop_last();
        assert(rewraps_fit(rest, shorter));
        let before = state.imported(shorter, backup_root_key, rest).0;
        if before.keystore.contains_key(id) {
            lemma_added_wraps_fit(state, shorter, backup_root_key, rest, id);
        }
    }
}

/// Importing one key: a verification key and a key that is known are passed over; any other is
/// wrapped anew and stored under its identifier, or fails without effect.
pub proof fn importing_one_key(
    state: KeyManagerView,
    key: StoredKeyView,
    backup_root_key: Seq<u8>,
    rewrap: RewrapView,
)
    ensures
        ({
            let outcome = state.imported_one(key, backup_root_key, rewrap);
            if key.uuid == 0 || state.keystore.contains_key(key.uuid) {
                outcome == (state, Ok::<Option<StoredKeyView>, Error>(None))
            } else {
                match rewrapped_key(
                    key,
                    backup_root_key,
                    state.root_key,
                    rewrap.nonce,
                    rewrap.salt,
                ) {
                    Ok(rewrapped) => outcome == (
                        KeyManagerView {
                            keystore: state.keystore.insert(key.uuid, rewrapped),
                            ..state
                        },
                        Ok::<Option<StoredKeyView>, Error>(Some(rewrapped)),
                    ),
                    Err(error) => outcome == (state, Err::<Option<StoredKeyView>, Error>(error)),
                }
            }
        }),
{
}

} // verus!
