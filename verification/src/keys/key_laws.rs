//! What holds of stored keys: of sealing them, opening them and wrapping them anew.

use vstd::prelude::*;

use crate::crypto::stream::{decrypted_bytes, encrypted_bytes, nonce_len, Algorithm};
use crate::error::{Error, Result};
use crate::keys::hashing::{password_hash, HashingAlgorithm};
use crate::keys::keymanager::{MountedKey, StoredKey, StoredKeyVersion};
use crate::keys::model::{
    accepted_master_key, backup_root_key, hash_for, holds_same_key, key_under, master_key_under,
    mounted_views, plain_key, rewrapped_key, root_key_is_damaged, sealed_key, unlocked_root_key,
    unsealed_root_key, verification_details, verification_key_among, verification_key_for, views,
    wrapped_master_key, KeyMaterialView, StoredKeyView,
};
use crate::keys::sealing::{optional_key_of, stored_key_of, KeyDetails, KeyMaterial};
use crate::primitives::{blake3_derived_key, KEY_LEN, MASTER_PASSWORD_CONTEXT, ROOT_KEY_CONTEXT};
use crate::protected::Protected;

verus! {

// What values stand for.

/// A stored key stands for its fields.
pub proof fn stored_keys_stand_for_their_fields(key: StoredKey)
    ensures
        key@.uuid == key.uuid.value,
        key@.version == key.version,
        key@.algorithm == key.algorithm,
        key@.hashing_algorithm == key.hashing_algorithm,
        key@.content_salt == key.content_salt@,
        key@.master_key == key.master_key@,
        key@.master_key_nonce == key.master_key_nonce@,
        key@.key_nonce == key.key_nonce@,
        key@.key == key.key@,
        key@.salt == key.salt@,
        key@.memory_only == key.memory_only,
        key@.automount == key.automount,
{
}

/// A mounted key stands for its identifier and the bytes of its hash.
pub proof fn mounted_keys_stand_for_their_fields(key: MountedKey)
    ensures
        key@.uuid == key.uuid.value,
        key@.hashed_key == key.hashed_key@@,
{
}

/// Key material stands for its fields, and fits where they have the lengths that keys, salts and
/// nonces have.
pub proof fn material_stands_for_its_fields(material: KeyMaterial, algorithm: Algorithm)
    ensures
        material@.content_salt == material.content_salt@,
        material@.salt == material.salt@,
        material@.master_key == material.master_key@@,
        material@.master_key_nonce == material.master_key_nonce@,
        material@.key_nonce == material.key_nonce@,
        material@.fits(algorithm) <==> {
            &&& material.master_key_nonce@.len() == nonce_len(algorithm)
            &&& material.key_nonce@.len() == nonce_len(algorithm)
        },
{
}

/// Several keys stand for what each of them stands for, in their order.
pub proof fn several_keys_stand_for_each(stored: Seq<StoredKey>, mounted: Seq<MountedKey>, i: int)
    ensures
        views(stored).len() == stored.len(),
        mounted_views(mounted).len() == mounted.len(),
        0 <= i < stored.len() ==> views(stored)[i] == stored[i]@,
        0 <= i < mounted.len() ==> mounted_views(mounted)[i] == mounted[i]@,
{
}

/// A result stands for the stored key in it, and an error for itself. An optional key stands for
/// its bytes.
pub proof fn results_stand_for_their_keys(
    result: Result<StoredKey>,
    key: Option<Protected<[u8; KEY_LEN]>>,
)
    ensures
        result matches Ok(stored) ==> stored_key_of(result) == Ok::<StoredKeyView, Error>(stored@),
        result matches Err(error) ==> stored_key_of(result) == Err::<StoredKeyView, Error>(error),
        key matches Some(bytes) ==> optional_key_of(key) == Some(bytes@@),
        key is None ==> optional_key_of(key) is None,
{
}

// Opening.

/// The master key of a stored key is decrypted with the algorithm and the nonce that the stored key
/// names, under a key that is derived from the wrapping key and the salt of the stored key.
pub proof fn master_keys_open_under_a_derived_key(
    wrapping_key: Seq<u8>,
    stored: StoredKeyView,
    context: Seq<char>,
)
    ensures
        master_key_under(wrapping_key, stored, context) == decrypted_bytes(
            stored.algorithm,
            blake3_derived_key(context, wrapping_key + stored.salt),
            stored.master_key_nonce,
            stored.master_key,
            Seq::<u8>::empty(),
        ),
{
}

/// The key inside a stored key is decrypted with the algorithm and the nonce that the stored key
/// names, under the master key.
pub proof fn keys_open_under_their_master_key(master_key: Seq<u8>, stored: StoredKeyView)
    ensures
        key_under(master_key, stored) == decrypted_bytes(
            stored.algorithm,
            master_key,
            stored.key_nonce,
            stored.key,
            Seq::<u8>::empty(),
        ),
{
}

/// A root key that decrypts the master key opens the key; one that does not is taken for the wrong
/// one, whatever the cipher says.
pub proof fn root_keys_open_keys(root_key: Seq<u8>, stored: StoredKeyView)
    ensures
        match master_key_under(root_key, stored, ROOT_KEY_CONTEXT@) {
            Ok(master_key) => {
                &&& master_key.len() == KEY_LEN ==> plain_key(root_key, stored) == key_under(
                    master_key,
                    stored,
                )
                &&& master_key.len() != KEY_LEN ==> plain_key(root_key, stored) == Err::<
                    Seq<u8>,
                    Error,
                >(Error::VecArrSizeMismatch)
            },
            Err(_) => plain_key(root_key, stored) == Err::<Seq<u8>, Error>(
                Error::IncorrectPassword,
            ),
        },
{
}

/// A decrypted master key is accepted as it is if it has the length of a key. A failure to decrypt
/// it means that the password is not the right one.
pub proof fn master_keys_are_accepted_by_length(master_key: Result<Seq<u8>>)
    ensures
        match master_key {
            Ok(bytes) => accepted_master_key(master_key) == if bytes.len() == KEY_LEN {
                Ok::<Seq<u8>, Error>(bytes)
            } else {
                Err::<Seq<u8>, Error>(Error::VecArrSizeMismatch)
            },
            Err(_) => accepted_master_key(master_key) == Err::<Seq<u8>, Error>(
                Error::IncorrectPassword,
            ),
        },
{
}

/// A verification key gives the root key to exactly the hash that decrypts its master key, by a
/// master key that decrypts the root key.
pub proof fn hashes_open_verification_keys(
    hashed_password: Seq<u8>,
    key: StoredKeyView,
    root_key: Seq<u8>,
)
    ensures
        unsealed_root_key(hashed_password, key) == Ok::<Seq<u8>, Error>(root_key) <==> {
            let master_key = master_key_under(hashed_password, key, MASTER_PASSWORD_CONTEXT@);
            &&& master_key is Ok
            &&& master_key->Ok_0.len() == KEY_LEN
            &&& key_under(master_key->Ok_0, key) == Ok::<Seq<u8>, Error>(root_key)
            &&& root_key.len() == KEY_LEN
        },
        master_key_under(hashed_password, key, MASTER_PASSWORD_CONTEXT@) matches Err(error)
            ==> unsealed_root_key(hashed_password, key) == Err::<Seq<u8>, Error>(error),
        master_key_under(hashed_password, key, MASTER_PASSWORD_CONTEXT@) is Err
            ==> !root_key_is_damaged(hashed_password, key),
{
}

/// Once the master key of a verification key is known, a failure is that of decrypting the root
/// key, or a wrong size.
pub proof fn damaged_verification_keys_do_not_open(
    hashed_password: Seq<u8>,
    key: StoredKeyView,
    master_key: Seq<u8>,
)
    requires
        master_key_under(hashed_password, key, MASTER_PASSWORD_CONTEXT@) == Ok::<Seq<u8>, Error>(
            master_key,
        ),
    ensures
        master_key.len() != KEY_LEN ==> unsealed_root_key(hashed_password, key) == Err::<
            Seq<u8>,
            Error,
        >(Error::VecArrSizeMismatch),
        master_key.len() == KEY_LEN ==> match key_under(master_key, key) {
            Ok(root_key) => root_key.len() != KEY_LEN ==> unsealed_root_key(hashed_password, key)
                == Err::<Seq<u8>, Error>(Error::VecArrSizeMismatch),
            Err(error) => unsealed_root_key(hashed_password, key) == Err::<Seq<u8>, Error>(error),
        },
        root_key_is_damaged(hashed_password, key) <==> key_under(master_key, key) is Err,
{
}

/// A verification key is opened with the password and the secret key together, hashed with its own
/// algorithm and its own salt.
pub proof fn passwords_open_verification_keys(
    key: StoredKeyView,
    password: Seq<u8>,
    secret: Option<Seq<u8>>,
)
    ensures
        hash_for(key, password, secret) == password_hash(
            key.hashing_algorithm,
            password,
            key.content_salt,
            secret,
        ),
        match password_hash(key.hashing_algorithm, password, key.content_salt, secret) {
            Ok(hashed_password) => unlocked_root_key(key, password, secret) == unsealed_root_key(
                hashed_password,
                key,
            ),
            Err(error) => unlocked_root_key(key, password, secret) == Err::<Seq<u8>, Error>(error),
        },
{
}

// Sealing.

/// A wrapped master key is the ciphertext of the master key under a key that is derived from the
/// wrapping key and the salt.
pub proof fn master_keys_are_wrapped_under_a_derived_key(
    wrapping_key: Seq<u8>,
    salt: Seq<u8>,
    context: Seq<char>,
    algorithm: Algorithm,
    nonce: Seq<u8>,
    master_key: Seq<u8>,
)
    ensures
        ({
            let wrapped = wrapped_master_key(
                wrapping_key,
                salt,
                context,
                algorithm,
                nonce,
                master_key,
            );
            match encrypted_bytes(
                algorithm,
                blake3_derived_key(context, wrapping_key + salt),
                nonce,
                master_key,
                Seq::<u8>::empty(),
            ) {
                Ok(ciphertext) => {
                    &&& ciphertext.len() == 48 ==> wrapped == Ok::<Seq<u8>, Error>(ciphertext)
                    &&& ciphertext.len() != 48 ==> wrapped == Err::<Seq<u8>, Error>(
                        Error::VecArrSizeMismatch,
                    )
                },
                Err(error) => wrapped == Err::<Seq<u8>, Error>(error),
            }
        }),
{
}

/// A sealed key carries what the caller decided and the random values as they are. It holds the
/// master key, wrapped, and the key, encrypted under the master key.
pub proof fn sealed_keys_carry_what_was_decided(
    wrapping_key: Seq<u8>,
    context: Seq<char>,
    details: KeyDetails,
    material: KeyMaterialView,
    key: Seq<u8>,
    stored: StoredKeyView,
)
    requires
        sealed_key(wrapping_key, context, details, material, key) == Ok::<StoredKeyView, Error>(
            stored,
        ),
    ensures
        stored.uuid == details.uuid.value,
        stored.version == StoredKeyVersion::V1,
        stored.algorithm == details.algorithm,
        stored.hashing_algorithm == details.hashing_algorithm,
        stored.memory_only == details.memory_only,
        stored.automount == details.automount,
        stored.content_salt == material.content_salt,
        stored.salt == material.salt,
        stored.master_key_nonce == material.master_key_nonce,
        stored.key_nonce == material.key_nonce,
        wrapped_master_key(
            wrapping_key,
            stored.salt,
            context,
            details.algorithm,
            stored.master_key_nonce,
            material.master_key,
        ) == Ok::<Seq<u8>, Error>(stored.master_key),
        encrypted_bytes(
            details.algorithm,
            material.master_key,
            stored.key_nonce,
            key,
            Seq::<u8>::empty(),
        ) == Ok::<Seq<u8>, Error>(stored.key),
{
}

/// Sealing fails exactly if the master key cannot be wrapped or the key cannot be encrypted, with
/// the error of the first that fails.
pub proof fn sealing_fails_with_encryption(
    wrapping_key: Seq<u8>,
    context: Seq<char>,
    details: KeyDetails,
    material: KeyMaterialView,
    key: Seq<u8>,
)
    ensures
        ({
            let sealed = sealed_key(wrapping_key, context, details, material, key);
            match wrapped_master_key(
                wrapping_key,
                material.salt,
                context,
                details.algorithm,
                material.master_key_nonce,
                material.master_key,
            ) {
                Ok(_) => match encrypted_bytes(
                    details.algorithm,
                    material.master_key,
                    material.key_nonce,
                    key,
                    Seq::<u8>::empty(),
                ) {
                    Ok(_) => sealed is Ok,
                    Err(error) => sealed == Err::<StoredKeyView, Error>(error),
                },
                Err(error) => sealed == Err::<StoredKeyView, Error>(error),
            }
        }),
{
}

/// A verification key has the nil identifier and no flag set. It seals the root key under the hash
/// of the password and the secret key together.
pub proof fn verification_keys_take_password_and_secret(
    password: Seq<u8>,
    secret: Option<Seq<u8>>,
    algorithm: Algorithm,
    hashing_algorithm: HashingAlgorithm,
    material: KeyMaterialView,
    root_key: Seq<u8>,
)
    ensures
        ({
            let details = verification_details(algorithm, hashing_algorithm);
            &&& details.uuid.value == 0
            &&& details.algorithm == algorithm
            &&& details.hashing_algorithm == hashing_algorithm
            &&& !details.memory_only
            &&& !details.automount
        }),
        ({
            let key = verification_key_for(
                password,
                secret,
                algorithm,
                hashing_algorithm,
                material,
                root_key,
            );
            match password_hash(hashing_algorithm, password, material.content_salt, secret) {
                Ok(hashed_password) => key == sealed_key(
                    hashed_password,
                    MASTER_PASSWORD_CONTEXT@,
                    verification_details(algorithm, hashing_algorithm),
                    material,
                    root_key,
                ),
                Err(error) => key == Err::<StoredKeyView, Error>(error),
            }
        }),
{
}

/// What is sealed opens again: where the cipher gives back what it sealed, the root key opens the
/// sealed key.
pub proof fn sealed_keys_open_again(
    root_key: Seq<u8>,
    details: KeyDetails,
    material: KeyMaterialView,
    key: Seq<u8>,
    stored: StoredKeyView,
)
    requires
        sealed_key(root_key, ROOT_KEY_CONTEXT@, details, material, key) == Ok::<
            StoredKeyView,
            Error,
        >(stored),
        material.master_key.len() == KEY_LEN,
        decrypted_bytes(
            details.algorithm,
            blake3_derived_key(ROOT_KEY_CONTEXT@, root_key + material.salt),
            material.master_key_nonce,
            stored.master_key,
            Seq::<u8>::empty(),
        ) == Ok::<Seq<u8>, Error>(material.master_key),
        decrypted_bytes(
            details.algorithm,
            material.master_key,
            material.key_nonce,
            stored.key,
            Seq::<u8>::empty(),
        ) == Ok::<Seq<u8>, Error>(key),
    ensures
        plain_key(root_key, stored) == Ok::<Seq<u8>, Error>(key),
{
}

// Wrapping anew.

/// A key that is wrapped anew keeps everything but how its master key is wrapped: the new nonce and
/// salt are those that were drawn, and the master key is the same one, under the root key in use.
pub proof fn rewrapped_keys_keep_the_rest(
    stored: StoredKeyView,
    backup_root_key: Seq<u8>,
    root_key: Option<Seq<u8>>,
    nonce: Seq<u8>,
    salt: Seq<u8>,
    rewrapped: StoredKeyView,
)
    requires
        rewrapped_key(stored, backup_root_key, root_key, nonce, salt) == Ok::<StoredKeyView, Error>(
            rewrapped,
        ),
    ensures
        rewrapped.uuid == stored.uuid,
        rewrapped.version == stored.version,
        rewrapped.algorithm == stored.algorithm,
        rewrapped.hashing_algorithm == stored.hashing_algorithm,
        rewrapped.content_salt == stored.content_salt,
        rewrapped.key_nonce == stored.key_nonce,
        rewrapped.key == stored.key,
        rewrapped.memory_only == stored.memory_only,
        rewrapped.automount == stored.automount,
        rewrapped.master_key_nonce == nonce,
        rewrapped.salt == salt,
        root_key is Some,
        master_key_under(backup_root_key, stored, ROOT_KEY_CONTEXT@) is Ok,
        wrapped_master_key(
            root_key->0,
            salt,
            ROOT_KEY_CONTEXT@,
            stored.algorithm,
            nonce,
            master_key_under(backup_root_key, stored, ROOT_KEY_CONTEXT@)->Ok_0,
        ) == Ok::<Seq<u8>, Error>(rewrapped.master_key),
{
}

/// Wrapping anew fails first for a backup root key that does not open the key, then for want of a
/// root key, then with the encryption.
pub proof fn rewrapping_fails_in_order(
    stored: StoredKeyView,
    backup_root_key: Seq<u8>,
    root_key: Option<Seq<u8>>,
    nonce: Seq<u8>,
    salt: Seq<u8>,
)
    ensures
        ({
            let rewrapped = rewrapped_key(stored, backup_root_key, root_key, nonce, salt);
            match accepted_master_key(
                master_key_under(backup_root_key, stored, ROOT_KEY_CONTEXT@),
            ) {
                Ok(master_key) => match root_key {
                    Some(root_key) => match wrapped_master_key(
                        root_key,
                        salt,
                        ROOT_KEY_CONTEXT@,
                        stored.algorithm,
                        nonce,
                        master_key,
                    ) {
                        Ok(_) => rewrapped is Ok,
                        Err(error) => rewrapped == Err::<StoredKeyView, Error>(error),
                    },
                    None => rewrapped == Err::<StoredKeyView, Error>(Error::NoMasterPassword),
                },
                Err(error) => rewrapped == Err::<StoredKeyView, Error>(error),
            }
        }),
{
}

/// What it takes for two stored keys to hold the same key.
pub proof fn same_keys_differ_in_wrapping_alone(
    stored: StoredKeyView,
    backup_root_key: Seq<u8>,
    rewrapped: StoredKeyView,
    root_key: Seq<u8>,
)
    ensures
        holds_same_key(stored, backup_root_key, rewrapped, root_key) <==> {
            &&& rewrapped.uuid == stored.uuid
            &&& rewrapped.version == stored.version
            &&& rewrapped.algorithm == stored.algorithm
            &&& rewrapped.hashing_algorithm == stored.hashing_algorithm
            &&& rewrapped.content_salt == stored.content_salt
            &&& rewrapped.key_nonce == stored.key_nonce
            &&& rewrapped.key == stored.key
            &&& rewrapped.memory_only == stored.memory_only
            &&& rewrapped.automount == stored.automount
            &&& plain_key(root_key, rewrapped) == plain_key(backup_root_key, stored)
        },
{
}

// Backups.

/// The verification key of a backup is the last of its keys that has the nil identifier.
pub proof fn the_last_nil_key_verifies(keys: Seq<StoredKeyView>, index: int)
    requires
        0 <= index < keys.len(),
        keys[index].uuid == 0,
        forall|later: int| index < later < keys.len() ==> (#[trigger] keys[later]).uuid != 0,
    ensures
        verification_key_among(keys) == Some(keys[index]),
    decreases keys.len(),
{
    if index < keys.len() - 1 {
        let shorter = keys.drop_last();
        the_last_nil_key_verifies(shorter, index);
    }
}

/// Keys without the nil identifier among them have no verification key.
pub proof fn no_nil_key_verifies_nothing(keys: Seq<StoredKeyView>)
    requires
        forall|i: int| 0 <= i < keys.len() ==> (#[trigger] keys[i]).uuid != 0,
    ensures
        verification_key_among(keys) is None,
    decreases keys.len(),
{
    if keys.len() > 0 {
        let shorter = keys.drop_last();
        no_nil_key_verifies_nothing(shorter);
    }
}

/// A backup opens with the details that its verification key was sealed under: with the password
/// and the secret key that open that key, the root key of the backup is the one inside it.
pub proof fn backups_open_with_their_details(
    keys: Seq<StoredKeyView>,
    index: int,
    password: Seq<u8>,
    secret: Option<Seq<u8>>,
    root_key: Seq<u8>,
)
    requires
        0 <= index < keys.len(),
        keys[index].uuid == 0,
        forall|later: int| index < later < keys.len() ==> (#[trigger] keys[later]).uuid != 0,
    ensures
        unlocked_root_key(keys[index], password, secret) == Ok::<Seq<u8>, Error>(root_key)
            <==> backup_root_key(keys, password, secret) == Ok::<Seq<u8>, Error>(root_key),
        backup_root_key(keys, password, secret) == unlocked_root_key(keys[index], password, secret),
{
    the_last_nil_key_verifies(keys, index);
}

/// A backup without a verification key does not open.
pub proof fn backups_need_a_verification_key(
    keys: Seq<StoredKeyView>,
    password: Seq<u8>,
    secret: Option<Seq<u8>>,
)
    requires
        forall|i: int| 0 <= i < keys.len() ==> (#[trigger] keys[i]).uuid != 0,
    ensures
        backup_root_key(keys, password, secret) == Err::<Seq<u8>, Error>(Error::NoVerificationKey),
{
    no_nil_key_verifies_nothing(keys);
}

} // verus!
