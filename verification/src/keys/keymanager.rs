//! The key manager.
//!
//! It keeps track of stored keys, and mounts them on demand.

use vstd::prelude::*;

use crate::crypto::stream::{nonce_len, plaintext_of, Algorithm};
use crate::error::{Error, Result};
use crate::keys::hashing::{key_of, password_hash, secret_bytes, secret_of, HashingAlgorithm};
use crate::keys::key_laws::{no_nil_key_verifies_nothing, the_last_nil_key_verifies};
use crate::keys::laws::{
    loading_adds_new_keys, locking_is_undone_by_unlocking, unlocking_opens_the_verification_key,
};
use crate::keys::model::{
    backup_root_key, enumerates, hash_for, hashed_keys, holds_same_key, lists_in_order,
    master_key_under, mounted_ids, mounted_views, plain_key, rewraps_fit, root_key_is_damaged,
    sealed_key, stands_before, unlocked_root_key, unsealed_root_key, verification_details,
    verification_key_among, verification_key_for, views, KeyManagerView, KeyMaterialView,
    MountedKeyView, RewrapView, StoredKeyView,
};
use crate::keys::sealing::{optional_key_of, stored_key_of, KeyDetails, KeyMaterial};
use crate::keys::store::{
    keymount_clear, keymount_contents, keymount_get, keymount_insert, keymount_new, keymount_remove,
    keymount_values, keystore_contains, keystore_contents, keystore_get, keystore_insert,
    keystore_new, keystore_remove, keystore_values, queue_contains, queue_contents, queue_insert,
    queue_new, queue_remove, queue_values,
};
use crate::primitives::{
    generate_master_key, generate_nonce, generate_salt, to_array, OnboardingConfig, BLOCK_SIZE,
    ENCRYPTED_KEY_LEN, KEY_LEN, MASTER_PASSWORD_CONTEXT, ROOT_KEY_CONTEXT, SALT_LEN,
    STREAM_COUNTER_MAX,
};
use crate::protected::Protected;
use crate::uuid::{is_random_uuid, Uuid};

use dashmap::{DashMap, DashSet};

verus! {

/// The layout of a stored key.
#[derive(Clone, Copy, Debug, PartialEq, Eq, Structural)]
pub enum StoredKeyVersion {
    V1,
}

/// A stored key, which can be freely written to a database.
#[derive(PartialEq, Eq)]
pub struct StoredKey {
    /// Identifies the key; shared with the mounted key.
    pub uuid: Uuid,
    pub version: StoredKeyVersion,
    /// The algorithm that encrypts the master key and the key.
    pub algorithm: Algorithm,
    /// The algorithm that hashes the key with the content salt.
    pub hashing_algorithm: HashingAlgorithm,
    /// The salt for file data.
    pub content_salt: [u8; SALT_LEN],
    /// The encrypted master key, which encrypts `key`.
    pub master_key: [u8; ENCRYPTED_KEY_LEN],
    /// The nonce under which the master key is encrypted.
    pub master_key_nonce: Vec<u8>,
    /// The nonce under which `key` is encrypted.
    pub key_nonce: Vec<u8>,
    /// The encrypted key itself.
    pub key: Vec<u8>,
    /// The salt for key derivation.
    pub salt: [u8; SALT_LEN],
    pub memory_only: bool,
    pub automount: bool,
}

impl View for StoredKey {
    type V = StoredKeyView;

    open spec fn view(&self) -> StoredKeyView {
        StoredKeyView {
            uuid: self.uuid@,
            version: self.version,
            algorithm: self.algorithm,
            hashing_algorithm: self.hashing_algorithm,
            content_salt: self.content_salt@,
            master_key: self.master_key@,
            master_key_nonce: self.master_key_nonce@,
            key_nonce: self.key_nonce@,
            key: self.key@,
            salt: self.salt@,
            memory_only: self.memory_only,
            automount: self.automount,
        }
    }
}

impl Clone for StoredKey {
    fn clone(&self) -> (result: Self)
        ensures
            result@ == self@,
    {
        let result = StoredKey {
            uuid: self.uuid,
            version: self.version,
            algorithm: self.algorithm,
            hashing_algorithm: self.hashing_algorithm,
            content_salt: self.content_salt,
            master_key: self.master_key,
            master_key_nonce: self.master_key_nonce.clone(),
            key_nonce: self.key_nonce.clone(),
            key: self.key.clone(),
            salt: self.salt,
            memory_only: self.memory_only,
            automount: self.automount,
        };
        result
    }
}

/// A mounted key, which needs to be kept hidden.
pub struct MountedKey {
    /// Identifies the key; shared with the stored key.
    pub uuid: Uuid,
    /// The key, hashed with the content salt for instant access.
    pub hashed_key: Protected<[u8; KEY_LEN]>,
}

impl View for MountedKey {
    type V = MountedKeyView;

    open spec fn view(&self) -> MountedKeyView {
        MountedKeyView { uuid: self.uuid@, hashed_key: self.hashed_key@@ }
    }
}

impl Clone for MountedKey {
    fn clone(&self) -> (result: Self)
        ensures
            result@ == self@,
    {
        MountedKey { uuid: self.uuid, hashed_key: Protected::new(*self.hashed_key.expose()) }
    }
}

/// The key manager itself.
///
/// It contains the keystore, the keymount, the root key, the verification key, the default key and
/// the queue of keys that are being mounted.
pub struct KeyManager {
    root_key: Option<Protected<[u8; KEY_LEN]>>,
    verification_key: Option<StoredKey>,
    keystore: DashMap<u128, StoredKey>,
    keymount: DashMap<u128, MountedKey>,
    default: Option<Uuid>,
    mounting_queue: DashSet<u128>,
}

impl View for KeyManager {
    type V = KeyManagerView;

    closed spec fn view(&self) -> KeyManagerView {
        KeyManagerView {
            root_key: optional_key_of(self.root_key),
            verification_key: match self.verification_key {
                Some(key) => Some(key@),
                None => None,
            },
            keystore: keystore_contents(self.keystore),
            keymount: keymount_contents(self.keymount),
            default: match self.default {
                Some(uuid) => Some(uuid@),
                None => None,
            },
            queue: queue_contents(self.mounting_queue),
        }
    }
}

/// The stored keys in a result.
pub open spec fn stored_keys_of(result: Result<Vec<StoredKey>>) -> Result<Seq<StoredKeyView>> {
    match result {
        Ok(keys) => Ok(views(keys@)),
        Err(error) => Err(error),
    }
}

/// The optional stored key in a result.
pub open spec fn optional_stored_key_of(result: Result<Option<StoredKey>>) -> Result<
    Option<StoredKeyView>,
> {
    match result {
        Ok(Some(key)) => Ok(Some(key@)),
        Ok(None) => Ok(None),
        Err(error) => Err(error),
    }
}

/// The value of the identifier in a result.
pub open spec fn uuid_of(result: Result<Uuid>) -> Result<u128> {
    match result {
        Ok(uuid) => Ok(uuid@),
        Err(error) => Err(error),
    }
}

/// The mounted key in a result.
pub open spec fn mounted_key_of(result: Result<MountedKey>) -> Result<MountedKeyView> {
    match result {
        Ok(key) => Ok(key@),
        Err(error) => Err(error),
    }
}

/// The bytes of some keys.
pub open spec fn protected_bytes(keys: Seq<Protected<[u8; KEY_LEN]>>) -> Seq<Seq<u8>> {
    Seq::new(keys.len(), |i: int| keys[i]@@)
}

/// The values of some identifiers.
pub open spec fn uuid_values(uuids: Seq<Uuid>) -> Seq<u128> {
    Seq::new(uuids.len(), |i: int| uuids[i]@)
}

/// The UTF-8 bytes of a protected text.
pub open spec fn text_bytes(text: Protected<String>) -> Seq<u8> {
    vstd::utf8::encode_utf8(text@@)
}

/// The UTF-8 bytes of an optional secret key.
pub open spec fn secret_key_bytes(secret_key: Option<Protected<String>>) -> Option<Seq<u8>> {
    match secret_key {
        Some(secret_key) => Some(text_bytes(secret_key)),
        None => None,
    }
}

/// Key `n` is the last of the first `n + 1`.
proof fn lemma_take_next(keys: Seq<StoredKeyView>, n: int)
    requires
        0 <= n < keys.len(),
    ensures
        keys.take(n + 1).drop_last() == keys.take(n),
        keys.take(n + 1).last() == keys[n],
{
}

/// An import that failed on the first `n` keys goes no further.
proof fn lemma_import_stops(
    state: KeyManagerView,
    keys: Seq<StoredKeyView>,
    backup_root_key: Seq<u8>,
    rewraps: Seq<RewrapView>,
    n: int,
)
    requires
        0 <= n <= keys.len(),
        rewraps.len() == keys.len(),
        state.imported(keys.take(n), backup_root_key, rewraps.take(n)).1 is Err,
    ensures
        state.imported(keys, backup_root_key, rewraps) == state.imported(
            keys.take(n),
            backup_root_key,
            rewraps.take(n),
        ),
    decreases keys.len() - n,
{
    if n == keys.len() {
        assert(keys.take(n) =~= keys);
        assert(rewraps.take(n) =~= rewraps);
    } else {
        lemma_take_next(keys, n);
        assert(rewraps.take(n + 1).drop_last() =~= rewraps.take(n));
        lemma_import_stops(state, keys, backup_root_key, rewraps, n + 1);
    }
}

/// Some random values of the right lengths.
spec fn some_rewrap(algorithm: Algorithm) -> RewrapView {
    RewrapView {
        nonce: Seq::new(nonce_len(algorithm), |i: int| 0u8),
        salt: Seq::new(SALT_LEN as nat, |i: int| 0u8),
    }
}

impl KeyManager {
    /// Makes a key manager, with stored keys that were retrieved from a database.
    pub fn new(stored_keys: Vec<StoredKey>) -> (result: Result<Self>)
        ensures
            result matches Ok(key_manager) && key_manager@ == KeyManagerView::empty().populated(
                views(stored_keys@),
            ),
            result matches Ok(key_manager) && key_manager@.valid(),
    {
        let mut key_manager = KeyManager {
            root_key: None,
            verification_key: None,
            keystore: keystore_new(),
            keymount: keymount_new(),
            default: None,
            mounting_queue: queue_new(),
        };
        match key_manager.populate_keystore(stored_keys) {
            Ok(()) => Ok(key_manager),
            Err(error) => Err(error),
        }
    }

    /// Generates everything for a user who sets up a key manager: a root key, and the verification
    /// key that holds it, which should be written to the database.
    pub fn onboarding(config: OnboardingConfig) -> (result: Result<StoredKey>)
        ensures
            exists|material: KeyMaterialView, root_key: Seq<u8>|
                {
                    &&& material.fits(config.algorithm)
                    &&& root_key.len() == KEY_LEN
                    &&& stored_key_of(result) == #[trigger] verification_key_for(
                        text_bytes(config.password),
                        secret_key_bytes(config.secret_key),
                        config.algorithm,
                        config.hashing_algorithm,
                        material,
                        root_key,
                    )
                    &&& result matches Ok(key) ==> unlocked_root_key(
                        key@,
                        text_bytes(config.password),
                        secret_key_bytes(config.secret_key),
                    ) == Ok::<Seq<u8>, Error>(root_key)
                },
            result matches Ok(key) ==> KeyManagerView::empty().populated(seq![key@]).unlocked(
                text_bytes(config.password),
                secret_key_bytes(config.secret_key),
            ).1 is Ok,
            text_bytes(config.password).len() <= u32::MAX && secret_bytes(
                secret_key_bytes(config.secret_key),
            ).len() <= u32::MAX ==> result is Ok,
            result matches Ok(key) ==> {
                &&& key.uuid.value == 0
                &&& key.version == StoredKeyVersion::V1
                &&& key.algorithm == config.algorithm
                &&& key.hashing_algorithm == config.hashing_algorithm
                &&& !key.memory_only
                &&& !key.automount
                &&& key.master_key_nonce@.len() == nonce_len(config.algorithm)
                &&& key.key_nonce@.len() == nonce_len(config.algorithm)
            },
            result matches Ok(key) ==> {
                let hash = password_hash(
                    config.hashing_algorithm,
                    vstd::utf8::encode_utf8(config.password@@),
                    key.content_salt@,
                    match config.secret_key {
                        Some(secret) => Some(vstd::utf8::encode_utf8(secret@@)),
                        None => None,
                    },
                );
                &&& hash is Ok
                &&& unsealed_root_key(hash->Ok_0, key@) is Ok
            },
    {
        let content_salt = generate_salt();
        let root_key = generate_master_key();
        let material = KeyMaterial::generate(config.algorithm, content_salt);
        let ghost drawn = material@;
        let ghost root = root_key@@;
        let ghost password = text_bytes(config.password);
        let ghost secret = secret_key_bytes(config.secret_key);
        let hashed_password = match config.hashing_algorithm.hash(
            Self::convert_secret_key_string(config.password),
            content_salt,
            Self::convert_optional_secret_key(config.secret_key),
        ) {
            Ok(hashed_password) => hashed_password,
            Err(error) => {
                return Err(error);
            },
        };
        let result = Self::seal_root_key(
            hashed_password,
            config.algorithm,
            config.hashing_algorithm,
            material,
            &root_key,
        );
        assert(stored_key_of(result) == verification_key_for(
            password,
            secret,
            config.algorithm,
            config.hashing_algorithm,
            drawn,
            root,
        ));
        proof {
            if result is Ok {
                let key = result->Ok_0@;
                let fresh = KeyManagerView::empty();
                reveal_with_fuel(KeyManagerView::populated, 2);
                unlocking_opens_the_verification_key(fresh.populated(seq![key]), password, secret);
            }
        }
        result
    }

    /// Seals a root key under a hashed master password.
    pub fn seal_root_key(
        hashed_password: Protected<[u8; KEY_LEN]>,
        algorithm: Algorithm,
        hashing_algorithm: HashingAlgorithm,
        material: KeyMaterial,
        root_key: &Protected<[u8; KEY_LEN]>,
    ) -> (result: Result<StoredKey>)
        ensures
            stored_key_of(result) == sealed_key(
                hashed_password@@,
                MASTER_PASSWORD_CONTEXT@,
                verification_details(algorithm, hashing_algorithm),
                material@,
                root_key@@,
            ),
            material@.fits(algorithm) ==> result is Ok,
            result matches Ok(key) ==> unsealed_root_key(hashed_password@@, key@) == Ok::<
                Seq<u8>,
                Error,
            >(root_key@@),
    {
        let details = KeyDetails {
            uuid: Uuid::nil(),
            algorithm,
            hashing_algorithm,
            memory_only: false,
            automount: false,
        };
        StoredKey::seal(
            hashed_password,
            MASTER_PASSWORD_CONTEXT,
            details,
            material,
            root_key.expose().as_slice(),
        )
    }

    /// Loads stored keys. One whose identifier is in the keystore already is passed over, and one
    /// with the nil identifier becomes the verification key.
    ///
    /// This suits a key manager that was made without stored keys.
    pub fn populate_keystore(&mut self, stored_keys: Vec<StoredKey>) -> (result: Result<()>)
        ensures
            result is Ok,
            final(self)@ == old(self)@.populated(views(stored_keys@)),
            old(self)@.valid() ==> final(self)@.valid(),
    {
        let ghost keys = views(stored_keys@);
        let mut i: usize = 0;
        while i < stored_keys.len()
            invariant
                i <= stored_keys@.len(),
                keys == views(stored_keys@),
                self@ == old(self)@.populated(keys.take(i as int)),
            decreases stored_keys@.len() - i,
        {
            proof {
                lemma_take_next(keys, i as int);
            }
            let key = stored_keys[i].clone();
            let id: u128 = key.uuid.as_u128();
            if !keystore_contains(&self.keystore, id) {
                if key.uuid.is_nil() {
                    self.verification_key = Some(key);
                } else {
                    keystore_insert(&mut self.keystore, id, key);
                }
            }
            i = i + 1;
        }
        proof {
            assert(keys.take(i as int) =~= keys);
            if old(self)@.valid() {
                loading_adds_new_keys(old(self)@, keys);
            }
        }
        Ok(())
    }

    /// Removes a key from the keystore and from the keymount, and unsets it as the default.
    pub fn remove_key(&mut self, uuid: Uuid) -> (result: Result<()>)
        ensures
            result is Ok,
            final(self)@ == old(self)@.removed(uuid@),
            old(self)@.valid() ==> final(self)@.valid(),
    {
        if keystore_contains(&self.keystore, uuid.as_u128()) {
            if self.default == Some(uuid) {
                self.default = None;
            }
            let _ = keymount_remove(&mut self.keymount, uuid.as_u128());
            keystore_remove(&mut self.keystore, uuid.as_u128());
        }
        Ok(())
    }

    /// Changes the master password and the secret key: seals the root key in use in a new
    /// verification key.
    pub fn change_master_password(
        &mut self,
        master_password: Protected<String>,
        algorithm: Algorithm,
        hashing_algorithm: HashingAlgorithm,
        secret_key: Option<Protected<String>>,
    ) -> (result: Result<StoredKey>)
        ensures
            exists|material: KeyMaterialView|
                {
                    &&& material.fits(algorithm)
                    &&& (final(self)@, stored_key_of(result)) == #[trigger] old(self)@.rekeyed(
                        text_bytes(master_password),
                        secret_key_bytes(secret_key),
                        algorithm,
                        hashing_algorithm,
                        material,
                    )
                },
            old(self)@.root_key is Some && text_bytes(master_password).len() <= u32::MAX
                && secret_bytes(secret_key_bytes(secret_key)).len() <= u32::MAX ==> result is Ok,
            old(self)@.root_key is None && text_bytes(master_password).len() <= u32::MAX
                && secret_bytes(secret_key_bytes(secret_key)).len() <= u32::MAX ==> {
                &&& result == Err::<StoredKey, Error>(Error::NoMasterPassword)
                &&& final(self)@ == old(self)@
            },
            result matches Ok(key) ==> unlocked_root_key(
                key@,
                text_bytes(master_password),
                secret_key_bytes(secret_key),
            ) == Ok::<Seq<u8>, Error>(old(self)@.root_key->0),
            result is Ok && !old(self)@.queue.contains(0) ==> final(self)@.locked().unlocked(
                text_bytes(master_password),
                secret_key_bytes(secret_key),
            ) == (final(self)@, Ok::<(), Error>(())),
            old(self)@.valid() ==> final(self)@.valid(),
            result matches Ok(key) ==> {
                &&& key.uuid.value == 0
                &&& key.version == StoredKeyVersion::V1
                &&& key.algorithm == algorithm
                &&& key.hashing_algorithm == hashing_algorithm
                &&& !key.memory_only
                &&& !key.automount
                &&& key.master_key_nonce@.len() == nonce_len(algorithm)
                &&& key.key_nonce@.len() == nonce_len(algorithm)
                &&& final(self)@.verification_key == Some(key@)
            },
            result matches Ok(key) ==> {
                let hash = password_hash(
                    hashing_algorithm,
                    vstd::utf8::encode_utf8(master_password@@),
                    key.content_salt@,
                    match secret_key {
                        Some(secret) => Some(vstd::utf8::encode_utf8(secret@@)),
                        None => None,
                    },
                );
                &&& hash is Ok
                &&& unsealed_root_key(hash->Ok_0, key@) == Ok::<Seq<u8>, Error>(
                    old(self)@.root_key->0,
                )
            },
            final(self)@ == (KeyManagerView {
                verification_key: final(self)@.verification_key,
                ..old(self)@
            }),
    {
        let content_salt = generate_salt();
        let material = KeyMaterial::generate(algorithm, content_salt);
        let ghost drawn = material@;
        let ghost password = text_bytes(master_password);
        let ghost secret = secret_key_bytes(secret_key);
        // What comes of the values that were drawn.
        let ghost outcome = self@.rekeyed(password, secret, algorithm, hashing_algorithm, drawn);
        let hashed_password = match hashing_algorithm.hash(
            Self::convert_secret_key_string(master_password),
            content_salt,
            Self::convert_optional_secret_key(secret_key),
        ) {
            Ok(hashed_password) => hashed_password,
            Err(error) => {
                return Err(error);
            },
        };
        let root_key = match self.get_root_key() {
            Ok(root_key) => root_key,
            Err(error) => {
                return Err(error);
            },
        };
        match Self::seal_root_key(
            hashed_password,
            algorithm,
            hashing_algorithm,
            material,
            &root_key,
        ) {
            Ok(verification_key) => {
                self.verification_key = Some(verification_key.clone());
                proof {
                    if !self@.queue.contains(0) {
                        locking_is_undone_by_unlocking(self@, password, secret);
                    }
                }
                Ok(verification_key)
            },
            Err(error) => Err(error),
        }
    }

    /// Re-encrypts the master keys of a key backup, so that the keys become part of this key
    /// manager.
    ///
    /// The password and the secret key are those of the time of the backup. It returns the keys
    /// that were added, so they can be written to a database.
    pub fn import_keystore_backup(
        &mut self,
        master_password: Protected<String>,
        secret_key: Option<Protected<String>>,
        stored_keys: &[StoredKey],
    ) -> (result: Result<Vec<StoredKey>>)
        ensures
            match backup_root_key(
                views(stored_keys@),
                text_bytes(master_password),
                secret_key_bytes(secret_key),
            ) {
                Ok(backup_root_key) => old(self)@.import_leads_to(
                    views(stored_keys@),
                    backup_root_key,
                    final(self)@,
                    stored_keys_of(result),
                ),
                Err(error) => final(self)@ == old(self)@ && result == Err::<Vec<StoredKey>, Error>(
                    error,
                ),
            },
            text_bytes(master_password).len() <= u32::MAX && secret_bytes(
                secret_key_bytes(secret_key),
            ).len() <= u32::MAX ==> {
                result matches Err(error) ==> error != Error::PasswordHash
            },
            old(self)@.valid() ==> final(self)@.valid(),
            forall|index: int|
                0 <= index < stored_keys@.len() && (#[trigger] stored_keys@[index]).uuid.value == 0
                    && (forall|later: int|
                    index < later < stored_keys@.len() ==> (
                    #[trigger] stored_keys@[later]).uuid.value != 0) ==> match unlocked_root_key(
                    stored_keys@[index]@,
                    vstd::utf8::encode_utf8(master_password@@),
                    match secret_key {
                        Some(secret) => Some(vstd::utf8::encode_utf8(secret@@)),
                        None => None,
                    },
                ) {
                    Ok(root_key) => old(self)@.import_leads_to(
                        views(stored_keys@),
                        root_key,
                        final(self)@,
                        stored_keys_of(result),
                    ),
                    Err(error) => final(self)@ == old(self)@ && result == Err::<
                        Vec<StoredKey>,
                        Error,
                    >(error),
                },
            (forall|index: int|
                0 <= index < stored_keys@.len() ==> (
                #[trigger] stored_keys@[index]).uuid.value != 0) ==> {
                &&& final(self)@ == old(self)@
                &&& result == Err::<Vec<StoredKey>, Error>(Error::NoVerificationKey)
            },
    {
        let secret_key = Self::convert_optional_secret_key(secret_key);
        let ghost keys = views(stored_keys@);
        let mut backup_verification_key: Option<&StoredKey> = None;
        let mut i: usize = 0;
        while i < stored_keys.len()
            invariant
                i <= stored_keys@.len(),
                keys == views(stored_keys@),
                verification_key_among(keys.take(i as int)) == (match backup_verification_key {
                    Some(key) => Some(key@),
                    None => None,
                }),
            decreases stored_keys@.len() - i,
        {
            proof {
                lemma_take_next(keys, i as int);
            }
            if stored_keys[i].uuid.is_nil() {
                backup_verification_key = Some(&stored_keys[i]);
            }
            i = i + 1;
        }
        proof {
            assert(keys.take(i as int) =~= keys);
            assert forall|index: int|
                0 <= index < stored_keys@.len() && (#[trigger] stored_keys@[index]).uuid.value == 0
                    && (forall|later: int|
                    index < later < stored_keys@.len() ==> (
                    #[trigger] stored_keys@[later]).uuid.value != 0) implies verification_key_among(
                keys,
            ) == Some(stored_keys@[index]@) by {
                assert forall|later: int| index < later < keys.len() implies (
                #[trigger] keys[later]).uuid != 0 by {
                    assert(keys[later] == stored_keys@[later]@);
                }
                the_last_nil_key_verifies(keys, index);
            }
            if forall|index: int|
                0 <= index < stored_keys@.len() ==> (
                #[trigger] stored_keys@[index]).uuid.value != 0 {
                assert forall|index: int| 0 <= index < keys.len() implies (
                #[trigger] keys[index]).uuid != 0 by {
                    assert(keys[index] == stored_keys@[index]@);
                }
                no_nil_key_verifies_nothing(keys);
            }
        }
        let backup_verification_key = match backup_verification_key {
            Some(key) => key,
            None => {
                return Err(Error::NoVerificationKey);
            },
        };
        match backup_verification_key.unlock_root_key(
            Self::convert_secret_key_string(master_password),
            secret_key,
        ) {
            Ok(backup_root_key) => self.import_keys(stored_keys, backup_root_key),
            Err(error) => Err(error),
        }
    }

    /// Imports the keys of a backup whose root key is known.
    pub fn import_keys(
        &mut self,
        stored_keys: &[StoredKey],
        backup_root_key: Protected<[u8; KEY_LEN]>,
    ) -> (result: Result<Vec<StoredKey>>)
        ensures
            old(self)@.import_leads_to(
                views(stored_keys@),
                backup_root_key@@,
                final(self)@,
                stored_keys_of(result),
            ),
            old(self)@.valid() ==> final(self)@.valid(),
    {
        let ghost keys = views(stored_keys@);
        let ghost before = self@;
        let backup_key: [u8; KEY_LEN] = *backup_root_key.expose();
        let mut added: Vec<StoredKey> = Vec::new();
        let mut i: usize = 0;
        let ghost mut rewraps: Seq<RewrapView> = Seq::empty();
        assert(views(added@) =~= Seq::empty());
        while i < stored_keys.len()
            invariant
                i <= stored_keys@.len(),
                keys == views(stored_keys@),
                before == old(self)@,
                backup_key@ == backup_root_key@@,
                rewraps_fit(rewraps, keys.take(i as int)),
                before.imported(keys.take(i as int), backup_key@, rewraps) == (
                    self@,
                    Ok::<Seq<StoredKeyView>, Error>(views(added@)),
                ),
                before.valid() ==> self@.valid(),
                self@.root_key == before.root_key,
                forall|id: u128| before.keystore.contains_key(id) ==> #[trigger]
                    self@.keystore.contains_key(id),
                forall|id: u128| #[trigger]
                    self@.keystore.contains_key(id) && !before.keystore.contains_key(id)
                        ==> stands_before(keys, id, i as int),
                forall|j: int|
                    0 <= j < i && (#[trigger] keys[j]).uuid != 0 ==> self@.keystore.contains_key(
                        keys[j].uuid,
                    ),
                forall|j: int|
                    0 <= j < i && #[trigger] before.is_new_in(keys, j) ==> {
                        &&& holds_same_key(
                            keys[j],
                            backup_key@,
                            self@.keystore[keys[j].uuid],
                            before.root_key->0,
                        )
                        &&& before.root_key is Some
                        &&& master_key_under(backup_key@, keys[j], ROOT_KEY_CONTEXT@) is Ok
                    },
            decreases stored_keys@.len() - i,
        {
            let key = &stored_keys[i];
            let nonce = generate_nonce(key.algorithm);
            let salt = generate_salt();
            let ghost previous_added = views(added@);
            let ghost rewrap = RewrapView { nonce: nonce@, salt: salt@ };
            let ghost previous_rewraps = rewraps;
            proof {
                lemma_take_next(keys, i as int);
                rewraps = rewraps.push(rewrap);
                assert(rewraps.drop_last() =~= previous_rewraps);
            }
            match self.import_key(key, Protected::new(backup_key), nonce, salt) {
                Ok(Some(rewrapped)) => {
                    added.push(rewrapped);
                    assert(views(added@) =~= previous_added.push(rewrapped@));
                },
                Ok(None) => (),
                Err(error) => {
                    proof {
                        let all = rewraps + Seq::new(
                            (keys.len() - (i + 1)) as nat,
                            |j: int| some_rewrap(keys[i + 1 + j].algorithm),
                        );
                        assert(all.take(i + 1) =~= rewraps);
                        assert(rewraps_fit(all, keys));
                        lemma_import_stops(before, keys, backup_key@, all, i + 1);
                        assert(before.is_new_in(keys, i as int));
                        assert(before.import_stops_at(keys, backup_key@, i as int, self@, error));
                    }
                    return Err(error);
                },
            }
            i = i + 1;
        }
        assert(keys.take(i as int) =~= keys);
        Ok(added)
    }

    /// Imports one key of a backup, with the given nonce and salt for its master key.
    ///
    /// A verification key, and a key that is in the keystore already, are passed over.
    pub fn import_key(
        &mut self,
        key: &StoredKey,
        backup_root_key: Protected<[u8; KEY_LEN]>,
        nonce: Vec<u8>,
        salt: [u8; SALT_LEN],
    ) -> (result: Result<Option<StoredKey>>)
        ensures
            (final(self)@, optional_stored_key_of(result)) == old(self)@.imported_one(
                key@,
                backup_root_key@@,
                RewrapView { nonce: nonce@, salt: salt@ },
            ),
            result matches Ok(Some(rewrapped)) ==> holds_same_key(
                key@,
                backup_root_key@@,
                rewrapped@,
                old(self)@.root_key->0,
            ),
            result is Err <==> {
                &&& key@.uuid != 0
                &&& !old(self)@.keystore.contains_key(key@.uuid)
                &&& old(self)@.root_key is None || nonce@.len() != nonce_len(key.algorithm)
                    || master_key_under(backup_root_key@@, key@, ROOT_KEY_CONTEXT@) is Err
            },
            result matches Err(error) ==> error == if master_key_under(
                backup_root_key@@,
                key@,
                ROOT_KEY_CONTEXT@,
            ) is Err {
                Error::IncorrectPassword
            } else if old(self)@.root_key is None {
                Error::NoMasterPassword
            } else {
                Error::NonceLengthMismatch
            },
            old(self)@.valid() ==> final(self)@.valid(),
    {
        if key.uuid.is_nil() || keystore_contains(&self.keystore, key.uuid.as_u128()) {
            return Ok(None);
        }
        match key.version {
            StoredKeyVersion::V1 => match key.rewrap(
                backup_root_key,
                self.root_key_copy(),
                nonce,
                salt,
            ) {
                Ok(rewrapped) => {
                    let added = rewrapped.clone();
                    keystore_insert(&mut self.keystore, key.uuid.as_u128(), rewrapped);
                    Ok(Some(added))
                },
                Err(error) => Err(error),
            },
        }
    }

    /// Sets the master password: decrypts the root key, which takes both the master password and
    /// the secret key.
    ///
    /// The two are hashed together, so both need to be correct; where one is not, the error does
    /// not tell which.
    ///
    /// `invalidate` is called after each update of the queue: once the nil identifier is in it, and
    /// again once the identifier is out of it, whether or not unlocking succeeded. So a user interface
    /// can follow.
    pub fn set_master_password<F>(
        &mut self,
        master_password: Protected<String>,
        secret_key: Option<Protected<String>>,
        invalidate: F,
    ) -> (result: Result<()>) where F: Fn()
        requires
            old(self)@.unlock_begun().1 is Ok ==> call_requires(invalidate, ()),
        ensures
            (final(self)@, result) == old(self)@.unlocked(
                text_bytes(master_password),
                secret_key_bytes(secret_key),
            ),
            old(self)@.unlock_begun().1 is Ok ==> call_ensures(invalidate, (), ()),
            text_bytes(master_password).len() <= u32::MAX && secret_bytes(
                secret_key_bytes(secret_key),
            ).len() <= u32::MAX ==> result != Err::<(), Error>(Error::PasswordHash),
            result is Err ==> final(self)@ == old(self)@ || {
                let hashed_password = hash_for(
                    old(self)@.verification_key->0,
                    text_bytes(master_password),
                    secret_key_bytes(secret_key),
                );
                &&& hashed_password is Ok
                &&& root_key_is_damaged(hashed_password->Ok_0, old(self)@.verification_key->0)
                &&& final(self)@ == old(self)@.unlock_begun().0
            },
            old(self)@.valid() ==> final(self)@.valid(),
            secret_key matches Some(secret) ==> (final(self)@, result) == old(self)@.unlocked(
                vstd::utf8::encode_utf8(master_password@@),
                Some(vstd::utf8::encode_utf8(secret@@)),
            ),
            secret_key is None ==> (final(self)@, result) == old(self)@.unlocked(
                vstd::utf8::encode_utf8(master_password@@),
                None,
            ),
            result is Ok ==> {
                &&& final(self)@.root_key is Some
                &&& final(self)@ == (KeyManagerView {
                    root_key: final(self)@.root_key,
                    ..old(self)@
                })
            },
    {
        self.unlock_notifying(master_password, secret_key, &invalidate, &invalidate)
    }

    /// Sets the master password, and tells of each update of the queue: calls `queued` once the nil
    /// identifier is in it, and `dequeued` once the identifier is out of it, whether or not unlocking
    /// succeeded.
    pub fn unlock_notifying<F, G>(
        &mut self,
        master_password: Protected<String>,
        secret_key: Option<Protected<String>>,
        queued: F,
        dequeued: G,
    ) -> (result: Result<()>) where F: Fn(), G: Fn()
        requires
            old(self)@.unlock_begun().1 is Ok ==> call_requires(queued, ()),
            old(self)@.unlock_begun().1 is Ok ==> call_requires(dequeued, ()),
        ensures
            (final(self)@, result) == old(self)@.unlocked(
                text_bytes(master_password),
                secret_key_bytes(secret_key),
            ),
            old(self)@.unlock_begun().1 is Ok ==> call_ensures(queued, (), ()),
            old(self)@.unlock_begun().1 is Ok && !final(self)@.queue.contains(0) ==> call_ensures(
                dequeued,
                (),
                (),
            ),
            text_bytes(master_password).len() <= u32::MAX && secret_bytes(
                secret_key_bytes(secret_key),
            ).len() <= u32::MAX ==> result != Err::<(), Error>(Error::PasswordHash),
            result is Err ==> final(self)@ == old(self)@ || {
                let hashed_password = hash_for(
                    old(self)@.verification_key->0,
                    text_bytes(master_password),
                    secret_key_bytes(secret_key),
                );
                &&& hashed_password is Ok
                &&& root_key_is_damaged(hashed_password->Ok_0, old(self)@.verification_key->0)
                &&& final(self)@ == old(self)@.unlock_begun().0
            },
            old(self)@.valid() ==> final(self)@.valid(),
            secret_key matches Some(secret) ==> (final(self)@, result) == old(self)@.unlocked(
                vstd::utf8::encode_utf8(master_password@@),
                Some(vstd::utf8::encode_utf8(secret@@)),
            ),
            secret_key is None ==> (final(self)@, result) == old(self)@.unlocked(
                vstd::utf8::encode_utf8(master_password@@),
                None,
            ),
            result is Ok ==> {
                &&& final(self)@.root_key is Some
                &&& final(self)@ == (KeyManagerView {
                    root_key: final(self)@.root_key,
                    ..old(self)@
                })
            },
    {
        let verification_key = match self.begin_unlock() {
            Ok(verification_key) => verification_key,
            Err(error) => {
                return Err(error);
            },
        };
        queued();
        match verification_key.version {
            StoredKeyVersion::V1 => {
                let hashed_password = verification_key.hash_password(
                    Self::convert_secret_key_string(master_password),
                    Self::convert_optional_secret_key(secret_key),
                );
                self.finish_unlock(&verification_key, hashed_password, dequeued)
            },
        }
    }

    /// Goes on with unlocking once the master password was hashed, and calls `dequeued` where the
    /// nil identifier is out of the queue at the end.
    pub fn finish_unlock<F>(
        &mut self,
        verification_key: &StoredKey,
        hashed_password: Result<Protected<[u8; KEY_LEN]>>,
        dequeued: F,
    ) -> (result: Result<()>) where F: Fn()
        requires
            call_requires(dequeued, ()),
        ensures
            (final(self)@, result) == old(self)@.unlock_hashed(
                verification_key@,
                key_of(hashed_password),
            ),
            !final(self)@.queue.contains(0) ==> call_ensures(dequeued, (), ()),
            result is Err && old(self)@.queue.contains(0) ==> final(self)@ == old(self)@.dequeued(0)
                || {
                &&& hashed_password is Ok
                &&& root_key_is_damaged(hashed_password->Ok_0@@, verification_key@)
                &&& final(self)@ == old(self)@
            },
            old(self)@.valid() ==> final(self)@.valid(),
    {
        let result = self.unlock_with_hash(verification_key, hashed_password);
        if !self.is_queued(Uuid::nil()) {
            dequeued();
        }
        result
    }

    /// Starts unlocking: puts the nil identifier into the queue, and returns the verification key.
    ///
    /// This is refused while there is a root key, while unlocking is under way, and where there is
    /// no verification key.
    pub fn begin_unlock(&mut self) -> (result: Result<StoredKey>)
        ensures
            (final(self)@, stored_key_of(result)) == old(self)@.unlock_begun(),
            old(self)@.valid() ==> final(self)@.valid(),
    {
        if self.root_key.is_some() {
            return Err(Error::KeyAlreadyMounted);
        }
        let uuid = Uuid::nil();
        if queue_contains(&self.mounting_queue, uuid.as_u128()) {
            return Err(Error::KeyAlreadyQueued);
        }
        let verification_key = match &self.verification_key {
            Some(key) => key.clone(),
            None => {
                return Err(Error::NoVerificationKey);
            },
        };
        queue_insert(&mut self.mounting_queue, uuid.as_u128());
        Ok(verification_key)
    }

    /// Goes on with unlocking once the master password was hashed.
    pub fn unlock_with_hash(
        &mut self,
        verification_key: &StoredKey,
        hashed_password: Result<Protected<[u8; KEY_LEN]>>,
    ) -> (result: Result<()>)
        ensures
            (final(self)@, result) == old(self)@.unlock_hashed(
                verification_key@,
                key_of(hashed_password),
            ),
            result is Err && old(self)@.queue.contains(0) ==> final(self)@ == old(self)@.dequeued(0)
                || {
                &&& hashed_password is Ok
                &&& root_key_is_damaged(hashed_password->Ok_0@@, verification_key@)
                &&& final(self)@ == old(self)@
            },
            old(self)@.valid() ==> final(self)@.valid(),
    {
        match hashed_password {
            Ok(hashed_password) => {
                let master_key = verification_key.decrypt_master_key(
                    hashed_password,
                    MASTER_PASSWORD_CONTEXT,
                );
                self.unlock_with_master_key(verification_key, master_key)
            },
            Err(error) => {
                let _ = self.remove_from_queue(Uuid::nil());
                Err(error)
            },
        }
    }

    /// Goes on with unlocking once the master key of the verification key was decrypted.
    pub fn unlock_with_master_key(
        &mut self,
        verification_key: &StoredKey,
        master_key: Result<Protected<Vec<u8>>>,
    ) -> (result: Result<()>)
        ensures
            (final(self)@, result) == old(self)@.unlock_master_key(
                verification_key@,
                plaintext_of(master_key),
            ),
            old(self)@.valid() ==> final(self)@.valid(),
    {
        match master_key {
            Ok(master_key) => match to_array::<KEY_LEN>(master_key.into_inner()) {
                Ok(master_key) => {
                    let root_key = verification_key.decrypt_key(Protected::new(master_key));
                    self.unlock_with_root_key(root_key)
                },
                Err(error) => Err(error),
            },
            Err(_) => {
                let _ = self.remove_from_queue(Uuid::nil());
                Err(Error::IncorrectKeymanagerDetails)
            },
        }
    }

    /// Ends unlocking once the root key was decrypted.
    pub fn unlock_with_root_key(&mut self, root_key: Result<Protected<Vec<u8>>>) -> (result: Result<
        (),
    >)
        ensures
            (final(self)@, result) == old(self)@.unlock_root_key(plaintext_of(root_key)),
            old(self)@.valid() ==> final(self)@.valid(),
    {
        match root_key {
            Ok(root_key) => match to_array::<KEY_LEN>(root_key.into_inner()) {
                Ok(root_key) => {
                    self.root_key = Some(Protected::new(root_key));
                    self.remove_from_queue(Uuid::nil())
                },
                Err(error) => {
                    let _ = self.remove_from_queue(Uuid::nil());
                    Err(error)
                },
            },
            Err(error) => Err(error),
        }
    }

    /// Mounts a key: decrypts it and keeps its hash.
    ///
    /// This returns no key by design, so that only what needs the mounted key receives it. Once a
    /// key is mounted, access it with [`KeyManager::access_keymount`].
    pub fn mount(&mut self, uuid: Uuid) -> (result: Result<()>)
        ensures
            (final(self)@, result) == old(self)@.mounting(uuid@),
            ({
                &&& old(self)@.mount_begun(uuid@).1 is Ok
                &&& old(self)@.key(uuid@) is Ok
                &&& old(self)@.key(uuid@)->Ok_0.len() <= u32::MAX
            }) ==> result is Ok,
            result != Err::<(), Error>(Error::VecArrSizeMismatch),
            result is Err && old(self)@.root_key is Some ==> final(self)@ == old(self)@,
            old(self)@.valid() ==> final(self)@.valid(),
    {
        let stored_key = match self.begin_mount(uuid) {
            Ok(stored_key) => stored_key,
            Err(error) => {
                return Err(error);
            },
        };
        match self.open_queued(uuid, &stored_key) {
            Ok(key) => {
                let hashed_key = stored_key.hash_key(key);
                self.mount_with_hash(uuid, &stored_key, hashed_key)
            },
            Err(error) => Err(error),
        }
    }

    /// Starts mounting a key: puts its identifier into the queue, and returns the stored key.
    ///
    /// This is refused for a key that is mounted, is being mounted, or is not in the keystore.
    pub fn begin_mount(&mut self, uuid: Uuid) -> (result: Result<StoredKey>)
        ensures
            (final(self)@, stored_key_of(result)) == old(self)@.mount_begun(uuid@),
            old(self)@.valid() ==> final(self)@.valid(),
    {
        if keymount_get(&self.keymount, uuid.as_u128()).is_some() {
            return Err(Error::KeyAlreadyMounted);
        }
        if queue_contains(&self.mounting_queue, uuid.as_u128()) {
            return Err(Error::KeyAlreadyQueued);
        }
        let stored_key = match keystore_get(&self.keystore, uuid.as_u128()) {
            Some(key) => key,
            None => {
                return Err(Error::KeyNotFound);
            },
        };
        queue_insert(&mut self.mounting_queue, uuid.as_u128());
        Ok(stored_key)
    }

    /// Goes on with mounting a key that is in the queue: decrypts it.
    pub fn open_queued(&mut self, uuid: Uuid, stored_key: &StoredKey) -> (result: Result<
        Protected<Vec<u8>>,
    >)
        ensures
            (final(self)@, plaintext_of(result)) == old(self)@.mount_opened(uuid@, stored_key@),
            old(self)@.root_key matches Some(root_key) ==> plaintext_of(result) == plain_key(
                root_key,
                stored_key@,
            ),
            old(self)@.root_key is Some && result is Err ==> final(self)@ == old(self)@.dequeued(
                uuid@,
            ),
            result matches Err(error) ==> error != Error::VecArrSizeMismatch,
            old(self)@.valid() ==> final(self)@.valid(),
    {
        match stored_key.version {
            StoredKeyVersion::V1 => match self.get_root_key() {
                Ok(root_key) => {
                    let master_key = stored_key.decrypt_master_key(root_key, ROOT_KEY_CONTEXT);
                    self.open_with_master_key(uuid, stored_key, master_key)
                },
                Err(error) => Err(error),
            },
        }
    }

    /// Goes on with decrypting a queued key once its master key was decrypted.
    pub fn open_with_master_key(
        &mut self,
        uuid: Uuid,
        stored_key: &StoredKey,
        master_key: Result<Protected<Vec<u8>>>,
    ) -> (result: Result<Protected<Vec<u8>>>)
        ensures
            (final(self)@, plaintext_of(result)) == old(self)@.mount_master_key(
                uuid@,
                stored_key@,
                plaintext_of(master_key),
            ),
            old(self)@.valid() ==> final(self)@.valid(),
    {
        match master_key {
            Ok(master_key) => match to_array::<KEY_LEN>(master_key.into_inner()) {
                Ok(master_key) => {
                    let key = stored_key.decrypt_key(Protected::new(master_key));
                    self.open_with_key(uuid, key)
                },
                Err(error) => Err(error),
            },
            Err(_) => {
                let _ = self.remove_from_queue(uuid);
                Err(Error::IncorrectPassword)
            },
        }
    }

    /// Ends decrypting a queued key once the outcome is known: a key that does not decrypt leaves
    /// the queue.
    pub fn open_with_key(&mut self, uuid: Uuid, key: Result<Protected<Vec<u8>>>) -> (result: Result<
        Protected<Vec<u8>>,
    >)
        ensures
            (final(self)@, plaintext_of(result)) == old(self)@.mount_key(uuid@, plaintext_of(key)),
            old(self)@.valid() ==> final(self)@.valid(),
    {
        match key {
            Ok(key) => Ok(key),
            Err(error) => {
                let _ = self.remove_from_queue(uuid);
                Err(error)
            },
        }
    }

    /// Ends mounting a key once it was hashed.
    pub fn mount_with_hash(
        &mut self,
        uuid: Uuid,
        stored_key: &StoredKey,
        hashed_key: Result<Protected<[u8; KEY_LEN]>>,
    ) -> (result: Result<()>)
        ensures
            (final(self)@, result) == old(self)@.mount_hashed(
                uuid@,
                stored_key@,
                key_of(hashed_key),
            ),
            old(self)@.valid() && old(self)@.keystore.contains_key(uuid@) && stored_key@.uuid == uuid@
                ==> final(self)@.valid(),
    {
        match hashed_key {
            Ok(hashed_key) => {
                let mounted_key = MountedKey { uuid: stored_key.uuid, hashed_key };
                keymount_insert(&mut self.keymount, uuid.as_u128(), mounted_key);
                self.remove_from_queue(uuid)
            },
            Err(error) => {
                let _ = self.remove_from_queue(uuid);
                Err(error)
            },
        }
    }

    /// The value of a key, decrypted with the root key.
    pub fn get_key(&self, uuid: Uuid) -> (result: Result<Protected<Vec<u8>>>)
        ensures
            plaintext_of(result) == self@.key(uuid@),
            result matches Err(error) ==> error != Error::VecArrSizeMismatch,
            self@.keystore.contains_key(uuid.value) && self@.root_key is Some ==> match plain_key(
                self@.root_key->0,
                self@.keystore[uuid.value],
            ) {
                Ok(key) => result is Ok && result->Ok_0@@ == key,
                Err(error) => result == Err::<Protected<Vec<u8>>, Error>(error),
            },
    {
        match keystore_get(&self.keystore, uuid.as_u128()) {
            Some(stored_key) => match self.get_root_key() {
                Ok(root_key) => stored_key.open_key(root_key),
                Err(error) => Err(error),
            },
            None => Err(Error::KeyNotFound),
        }
    }

    /// Adds a new key to the keystore, under a new identifier, which is returned.
    ///
    /// All salts and nonces are drawn here, but for a content salt that the caller provides. This
    /// does not mount the key. To write it to a database, retrieve it with
    /// [`KeyManager::access_keystore`].
    pub fn add_to_keystore(
        &mut self,
        key: Protected<Vec<u8>>,
        algorithm: Algorithm,
        hashing_algorithm: HashingAlgorithm,
        memory_only: bool,
        automount: bool,
        content_salt: Option<[u8; SALT_LEN]>,
    ) -> (result: Result<Uuid>)
        ensures
            exists|uuid: Uuid, material: KeyMaterialView|
                {
                    &&& is_random_uuid(uuid@)
                    &&& material.fits(algorithm)
                    &&& content_salt matches Some(salt) ==> material.content_salt == salt@
                    &&& (final(self)@, uuid_of(result)) == #[trigger] old(self)@.added(
                        KeyDetails { uuid, algorithm, hashing_algorithm, memory_only, automount },
                        material,
                        key@@,
                    )
                },
            old(self)@.root_key is Some && key@@.len() < BLOCK_SIZE * STREAM_COUNTER_MAX
                ==> result is Ok,
            result matches Ok(uuid) ==> final(self)@.key(uuid@) == Ok::<Seq<u8>, Error>(key@@),
            old(self)@.valid() ==> final(self)@.valid(),
            result matches Ok(uuid) ==> {
                let stored = final(self)@.keystore[uuid.value];
                &&& final(self)@.keystore.contains_key(uuid.value)
                &&& stored.uuid == uuid.value
                &&& stored.version == StoredKeyVersion::V1
                &&& stored.algorithm == algorithm
                &&& stored.hashing_algorithm == hashing_algorithm
                &&& stored.memory_only == memory_only
                &&& stored.automount == automount
                &&& content_salt matches Some(salt) ==> stored.content_salt == salt@
                &&& stored.master_key_nonce.len() == nonce_len(algorithm)
                &&& stored.key_nonce.len() == nonce_len(algorithm)
                &&& final(self)@ == (KeyManagerView {
                    keystore: old(self)@.keystore.insert(uuid.value, stored),
                    ..old(self)@
                })
            },
            result is Err ==> final(self)@ == old(self)@,
            old(self)@.root_key is None ==> result == Err::<Uuid, Error>(Error::NoMasterPassword),
    {
        let uuid = Uuid::new_v4();
        let content_salt = match content_salt {
            Some(content_salt) => content_salt,
            None => generate_salt(),
        };
        let details = KeyDetails { uuid, algorithm, hashing_algorithm, memory_only, automount };
        self.add_sealed(key, details, KeyMaterial::generate(algorithm, content_salt))
    }

    /// Seals a key with the given random values, and adds it to the keystore.
    pub fn add_sealed(
        &mut self,
        key: Protected<Vec<u8>>,
        details: KeyDetails,
        material: KeyMaterial,
    ) -> (result: Result<Uuid>)
        ensures
            (final(self)@, uuid_of(result)) == old(self)@.added(details, material@, key@@),
            old(self)@.root_key is Some && material@.fits(details.algorithm) && key@@.len()
                < BLOCK_SIZE * STREAM_COUNTER_MAX ==> result is Ok,
            result is Ok && material@.fits(details.algorithm) ==> final(self)@.key(details.uuid@)
                == Ok::<Seq<u8>, Error>(key@@),
            old(self)@.valid() && details.uuid@ != 0 ==> final(self)@.valid(),
            result matches Ok(uuid) ==> {
                let stored = final(self)@.keystore[uuid.value];
                &&& uuid == details.uuid
                &&& final(self)@.keystore.contains_key(uuid.value)
                &&& stored.uuid == uuid.value
                &&& stored.version == StoredKeyVersion::V1
                &&& stored.algorithm == details.algorithm
                &&& stored.hashing_algorithm == details.hashing_algorithm
                &&& stored.memory_only == details.memory_only
                &&& stored.automount == details.automount
                &&& stored.content_salt == material.content_salt@
                &&& stored.salt == material.salt@
                &&& stored.master_key_nonce == material.master_key_nonce@
                &&& stored.key_nonce == material.key_nonce@
            },
    {
        let root_key = match self.get_root_key() {
            Ok(root_key) => root_key,
            Err(error) => {
                return Err(error);
            },
        };
        match StoredKey::seal(
            root_key,
            ROOT_KEY_CONTEXT,
            details,
            material,
            key.expose().as_slice(),
        ) {
            Ok(stored_key) => {
                keystore_insert(&mut self.keystore, details.uuid.as_u128(), stored_key);
                Ok(details.uuid)
            },
            Err(error) => Err(error),
        }
    }

    /// The bytes of a secret key.
    fn convert_secret_key_string(secret_key: Protected<String>) -> (result: Protected<Vec<u8>>)
        ensures
            result@@ == text_bytes(secret_key),
    {
        Protected::new(vstd::slice::slice_to_vec(secret_key.expose().as_str().as_bytes()))
    }

    /// The bytes of a secret key, where there is one.
    fn convert_optional_secret_key(secret_key: Option<Protected<String>>) -> (result: Option<
        Protected<Vec<u8>>,
    >)
        ensures
            secret_of(result) == secret_key_bytes(secret_key),
    {
        match secret_key {
            Some(secret_key) => Some(Self::convert_secret_key_string(secret_key)),
            None => None,
        }
    }

    /// Accesses a mounted key.
    pub fn access_keymount(&self, uuid: Uuid) -> (result: Result<MountedKey>)
        ensures
            mounted_key_of(result) == self@.mounted(uuid@),
            self@.keymount.contains_key(uuid.value) ==> {
                &&& result is Ok
                &&& result->Ok_0.uuid.value == self@.keymount[uuid.value].uuid
                &&& result->Ok_0.hashed_key@@ == self@.keymount[uuid.value].hashed_key
            },
            !self@.keymount.contains_key(uuid.value) ==> result == Err::<MountedKey, Error>(
                Error::KeyNotFound,
            ),
    {
        match keymount_get(&self.keymount, uuid.as_u128()) {
            Some(key) => Ok(key),
            None => Err(Error::KeyNotFound),
        }
    }

    /// Accesses a stored key.
    pub fn access_keystore(&self, uuid: Uuid) -> (result: Result<StoredKey>)
        ensures
            stored_key_of(result) == self@.stored(uuid@),
            self@.keystore.contains_key(uuid.value) ==> {
                &&& result is Ok
                &&& result->Ok_0@ == self@.keystore[uuid.value]
            },
            !self@.keystore.contains_key(uuid.value) ==> result == Err::<StoredKey, Error>(
                Error::KeyNotFound,
            ),
    {
        match keystore_get(&self.keystore, uuid.as_u128()) {
            Some(key) => Ok(key),
            None => Err(Error::KeyNotFound),
        }
    }

    /// Sets the default key.
    pub fn set_default(&mut self, uuid: Uuid) -> (result: Result<()>)
        ensures
            (final(self)@, result) == old(self)@.with_default(uuid@),
            old(self)@.valid() ==> final(self)@.valid(),
    {
        if keystore_contains(&self.keystore, uuid.as_u128()) {
            self.default = Some(uuid);
            Ok(())
        } else {
            Err(Error::KeyNotFound)
        }
    }

    /// The identifier of the default key.
    pub fn get_default(&self) -> (result: Result<Uuid>)
        ensures
            uuid_of(result) == self@.default_key(),
            self@.default matches Some(id) ==> result == Ok::<Uuid, Error>(Uuid { value: id }),
            self@.default is None ==> result == Err::<Uuid, Error>(Error::NoDefaultKeySet),
    {
        match self.default {
            Some(uuid) => Ok(uuid),
            None => Err(Error::NoDefaultKeySet),
        }
    }

    /// The root key, for use by the key manager alone.
    fn get_root_key(&self) -> (result: Result<Protected<[u8; KEY_LEN]>>)
        ensures
            key_of(result) == (match self@.root_key {
                Some(root_key) => Ok::<Seq<u8>, Error>(root_key),
                None => Err(Error::NoMasterPassword),
            }),
    {
        match self.root_key_copy() {
            Some(root_key) => Ok(root_key),
            None => Err(Error::NoMasterPassword),
        }
    }

    /// A copy of the root key, where there is one.
    fn root_key_copy(&self) -> (result: Option<Protected<[u8; KEY_LEN]>>)
        ensures
            optional_key_of(result) == self@.root_key,
    {
        match &self.root_key {
            Some(root_key) => Some(Protected::new(*root_key.expose())),
            None => None,
        }
    }

    /// The verification key.
    pub fn get_verification_key(&self) -> (result: Result<StoredKey>)
        ensures
            stored_key_of(result) == (match self@.verification_key {
                Some(key) => Ok::<StoredKeyView, Error>(key),
                None => Err(Error::NoVerificationKey),
            }),
    {
        match &self.verification_key {
            Some(key) => Ok(key.clone()),
            None => Err(Error::NoVerificationKey),
        }
    }

    /// Whether a key is kept in memory only.
    pub fn is_memory_only(&self, uuid: Uuid) -> (result: Result<bool>)
        ensures
            result == (match self@.stored(uuid@) {
                Ok(key) => Ok::<bool, Error>(key.memory_only),
                Err(error) => Err(error),
            }),
            self@.keystore.contains_key(uuid.value) ==> result == Ok::<bool, Error>(
                self@.keystore[uuid.value].memory_only,
            ),
            !self@.keystore.contains_key(uuid.value) ==> result == Err::<bool, Error>(
                Error::KeyNotFound,
            ),
    {
        match keystore_get(&self.keystore, uuid.as_u128()) {
            Some(key) => Ok(key.memory_only),
            None => Err(Error::KeyNotFound),
        }
    }

    /// Changes whether a key is to be mounted automatically.
    pub fn change_automount_status(&mut self, uuid: Uuid, status: bool) -> (result: Result<()>)
        ensures
            (final(self)@, result) == old(self)@.with_automount(uuid@, status),
            old(self)@.valid() ==> final(self)@.valid(),
    {
        let mut updated_key = match keystore_get(&self.keystore, uuid.as_u128()) {
            Some(key) => key,
            None => {
                return Err(Error::KeyNotFound);
            },
        };
        updated_key.automount = status;
        keystore_remove(&mut self.keystore, uuid.as_u128());
        keystore_insert(&mut self.keystore, uuid.as_u128(), updated_key);
        Ok(())
    }

    /// All hashed keys that are mounted, in no particular order.
    ///
    /// These are ideal for handing to decryption functions, as each attempt takes little time: it
    /// is not necessary to keep track of which key belongs to which file.
    #[must_use]
    pub fn enumerate_hashed_keys(&self) -> (result: Vec<Protected<[u8; KEY_LEN]>>)
        ensures
            enumerates(protected_bytes(result@), hashed_keys(self@.keymount)),
    {
        let mounted_keys = keymount_values(&self.keymount);
        let ghost mounted = mounted_views(mounted_keys@);
        let mut hashed: Vec<Protected<[u8; KEY_LEN]>> = Vec::new();
        let mut i: usize = 0;
        while i < mounted_keys.len()
            invariant
                i <= mounted_keys@.len(),
                mounted == mounted_views(mounted_keys@),
                hashed@.len() == i,
                forall|j: int| 0 <= j < i ==> (#[trigger] hashed@[j])@@ == mounted[j].hashed_key,
            decreases mounted_keys@.len() - i,
        {
            hashed.push(Protected::new(*mounted_keys[i].hashed_key.expose()));
            i = i + 1;
        }
        proof {
            let order = choose|order: Seq<u128>| lists_in_order(mounted, self@.keymount, order);
            assert(hashed_keys(self@.keymount).dom() =~= self@.keymount.dom());
            assert(lists_in_order(protected_bytes(hashed@), hashed_keys(self@.keymount), order));
        }
        hashed
    }

    /// Turns a key that is kept in memory only into one that is saved.
    ///
    /// The returned key needs to be written to the database.
    pub fn sync_to_database(&mut self, uuid: Uuid) -> (result: Result<StoredKey>)
        ensures
            (final(self)@, stored_key_of(result)) == old(self)@.synced(uuid@),
            old(self)@.valid() ==> final(self)@.valid(),
    {
        match self.is_memory_only(uuid) {
            Ok(true) => (),
            Ok(false) => {
                return Err(Error::KeyNotMemoryOnly);
            },
            Err(error) => {
                return Err(error);
            },
        }
        let mut updated_key = match keystore_get(&self.keystore, uuid.as_u128()) {
            Some(key) => key,
            None => {
                return Err(Error::KeyNotFound);
            },
        };
        updated_key.memory_only = false;
        keystore_remove(&mut self.keystore, uuid.as_u128());
        keystore_insert(&mut self.keystore, uuid.as_u128(), updated_key.clone());
        Ok(updated_key)
    }

    /// Forgets the root key, and with it the master password.
    pub fn clear_root_key(&mut self) -> (result: Result<()>)
        ensures
            result is Ok,
            final(self)@ == old(self)@.locked(),
            old(self)@.valid() ==> final(self)@.valid(),
    {
        self.root_key = None;
        Ok(())
    }

    /// Whether there is a master password. What is looked at is the root key.
    pub fn has_master_password(&self) -> (result: Result<bool>)
        ensures
            result == Ok::<bool, Error>(self@.root_key is Some),
    {
        Ok(self.root_key.is_some())
    }

    /// Unmounts all keys.
    pub fn empty_keymount(&mut self)
        ensures
            final(self)@ == old(self)@.all_unmounted(),
            old(self)@.valid() ==> final(self)@.valid(),
    {
        keymount_clear(&mut self.keymount);
    }

    /// Unmounts a key. It stays in the keystore.
    pub fn unmount(&mut self, uuid: Uuid) -> (result: Result<()>)
        ensures
            (final(self)@, result) == old(self)@.unmounted(uuid@),
            old(self)@.valid() ==> final(self)@.valid(),
    {
        let was_mounted = keymount_remove(&mut self.keymount, uuid.as_u128());
        if was_mounted {
            Ok(())
        } else {
            assert(self@.keymount =~= old(self)@.keymount);
            Err(Error::KeyNotMounted)
        }
    }

    /// All stored keys, in no particular order, so they can be written somewhere.
    ///
    /// The database and the keystore should be in sync at all times, but for keys that are kept in
    /// memory only.
    #[must_use]
    pub fn dump_keystore(&self) -> (result: Vec<StoredKey>)
        ensures
            enumerates(views(result@), self@.keystore),
    {
        keystore_values(&self.keystore)
    }

    /// The identifiers of all mounted keys, in no particular order.
    #[must_use]
    pub fn get_mounted_uuids(&self) -> (result: Vec<Uuid>)
        ensures
            enumerates(uuid_values(result@), mounted_ids(self@.keymount)),
    {
        let mounted_keys = keymount_values(&self.keymount);
        let ghost mounted = mounted_views(mounted_keys@);
        let mut uuids: Vec<Uuid> = Vec::new();
        let mut i: usize = 0;
        while i < mounted_keys.len()
            invariant
                i <= mounted_keys@.len(),
                mounted == mounted_views(mounted_keys@),
                uuids@.len() == i,
                forall|j: int| 0 <= j < i ==> (#[trigger] uuids@[j])@ == mounted[j].uuid,
            decreases mounted_keys@.len() - i,
        {
            uuids.push(mounted_keys[i].uuid);
            i = i + 1;
        }
        proof {
            let order = choose|order: Seq<u128>| lists_in_order(mounted, self@.keymount, order);
            assert(mounted_ids(self@.keymount).dom() =~= self@.keymount.dom());
            assert(lists_in_order(uuid_values(uuids@), mounted_ids(self@.keymount), order));
        }
        uuids
    }

    /// The identifiers of all keys that are being mounted, in no particular order.
    pub fn get_queue(&self) -> (result: Vec<Uuid>)
        ensures
            uuid_values(result@).no_duplicates(),
            uuid_values(result@).to_set() == self@.queue,
    {
        let ids = queue_values(&self.mounting_queue);
        let mut uuids: Vec<Uuid> = Vec::new();
        let mut i: usize = 0;
        while i < ids.len()
            invariant
                i <= ids@.len(),
                uuids@.len() == i,
                forall|j: int| 0 <= j < i ==> (#[trigger] uuids@[j])@ == ids@[j],
            decreases ids@.len() - i,
        {
            uuids.push(Uuid::from_u128(ids[i]));
            i = i + 1;
        }
        assert(uuid_values(uuids@) =~= ids@);
        uuids
    }

    /// Whether a key is being mounted.
    pub fn is_queued(&self, uuid: Uuid) -> (result: bool)
        ensures
            result == self@.queue.contains(uuid@),
    {
        queue_contains(&self.mounting_queue, uuid.as_u128())
    }

    /// Takes an identifier out of the queue of keys that are being mounted.
    pub fn remove_from_queue(&mut self, uuid: Uuid) -> (result: Result<()>)
        ensures
            (final(self)@, result) == old(self)@.dequeue(uuid@),
            old(self)@.valid() ==> final(self)@.valid(),
    {
        let removed = queue_remove(&mut self.mounting_queue, uuid.as_u128());
        assert(self@ =~= old(self)@.dequeued(uuid@));
        if removed {
            Ok(())
        } else {
            Err(Error::KeyNotQueued)
        }
    }
}

} // verus!
