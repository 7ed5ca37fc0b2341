//! The mathematical model of the key manager.
//!
//! The functions here say what the key manager computes, over byte sequences and finite maps. The
//! contracts in [`crate::keys::keymanager`] are stated in terms of them.

use vstd::prelude::*;

use crate::crypto::stream::{decrypted_bytes, encrypted_bytes, nonce_len, Algorithm};
use crate::error::{Error, Result};
use crate::keys::hashing::{password_hash, HashingAlgorithm};
use crate::keys::keymanager::{MountedKey, StoredKey, StoredKeyVersion};
use crate::keys::sealing::KeyDetails;
use crate::primitives::{derived_key, sized, ENCRYPTED_KEY_LEN, KEY_LEN, LATEST_STORED_KEY,
    MASTER_PASSWORD_CONTEXT, ROOT_KEY_CONTEXT, SALT_LEN};
use crate::uuid::Uuid;

verus! {

/// A stored key.
#[verifier::ext_equal]
pub struct StoredKeyView {
    pub uuid: u128,
    pub version: StoredKeyVersion,
    pub algorithm: Algorithm,
    pub hashing_algorithm: HashingAlgorithm,
    pub content_salt: Seq<u8>,
    pub master_key: Seq<u8>,
    pub master_key_nonce: Seq<u8>,
    pub key_nonce: Seq<u8>,
    pub key: Seq<u8>,
    pub salt: Seq<u8>,
    pub memory_only: bool,
    pub automount: bool,
}

/// The models of some stored keys.
pub open spec fn views(keys: Seq<StoredKey>) -> Seq<StoredKeyView> {
    Seq::new(keys.len(), |i: int| keys[i]@)
}

/// The models of some mounted keys.
pub open spec fn mounted_views(keys: Seq<MountedKey>) -> Seq<MountedKeyView> {
    Seq::new(keys.len(), |i: int| keys[i]@)
}

/// A mounted key.
#[verifier::ext_equal]
pub struct MountedKeyView {
    pub uuid: u128,
    pub hashed_key: Seq<u8>,
}

/// Whether `values` are the values of `map`, each key's value once, in some order.
pub open spec fn enumerates<V>(values: Seq<V>, map: Map<u128, V>) -> bool {
    exists|order: Seq<u128>| #[trigger] lists_in_order(values, map, order)
}

/// Whether `values` are the values of `map`, for its keys in the given order.
pub open spec fn lists_in_order<V>(values: Seq<V>, map: Map<u128, V>, order: Seq<u128>) -> bool {
    &&& order.no_duplicates()
    &&& order.to_set() == map.dom()
    &&& values.len() == order.len()
    &&& forall|i: int| 0 <= i < order.len() ==> #[trigger] values[i] == map[order[i]]
}

/// The hashes of mounted keys.
pub open spec fn hashed_keys(keymount: Map<u128, MountedKeyView>) -> Map<u128, Seq<u8>> {
    keymount.map_values(|key: MountedKeyView| key.hashed_key)
}

/// The identifiers that mounted keys carry.
pub open spec fn mounted_ids(keymount: Map<u128, MountedKeyView>) -> Map<u128, u128> {
    keymount.map_values(|key: MountedKeyView| key.uuid)
}

// Opening stored keys.

/// The master key of `stored`, as it was decrypted under the key that belongs to `wrapping_key` in
/// the given context.
pub open spec fn master_key_under(
    wrapping_key: Seq<u8>,
    stored: StoredKeyView,
    context: Seq<char>,
) -> Result<Seq<u8>> {
    decrypted_bytes(
        stored.algorithm,
        derived_key(wrapping_key, stored.salt, context),
        stored.master_key_nonce,
        stored.master_key,
        Seq::empty(),
    )
}

/// The key inside `stored`, as it was decrypted under a master key.
pub open spec fn key_under(master_key: Seq<u8>, stored: StoredKeyView) -> Result<Seq<u8>> {
    decrypted_bytes(stored.algorithm, master_key, stored.key_nonce, stored.key, Seq::empty())
}

/// What the outcome of decrypting the master key of a stored key means: a failure tells that the
/// root key, and so the password, is not the right one.
pub open spec fn accepted_master_key(master_key: Result<Seq<u8>>) -> Result<Seq<u8>> {
    match master_key {
        Ok(master_key) => sized(master_key, KEY_LEN as nat),
        Err(_) => Err(Error::IncorrectPassword),
    }
}

/// The key inside `stored`, opened with a root key.
pub open spec fn plain_key(root_key: Seq<u8>, stored: StoredKeyView) -> Result<Seq<u8>> {
    match accepted_master_key(master_key_under(root_key, stored, ROOT_KEY_CONTEXT@)) {
        Ok(master_key) => key_under(master_key, stored),
        Err(error) => Err(error),
    }
}

/// The root key inside a verification key, opened with a hashed password.
pub open spec fn unsealed_root_key(
    hashed_password: Seq<u8>,
    verification_key: StoredKeyView,
) -> Result<Seq<u8>> {
    match master_key_under(hashed_password, verification_key, MASTER_PASSWORD_CONTEXT@) {
        Ok(master_key) => match sized(master_key, KEY_LEN as nat) {
            Ok(master_key) => match key_under(master_key, verification_key) {
                Ok(root_key) => sized(root_key, KEY_LEN as nat),
                Err(error) => Err(error),
            },
            Err(error) => Err(error),
        },
        Err(error) => Err(error),
    }
}

/// Whether a hashed password opens the master key of a verification key, and that master key does
/// not open the root key.
pub open spec fn root_key_is_damaged(
    hashed_password: Seq<u8>,
    verification_key: StoredKeyView,
) -> bool {
    let master_key = master_key_under(hashed_password, verification_key, MASTER_PASSWORD_CONTEXT@);
    master_key is Ok && key_under(master_key->Ok_0, verification_key) is Err
}

/// The hash of a password with the salt and the algorithm of a verification key.
pub open spec fn hash_for(
    verification_key: StoredKeyView,
    password: Seq<u8>,
    secret: Option<Seq<u8>>,
) -> Result<Seq<u8>> {
    password_hash(
        verification_key.hashing_algorithm,
        password,
        verification_key.content_salt,
        secret,
    )
}

/// The root key inside a verification key, opened with a password and a secret key.
pub open spec fn unlocked_root_key(
    verification_key: StoredKeyView,
    password: Seq<u8>,
    secret: Option<Seq<u8>>,
) -> Result<Seq<u8>> {
    match hash_for(verification_key, password, secret) {
        Ok(hashed_password) => unsealed_root_key(hashed_password, verification_key),
        Err(error) => Err(error),
    }
}

// Sealing keys.

/// The random values that go into a stored key.
#[verifier::ext_equal]
pub struct KeyMaterialView {
    pub content_salt: Seq<u8>,
    pub salt: Seq<u8>,
    pub master_key: Seq<u8>,
    pub master_key_nonce: Seq<u8>,
    pub key_nonce: Seq<u8>,
}

impl KeyMaterialView {
    /// Whether every value has the length that it is drawn with.
    pub open spec fn fits(self, algorithm: Algorithm) -> bool {
        &&& self.content_salt.len() == SALT_LEN
        &&& self.salt.len() == SALT_LEN
        &&& self.master_key.len() == KEY_LEN
        &&& self.master_key_nonce.len() == nonce_len(algorithm)
        &&& self.key_nonce.len() == nonce_len(algorithm)
    }
}

/// A master key, encrypted under the key that belongs to `wrapping_key` in the given context.
pub open spec fn wrapped_master_key(
    wrapping_key: Seq<u8>,
    salt: Seq<u8>,
    context: Seq<char>,
    algorithm: Algorithm,
    nonce: Seq<u8>,
    master_key: Seq<u8>,
) -> Result<Seq<u8>> {
    match encrypted_bytes(
        algorithm,
        derived_key(wrapping_key, salt, context),
        nonce,
        master_key,
        Seq::empty(),
    ) {
        Ok(ciphertext) => sized(ciphertext, ENCRYPTED_KEY_LEN as nat),
        Err(error) => Err(error),
    }
}

/// The stored key that holds `key`: the key is encrypted under a master key, and the master key
/// under the key that belongs to `wrapping_key` in the given context.
pub open spec fn sealed_key(
    wrapping_key: Seq<u8>,
    context: Seq<char>,
    details: KeyDetails,
    material: KeyMaterialView,
    key: Seq<u8>,
) -> Result<StoredKeyView> {
    match wrapped_master_key(
        wrapping_key,
        material.salt,
        context,
        details.algorithm,
        material.master_key_nonce,
        material.master_key,
    ) {
        Ok(master_key) => match encrypted_bytes(
            details.algorithm,
            material.master_key,
            material.key_nonce,
            key,
            Seq::empty(),
        ) {
            Ok(key) => Ok(
                StoredKeyView {
                    uuid: details.uuid@,
                    version: LATEST_STORED_KEY,
                    algorithm: details.algorithm,
                    hashing_algorithm: details.hashing_algorithm,
                    content_salt: material.content_salt,
                    master_key,
                    master_key_nonce: material.master_key_nonce,
                    key_nonce: material.key_nonce,
                    key,
                    salt: material.salt,
                    memory_only: details.memory_only,
                    automount: details.automount,
                },
            ),
            Err(error) => Err(error),
        },
        Err(error) => Err(error),
    }
}

/// What identifies a verification key, besides the algorithms in use.
pub open spec fn verification_details(
    algorithm: Algorithm,
    hashing_algorithm: HashingAlgorithm,
) -> KeyDetails {
    KeyDetails {
        uuid: Uuid { value: 0 },
        algorithm,
        hashing_algorithm,
        memory_only: false,
        automount: false,
    }
}

/// The verification key that holds `root_key` and that a password and a secret key open.
pub open spec fn verification_key_for(
    password: Seq<u8>,
    secret: Option<Seq<u8>>,
    algorithm: Algorithm,
    hashing_algorithm: HashingAlgorithm,
    material: KeyMaterialView,
    root_key: Seq<u8>,
) -> Result<StoredKeyView> {
    match password_hash(hashing_algorithm, password, material.content_salt, secret) {
        Ok(hashed_password) => sealed_key(
            hashed_password,
            MASTER_PASSWORD_CONTEXT@,
            verification_details(algorithm, hashing_algorithm),
            material,
            root_key,
        ),
        Err(error) => Err(error),
    }
}

/// `stored` with its master key encrypted anew: opened with the root key of a backup, and wrapped
/// under the root key in use, where there is one.
pub open spec fn rewrapped_key(
    stored: StoredKeyView,
    backup_root_key: Seq<u8>,
    root_key: Option<Seq<u8>>,
    nonce: Seq<u8>,
    salt: Seq<u8>,
) -> Result<StoredKeyView> {
    match accepted_master_key(master_key_under(backup_root_key, stored, ROOT_KEY_CONTEXT@)) {
        Ok(master_key) => match root_key {
            Some(root_key) => match wrapped_master_key(
                root_key,
                salt,
                ROOT_KEY_CONTEXT@,
                stored.algorithm,
                nonce,
                master_key,
            ) {
                Ok(master_key) => Ok(
                    StoredKeyView { master_key, master_key_nonce: nonce, salt, ..stored },
                ),
                Err(error) => Err(error),
            },
            None => Err(Error::NoMasterPassword),
        },
        Err(error) => Err(error),
    }
}

/// Whether `rewrapped` is `stored` under another root key: the two differ at most in how the master
/// key is wrapped, and the key that they hold is the same.
pub open spec fn holds_same_key(
    stored: StoredKeyView,
    backup_root_key: Seq<u8>,
    rewrapped: StoredKeyView,
    root_key: Seq<u8>,
) -> bool {
    &&& rewrapped == (StoredKeyView {
        master_key: rewrapped.master_key,
        master_key_nonce: rewrapped.master_key_nonce,
        salt: rewrapped.salt,
        ..stored
    })
    &&& plain_key(root_key, rewrapped) == plain_key(backup_root_key, stored)
}

/// The verification key among some stored keys: the last one with the nil identifier.
pub open spec fn verification_key_among(keys: Seq<StoredKeyView>) -> Option<StoredKeyView>
    decreases keys.len(),
{
    if keys.len() == 0 {
        None
    } else if keys.last().uuid == 0 {
        Some(keys.last())
    } else {
        verification_key_among(keys.drop_last())
    }
}

/// The root key of a backup, opened with the password and the secret key of the time.
pub open spec fn backup_root_key(
    keys: Seq<StoredKeyView>,
    password: Seq<u8>,
    secret: Option<Seq<u8>>,
) -> Result<Seq<u8>> {
    match verification_key_among(keys) {
        Some(verification_key) => unlocked_root_key(verification_key, password, secret),
        None => Err(Error::NoVerificationKey),
    }
}

// The key manager.

/// The state of a key manager.
#[verifier::ext_equal]
pub struct KeyManagerView {
    pub root_key: Option<Seq<u8>>,
    pub verification_key: Option<StoredKeyView>,
    pub keystore: Map<u128, StoredKeyView>,
    pub keymount: Map<u128, MountedKeyView>,
    pub default: Option<u128>,
    pub queue: Set<u128>,
}

/// The random values for one key of a backup.
pub struct RewrapView {
    pub nonce: Seq<u8>,
    pub salt: Seq<u8>,
}

impl KeyManagerView {
    /// A key manager that knows nothing.
    pub open spec fn empty() -> Self {
        KeyManagerView {
            root_key: None,
            verification_key: None,
            keystore: Map::empty(),
            keymount: Map::empty(),
            default: None,
            queue: Set::empty(),
        }
    }

    /// What holds of a new key manager, and of one that is used by whole operations: every key is
    /// filed under its own identifier, the nil identifier belongs to the verification key alone, and
    /// only keys in the keystore are mounted or the default.
    ///
    /// Two steps keep this on a condition: adding a key under a given identifier, where it is not
    /// nil, and ending to mount a key, where it is the one in the keystore.
    pub open spec fn valid(self) -> bool {
        &&& self.root_key matches Some(root_key) ==> root_key.len() == KEY_LEN
        &&& self.verification_key matches Some(key) ==> key.uuid == 0
        &&& forall|id: u128| #[trigger]
            self.keystore.contains_key(id) ==> id != 0 && self.keystore[id].uuid == id
        &&& forall|id: u128| #[trigger]
            self.keymount.contains_key(id) ==> self.keystore.contains_key(id)
                && self.keymount[id].uuid == id && self.keymount[id].hashed_key.len() == KEY_LEN
        &&& self.default matches Some(id) ==> self.keystore.contains_key(id)
    }

    /// The state without `id` in the mounting queue.
    pub open spec fn dequeued(self, id: u128) -> Self {
        KeyManagerView { queue: self.queue.remove(id), ..self }
    }

    /// The state with `key` in the keystore.
    pub open spec fn with_stored(self, id: u128, key: StoredKeyView) -> Self {
        KeyManagerView { keystore: self.keystore.insert(id, key), ..self }
    }

    /// The state after one stored key was loaded.
    pub open spec fn populated_with(self, key: StoredKeyView) -> Self {
        if self.keystore.contains_key(key.uuid) {
            self
        } else if key.uuid == 0 {
            KeyManagerView { verification_key: Some(key), ..self }
        } else {
            self.with_stored(key.uuid, key)
        }
    }

    /// The state after some stored keys were loaded, one after the other.
    pub open spec fn populated(self, keys: Seq<StoredKeyView>) -> Self
        decreases keys.len(),
    {
        if keys.len() == 0 {
            self
        } else {
            self.populated(keys.drop_last()).populated_with(keys.last())
        }
    }

    /// The state after a key was removed everywhere.
    pub open spec fn removed(self, id: u128) -> Self {
        if self.keystore.contains_key(id) {
            KeyManagerView {
                keystore: self.keystore.remove(id),
                keymount: self.keymount.remove(id),
                default: if self.default == Some(id) {
                    None
                } else {
                    self.default
                },
                ..self
            }
        } else {
            self
        }
    }

    /// The stored key with this identifier.
    pub open spec fn stored(self, id: u128) -> Result<StoredKeyView> {
        if self.keystore.contains_key(id) {
            Ok(self.keystore[id])
        } else {
            Err(Error::KeyNotFound)
        }
    }

    /// The mounted key with this identifier.
    pub open spec fn mounted(self, id: u128) -> Result<MountedKeyView> {
        if self.keymount.contains_key(id) {
            Ok(self.keymount[id])
        } else {
            Err(Error::KeyNotFound)
        }
    }

    /// The key value with this identifier.
    pub open spec fn key(self, id: u128) -> Result<Seq<u8>> {
        match self.stored(id) {
            Ok(stored) => match self.root_key {
                Some(root_key) => plain_key(root_key, stored),
                None => Err(Error::NoMasterPassword),
            },
            Err(error) => Err(error),
        }
    }

    /// Makes `id` the default.
    pub open spec fn with_default(self, id: u128) -> (Self, Result<()>) {
        if self.keystore.contains_key(id) {
            (KeyManagerView { default: Some(id), ..self }, Ok(()))
        } else {
            (self, Err(Error::KeyNotFound))
        }
    }

    /// The identifier of the default key.
    pub open spec fn default_key(self) -> Result<u128> {
        match self.default {
            Some(id) => Ok(id),
            None => Err(Error::NoDefaultKeySet),
        }
    }

    /// Sets the automount flag of a stored key.
    pub open spec fn with_automount(self, id: u128, status: bool) -> (Self, Result<()>) {
        match self.stored(id) {
            Ok(stored) => (
                self.with_stored(id, StoredKeyView { automount: status, ..stored }),
                Ok(()),
            ),
            Err(error) => (self, Err(error)),
        }
    }

    /// Clears the memory-only flag of a stored key.
    pub open spec fn synced(self, id: u128) -> (Self, Result<StoredKeyView>) {
        match self.stored(id) {
            Ok(stored) => if stored.memory_only {
                let saved = StoredKeyView { memory_only: false, ..stored };
                (self.with_stored(id, saved), Ok(saved))
            } else {
                (self, Err(Error::KeyNotMemoryOnly))
            },
            Err(error) => (self, Err(error)),
        }
    }

    /// The state without a root key.
    pub open spec fn locked(self) -> Self {
        KeyManagerView { root_key: None, ..self }
    }

    /// Takes a key out of the keymount.
    pub open spec fn unmounted(self, id: u128) -> (Self, Result<()>) {
        if self.keymount.contains_key(id) {
            (KeyManagerView { keymount: self.keymount.remove(id), ..self }, Ok(()))
        } else {
            (self, Err(Error::KeyNotMounted))
        }
    }

    /// The state with nothing in the keymount.
    pub open spec fn all_unmounted(self) -> Self {
        KeyManagerView { keymount: Map::empty(), ..self }
    }

    /// Takes `id` out of the mounting queue.
    pub open spec fn dequeue(self, id: u128) -> (Self, Result<()>) {
        (
            self.dequeued(id),
            if self.queue.contains(id) {
                Ok(())
            } else {
                Err(Error::KeyNotQueued)
            },
        )
    }

    /// The state and the outcome after a master password was changed.
    pub open spec fn rekeyed(
        self,
        password: Seq<u8>,
        secret: Option<Seq<u8>>,
        algorithm: Algorithm,
        hashing_algorithm: HashingAlgorithm,
        material: KeyMaterialView,
    ) -> (Self, Result<StoredKeyView>) {
        match password_hash(hashing_algorithm, password, material.content_salt, secret) {
            Ok(_) => match self.root_key {
                Some(root_key) => match verification_key_for(
                    password,
                    secret,
                    algorithm,
                    hashing_algorithm,
                    material,
                    root_key,
                ) {
                    Ok(key) => (KeyManagerView { verification_key: Some(key), ..self }, Ok(key)),
                    Err(error) => (self, Err(error)),
                },
                None => (self, Err(Error::NoMasterPassword)),
            },
            Err(error) => (self, Err(error)),
        }
    }

    // Unlocking.

    /// Whether unlocking can start. If so, the nil identifier is queued, and the verification key
    /// is what there is to open.
    pub open spec fn unlock_begun(self) -> (Self, Result<StoredKeyView>) {
        if self.root_key is Some {
            (self, Err(Error::KeyAlreadyMounted))
        } else if self.queue.contains(0) {
            (self, Err(Error::KeyAlreadyQueued))
        } else {
            match self.verification_key {
                Some(key) => (KeyManagerView { queue: self.queue.insert(0), ..self }, Ok(key)),
                None => (self, Err(Error::NoVerificationKey)),
            }
        }
    }

    /// How unlocking goes on once the password was hashed.
    pub open spec fn unlock_hashed(
        self,
        verification_key: StoredKeyView,
        hashed_password: Result<Seq<u8>>,
    ) -> (Self, Result<()>) {
        match hashed_password {
            Ok(hashed_password) => self.unlock_master_key(
                verification_key,
                master_key_under(hashed_password, verification_key, MASTER_PASSWORD_CONTEXT@),
            ),
            Err(error) => (self.dequeued(0), Err(error)),
        }
    }

    /// How unlocking goes on once the master key of the verification key was decrypted.
    pub open spec fn unlock_master_key(
        self,
        verification_key: StoredKeyView,
        master_key: Result<Seq<u8>>,
    ) -> (Self, Result<()>) {
        match master_key {
            Ok(master_key) => match sized(master_key, KEY_LEN as nat) {
                Ok(master_key) => self.unlock_root_key(key_under(master_key, verification_key)),
                Err(error) => (self, Err(error)),
            },
            Err(_) => (self.dequeued(0), Err(Error::IncorrectKeymanagerDetails)),
        }
    }

    /// How unlocking ends once the root key was decrypted.
    pub open spec fn unlock_root_key(self, root_key: Result<Seq<u8>>) -> (Self, Result<()>) {
        match root_key {
            Ok(root_key) => match sized(root_key, KEY_LEN as nat) {
                Ok(root_key) => (KeyManagerView { root_key: Some(root_key), ..self }).dequeue(0),
                Err(error) => (self.dequeued(0), Err(error)),
            },
            Err(error) => (self, Err(error)),
        }
    }

    /// Unlocking as a whole.
    pub open spec fn unlocked(self, password: Seq<u8>, secret: Option<Seq<u8>>) -> (
        Self,
        Result<()>,
    ) {
        let (begun, verification_key) = self.unlock_begun();
        match verification_key {
            Ok(verification_key) => begun.unlock_hashed(
                verification_key,
                hash_for(verification_key, password, secret),
            ),
            Err(error) => (begun, Err(error)),
        }
    }

    // Mounting.

    /// Whether mounting can start. If so, the identifier is queued.
    pub open spec fn mount_begun(self, id: u128) -> (Self, Result<StoredKeyView>) {
        if self.keymount.contains_key(id) {
            (self, Err(Error::KeyAlreadyMounted))
        } else if self.queue.contains(id) {
            (self, Err(Error::KeyAlreadyQueued))
        } else {
            match self.stored(id) {
                Ok(stored) => (KeyManagerView { queue: self.queue.insert(id), ..self }, Ok(stored)),
                Err(error) => (self, Err(error)),
            }
        }
    }

    /// Opening a key that is queued.
    pub open spec fn mount_opened(self, id: u128, stored: StoredKeyView) -> (
        Self,
        Result<Seq<u8>>,
    ) {
        match self.root_key {
            Some(root_key) => self.mount_master_key(
                id,
                stored,
                master_key_under(root_key, stored, ROOT_KEY_CONTEXT@),
            ),
            None => (self, Err(Error::NoMasterPassword)),
        }
    }

    /// How opening a queued key goes on once its master key was decrypted.
    pub open spec fn mount_master_key(
        self,
        id: u128,
        stored: StoredKeyView,
        master_key: Result<Seq<u8>>,
    ) -> (Self, Result<Seq<u8>>) {
        match master_key {
            Ok(master_key) => match sized(master_key, KEY_LEN as nat) {
                Ok(master_key) => self.mount_key(id, key_under(master_key, stored)),
                Err(error) => (self, Err(error)),
            },
            Err(_) => (self.dequeued(id), Err(Error::IncorrectPassword)),
        }
    }

    /// How opening a queued key ends once it was decrypted.
    pub open spec fn mount_key(self, id: u128, key: Result<Seq<u8>>) -> (Self, Result<Seq<u8>>) {
        match key {
            Ok(key) => (self, Ok(key)),
            Err(error) => (self.dequeued(id), Err(error)),
        }
    }

    /// How mounting ends once the key was hashed.
    pub open spec fn mount_hashed(
        self,
        id: u128,
        stored: StoredKeyView,
        hashed_key: Result<Seq<u8>>,
    ) -> (Self, Result<()>) {
        match hashed_key {
            Ok(hashed_key) => (KeyManagerView {
                keymount: self.keymount.insert(
                    id,
                    MountedKeyView { uuid: stored.uuid, hashed_key },
                ),
                ..self
            }).dequeue(id),
            Err(error) => (self.dequeued(id), Err(error)),
        }
    }

    /// Mounting as a whole.
    pub open spec fn mounting(self, id: u128) -> (Self, Result<()>) {
        let (begun, stored) = self.mount_begun(id);
        match stored {
            Ok(stored) => {
                let (opened, key) = begun.mount_opened(id, stored);
                match key {
                    Ok(key) => opened.mount_hashed(
                        id,
                        stored,
                        password_hash(stored.hashing_algorithm, key, stored.content_salt, None),
                    ),
                    Err(error) => (opened, Err(error)),
                }
            },
            Err(error) => (begun, Err(error)),
        }
    }

    // Adding.

    /// The state and the outcome after a key was sealed with the given material and added.
    pub open spec fn added(self, details: KeyDetails, material: KeyMaterialView, key: Seq<u8>) -> (
        Self,
        Result<u128>,
    ) {
        match self.root_key {
            Some(root_key) => match sealed_key(
                root_key,
                ROOT_KEY_CONTEXT@,
                details,
                material,
                key,
            ) {
                Ok(stored) => (self.with_stored(details.uuid@, stored), Ok(details.uuid@)),
                Err(error) => (self, Err(error)),
            },
            None => (self, Err(Error::NoMasterPassword)),
        }
    }

    // Importing.

    /// The state, and the keys that were added, after the keys of a backup were imported one after
    /// the other. Import stops at the first key that fails; what came before it stays.
    pub open spec fn imported(
        self,
        keys: Seq<StoredKeyView>,
        backup_root_key: Seq<u8>,
        rewraps: Seq<RewrapView>,
    ) -> (Self, Result<Seq<StoredKeyView>>)
        decreases keys.len(),
    {
        if keys.len() == 0 {
            (self, Ok(Seq::empty()))
        } else {
            let (before, added) = self.imported(
                keys.drop_last(),
                backup_root_key,
                rewraps.drop_last(),
            );
            match added {
                Ok(added) => {
                    let (after, outcome) = before.imported_one(
                        keys.last(),
                        backup_root_key,
                        rewraps.last(),
                    );
                    match outcome {
                        Ok(Some(key)) => (after, Ok(added.push(key))),
                        Ok(None) => (after, Ok(added)),
                        Err(error) => (after, Err(error)),
                    }
                },
                Err(error) => (before, Err(error)),
            }
        }
    }

    /// The state, and the key that was added, if any, after one key of a backup was imported.
    pub open spec fn imported_one(
        self,
        key: StoredKeyView,
        backup_root_key: Seq<u8>,
        rewrap: RewrapView,
    ) -> (Self, Result<Option<StoredKeyView>>) {
        if key.uuid == 0 || self.keystore.contains_key(key.uuid) {
            (self, Ok(None))
        } else {
            match rewrapped_key(key, backup_root_key, self.root_key, rewrap.nonce, rewrap.salt) {
                Ok(rewrapped) => (self.with_stored(key.uuid, rewrapped), Ok(Some(rewrapped))),
                Err(error) => (self, Err(error)),
            }
        }
    }

    /// Whether the key at `index` is one that an import adds: it is no verification key, and its
    /// identifier is neither in the keystore nor that of an earlier key.
    pub open spec fn is_new_in(self, keys: Seq<StoredKeyView>, index: int) -> bool {
        &&& 0 <= index < keys.len()
        &&& keys[index].uuid != 0
        &&& !self.keystore.contains_key(keys[index].uuid)
        &&& forall|earlier: int|
            0 <= earlier < index ==> (#[trigger] keys[earlier]).uuid != keys[index].uuid
    }

    /// Whether every key that an import adds can be opened with the root key of the backup, and
    /// wrapped under a root key in use.
    pub open spec fn can_import(self, keys: Seq<StoredKeyView>, backup_root_key: Seq<u8>) -> bool {
        forall|index: int| #[trigger]
            self.is_new_in(keys, index) ==> self.root_key is Some && master_key_under(
                backup_root_key,
                keys[index],
                ROOT_KEY_CONTEXT@,
            ) is Ok
    }

    /// Whether an import stops at the key at `index`, in the state `after` and with `error`: it is
    /// the first new key that cannot be opened with the root key of the backup or has no root key
    /// to be wrapped under, and exactly the keys before it are in the keystore.
    pub open spec fn import_stops_at(
        self,
        keys: Seq<StoredKeyView>,
        backup_root_key: Seq<u8>,
        index: int,
        after: Self,
        error: Error,
    ) -> bool {
        let master_key = master_key_under(backup_root_key, keys[index], ROOT_KEY_CONTEXT@);
        &&& self.is_new_in(keys, index)
        &&& master_key is Err || self.root_key is None
        &&& error == if master_key is Err {
            Error::IncorrectPassword
        } else {
            Error::NoMasterPassword
        }
        &&& forall|earlier: int|
            earlier < index && #[trigger] self.is_new_in(keys, earlier) ==> self.root_key is Some
                && master_key_under(backup_root_key, keys[earlier], ROOT_KEY_CONTEXT@) is Ok
        &&& forall|id: u128| #[trigger]
            after.keystore.contains_key(id) ==> self.keystore.contains_key(id) || stands_before(
                keys,
                id,
                index,
            )
        &&& forall|id: u128|
            self.keystore.contains_key(id) || #[trigger] stands_before(keys, id, index)
                ==> after.keystore.contains_key(id)
    }

    /// Whether `after` and `result` are what importing `keys` leads to, for some random values.
    pub open spec fn import_leads_to(
        self,
        keys: Seq<StoredKeyView>,
        backup_root_key: Seq<u8>,
        after: Self,
        result: Result<Seq<StoredKeyView>>,
    ) -> bool {
        &&& exists|rewraps: Seq<RewrapView>| #[trigger]
            rewraps_fit(rewraps, keys) && self.imported(keys, backup_root_key, rewraps) == (
                after,
                result,
            )
        &&& result is Ok <==> self.can_import(keys, backup_root_key)
        &&& result matches Err(error) ==> exists|index: int| #[trigger]
            self.import_stops_at(keys, backup_root_key, index, after, error)
        &&& forall|index: int| #[trigger]
            self.is_new_in(keys, index) && after.keystore.contains_key(keys[index].uuid) ==> {
                &&& self.root_key is Some
                &&& holds_same_key(
                    keys[index],
                    backup_root_key,
                    after.keystore[keys[index].uuid],
                    self.root_key->0,
                )
            }
    }
}

/// Whether a key with this identifier, which is not nil, stands before the key at `index`.
pub open spec fn stands_before(keys: Seq<StoredKeyView>, id: u128, index: int) -> bool {
    id != 0 && exists|earlier: int|
        0 <= earlier < index && earlier < keys.len() && (#[trigger] keys[earlier]).uuid == id
}

/// Whether there is a nonce and a salt for each key of a backup, each of the right length.
pub open spec fn rewraps_fit(rewraps: Seq<RewrapView>, keys: Seq<StoredKeyView>) -> bool {
    &&& rewraps.len() == keys.len()
    &&& forall|i: int|
        0 <= i < keys.len() ==> (#[trigger] rewraps[i]).salt.len() == SALT_LEN
            && rewraps[i].nonce.len() == nonce_len(keys[i].algorithm)
}

} // verus!
