//! Sealing keys into stored keys, and opening them again.
//!
//! A stored key holds the key itself, encrypted under a master key, and the master key, encrypted
//! under a key that is derived from the root key (or, for the verification key, from the hashed
//! master password).

use vstd::prelude::*;

use crate::crypto::stream::{
    nonce_len, plaintext_of, Algorithm, StreamDecryption, StreamEncryption,
};
use crate::error::{Error, Result};
use crate::keys::hashing::{key_of, password_hash, secret_bytes, secret_of, HashingAlgorithm};
use crate::keys::keymanager::{StoredKey, StoredKeyVersion};
use crate::keys::model::{
    accepted_master_key, hash_for, holds_same_key, key_under, master_key_under, plain_key,
    rewrapped_key, sealed_key, unlocked_root_key, unsealed_root_key, wrapped_master_key,
    KeyMaterialView, StoredKeyView,
};
use crate::primitives::{
    array_of, derive_key, generate_master_key, generate_nonce, generate_salt, to_array, BLOCK_SIZE,
    ENCRYPTED_KEY_LEN, KEY_LEN, LATEST_STORED_KEY, MASTER_PASSWORD_CONTEXT, ROOT_KEY_CONTEXT,
    SALT_LEN, STREAM_COUNTER_MAX,
};
use crate::protected::Protected;
use crate::uuid::Uuid;

verus! {

/// What a caller decides about a stored key.
#[derive(Clone, Copy)]
pub struct KeyDetails {
    pub uuid: Uuid,
    pub algorithm: Algorithm,
    pub hashing_algorithm: HashingAlgorithm,
    pub memory_only: bool,
    pub automount: bool,
}

/// The random values that go into a stored key.
pub struct KeyMaterial {
    pub content_salt: [u8; SALT_LEN],
    pub salt: [u8; SALT_LEN],
    pub master_key: Protected<[u8; KEY_LEN]>,
    pub master_key_nonce: Vec<u8>,
    pub key_nonce: Vec<u8>,
}

impl View for KeyMaterial {
    type V = KeyMaterialView;

    open spec fn view(&self) -> KeyMaterialView {
        KeyMaterialView {
            content_salt: self.content_salt@,
            salt: self.salt@,
            master_key: self.master_key@@,
            master_key_nonce: self.master_key_nonce@,
            key_nonce: self.key_nonce@,
        }
    }
}

impl KeyMaterial {
    /// Draws everything but the content salt.
    pub fn generate(algorithm: Algorithm, content_salt: [u8; SALT_LEN]) -> (material: Self)
        ensures
            material@.content_salt == content_salt@,
            material@.fits(algorithm),
    {
        KeyMaterial {
            content_salt,
            salt: generate_salt(),
            master_key: generate_master_key(),
            master_key_nonce: generate_nonce(algorithm),
            key_nonce: generate_nonce(algorithm),
        }
    }
}

/// The stored key in a result.
pub open spec fn stored_key_of(result: Result<StoredKey>) -> Result<StoredKeyView> {
    match result {
        Ok(key) => Ok(key@),
        Err(error) => Err(error),
    }
}

/// The bytes of an optional key.
pub open spec fn optional_key_of(key: Option<Protected<[u8; KEY_LEN]>>) -> Option<Seq<u8>> {
    match key {
        Some(key) => Some(key@@),
        None => None,
    }
}

/// Judges the outcome of decrypting a master key: a failure means an incorrect password.
pub fn accept_master_key(master_key: Result<Protected<Vec<u8>>>) -> (result: Result<
    Protected<[u8; KEY_LEN]>,
>)
    ensures
        key_of(result) == accepted_master_key(plaintext_of(master_key)),
{
    match master_key {
        Ok(master_key) => match to_array::<KEY_LEN>(master_key.into_inner()) {
            Ok(master_key) => Ok(Protected::new(master_key)),
            Err(error) => Err(error),
        },
        Err(_) => Err(Error::IncorrectPassword),
    }
}

/// Encrypts a master key under a key that is derived from `wrapping_key`.
pub fn wrap_master_key(
    wrapping_key: Protected<[u8; KEY_LEN]>,
    salt: [u8; SALT_LEN],
    context: &str,
    algorithm: Algorithm,
    nonce: &[u8],
    master_key: &Protected<[u8; KEY_LEN]>,
) -> (result: Result<[u8; ENCRYPTED_KEY_LEN]>)
    ensures
        array_of(result) == wrapped_master_key(
            wrapping_key@@,
            salt@,
            context@,
            algorithm,
            nonce@,
            master_key@@,
        ),
        result is Ok <==> nonce@.len() == nonce_len(algorithm),
        result matches Ok(wrapped) ==> forall|stored: StoredKeyView|
            stored.algorithm == algorithm && stored.salt == salt@ && stored.master_key_nonce == nonce@
                && stored.master_key == wrapped@ ==> #[trigger] master_key_under(
                wrapping_key@@,
                stored,
                context@,
            ) == Ok::<Seq<u8>, Error>(master_key@@),
{
    let aad: Vec<u8> = Vec::new();
    match StreamEncryption::encrypt_bytes(
        derive_key(wrapping_key, salt, context),
        nonce,
        algorithm,
        master_key.expose().as_slice(),
        aad.as_slice(),
    ) {
        Ok(ciphertext) => to_array::<ENCRYPTED_KEY_LEN>(ciphertext),
        Err(error) => Err(error),
    }
}

impl StoredKey {
    /// Decrypts the master key under a key that is derived from `wrapping_key`.
    pub fn decrypt_master_key(&self, wrapping_key: Protected<[u8; KEY_LEN]>, context: &str) -> (result:
        Result<Protected<Vec<u8>>>)
        ensures
            plaintext_of(result) == master_key_under(wrapping_key@@, self@, context@),
            result matches Ok(master_key) ==> master_key@@.len() == KEY_LEN,
    {
        let aad: Vec<u8> = Vec::new();
        StreamDecryption::decrypt_bytes(
            derive_key(wrapping_key, self.salt, context),
            self.master_key_nonce.as_slice(),
            self.algorithm,
            self.master_key.as_slice(),
            aad.as_slice(),
        )
    }

    /// Decrypts the key under the master key.
    pub fn decrypt_key(&self, master_key: Protected<[u8; KEY_LEN]>) -> (result: Result<
        Protected<Vec<u8>>,
    >)
        ensures
            plaintext_of(result) == key_under(master_key@@, self@),
    {
        let aad: Vec<u8> = Vec::new();
        StreamDecryption::decrypt_bytes(
            master_key,
            self.key_nonce.as_slice(),
            self.algorithm,
            self.key.as_slice(),
            aad.as_slice(),
        )
    }

    /// Decrypts the key, starting from the root key.
    pub fn open_key(&self, root_key: Protected<[u8; KEY_LEN]>) -> (result: Result<
        Protected<Vec<u8>>,
    >)
        ensures
            plaintext_of(result) == plain_key(root_key@@, self@),
            result matches Err(error) ==> error != Error::VecArrSizeMismatch,
    {
        match accept_master_key(self.decrypt_master_key(root_key, ROOT_KEY_CONTEXT)) {
            Ok(master_key) => self.decrypt_key(master_key),
            Err(error) => Err(error),
        }
    }

    /// Decrypts the root key in a verification key, starting from the hashed master password.
    pub fn unseal_root_key(&self, hashed_password: Protected<[u8; KEY_LEN]>) -> (result: Result<
        Protected<[u8; KEY_LEN]>,
    >)
        ensures
            key_of(result) == unsealed_root_key(hashed_password@@, self@),
    {
        let master_key = match self.decrypt_master_key(hashed_password, MASTER_PASSWORD_CONTEXT) {
            Ok(master_key) => master_key,
            Err(error) => {
                return Err(error);
            },
        };
        let master_key: [u8; KEY_LEN] = match to_array::<KEY_LEN>(master_key.into_inner()) {
            Ok(master_key) => master_key,
            Err(error) => {
                return Err(error);
            },
        };
        let root_key = match self.decrypt_key(Protected::new(master_key)) {
            Ok(root_key) => root_key,
            Err(error) => {
                return Err(error);
            },
        };
        match to_array::<KEY_LEN>(root_key.into_inner()) {
            Ok(root_key) => Ok(Protected::new(root_key)),
            Err(error) => Err(error),
        }
    }

    /// Hashes a master password the way this verification key asks for.
    pub fn hash_password(
        &self,
        password: Protected<Vec<u8>>,
        secret: Option<Protected<Vec<u8>>>,
    ) -> (result: Result<Protected<[u8; KEY_LEN]>>)
        ensures
            key_of(result) == hash_for(self@, password@@, secret_of(secret)),
            password@@.len() <= u32::MAX && secret_bytes(secret_of(secret)).len() <= u32::MAX
                ==> result is Ok,
    {
        self.hashing_algorithm.hash(password, self.content_salt, secret)
    }

    /// Hashes the key that this stored key holds, with the content salt.
    pub fn hash_key(&self, key: Protected<Vec<u8>>) -> (result: Result<Protected<[u8; KEY_LEN]>>)
        ensures
            key_of(result) == password_hash(
                self.hashing_algorithm,
                key@@,
                self.content_salt@,
                None,
            ),
            key@@.len() <= u32::MAX ==> result is Ok,
    {
        self.hashing_algorithm.hash(key, self.content_salt, None)
    }

    /// Decrypts the root key in a verification key, starting from the master password.
    pub fn unlock_root_key(
        &self,
        password: Protected<Vec<u8>>,
        secret: Option<Protected<Vec<u8>>>,
    ) -> (result: Result<Protected<[u8; KEY_LEN]>>)
        ensures
            key_of(result) == unlocked_root_key(self@, password@@, secret_of(secret)),
            password@@.len() <= u32::MAX && secret_bytes(secret_of(secret)).len() <= u32::MAX ==> {
                result matches Err(error) ==> error != Error::PasswordHash
            },
    {
        match self.version {
            StoredKeyVersion::V1 => match self.hash_password(password, secret) {
                Ok(hashed_password) => self.unseal_root_key(hashed_password),
                Err(error) => Err(error),
            },
        }
    }

    /// Encrypts a key, and the master key that it is encrypted under.
    ///
    /// Decrypting the outcome gives the master key and the key back.
    pub fn seal(
        wrapping_key: Protected<[u8; KEY_LEN]>,
        context: &str,
        details: KeyDetails,
        material: KeyMaterial,
        key: &[u8],
    ) -> (result: Result<Self>)
        ensures
            stored_key_of(result) == sealed_key(
                wrapping_key@@,
                context@,
                details,
                material@,
                key@,
            ),
            material@.fits(details.algorithm) && key@.len() < BLOCK_SIZE * STREAM_COUNTER_MAX
                ==> result is Ok,
            result matches Ok(stored) ==> {
                &&& master_key_under(wrapping_key@@, stored@, context@) == Ok::<Seq<u8>, Error>(
                    material@.master_key,
                )
                &&& key_under(material@.master_key, stored@) == Ok::<Seq<u8>, Error>(key@)
            },
    {
        let master_key = match wrap_master_key(
            wrapping_key,
            material.salt,
            context,
            details.algorithm,
            material.master_key_nonce.as_slice(),
            &material.master_key,
        ) {
            Ok(master_key) => master_key,
            Err(error) => {
                return Err(error);
            },
        };
        let aad: Vec<u8> = Vec::new();
        let encrypted_key = match StreamEncryption::encrypt_bytes(
            material.master_key,
            material.key_nonce.as_slice(),
            details.algorithm,
            key,
            aad.as_slice(),
        ) {
            Ok(encrypted_key) => encrypted_key,
            Err(error) => {
                return Err(error);
            },
        };
        let stored = StoredKey {
            uuid: details.uuid,
            version: LATEST_STORED_KEY,
            algorithm: details.algorithm,
            hashing_algorithm: details.hashing_algorithm,
            content_salt: material.content_salt,
            master_key,
            master_key_nonce: material.master_key_nonce,
            key_nonce: material.key_nonce,
            key: encrypted_key,
            salt: material.salt,
            memory_only: details.memory_only,
            automount: details.automount,
        };
        Ok(stored)
    }

    /// Encrypts the master key anew, so that another root key opens this key.
    ///
    /// The key inside stays as it is, encrypted under the same master key.
    pub fn rewrap(
        &self,
        backup_root_key: Protected<[u8; KEY_LEN]>,
        root_key: Option<Protected<[u8; KEY_LEN]>>,
        nonce: Vec<u8>,
        salt: [u8; SALT_LEN],
    ) -> (result: Result<Self>)
        ensures
            stored_key_of(result) == rewrapped_key(
                self@,
                backup_root_key@@,
                optional_key_of(root_key),
                nonce@,
                salt@,
            ),
            result is Ok <==> {
                &&& root_key is Some
                &&& nonce@.len() == nonce_len(self.algorithm)
                &&& master_key_under(backup_root_key@@, self@, ROOT_KEY_CONTEXT@) is Ok
            },
            result matches Err(error) ==> error == if master_key_under(
                backup_root_key@@,
                self@,
                ROOT_KEY_CONTEXT@,
            ) is Err {
                Error::IncorrectPassword
            } else if root_key is None {
                Error::NoMasterPassword
            } else {
                Error::NonceLengthMismatch
            },
            result matches Ok(rewrapped) ==> holds_same_key(
                self@,
                backup_root_key@@,
                rewrapped@,
                optional_key_of(root_key)->0,
            ),
    {
        let master_key = match accept_master_key(
            self.decrypt_master_key(backup_root_key, ROOT_KEY_CONTEXT),
        ) {
            Ok(master_key) => master_key,
            Err(error) => {
                return Err(error);
            },
        };
        let root_key = match root_key {
            Some(root_key) => root_key,
            None => {
                return Err(Error::NoMasterPassword);
            },
        };
        let wrapped = match wrap_master_key(
            root_key,
            salt,
            ROOT_KEY_CONTEXT,
            self.algorithm,
            nonce.as_slice(),
            &master_key,
        ) {
            Ok(wrapped) => wrapped,
            Err(error) => {
                return Err(error);
            },
        };
        let mut rewrapped = self.clone();
        rewrapped.master_key_nonce = nonce;
        rewrapped.master_key = wrapped;
        rewrapped.salt = salt;
        Ok(rewrapped)
    }
}

} // verus!
