//! Sizes, key derivation and random values that the rest of the crate builds on.

use vstd::prelude::*;

use crate::crypto::stream::{nonce_len, Algorithm};
use crate::error::{Error, Result};
use crate::keys::hashing::HashingAlgorithm;
use crate::keys::keymanager::StoredKeyVersion;
use crate::protected::Protected;

use rand::RngCore;

verus! {

/// The length of an encryption key, in bytes.
pub const KEY_LEN: usize = 32;

/// The length of a salt, in bytes.
pub const SALT_LEN: usize = 16;

/// The length of the authentication tag behind each ciphertext segment, in bytes.
pub const AEAD_TAG_LEN: usize = 16;

/// The length of an encrypted key: the key and an authentication tag.
pub const ENCRYPTED_KEY_LEN: usize = 48;

/// The length of a nonce for `XChaCha20Poly1305`, in bytes.
pub const XCHACHA20_POLY1305_NONCE_LEN: usize = 20;

/// The length of a nonce for `Aes256Gcm`, in bytes.
pub const AES_256_GCM_NONCE_LEN: usize = 8;

/// The length of a full message segment, in bytes.
pub const BLOCK_SIZE: usize = 1_048_576;

/// The highest position that a segment can have.
pub const STREAM_COUNTER_MAX: u32 = 0xfff_ffff;

/// The layout of newly made stored keys.
pub const LATEST_STORED_KEY: StoredKeyVersion = StoredKeyVersion::V1;

/// The context under which keys are derived from a hashed master password.
pub const MASTER_PASSWORD_CONTEXT: &'static str =
    "spacedrive 2022-12-14 15:35:41 master password hash derivation";

/// The context under which keys are derived from a root key.
pub const ROOT_KEY_CONTEXT: &'static str = "spacedrive 2022-12-14 12:53:54 root key derivation";

/// What a user decides when a key manager is set up.
pub struct OnboardingConfig {
    pub password: Protected<String>,
    pub secret_key: Option<Protected<String>>,
    pub algorithm: Algorithm,
    pub hashing_algorithm: HashingAlgorithm,
}

/// What `blake3::derive_key` returns.
pub uninterp spec fn blake3_derived_key(context: Seq<char>, material: Seq<u8>) -> Seq<u8>;

/// `blake3::derive_key`: a key of thirty-two bytes that is a function of the context and of the
/// key material.
#[verifier::external_body]
fn blake3_derive_key(context: &str, material: &[u8]) -> (key: [u8; 32])
    ensures
        key@ == blake3_derived_key(context@, material@),
{
    blake3::derive_key(context, material)
}

/// `rand::thread_rng` and `RngCore::fill_bytes`: an array of random bytes. Nothing is claimed of what
/// they are.
#[verifier::external_body]
fn random_array<const N: usize>() -> [u8; N] {
    let mut bytes = [0u8; N];
    rand::thread_rng().fill_bytes(&mut bytes);
    bytes
}

/// The key that belongs to `key` and `salt` in the given context.
pub open spec fn derived_key(key: Seq<u8>, salt: Seq<u8>, context: Seq<char>) -> Seq<u8> {
    blake3_derived_key(context, key + salt)
}

/// Derives a key from another one.
pub fn derive_key(
    key: Protected<[u8; KEY_LEN]>,
    salt: [u8; SALT_LEN],
    context: &str,
) -> (result: Protected<[u8; KEY_LEN]>)
    ensures
        result@@ == derived_key(key@@, salt@, context@),
{
    let mut material: Vec<u8> = vstd::slice::slice_to_vec(key.expose().as_slice());
    let mut salt_bytes: Vec<u8> = vstd::slice::slice_to_vec(salt.as_slice());
    material.append(&mut salt_bytes);
    Protected::new(blake3_derive_key(context, material.as_slice()))
}

/// The bytes of an array, in a result.
pub open spec fn array_of<const N: usize>(result: Result<[u8; N]>) -> Result<Seq<u8>> {
    match result {
        Ok(array) => Ok(array@),
        Err(error) => Err(error),
    }
}

/// What turning bytes into an array of length `len` gives.
pub open spec fn sized(bytes: Seq<u8>, len: nat) -> Result<Seq<u8>> {
    if bytes.len() == len {
        Ok(bytes)
    } else {
        Err(Error::VecArrSizeMismatch)
    }
}

/// Turns a vector into an array of the same length.
pub fn to_array<const N: usize>(bytes: Vec<u8>) -> (result: Result<[u8; N]>)
    ensures
        array_of(result) == sized(bytes@, N as nat),
{
    if bytes.len() != N {
        return Err(Error::VecArrSizeMismatch);
    }
    let mut array: [u8; N] = [0u8; N];
    let mut i: usize = 0;
    while i < N
        invariant
            i <= N,
            bytes@.len() == N,
            forall|j: int| 0 <= j < i ==> array@[j] == bytes@[j],
        decreases N - i,
    {
        array[i] = bytes[i];
        i = i + 1;
    }
    assert(array@ =~= bytes@);
    Ok(array)
}

/// A random salt.
pub fn generate_salt() -> [u8; SALT_LEN] {
    random_array::<SALT_LEN>()
}

/// A random key.
pub fn generate_master_key() -> Protected<[u8; KEY_LEN]> {
    Protected::new(random_array::<KEY_LEN>())
}

/// A random nonce, of the length that the algorithm asks for.
pub fn generate_nonce(algorithm: Algorithm) -> (nonce: Vec<u8>)
    ensures
        nonce@.len() == nonce_len(algorithm),
{
    match algorithm {
        Algorithm::XChaCha20Poly1305 => {
            let bytes: [u8; XCHACHA20_POLY1305_NONCE_LEN] = random_array();
            vstd::slice::slice_to_vec(bytes.as_slice())
        },
        Algorithm::Aes256Gcm => {
            let bytes: [u8; AES_256_GCM_NONCE_LEN] = random_array();
            vstd::slice::slice_to_vec(bytes.as_slice())
        },
    }
}

// Laws.

/// The sizes that are part of the format of stored keys.
pub proof fn sizes_are_fixed()
    ensures
        KEY_LEN == 32,
        SALT_LEN == 16,
        AEAD_TAG_LEN == 16,
        ENCRYPTED_KEY_LEN == KEY_LEN + AEAD_TAG_LEN,
        BLOCK_SIZE == 1_048_576,
        STREAM_COUNTER_MAX == 0xfff_ffff,
        LATEST_STORED_KEY == StoredKeyVersion::V1,
{
}

/// The contexts that are part of the format of stored keys.
pub proof fn contexts_are_fixed()
    ensures
        MASTER_PASSWORD_CONTEXT@
            == "spacedrive 2022-12-14 15:35:41 master password hash derivation"@,
        ROOT_KEY_CONTEXT@ == "spacedrive 2022-12-14 12:53:54 root key derivation"@,
{
}

/// A derived key depends on the context, and on the key followed by the salt.
pub proof fn derivation_takes_key_salt_and_context(key: Seq<u8>, salt: Seq<u8>, context: Seq<char>)
    ensures
        derived_key(key, salt, context) == blake3_derived_key(context, key + salt),
{
}

/// Bytes become an array exactly if they have its length, and the array holds them as they are.
pub proof fn sizing_changes_no_bytes(bytes: Seq<u8>, len: nat)
    ensures
        bytes.len() == len ==> sized(bytes, len) == Ok::<Seq<u8>, Error>(bytes),
        bytes.len() != len ==> sized(bytes, len) == Err::<Seq<u8>, Error>(
            Error::VecArrSizeMismatch,
        ),
{
}

/// An array in a result stands for its bytes, and an error for itself.
pub proof fn arrays_stand_for_their_bytes<const N: usize>(result: Result<[u8; N]>)
    ensures
        result matches Ok(array) ==> array_of(result) == Ok::<Seq<u8>, Error>(array@),
        result matches Err(error) ==> array_of(result) == Err::<Seq<u8>, Error>(error),
{
}

} // verus!
