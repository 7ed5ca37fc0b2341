//! The errors that the crate reports.

use vstd::prelude::*;

verus! {

/// Everything that can go wrong in this crate.
#[derive(Clone, Copy, Debug, PartialEq, Eq, Structural)]
pub enum Error {
    /// A password hash could not be computed from the given inputs.
    PasswordHash,
    /// The nonce does not have the length that the algorithm asks for.
    NonceLengthMismatch,
    /// The data could not be encrypted.
    Encrypt,
    /// The data could not be decrypted, or did not authenticate.
    Decrypt,
    /// A byte vector did not have the length of the array it was to fill.
    VecArrSizeMismatch,
    /// A stored key could not be opened with the root key in use.
    IncorrectPassword,
    /// The key manager could not be unlocked with the given password and secret key.
    IncorrectKeymanagerDetails,
    /// The key is already mounted, or the key manager is already unlocked.
    KeyAlreadyMounted,
    /// The key is already waiting to be mounted.
    KeyAlreadyQueued,
    /// The key is not in the mounting queue.
    KeyNotQueued,
    /// No key with this identifier is in the keystore (or in the keymount).
    KeyNotFound,
    /// The key is not mounted.
    KeyNotMounted,
    /// The key is not a memory-only key.
    KeyNotMemoryOnly,
    /// No root key is present: the key manager is locked.
    NoMasterPassword,
    /// No default key has been set.
    NoDefaultKeySet,
    /// No verification key is known.
    NoVerificationKey,
}

/// The result type of this crate.
pub type Result<T> = std::result::Result<T, Error>;

} // verus!
