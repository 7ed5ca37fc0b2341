//! Password hashing.

use vstd::prelude::*;

use crate::error::{Error, Result};
use crate::primitives::{KEY_LEN, SALT_LEN};
use crate::protected::Protected;

verus! {

/// How much work a password hash takes.
#[derive(Clone, Copy, Debug, PartialEq, Eq, Structural)]
pub enum Params {
    Standard,
    Hardened,
    Paranoid,
}

/// The password hashing algorithms on offer.
#[derive(Clone, Copy, Debug, PartialEq, Eq, Structural)]
pub enum HashingAlgorithm {
    Argon2id(Params),
    BalloonBlake3(Params),
}

/// The cost parameters of Argon2.
#[derive(Clone, Copy, Debug, PartialEq, Eq, Structural)]
pub struct Argon2Cost {
    /// The memory to use, in KiB.
    pub memory: u32,
    /// The number of passes over the memory.
    pub passes: u32,
    /// The degree of parallelism.
    pub lanes: u32,
}

/// The cost parameters of balloon hashing.
#[derive(Clone, Copy, Debug, PartialEq, Eq, Structural)]
pub struct BalloonCost {
    /// The memory to use, in blocks.
    pub space: u32,
    /// The number of rounds.
    pub rounds: u32,
}

impl Argon2Cost {
    /// Whether Argon2 takes these parameters.
    pub open spec fn acceptable(self) -> bool {
        &&& 8 <= self.memory <= 0x0fff_ffff
        &&& 1 <= self.passes
        &&& 1 <= self.lanes <= 0xff_ffff
        &&& 8 * self.lanes <= self.memory
    }
}

impl BalloonCost {
    /// Whether balloon hashing takes these parameters.
    pub open spec fn acceptable(self) -> bool {
        1 <= self.space && 1 <= self.rounds
    }
}

/// The Argon2 parameters at each level.
pub open spec fn argon2_cost(params: Params) -> Argon2Cost {
    match params {
        Params::Standard => Argon2Cost { memory: 131_072, passes: 8, lanes: 4 },
        Params::Hardened => Argon2Cost { memory: 262_144, passes: 8, lanes: 4 },
        Params::Paranoid => Argon2Cost { memory: 524_288, passes: 8, lanes: 4 },
    }
}

/// The balloon hashing parameters at each level.
pub open spec fn balloon_cost(params: Params) -> BalloonCost {
    match params {
        Params::Standard => BalloonCost { space: 131_072, rounds: 2 },
        Params::Hardened => BalloonCost { space: 262_144, rounds: 2 },
        Params::Paranoid => BalloonCost { space: 524_288, rounds: 2 },
    }
}

impl Params {
    /// The Argon2 parameters at this level.
    pub fn argon2_cost(self) -> (cost: Argon2Cost)
        ensures
            cost == argon2_cost(self),
            cost.acceptable(),
    {
        match self {
            Params::Standard => Argon2Cost { memory: 131_072, passes: 8, lanes: 4 },
            Params::Hardened => Argon2Cost { memory: 262_144, passes: 8, lanes: 4 },
            Params::Paranoid => Argon2Cost { memory: 524_288, passes: 8, lanes: 4 },
        }
    }

    /// The balloon hashing parameters at this level.
    pub fn balloon_cost(self) -> (cost: BalloonCost)
        ensures
            cost == balloon_cost(self),
            cost.acceptable(),
    {
        match self {
            Params::Standard => BalloonCost { space: 131_072, rounds: 2 },
            Params::Hardened => BalloonCost { space: 262_144, rounds: 2 },
            Params::Paranoid => BalloonCost { space: 524_288, rounds: 2 },
        }
    }
}

/// What `argon2::Argon2::hash_password_into` writes, for Argon2id of version 0x13.
pub uninterp spec fn argon2id_output(
    memory: u32,
    passes: u32,
    lanes: u32,
    secret: Seq<u8>,
    password: Seq<u8>,
    salt: Seq<u8>,
) -> Option<Seq<u8>>;

/// What `balloon_hash::Balloon::<blake3::Hasher>::hash_into` writes, for the single-lane algorithm.
pub uninterp spec fn balloon_blake3_output(
    space: u32,
    rounds: u32,
    secret: Seq<u8>,
    password: Seq<u8>,
    salt: Seq<u8>,
) -> Option<Seq<u8>>;

/// The bytes of an optional hash.
pub open spec fn hash_bytes(hash: Option<[u8; KEY_LEN]>) -> Option<Seq<u8>> {
    match hash {
        Some(hash) => Some(hash@),
        None => None,
    }
}

/// `argon2::Argon2::hash_password_into`, with the context that `Params::new` and `new_with_secret`
/// make for Argon2id of version 0x13, and an output of thirty-two bytes.
///
/// It is a function of the cost parameters, the secret, the password and the salt. It succeeds
/// where the parameters are in range, the salt has at least eight bytes, and no input is longer
/// than a 32-bit length can tell.
#[verifier::external_body]
fn argon2id_hash(
    memory: u32,
    passes: u32,
    lanes: u32,
    secret: &[u8],
    password: &[u8],
    salt: &[u8],
) -> (result: Option<[u8; KEY_LEN]>)
    ensures
        hash_bytes(result) == argon2id_output(memory, passes, lanes, secret@, password@, salt@),
        (Argon2Cost { memory, passes, lanes }).acceptable() && secret@.len() <= u32::MAX
            && password@.len() <= u32::MAX && 8 <= salt@.len() <= u32::MAX ==> result is Some,
{
    let params = argon2::Params::new(memory, passes, lanes, None).ok()?;
    let (algorithm, version) = (argon2::Algorithm::Argon2id, argon2::Version::V0x13);
    let argon2 = argon2::Argon2::new_with_secret(secret, algorithm, version, params).ok()?;
    let mut hash = [0u8; KEY_LEN];
    argon2.hash_password_into(password, salt, &mut hash).ok()?;
    Some(hash)
}

/// `balloon_hash::Balloon::<blake3::Hasher>::hash_into`, with the single-lane algorithm and an
/// output of thirty-two bytes.
///
/// It is a function of the cost parameters, the secret, the password and the salt, and succeeds
/// where the parameters are in range.
#[verifier::external_body]
fn balloon_blake3_hash(
    space: u32,
    rounds: u32,
    secret: &[u8],
    password: &[u8],
    salt: &[u8],
) -> (result: Option<[u8; KEY_LEN]>)
    ensures
        hash_bytes(result) == balloon_blake3_output(space, rounds, secret@, password@, salt@),
        (BalloonCost { space, rounds }).acceptable() ==> result is Some,
{
    let params = balloon_hash::Params::new(space, rounds, 1).ok()?;
    let algorithm = balloon_hash::Algorithm::Balloon;
    let balloon = balloon_hash::Balloon::<blake3::Hasher>::new(algorithm, params, Some(secret));
    let mut hash = [0u8; KEY_LEN];
    balloon.hash_into(password, salt, &mut hash).ok()?;
    Some(hash)
}

/// A password hash, or the error for one that could not be computed.
pub open spec fn hash_or_error(hash: Option<Seq<u8>>) -> Result<Seq<u8>> {
    match hash {
        Some(hash) => Ok(hash),
        None => Err(Error::PasswordHash),
    }
}

/// The bytes of a key, in a result.
pub open spec fn key_of(result: Result<Protected<[u8; KEY_LEN]>>) -> Result<Seq<u8>> {
    match result {
        Ok(key) => Ok(key@@),
        Err(error) => Err(error),
    }
}

/// The secret that goes into a hash: an absent secret counts as an empty one.
pub open spec fn secret_bytes(secret: Option<Seq<u8>>) -> Seq<u8> {
    match secret {
        Some(secret) => secret,
        None => Seq::empty(),
    }
}

/// The bytes of an optional secret.
pub open spec fn secret_of(secret: Option<Protected<Vec<u8>>>) -> Option<Seq<u8>> {
    match secret {
        Some(secret) => Some(secret@@),
        None => None,
    }
}

/// The hash of a password, with a salt and an optional secret.
pub open spec fn password_hash(
    algorithm: HashingAlgorithm,
    password: Seq<u8>,
    salt: Seq<u8>,
    secret: Option<Seq<u8>>,
) -> Result<Seq<u8>> {
    match algorithm {
        HashingAlgorithm::Argon2id(params) => {
            let cost = argon2_cost(params);
            hash_or_error(
                argon2id_output(
                    cost.memory,
                    cost.passes,
                    cost.lanes,
                    secret_bytes(secret),
                    password,
                    salt,
                ),
            )
        },
        HashingAlgorithm::BalloonBlake3(params) => {
            let cost = balloon_cost(params);
            hash_or_error(
                balloon_blake3_output(
                    cost.space,
                    cost.rounds,
                    secret_bytes(secret),
                    password,
                    salt,
                ),
            )
        },
    }
}

/// Password hashing at a cost of the caller's choice.
pub struct PasswordHasher {}

impl PasswordHasher {
    /// Hashes with Argon2id.
    pub fn argon2id(password: &[u8], salt: &[u8], secret: &[u8], cost: Argon2Cost) -> (result:
        Result<Protected<[u8; KEY_LEN]>>)
        ensures
            key_of(result) == hash_or_error(
                argon2id_output(
                    cost.memory,
                    cost.passes,
                    cost.lanes,
                    secret@,
                    password@,
                    salt@,
                ),
            ),
            cost.acceptable() && secret@.len() <= u32::MAX && password@.len() <= u32::MAX && 8
                <= salt@.len() <= u32::MAX ==> result is Ok,
    {
        match argon2id_hash(cost.memory, cost.passes, cost.lanes, secret, password, salt) {
            Some(hash) => Ok(Protected::new(hash)),
            None => Err(Error::PasswordHash),
        }
    }

    /// Hashes with balloon hashing over BLAKE3.
    pub fn balloon_blake3(
        password: &[u8],
        salt: &[u8],
        secret: &[u8],
        cost: BalloonCost,
    ) -> (result: Result<Protected<[u8; KEY_LEN]>>)
        ensures
            key_of(result) == hash_or_error(
                balloon_blake3_output(cost.space, cost.rounds, secret@, password@, salt@),
            ),
            cost.acceptable() ==> result is Ok,
    {
        match balloon_blake3_hash(cost.space, cost.rounds, secret, password, salt) {
            Some(hash) => Ok(Protected::new(hash)),
            None => Err(Error::PasswordHash),
        }
    }
}

impl HashingAlgorithm {
    /// Hashes a password together with a salt and, where there is one, a secret.
    pub fn hash(
        &self,
        password: Protected<Vec<u8>>,
        salt: [u8; SALT_LEN],
        secret: Option<Protected<Vec<u8>>>,
    ) -> (result: Result<Protected<[u8; KEY_LEN]>>)
        ensures
            key_of(result) == password_hash(*self, password@@, salt@, secret_of(secret)),
            password@@.len() <= u32::MAX && secret_bytes(secret_of(secret)).len() <= u32::MAX
                ==> result is Ok,
    {
        let secret: Vec<u8> = match secret {
            Some(secret) => secret.into_inner(),
            None => Vec::new(),
        };
        match *self {
            HashingAlgorithm::Argon2id(params) => PasswordHasher::argon2id(
                password.expose().as_slice(),
                salt.as_slice(),
                secret.as_slice(),
                params.argon2_cost(),
            ),
            HashingAlgorithm::BalloonBlake3(params) => PasswordHasher::balloon_blake3(
                password.expose().as_slice(),
                salt.as_slice(),
                secret.as_slice(),
                params.balloon_cost(),
            ),
        }
    }
}

// Laws.

/// Argon2id gets the password, the salt, the secret and the cost of the level, each as it is.
pub proof fn argon2id_takes_every_input(
    level: Params,
    password: Seq<u8>,
    salt: Seq<u8>,
    secret: Seq<u8>,
)
    ensures
        ({
            let memory: u32 = match level {
                Params::Standard => 131_072,
                Params::Hardened => 262_144,
                Params::Paranoid => 524_288,
            };
            let hash = password_hash(
                HashingAlgorithm::Argon2id(level),
                password,
                salt,
                Some(secret),
            );
            match argon2id_output(memory, 8, 4, secret, password, salt) {
                Some(output) => hash == Ok::<Seq<u8>, Error>(output),
                None => hash == Err::<Seq<u8>, Error>(Error::PasswordHash),
            }
        }),
{
}

/// Balloon hashing gets the password, the salt, the secret and the cost of the level, each as it
/// is.
pub proof fn balloon_takes_every_input(
    level: Params,
    password: Seq<u8>,
    salt: Seq<u8>,
    secret: Seq<u8>,
)
    ensures
        ({
            let space: u32 = match level {
                Params::Standard => 131_072,
                Params::Hardened => 262_144,
                Params::Paranoid => 524_288,
            };
            let hash = password_hash(
                HashingAlgorithm::BalloonBlake3(level),
                password,
                salt,
                Some(secret),
            );
            match balloon_blake3_output(space, 2, secret, password, salt) {
                Some(output) => hash == Ok::<Seq<u8>, Error>(output),
                None => hash == Err::<Seq<u8>, Error>(Error::PasswordHash),
            }
        }),
{
}

/// A password without a secret is hashed as one with an empty secret.
pub proof fn no_secret_is_an_empty_secret(
    algorithm: HashingAlgorithm,
    password: Seq<u8>,
    salt: Seq<u8>,
)
    ensures
        password_hash(algorithm, password, salt, None) == password_hash(
            algorithm,
            password,
            salt,
            Some(Seq::empty()),
        ),
        secret_bytes(None) == Seq::<u8>::empty(),
        forall|secret: Seq<u8>| #[trigger] secret_bytes(Some(secret)) == secret,
{
}

/// The costs of the levels.
pub proof fn levels_have_their_costs()
    ensures
        argon2_cost(Params::Standard) == (Argon2Cost { memory: 131_072, passes: 8, lanes: 4 }),
        argon2_cost(Params::Hardened) == (Argon2Cost { memory: 262_144, passes: 8, lanes: 4 }),
        argon2_cost(Params::Paranoid) == (Argon2Cost { memory: 524_288, passes: 8, lanes: 4 }),
        balloon_cost(Params::Standard) == (BalloonCost { space: 131_072, rounds: 2 }),
        balloon_cost(Params::Hardened) == (BalloonCost { space: 262_144, rounds: 2 }),
        balloon_cost(Params::Paranoid) == (BalloonCost { space: 524_288, rounds: 2 }),
{
}

/// The outcome of a hash function is the hash, or one error.
pub proof fn hashes_are_kept_as_they_are(hash: Option<[u8; KEY_LEN]>)
    ensures
        hash matches Some(hash) ==> hash_or_error(hash_bytes(Some(hash))) == Ok::<Seq<u8>, Error>(
            hash@,
        ),
        hash is None ==> hash_or_error(hash_bytes(hash)) == Err::<Seq<u8>, Error>(
            Error::PasswordHash,
        ),
{
}

/// A key in a result stands for its bytes, and an error for itself.
pub proof fn keys_stand_for_their_bytes(result: Result<Protected<[u8; KEY_LEN]>>)
    ensures
        result matches Ok(key) ==> key_of(result) == Ok::<Seq<u8>, Error>(key@@),
        result matches Err(error) ==> key_of(result) == Err::<Seq<u8>, Error>(error),
{
}

/// A secret stands for its bytes, and no secret for none.
pub proof fn secrets_stand_for_their_bytes(secret: Option<Protected<Vec<u8>>>)
    ensures
        secret matches Some(bytes) ==> secret_of(secret) == Some(bytes@@),
        secret is None ==> secret_of(secret) is None,
{
}

} // verus!
