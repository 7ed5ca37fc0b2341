//! Authenticated encryption of byte strings with the STREAM construction.
//!
//! A message is cut into segments of `BLOCK_SIZE` bytes. Every segment is sealed on its own, under
//! a nonce that also tells its position and whether it is the last one.

use vstd::prelude::*;

use crate::error::{Error, Result};
use crate::primitives::{AEAD_TAG_LEN, AES_256_GCM_NONCE_LEN, BLOCK_SIZE, KEY_LEN, STREAM_COUNTER_MAX,
    XCHACHA20_POLY1305_NONCE_LEN};
use crate::protected::Protected;

use aes_gcm::Aes256Gcm;
use chacha20poly1305::aead::stream::{NewStream, StreamLE31, StreamPrimitive};
use chacha20poly1305::aead::Payload;
use chacha20poly1305::{KeyInit, XChaCha20Poly1305};

verus! {

/// The encryption algorithms on offer.
#[derive(Clone, Copy, Debug, PartialEq, Eq, Structural)]
pub enum Algorithm {
    XChaCha20Poly1305,
    Aes256Gcm,
}

/// The number of nonce bytes that a caller supplies: the nonce of the cipher without the four
/// bytes that hold the position of a segment.
pub open spec fn nonce_len(algorithm: Algorithm) -> nat {
    match algorithm {
        Algorithm::XChaCha20Poly1305 => XCHACHA20_POLY1305_NONCE_LEN as nat,
        Algorithm::Aes256Gcm => AES_256_GCM_NONCE_LEN as nat,
    }
}

impl Algorithm {
    /// The length of the nonces for this algorithm.
    pub fn nonce_len(self) -> (len: usize)
        ensures
            len == nonce_len(self),
    {
        match self {
            Algorithm::XChaCha20Poly1305 => XCHACHA20_POLY1305_NONCE_LEN,
            Algorithm::Aes256Gcm => AES_256_GCM_NONCE_LEN,
        }
    }
}

/// The bytes in an optional vector.
pub open spec fn bytes_of(bytes: Option<Vec<u8>>) -> Option<Seq<u8>> {
    match bytes {
        Some(bytes) => Some(bytes@),
        None => None,
    }
}

/// The longest associated data that both ciphers take.
pub const MAX_AAD_LEN: u64 = 0x10_0000_0000;

/// What `StreamLE31::<XChaCha20Poly1305>::encrypt` returns.
pub uninterp spec fn xchacha20poly1305_sealed(
    key: Seq<u8>,
    nonce: Seq<u8>,
    position: u32,
    last: bool,
    aad: Seq<u8>,
    message: Seq<u8>,
) -> Option<Seq<u8>>;

/// What `StreamLE31::<XChaCha20Poly1305>::decrypt` returns.
pub uninterp spec fn xchacha20poly1305_opened(
    key: Seq<u8>,
    nonce: Seq<u8>,
    position: u32,
    last: bool,
    aad: Seq<u8>,
    ciphertext: Seq<u8>,
) -> Option<Seq<u8>>;

/// What `StreamLE31::<Aes256Gcm>::encrypt` returns.
pub uninterp spec fn aes256gcm_sealed(
    key: Seq<u8>,
    nonce: Seq<u8>,
    position: u32,
    last: bool,
    aad: Seq<u8>,
    message: Seq<u8>,
) -> Option<Seq<u8>>;

/// What `StreamLE31::<Aes256Gcm>::decrypt` returns.
pub uninterp spec fn aes256gcm_opened(
    key: Seq<u8>,
    nonce: Seq<u8>,
    position: u32,
    last: bool,
    aad: Seq<u8>,
    ciphertext: Seq<u8>,
) -> Option<Seq<u8>>;

/// `StreamPrimitive::encrypt` of `StreamLE31` over `XChaCha20Poly1305`, on one segment.
///
/// It is a function of its arguments. It succeeds on every position that the counter reaches. The
/// ciphertext is the message with a tag of sixteen bytes behind it, and `decrypt` with the same
/// key, nonce, position, flag and associated data gives the message back.
#[verifier::external_body]
fn xchacha20poly1305_seal(
    key: &[u8; KEY_LEN],
    nonce: &[u8],
    position: u32,
    last: bool,
    aad: &[u8],
    message: &[u8],
) -> (result: Option<Vec<u8>>)
    requires
        nonce@.len() == XCHACHA20_POLY1305_NONCE_LEN,
        message@.len() <= BLOCK_SIZE,
    ensures
        bytes_of(result) == xchacha20poly1305_sealed(key@, nonce@, position, last, aad@, message@),
        position <= STREAM_COUNTER_MAX && aad@.len() <= MAX_AAD_LEN ==> result is Some,
        result matches Some(ciphertext) ==> ciphertext@.len() == message@.len() + AEAD_TAG_LEN,
        result matches Some(ciphertext) ==> xchacha20poly1305_opened(
            key@,
            nonce@,
            position,
            last,
            aad@,
            ciphertext@,
        ) == Some(message@),
{
    let stream = StreamLE31::from_aead(XChaCha20Poly1305::new(key.into()), nonce.into());
    stream.encrypt(position, last, Payload { msg: message, aad }).ok()
}

/// `StreamPrimitive::decrypt` of `StreamLE31` over `XChaCha20Poly1305`, on one segment.
///
/// It is a function of its arguments, and cuts the tag of sixteen bytes off.
#[verifier::external_body]
fn xchacha20poly1305_open(
    key: &[u8; KEY_LEN],
    nonce: &[u8],
    position: u32,
    last: bool,
    aad: &[u8],
    ciphertext: &[u8],
) -> (result: Option<Vec<u8>>)
    requires
        nonce@.len() == XCHACHA20_POLY1305_NONCE_LEN,
        ciphertext@.len() <= BLOCK_SIZE + AEAD_TAG_LEN,
    ensures
        bytes_of(result) == xchacha20poly1305_opened(
            key@,
            nonce@,
            position,
            last,
            aad@,
            ciphertext@,
        ),
        result matches Some(message) ==> message@.len() + AEAD_TAG_LEN == ciphertext@.len(),
{
    let stream = StreamLE31::from_aead(XChaCha20Poly1305::new(key.into()), nonce.into());
    stream.decrypt(position, last, Payload { msg: ciphertext, aad }).ok()
}

/// `StreamPrimitive::encrypt` of `StreamLE31` over `Aes256Gcm`, on one segment.
///
/// It is a function of its arguments. It succeeds on every position that the counter reaches. The
/// ciphertext is the message with a tag of sixteen bytes behind it, and `decrypt` with the same
/// key, nonce, position, flag and associated data gives the message back.
#[verifier::external_body]
fn aes256gcm_seal(
    key: &[u8; KEY_LEN],
    nonce: &[u8],
    position: u32,
    last: bool,
    aad: &[u8],
    message: &[u8],
) -> (result: Option<Vec<u8>>)
    requires
        nonce@.len() == AES_256_GCM_NONCE_LEN,
        message@.len() <= BLOCK_SIZE,
    ensures
        bytes_of(result) == aes256gcm_sealed(key@, nonce@, position, last, aad@, message@),
        position <= STREAM_COUNTER_MAX && aad@.len() <= MAX_AAD_LEN ==> result is Some,
        result matches Some(ciphertext) ==> ciphertext@.len() == message@.len() + AEAD_TAG_LEN,
        result matches Some(ciphertext) ==> aes256gcm_opened(
            key@,
            nonce@,
            position,
            last,
            aad@,
            ciphertext@,
        ) == Some(message@),
{
    let stream = StreamLE31::from_aead(Aes256Gcm::new(key.into()), nonce.into());
    stream.encrypt(position, last, Payload { msg: message, aad }).ok()
}

/// `StreamPrimitive::decrypt` of `StreamLE31` over `Aes256Gcm`, on one segment.
///
/// It is a function of its arguments, and cuts the tag of sixteen bytes off.
#[verifier::external_body]
fn aes256gcm_open(
    key: &[u8; KEY_LEN],
    nonce: &[u8],
    position: u32,
    last: bool,
    aad: &[u8],
    ciphertext: &[u8],
) -> (result: Option<Vec<u8>>)
    requires
        nonce@.len() == AES_256_GCM_NONCE_LEN,
        ciphertext@.len() <= BLOCK_SIZE + AEAD_TAG_LEN,
    ensures
        bytes_of(result) == aes256gcm_opened(key@, nonce@, position, last, aad@, ciphertext@),
        result matches Some(message) ==> message@.len() + AEAD_TAG_LEN == ciphertext@.len(),
{
    let stream = StreamLE31::from_aead(Aes256Gcm::new(key.into()), nonce.into());
    stream.decrypt(position, last, Payload { msg: ciphertext, aad }).ok()
}

/// One segment, sealed with the given algorithm.
pub open spec fn sealed_segment(
    algorithm: Algorithm,
    key: Seq<u8>,
    nonce: Seq<u8>,
    position: u32,
    last: bool,
    aad: Seq<u8>,
    message: Seq<u8>,
) -> Option<Seq<u8>> {
    match algorithm {
        Algorithm::XChaCha20Poly1305 => xchacha20poly1305_sealed(
            key,
            nonce,
            position,
            last,
            aad,
            message,
        ),
        Algorithm::Aes256Gcm => aes256gcm_sealed(key, nonce, position, last, aad, message),
    }
}

/// One segment, opened with the given algorithm.
pub open spec fn opened_segment(
    algorithm: Algorithm,
    key: Seq<u8>,
    nonce: Seq<u8>,
    position: u32,
    last: bool,
    aad: Seq<u8>,
    ciphertext: Seq<u8>,
) -> Option<Seq<u8>> {
    match algorithm {
        Algorithm::XChaCha20Poly1305 => xchacha20poly1305_opened(
            key,
            nonce,
            position,
            last,
            aad,
            ciphertext,
        ),
        Algorithm::Aes256Gcm => aes256gcm_opened(key, nonce, position, last, aad, ciphertext),
    }
}

fn seal_segment(
    algorithm: Algorithm,
    key: &[u8; KEY_LEN],
    nonce: &[u8],
    position: u32,
    last: bool,
    aad: &[u8],
    message: &[u8],
) -> (result: Option<Vec<u8>>)
    requires
        nonce@.len() == nonce_len(algorithm),
        message@.len() <= BLOCK_SIZE,
    ensures
        bytes_of(result) == sealed_segment(
            algorithm,
            key@,
            nonce@,
            position,
            last,
            aad@,
            message@,
        ),
        position <= STREAM_COUNTER_MAX && aad@.len() <= MAX_AAD_LEN ==> result is Some,
        result matches Some(ciphertext) ==> ciphertext@.len() == message@.len() + AEAD_TAG_LEN,
        result matches Some(ciphertext) ==> opened_segment(
            algorithm,
            key@,
            nonce@,
            position,
            last,
            aad@,
            ciphertext@,
        ) == Some(message@),
{
    match algorithm {
        Algorithm::XChaCha20Poly1305 => xchacha20poly1305_seal(
            key,
            nonce,
            position,
            last,
            aad,
            message,
        ),
        Algorithm::Aes256Gcm => aes256gcm_seal(key, nonce, position, last, aad, message),
    }
}

fn open_segment(
    algorithm: Algorithm,
    key: &[u8; KEY_LEN],
    nonce: &[u8],
    position: u32,
    last: bool,
    aad: &[u8],
    ciphertext: &[u8],
) -> (result: Option<Vec<u8>>)
    requires
        nonce@.len() == nonce_len(algorithm),
        ciphertext@.len() <= BLOCK_SIZE + AEAD_TAG_LEN,
    ensures
        bytes_of(result) == opened_segment(
            algorithm,
            key@,
            nonce@,
            position,
            last,
            aad@,
            ciphertext@,
        ),
        result matches Some(message) ==> message@.len() + AEAD_TAG_LEN == ciphertext@.len(),
{
    match algorithm {
        Algorithm::XChaCha20Poly1305 => xchacha20poly1305_open(
            key,
            nonce,
            position,
            last,
            aad,
            ciphertext,
        ),
        Algorithm::Aes256Gcm => aes256gcm_open(key, nonce, position, last, aad, ciphertext),
    }
}

/// `head` followed by `tail`, where there is a tail.
pub open spec fn followed_by(head: Seq<u8>, tail: Option<Seq<u8>>) -> Option<Seq<u8>> {
    match tail {
        Some(tail) => Some(head + tail),
        None => None,
    }
}

/// The rest of a message, sealed from the given position on. Full segments come first; the last
/// segment is always shorter than a full one, and may be empty.
pub open spec fn sealed_from(
    algorithm: Algorithm,
    key: Seq<u8>,
    nonce: Seq<u8>,
    position: u32,
    aad: Seq<u8>,
    message: Seq<u8>,
) -> Option<Seq<u8>>
    decreases message.len(),
{
    if message.len() < BLOCK_SIZE {
        sealed_segment(algorithm, key, nonce, position, true, aad, message)
    } else if position >= STREAM_COUNTER_MAX {
        None
    } else {
        match sealed_segment(
            algorithm,
            key,
            nonce,
            position,
            false,
            aad,
            message.take(BLOCK_SIZE as int),
        ) {
            Some(segment) => followed_by(
                segment,
                sealed_from(
                    algorithm,
                    key,
                    nonce,
                    (position + 1) as u32,
                    aad,
                    message.skip(BLOCK_SIZE as int),
                ),
            ),
            None => None,
        }
    }
}

/// The rest of a ciphertext, opened from the given position on.
pub open spec fn opened_from(
    algorithm: Algorithm,
    key: Seq<u8>,
    nonce: Seq<u8>,
    position: u32,
    aad: Seq<u8>,
    ciphertext: Seq<u8>,
) -> Option<Seq<u8>>
    decreases ciphertext.len(),
{
    if ciphertext.len() < BLOCK_SIZE + AEAD_TAG_LEN {
        opened_segment(algorithm, key, nonce, position, true, aad, ciphertext)
    } else if position >= STREAM_COUNTER_MAX {
        None
    } else {
        match opened_segment(
            algorithm,
            key,
            nonce,
            position,
            false,
            aad,
            ciphertext.take(BLOCK_SIZE + AEAD_TAG_LEN),
        ) {
            Some(segment) => followed_by(
                segment,
                opened_from(
                    algorithm,
                    key,
                    nonce,
                    (position + 1) as u32,
                    aad,
                    ciphertext.skip(BLOCK_SIZE + AEAD_TAG_LEN),
                ),
            ),
            None => None,
        }
    }
}

/// What encrypting a message gives.
pub open spec fn encrypted_bytes(
    algorithm: Algorithm,
    key: Seq<u8>,
    nonce: Seq<u8>,
    message: Seq<u8>,
    aad: Seq<u8>,
) -> Result<Seq<u8>> {
    if nonce.len() != nonce_len(algorithm) {
        Err(Error::NonceLengthMismatch)
    } else {
        match sealed_from(algorithm, key, nonce, 0, aad, message) {
            Some(ciphertext) => Ok(ciphertext),
            None => Err(Error::Encrypt),
        }
    }
}

/// What decrypting a ciphertext gives.
pub open spec fn decrypted_bytes(
    algorithm: Algorithm,
    key: Seq<u8>,
    nonce: Seq<u8>,
    ciphertext: Seq<u8>,
    aad: Seq<u8>,
) -> Result<Seq<u8>> {
    if nonce.len() != nonce_len(algorithm) {
        Err(Error::NonceLengthMismatch)
    } else {
        match opened_from(algorithm, key, nonce, 0, aad, ciphertext) {
            Some(message) => Ok(message),
            None => Err(Error::Decrypt),
        }
    }
}

/// The bytes in the result of an encryption.
pub open spec fn ciphertext_of(result: Result<Vec<u8>>) -> Result<Seq<u8>> {
    match result {
        Ok(bytes) => Ok(bytes@),
        Err(error) => Err(error),
    }
}

/// The bytes in the result of a decryption.
pub open spec fn plaintext_of(result: Result<Protected<Vec<u8>>>) -> Result<Seq<u8>> {
    match result {
        Ok(bytes) => Ok(bytes@@),
        Err(error) => Err(error),
    }
}

/// Opening a full segment and what follows it, one segment at a time.
proof fn lemma_open_full_segment(
    algorithm: Algorithm,
    key: Seq<u8>,
    nonce: Seq<u8>,
    position: u32,
    aad: Seq<u8>,
    segment: Seq<u8>,
    message: Seq<u8>,
    rest: Seq<u8>,
)
    requires
        position < STREAM_COUNTER_MAX,
        segment.len() == BLOCK_SIZE + AEAD_TAG_LEN,
        opened_segment(algorithm, key, nonce, position, false, aad, segment) == Some(message),
    ensures
        opened_from(algorithm, key, nonce, position, aad, segment + rest) == followed_by(
            message,
            opened_from(algorithm, key, nonce, (position + 1) as u32, aad, rest),
        ),
{
    assert((segment + rest).take(BLOCK_SIZE + AEAD_TAG_LEN) =~= segment);
    assert((segment + rest).skip(BLOCK_SIZE + AEAD_TAG_LEN) =~= rest);
}

/// `followed_by` twice is `followed_by` of the two heads together.
proof fn lemma_followed_by_twice(first: Seq<u8>, second: Seq<u8>, tail: Option<Seq<u8>>)
    ensures
        followed_by(first, followed_by(second, tail)) == followed_by(first + second, tail),
{
}

/// Encryption of byte strings.
pub struct StreamEncryption {}

/// Decryption of byte strings.
pub struct StreamDecryption {}

impl StreamEncryption {
    /// Encrypts and authenticates `bytes`, and authenticates `aad` with them.
    pub fn encrypt_bytes(
        key: Protected<[u8; KEY_LEN]>,
        nonce: &[u8],
        algorithm: Algorithm,
        bytes: &[u8],
        aad: &[u8],
    ) -> (result: Result<Vec<u8>>)
        ensures
            ciphertext_of(result) == encrypted_bytes(algorithm, key@@, nonce@, bytes@, aad@),
            nonce@.len() == nonce_len(algorithm) && bytes@.len() < BLOCK_SIZE * STREAM_COUNTER_MAX
                && aad@.len() <= MAX_AAD_LEN ==> result is Ok,
            result matches Ok(ciphertext) ==> decrypted_bytes(
                algorithm,
                key@@,
                nonce@,
                ciphertext@,
                aad@,
            ) == Ok::<Seq<u8>, Error>(bytes@),
            result matches Ok(ciphertext) ==> bytes@.len() < BLOCK_SIZE ==> ciphertext@.len()
                == bytes@.len() + AEAD_TAG_LEN,
    {
        if nonce.len() != algorithm.nonce_len() {
            return Err(Error::NonceLengthMismatch);
        }
        let key_bytes: [u8; KEY_LEN] = *key.expose();
        let mut out: Vec<u8> = Vec::new();
        let mut start: usize = 0;
        let mut position: u32 = 0;
        let ghost whole = sealed_from(algorithm, key_bytes@, nonce@, 0, aad@, bytes@);
        assert(bytes@.skip(0) =~= bytes@);
        while bytes.len() - start >= BLOCK_SIZE
            invariant
                start <= bytes@.len(),
                start == position * BLOCK_SIZE,
                position <= STREAM_COUNTER_MAX,
                position == 0 ==> out@.len() == 0,
                key_bytes@ == key@@,
                nonce@.len() == nonce_len(algorithm),
                whole == sealed_from(algorithm, key_bytes@, nonce@, 0, aad@, bytes@),
                whole == followed_by(
                    out@,
                    sealed_from(
                        algorithm,
                        key_bytes@,
                        nonce@,
                        position,
                        aad@,
                        bytes@.skip(start as int),
                    ),
                ),
                forall|rest: Seq<u8>| #[trigger]
                    opened_from(algorithm, key_bytes@, nonce@, 0, aad@, out@ + rest) == followed_by(
                        bytes@.take(start as int),
                        opened_from(algorithm, key_bytes@, nonce@, position, aad@, rest),
                    ),
            decreases bytes@.len() - start,
        {
            if position == STREAM_COUNTER_MAX {
                return Err(Error::Encrypt);
            }
            let block = vstd::slice::slice_subrange(bytes, start, start + BLOCK_SIZE);
            let ghost remaining = bytes@.skip(start as int);
            assert(block@ =~= remaining.take(BLOCK_SIZE as int));
            let mut segment = match seal_segment(
                algorithm,
                &key_bytes,
                nonce,
                position,
                false,
                aad,
                block,
            ) {
                Some(segment) => segment,
                None => {
                    return Err(Error::Encrypt);
                },
            };
            let ghost sealed = segment@;
            let ghost before = out@;
            let ghost old_position = position;
            let ghost old_start = start;
            out.append(&mut segment);
            start = start + BLOCK_SIZE;
            position = position + 1;
            proof {
                assert(remaining.skip(BLOCK_SIZE as int) =~= bytes@.skip(start as int));
                lemma_followed_by_twice(
                    before,
                    sealed,
                    sealed_from(
                        algorithm,
                        key_bytes@,
                        nonce@,
                        position,
                        aad@,
                        bytes@.skip(start as int),
                    ),
                );
                assert forall|rest: Seq<u8>| #[trigger]
                    opened_from(algorithm, key_bytes@, nonce@, 0, aad@, out@ + rest) == followed_by(
                        bytes@.take(start as int),
                        opened_from(algorithm, key_bytes@, nonce@, position, aad@, rest),
                    ) by {
                    assert(out@ + rest =~= before + (sealed + rest));
                    lemma_open_full_segment(
                        algorithm,
                        key_bytes@,
                        nonce@,
                        old_position,
                        aad@,
                        sealed,
                        block@,
                        rest,
                    );
                    lemma_followed_by_twice(
                        bytes@.take(old_start as int),
                        block@,
                        opened_from(algorithm, key_bytes@, nonce@, position, aad@, rest),
                    );
                }
            }
        }
        let block = vstd::slice::slice_subrange(bytes, start, bytes.len());
        let mut segment = match seal_segment(algorithm, &key_bytes, nonce, position, true, aad, block) {
            Some(segment) => segment,
            None => {
                return Err(Error::Encrypt);
            },
        };
        out.append(&mut segment);
        assert(bytes@.take(start as int) + block@ =~= bytes@);
        Ok(out)
    }
}

impl StreamDecryption {
    /// Decrypts `bytes`, and checks that neither they nor `aad` have been tampered with.
    pub fn decrypt_bytes(
        key: Protected<[u8; KEY_LEN]>,
        nonce: &[u8],
        algorithm: Algorithm,
        bytes: &[u8],
        aad: &[u8],
    ) -> (result: Result<Protected<Vec<u8>>>)
        ensures
            plaintext_of(result) == decrypted_bytes(algorithm, key@@, nonce@, bytes@, aad@),
            result matches Ok(message) ==> bytes@.len() < BLOCK_SIZE + AEAD_TAG_LEN
                ==> message@@.len() + AEAD_TAG_LEN == bytes@.len(),
    {
        if nonce.len() != algorithm.nonce_len() {
            return Err(Error::NonceLengthMismatch);
        }
        let key_bytes: [u8; KEY_LEN] = *key.expose();
        let mut out: Vec<u8> = Vec::new();
        let mut start: usize = 0;
        let mut position: u32 = 0;
        let ghost whole = opened_from(algorithm, key_bytes@, nonce@, 0, aad@, bytes@);
        assert(bytes@.skip(0) =~= bytes@);
        while bytes.len() - start >= BLOCK_SIZE + AEAD_TAG_LEN
            invariant
                start <= bytes@.len(),
                position <= STREAM_COUNTER_MAX,
                start == 0 ==> out@.len() == 0,
                start != 0 ==> start >= BLOCK_SIZE + AEAD_TAG_LEN,
                key_bytes@ == key@@,
                nonce@.len() == nonce_len(algorithm),
                whole == opened_from(algorithm, key_bytes@, nonce@, 0, aad@, bytes@),
                whole == followed_by(
                    out@,
                    opened_from(
                        algorithm,
                        key_bytes@,
                        nonce@,
                        position,
                        aad@,
                        bytes@.skip(start as int),
                    ),
                ),
            decreases bytes@.len() - start,
        {
            if position == STREAM_COUNTER_MAX {
                return Err(Error::Decrypt);
            }
            let end: usize = start + (BLOCK_SIZE + AEAD_TAG_LEN);
            let block = vstd::slice::slice_subrange(bytes, start, end);
            let ghost remaining = bytes@.skip(start as int);
            assert(block@ =~= remaining.take(BLOCK_SIZE + AEAD_TAG_LEN));
            let mut segment = match open_segment(
                algorithm,
                &key_bytes,
                nonce,
                position,
                false,
                aad,
                block,
            ) {
                Some(segment) => segment,
                None => {
                    return Err(Error::Decrypt);
                },
            };
            let ghost opened = segment@;
            let ghost before = out@;
            out.append(&mut segment);
            start = end;
            position = position + 1;
            proof {
                assert(remaining.skip(BLOCK_SIZE + AEAD_TAG_LEN) =~= bytes@.skip(start as int));
                lemma_followed_by_twice(
                    before,
                    opened,
                    opened_from(
                        algorithm,
                        key_bytes@,
                        nonce@,
                        position,
                        aad@,
                        bytes@.skip(start as int),
                    ),
                );
            }
        }
        let block = vstd::slice::slice_subrange(bytes, start, bytes.len());
        let mut segment = match open_segment(algorithm, &key_bytes, nonce, position, true, aad, block) {
            Some(segment) => segment,
            None => {
                return Err(Error::Decrypt);
            },
        };
        out.append(&mut segment);
        Ok(Protected::new(out))
    }
}

// Laws.

/// Each algorithm has its own cipher, which gets every input as it is.
pub proof fn segments_go_to_their_cipher(
    key: Seq<u8>,
    nonce: Seq<u8>,
    position: u32,
    last: bool,
    aad: Seq<u8>,
    bytes: Seq<u8>,
)
    ensures
        sealed_segment(Algorithm::XChaCha20Poly1305, key, nonce, position, last, aad, bytes)
            == xchacha20poly1305_sealed(key, nonce, position, last, aad, bytes),
        sealed_segment(Algorithm::Aes256Gcm, key, nonce, position, last, aad, bytes)
            == aes256gcm_sealed(key, nonce, position, last, aad, bytes),
        opened_segment(Algorithm::XChaCha20Poly1305, key, nonce, position, last, aad, bytes)
            == xchacha20poly1305_opened(key, nonce, position, last, aad, bytes),
        opened_segment(Algorithm::Aes256Gcm, key, nonce, position, last, aad, bytes)
            == aes256gcm_opened(key, nonce, position, last, aad, bytes),
{
}

/// A nonce has twenty bytes for one algorithm and eight for the other; with one of another length
/// nothing is encrypted or decrypted.
pub proof fn nonces_have_a_fixed_length(
    algorithm: Algorithm,
    key: Seq<u8>,
    nonce: Seq<u8>,
    bytes: Seq<u8>,
    aad: Seq<u8>,
)
    ensures
        nonce_len(Algorithm::XChaCha20Poly1305) == 20,
        nonce_len(Algorithm::Aes256Gcm) == 8,
        nonce.len() != nonce_len(algorithm) <==> encrypted_bytes(algorithm, key, nonce, bytes, aad)
            == Err::<Seq<u8>, Error>(Error::NonceLengthMismatch),
        nonce.len() != nonce_len(algorithm) <==> decrypted_bytes(algorithm, key, nonce, bytes, aad)
            == Err::<Seq<u8>, Error>(Error::NonceLengthMismatch),
{
}

/// A result stands for the bytes in it, and an error for itself.
pub proof fn results_stand_for_their_bytes(
    segment: Option<Vec<u8>>,
    ciphertext: Result<Vec<u8>>,
    message: Result<Protected<Vec<u8>>>,
)
    ensures
        segment matches Some(bytes) ==> bytes_of(segment) == Some(bytes@),
        segment is None ==> bytes_of(segment) is None,
        ciphertext matches Ok(bytes) ==> ciphertext_of(ciphertext) == Ok::<Seq<u8>, Error>(bytes@),
        ciphertext matches Err(error) ==> ciphertext_of(ciphertext) == Err::<Seq<u8>, Error>(error),
        message matches Ok(bytes) ==> plaintext_of(message) == Ok::<Seq<u8>, Error>(bytes@@),
        message matches Err(error) ==> plaintext_of(message) == Err::<Seq<u8>, Error>(error),
{
}

/// What comes of the pieces that stand from `position` on.
proof fn lemma_sealed_from(
    algorithm: Algorithm,
    key: Seq<u8>,
    nonce: Seq<u8>,
    position: u32,
    aad: Seq<u8>,
    pieces: Seq<Seq<u8>>,
    last: Seq<u8>,
)
    requires
        forall|i: int| 0 <= i < pieces.len() ==> (#[trigger] pieces[i]).len() == BLOCK_SIZE,
        last.len() < BLOCK_SIZE,
    ensures
        forall|sealed: Seq<Seq<u8>>, tail: Seq<u8>|
            position + pieces.len() <= STREAM_COUNTER_MAX && sealed.len() == pieces.len() && (
            forall|i: int|
                0 <= i < pieces.len() ==> sealed_segment(
                    algorithm,
                    key,
                    nonce,
                    (position + i) as u32,
                    false,
                    aad,
                    #[trigger] pieces[i],
                ) == Some(sealed[i])) && sealed_segment(
                algorithm,
                key,
                nonce,
                (position + pieces.len()) as u32,
                true,
                aad,
                last,
            ) == Some(tail) ==> sealed_from(
                algorithm,
                key,
                nonce,
                position,
                aad,
                pieces.flatten() + last,
            ) == Some(#[trigger] (sealed.flatten() + tail)),
        position <= STREAM_COUNTER_MAX && position + pieces.len() > STREAM_COUNTER_MAX ==> sealed_from(
            algorithm,
            key,
            nonce,
            position,
            aad,
            pieces.flatten() + last,
        ) is None,
        forall|i: int|
            0 <= i < pieces.len() && position + i <= STREAM_COUNTER_MAX && sealed_segment(
                algorithm,
                key,
                nonce,
                (position + i) as u32,
                false,
                aad,
                #[trigger] pieces[i],
            ) is None ==> sealed_from(
                algorithm,
                key,
                nonce,
                position,
                aad,
                pieces.flatten() + last,
            ) is None,
        position + pieces.len() <= STREAM_COUNTER_MAX && sealed_segment(
            algorithm,
            key,
            nonce,
            (position + pieces.len()) as u32,
            true,
            aad,
            last,
        ) is None ==> sealed_from(
            algorithm,
            key,
            nonce,
            position,
            aad,
            pieces.flatten() + last,
        ) is None,
    decreases pieces.len(),
{
    let whole = pieces.flatten() + last;
    if pieces.len() > 0 {
        let rest = pieces.drop_first();
        assert(whole.take(BLOCK_SIZE as int) =~= pieces[0]);
        assert(whole.skip(BLOCK_SIZE as int) =~= rest.flatten() + last);
        if position < STREAM_COUNTER_MAX {
            let next = (position + 1) as u32;
            lemma_sealed_from(algorithm, key, nonce, next, aad, rest, last);
            assert forall|sealed: Seq<Seq<u8>>, tail: Seq<u8>|
                position + pieces.len() <= STREAM_COUNTER_MAX && sealed.len() == pieces.len() && (
                forall|i: int|
                    0 <= i < pieces.len() ==> sealed_segment(
                        algorithm,
                        key,
                        nonce,
                        (position + i) as u32,
                        false,
                        aad,
                        #[trigger] pieces[i],
                    ) == Some(sealed[i])) && sealed_segment(
                    algorithm,
                    key,
                    nonce,
                    (position + pieces.len()) as u32,
                    true,
                    aad,
                    last,
                ) == Some(tail) implies sealed_from(algorithm, key, nonce, position, aad, whole) == Some(
                #[trigger] (sealed.flatten() + tail),
            ) by {
                let others = sealed.drop_first();
                assert(sealed[0] + (others.flatten() + tail) =~= sealed.flatten() + tail);
            }
            assert forall|i: int|
                0 <= i < pieces.len() && position + i <= STREAM_COUNTER_MAX && sealed_segment(
                    algorithm,
                    key,
                    nonce,
                    (position + i) as u32,
                    false,
                    aad,
                    #[trigger] pieces[i],
                ) is None implies sealed_from(algorithm, key, nonce, position, aad, whole) is None by {
                if i > 0 {
                    assert(rest[i - 1] == pieces[i]);
                }
            }
        }
    }
}

/// A message is cut into full pieces and a shorter last one. Each is sealed on its own, with its
/// position, whether it is the last one, and the associated data; the ciphertext is the sealed
/// pieces one after the other.
pub proof fn messages_are_sealed_piece_by_piece(
    algorithm: Algorithm,
    key: Seq<u8>,
    nonce: Seq<u8>,
    aad: Seq<u8>,
    pieces: Seq<Seq<u8>>,
    last: Seq<u8>,
    sealed: Seq<Seq<u8>>,
    sealed_last: Seq<u8>,
)
    requires
        nonce.len() == nonce_len(algorithm),
        pieces.len() <= STREAM_COUNTER_MAX,
        forall|i: int| 0 <= i < pieces.len() ==> (#[trigger] pieces[i]).len() == BLOCK_SIZE,
        last.len() < BLOCK_SIZE,
        sealed.len() == pieces.len(),
        forall|i: int|
            0 <= i < pieces.len() ==> sealed_segment(
                algorithm,
                key,
                nonce,
                i as u32,
                false,
                aad,
                #[trigger] pieces[i],
            ) == Some(sealed[i]),
        sealed_segment(algorithm, key, nonce, pieces.len() as u32, true, aad, last) == Some(
            sealed_last,
        ),
    ensures
        encrypted_bytes(algorithm, key, nonce, pieces.flatten() + last, aad) == Ok::<Seq<u8>, Error>(
            sealed.flatten() + sealed_last,
        ),
{
    lemma_sealed_from(algorithm, key, nonce, 0, aad, pieces, last);
}

/// Where one piece of a message cannot be sealed, the message cannot be encrypted.
pub proof fn a_piece_that_cannot_be_sealed_fails_the_message(
    algorithm: Algorithm,
    key: Seq<u8>,
    nonce: Seq<u8>,
    aad: Seq<u8>,
    pieces: Seq<Seq<u8>>,
    last: Seq<u8>,
    index: int,
)
    requires
        nonce.len() == nonce_len(algorithm),
        pieces.len() <= STREAM_COUNTER_MAX,
        forall|i: int| 0 <= i < pieces.len() ==> (#[trigger] pieces[i]).len() == BLOCK_SIZE,
        last.len() < BLOCK_SIZE,
        0 <= index <= pieces.len(),
        index < pieces.len() ==> sealed_segment(
            algorithm,
            key,
            nonce,
            index as u32,
            false,
            aad,
            pieces[index],
        ) is None,
        index == pieces.len() ==> sealed_segment(
            algorithm,
            key,
            nonce,
            index as u32,
            true,
            aad,
            last,
        ) is None,
    ensures
        encrypted_bytes(algorithm, key, nonce, pieces.flatten() + last, aad) == Err::<Seq<u8>, Error>(
            Error::Encrypt,
        ),
{
    lemma_sealed_from(algorithm, key, nonce, 0, aad, pieces, last);
}

/// A message with more full pieces than there are positions cannot be encrypted.
pub proof fn messages_that_are_too_long_are_refused(
    algorithm: Algorithm,
    key: Seq<u8>,
    nonce: Seq<u8>,
    aad: Seq<u8>,
    pieces: Seq<Seq<u8>>,
    last: Seq<u8>,
)
    requires
        nonce.len() == nonce_len(algorithm),
        pieces.len() > STREAM_COUNTER_MAX,
        forall|i: int| 0 <= i < pieces.len() ==> (#[trigger] pieces[i]).len() == BLOCK_SIZE,
        last.len() < BLOCK_SIZE,
    ensures
        encrypted_bytes(algorithm, key, nonce, pieces.flatten() + last, aad) == Err::<Seq<u8>, Error>(
            Error::Encrypt,
        ),
{
    lemma_sealed_from(algorithm, key, nonce, 0, aad, pieces, last);
}

/// What comes of the pieces that stand from `position` on.
proof fn lemma_opened_from(
    algorithm: Algorithm,
    key: Seq<u8>,
    nonce: Seq<u8>,
    position: u32,
    aad: Seq<u8>,
    pieces: Seq<Seq<u8>>,
    last: Seq<u8>,
)
    requires
        forall|i: int| 0 <= i < pieces.len() ==> (#[trigger] pieces[i]).len() == BLOCK_SIZE + AEAD_TAG_LEN,
        last.len() < BLOCK_SIZE + AEAD_TAG_LEN,
    ensures
        forall|opened: Seq<Seq<u8>>, tail: Seq<u8>|
            position + pieces.len() <= STREAM_COUNTER_MAX && opened.len() == pieces.len() && (
            forall|i: int|
                0 <= i < pieces.len() ==> opened_segment(
                    algorithm,
                    key,
                    nonce,
                    (position + i) as u32,
                    false,
                    aad,
                    #[trigger] pieces[i],
                ) == Some(opened[i])) && opened_segment(
                algorithm,
                key,
                nonce,
                (position + pieces.len()) as u32,
                true,
                aad,
                last,
            ) == Some(tail) ==> opened_from(
                algorithm,
                key,
                nonce,
                position,
                aad,
                pieces.flatten() + last,
            ) == Some(#[trigger] (opened.flatten() + tail)),
        position <= STREAM_COUNTER_MAX && position + pieces.len() > STREAM_COUNTER_MAX ==> opened_from(
            algorithm,
            key,
            nonce,
            position,
            aad,
            pieces.flatten() + last,
        ) is None,
        forall|i: int|
            0 <= i < pieces.len() && position + i <= STREAM_COUNTER_MAX && opened_segment(
                algorithm,
                key,
                nonce,
                (position + i) as u32,
                false,
                aad,
                #[trigger] pieces[i],
            ) is None ==> opened_from(
                algorithm,
                key,
                nonce,
                position,
                aad,
                pieces.flatten() + last,
            ) is None,
        position + pieces.len() <= STREAM_COUNTER_MAX && opened_segment(
            algorithm,
            key,
            nonce,
            (position + pieces.len()) as u32,
            true,
            aad,
            last,
        ) is None ==> opened_from(
            algorithm,
            key,
            nonce,
            position,
            aad,
            pieces.flatten() + last,
        ) is None,
    decreases pieces.len(),
{
    let whole = pieces.flatten() + last;
    if pieces.len() > 0 {
        let rest = pieces.drop_first();
        assert(whole.take(BLOCK_SIZE + AEAD_TAG_LEN as int) =~= pieces[0]);
        assert(whole.skip(BLOCK_SIZE + AEAD_TAG_LEN as int) =~= rest.flatten() + last);
        if position < STREAM_COUNTER_MAX {
            let next = (position + 1) as u32;
            lemma_opened_from(algorithm, key, nonce, next, aad, rest, last);
            assert forall|opened: Seq<Seq<u8>>, tail: Seq<u8>|
                position + pieces.len() <= STREAM_COUNTER_MAX && opened.len() == pieces.len() && (
                forall|i: int|
                    0 <= i < pieces.len() ==> opened_segment(
                        algorithm,
                        key,
                        nonce,
                        (position + i) as u32,
                        false,
                        aad,
                        #[trigger] pieces[i],
                    ) == Some(opened[i])) && opened_segment(
                    algorithm,
                    key,
                    nonce,
                    (position + pieces.len()) as u32,
                    true,
                    aad,
                    last,
                ) == Some(tail) implies opened_from(algorithm, key, nonce, position, aad, whole) == Some(
                #[trigger] (opened.flatten() + tail),
            ) by {
                let others = opened.drop_first();
                assert(opened[0] + (others.flatten() + tail) =~= opened.flatten() + tail);
            }
            assert forall|i: int|
                0 <= i < pieces.len() && position + i <= STREAM_COUNTER_MAX && opened_segment(
                    algorithm,
                    key,
                    nonce,
                    (position + i) as u32,
                    false,
                    aad,
                    #[trigger] pieces[i],
                ) is None implies opened_from(algorithm, key, nonce, position, aad, whole) is None by {
                if i > 0 {
                    assert(rest[i - 1] == pieces[i]);
                }
            }
        }
    }
}

/// A ciphertext is cut into full pieces and a shorter last one. Each is opened on its own, with its
/// position, whether it is the last one, and the associated data; the message is the opened pieces
/// one after the other.
pub proof fn ciphertexts_are_opened_piece_by_piece(
    algorithm: Algorithm,
    key: Seq<u8>,
    nonce: Seq<u8>,
    aad: Seq<u8>,
    pieces: Seq<Seq<u8>>,
    last: Seq<u8>,
    opened: Seq<Seq<u8>>,
    opened_last: Seq<u8>,
)
    requires
        nonce.len() == nonce_len(algorithm),
        pieces.len() <= STREAM_COUNTER_MAX,
        forall|i: int| 0 <= i < pieces.len() ==> (#[trigger] pieces[i]).len() == BLOCK_SIZE + AEAD_TAG_LEN,
        last.len() < BLOCK_SIZE + AEAD_TAG_LEN,
        opened.len() == pieces.len(),
        forall|i: int|
            0 <= i < pieces.len() ==> opened_segment(
                algorithm,
                key,
                nonce,
                i as u32,
                false,
                aad,
                #[trigger] pieces[i],
            ) == Some(opened[i]),
        opened_segment(algorithm, key, nonce, pieces.len() as u32, true, aad, last) == Some(
            opened_last,
        ),
    ensures
        decrypted_bytes(algorithm, key, nonce, pieces.flatten() + last, aad) == Ok::<Seq<u8>, Error>(
            opened.flatten() + opened_last,
        ),
{
    lemma_opened_from(algorithm, key, nonce, 0, aad, pieces, last);
}

/// Where one piece of a ciphertext cannot be opened, the ciphertext cannot be decrypted.
pub proof fn a_piece_that_cannot_be_opened_fails_the_ciphertext(
    algorithm: Algorithm,
    key: Seq<u8>,
    nonce: Seq<u8>,
    aad: Seq<u8>,
    pieces: Seq<Seq<u8>>,
    last: Seq<u8>,
    index: int,
)
    requires
        nonce.len() == nonce_len(algorithm),
        pieces.len() <= STREAM_COUNTER_MAX,
        forall|i: int| 0 <= i < pieces.len() ==> (#[trigger] pieces[i]).len() == BLOCK_SIZE + AEAD_TAG_LEN,
        last.len() < BLOCK_SIZE + AEAD_TAG_LEN,
        0 <= index <= pieces.len(),
        index < pieces.len() ==> opened_segment(
            algorithm,
            key,
            nonce,
            index as u32,
            false,
            aad,
            pieces[index],
        ) is None,
        index == pieces.len() ==> opened_segment(
            algorithm,
            key,
            nonce,
            index as u32,
            true,
            aad,
            last,
        ) is None,
    ensures
        decrypted_bytes(algorithm, key, nonce, pieces.flatten() + last, aad) == Err::<Seq<u8>, Error>(
            Error::Decrypt,
        ),
{
    lemma_opened_from(algorithm, key, nonce, 0, aad, pieces, last);
}

/// A ciphertext with more full pieces than there are positions cannot be decrypted.
pub proof fn ciphertexts_that_are_too_long_are_refused(
    algorithm: Algorithm,
    key: Seq<u8>,
    nonce: Seq<u8>,
    aad: Seq<u8>,
    pieces: Seq<Seq<u8>>,
    last: Seq<u8>,
)
    requires
        nonce.len() == nonce_len(algorithm),
        pieces.len() > STREAM_COUNTER_MAX,
        forall|i: int| 0 <= i < pieces.len() ==> (#[trigger] pieces[i]).len() == BLOCK_SIZE + AEAD_TAG_LEN,
        last.len() < BLOCK_SIZE + AEAD_TAG_LEN,
    ensures
        decrypted_bytes(algorithm, key, nonce, pieces.flatten() + last, aad) == Err::<Seq<u8>, Error>(
            Error::Decrypt,
        ),
{
    lemma_opened_from(algorithm, key, nonce, 0, aad, pieces, last);
}

} // verus!
