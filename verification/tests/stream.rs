use aes_gcm::Aes256Gcm;
use chacha20poly1305::aead::{Aead, Payload};
use chacha20poly1305::{KeyInit, XChaCha20Poly1305};
use sd_crypto::crypto::stream::{Algorithm, StreamDecryption, StreamEncryption};
use sd_crypto::primitives::{AEAD_TAG_LEN, BLOCK_SIZE, KEY_LEN};
use sd_crypto::{Error, Protected};

const ALGORITHMS: [Algorithm; 2] = [Algorithm::XChaCha20Poly1305, Algorithm::Aes256Gcm];

fn key() -> Protected<[u8; KEY_LEN]> {
    Protected::new([0x23; KEY_LEN])
}

fn nonce(algorithm: Algorithm) -> Vec<u8> {
    vec![0x42; algorithm.nonce_len()]
}

#[test]
fn nonce_lengths() {
    assert_eq!(Algorithm::XChaCha20Poly1305.nonce_len(), 20);
    assert_eq!(Algorithm::Aes256Gcm.nonce_len(), 8);
}

#[test]
fn short_messages_come_back() {
    for algorithm in ALGORITHMS {
        for message in [&b""[..], &b"x"[..], &b"a longer message"[..]] {
            let sealed = StreamEncryption::encrypt_bytes(
                key(),
                &nonce(algorithm),
                algorithm,
                message,
                b"aad",
            )
            .unwrap();
            assert_eq!(sealed.len(), message.len() + AEAD_TAG_LEN);
            let opened = StreamDecryption::decrypt_bytes(
                key(),
                &nonce(algorithm),
                algorithm,
                &sealed,
                b"aad",
            )
            .unwrap();
            assert_eq!(opened.expose().as_slice(), message);
        }
    }
}

#[test]
fn a_short_message_is_one_last_segment() {
    let message = &b"one segment"[..];
    let aad = &b"data"[..];

    let mut full_nonce = nonce(Algorithm::XChaCha20Poly1305);
    full_nonce.extend([0, 0, 0, 0x80]);
    let expected = XChaCha20Poly1305::new(&[0x23; KEY_LEN].into())
        .encrypt(full_nonce.as_slice().into(), Payload { msg: message, aad })
        .unwrap();
    let sealed = StreamEncryption::encrypt_bytes(
        key(),
        &nonce(Algorithm::XChaCha20Poly1305),
        Algorithm::XChaCha20Poly1305,
        message,
        aad,
    )
    .unwrap();
    assert_eq!(sealed, expected);

    let mut full_nonce = nonce(Algorithm::Aes256Gcm);
    full_nonce.extend([0, 0, 0, 0x80]);
    let expected = Aes256Gcm::new(&[0x23; KEY_LEN].into())
        .encrypt(full_nonce.as_slice().into(), Payload { msg: message, aad })
        .unwrap();
    let sealed = StreamEncryption::encrypt_bytes(
        key(),
        &nonce(Algorithm::Aes256Gcm),
        Algorithm::Aes256Gcm,
        message,
        aad,
    )
    .unwrap();
    assert_eq!(sealed, expected);
}

#[test]
fn a_message_of_one_block_has_an_empty_last_segment() {
    let message = vec![0x07; BLOCK_SIZE];
    let algorithm = Algorithm::XChaCha20Poly1305;
    let sealed =
        StreamEncryption::encrypt_bytes(key(), &nonce(algorithm), algorithm, &message, b"").unwrap();
    assert_eq!(sealed.len(), BLOCK_SIZE + 2 * AEAD_TAG_LEN);
    let opened =
        StreamDecryption::decrypt_bytes(key(), &nonce(algorithm), algorithm, &sealed, b"").unwrap();
    assert_eq!(opened.expose(), &message);
}

#[test]
fn segments_are_counted() {
    let mut message = vec![0x07; BLOCK_SIZE];
    message.extend(b"tail");
    let algorithm = Algorithm::XChaCha20Poly1305;
    let sealed =
        StreamEncryption::encrypt_bytes(key(), &nonce(algorithm), algorithm, &message, b"").unwrap();
    assert_eq!(sealed.len(), message.len() + 2 * AEAD_TAG_LEN);

    let mut last_nonce = nonce(algorithm);
    last_nonce.extend([1, 0, 0, 0x80]);
    let expected = XChaCha20Poly1305::new(&[0x23; KEY_LEN].into())
        .encrypt(last_nonce.as_slice().into(), &b"tail"[..])
        .unwrap();
    assert_eq!(&sealed[BLOCK_SIZE + AEAD_TAG_LEN..], expected.as_slice());

    let truncated = &sealed[..BLOCK_SIZE + AEAD_TAG_LEN];
    assert_eq!(
        StreamDecryption::decrypt_bytes(key(), &nonce(algorithm), algorithm, truncated, b"").err(),
        Some(Error::Decrypt)
    );
}

#[test]
fn tampering_is_noticed() {
    for algorithm in ALGORITHMS {
        let nonce = nonce(algorithm);
        let sealed =
            StreamEncryption::encrypt_bytes(key(), &nonce, algorithm, b"message", b"aad").unwrap();
        let mut changed = sealed.clone();
        changed[3] ^= 1;
        let attempts = [
            StreamDecryption::decrypt_bytes(key(), &nonce, algorithm, &changed, b"aad"),
            StreamDecryption::decrypt_bytes(key(), &nonce, algorithm, &sealed, b"AAD"),
            StreamDecryption::decrypt_bytes(key(), &nonce, algorithm, &sealed[1..], b"aad"),
            StreamDecryption::decrypt_bytes(key(), &nonce, algorithm, b"", b"aad"),
            StreamDecryption::decrypt_bytes(
                Protected::new([0x24; KEY_LEN]),
                &nonce,
                algorithm,
                &sealed,
                b"aad",
            ),
        ];
        for attempt in attempts {
            assert_eq!(attempt.err(), Some(Error::Decrypt));
        }
    }
}

#[test]
fn nonces_of_the_wrong_length_are_refused() {
    for algorithm in ALGORITHMS {
        for len in [0, 12, 24] {
            let nonce = vec![0; len];
            assert_eq!(
                StreamEncryption::encrypt_bytes(key(), &nonce, algorithm, b"message", b"").err(),
                Some(Error::NonceLengthMismatch)
            );
            assert_eq!(
                StreamDecryption::decrypt_bytes(key(), &nonce, algorithm, b"message", b"").err(),
                Some(Error::NonceLengthMismatch)
            );
        }
    }
}
