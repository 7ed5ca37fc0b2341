use sd_crypto::crypto::stream::Algorithm;
use sd_crypto::primitives::{
    derive_key, generate_master_key, generate_nonce, generate_salt, to_array,
    MASTER_PASSWORD_CONTEXT, ROOT_KEY_CONTEXT,
};
use sd_crypto::uuid::Uuid;
use sd_crypto::{Error, Protected};

#[test]
fn derived_keys_come_from_key_salt_and_context() {
    let mut material = vec![1u8; 32];
    material.extend([2u8; 16]);
    let derived = derive_key(Protected::new([1; 32]), [2; 16], ROOT_KEY_CONTEXT);
    assert_eq!(derived.expose(), &blake3::derive_key(ROOT_KEY_CONTEXT, &material));

    let other = derive_key(Protected::new([1; 32]), [2; 16], MASTER_PASSWORD_CONTEXT);
    assert_ne!(derived.expose(), other.expose());
    let other = derive_key(Protected::new([1; 32]), [3; 16], ROOT_KEY_CONTEXT);
    assert_ne!(derived.expose(), other.expose());
}

#[test]
fn vectors_become_arrays_of_their_length() {
    assert_eq!(to_array::<3>(vec![1, 2, 3]), Ok([1, 2, 3]));
    assert_eq!(to_array::<0>(vec![]), Ok([]));
    assert_eq!(to_array::<3>(vec![1, 2]), Err(Error::VecArrSizeMismatch));
    assert_eq!(to_array::<3>(vec![1, 2, 3, 4]), Err(Error::VecArrSizeMismatch));
}

#[test]
fn random_values_differ() {
    assert_ne!(generate_salt(), generate_salt());
    assert_ne!(generate_master_key().expose(), generate_master_key().expose());
    for algorithm in [Algorithm::XChaCha20Poly1305, Algorithm::Aes256Gcm] {
        let nonce = generate_nonce(algorithm);
        assert_eq!(nonce.len(), algorithm.nonce_len());
        assert_ne!(nonce, generate_nonce(algorithm));
    }
}

#[test]
fn protected_values_can_be_read() {
    let secret = Protected::new(String::from("secret"));
    assert_eq!(secret.expose(), "secret");
    assert_eq!(secret.clone().into_inner(), "secret");
}

#[test]
fn uuids() {
    assert!(Uuid::nil().is_nil());
    assert_eq!(Uuid::nil().as_u128(), 0);
    assert!(!Uuid::from_u128(1).is_nil());
    let random = Uuid::new_v4();
    assert!(!random.is_nil());
    assert_ne!(random, Uuid::new_v4());
    let outside = uuid::Uuid::from_u128(random.as_u128());
    assert_eq!(outside.get_version_num(), 4);
    assert_eq!(outside.get_variant(), uuid::Variant::RFC4122);
}
