use std::cell::Cell;

use sd_crypto::crypto::stream::Algorithm;
use sd_crypto::keys::hashing::{Argon2Cost, HashingAlgorithm, Params, PasswordHasher};
use sd_crypto::keys::keymanager::{KeyManager, StoredKey, StoredKeyVersion};
use sd_crypto::keys::sealing::{
    accept_master_key, wrap_master_key, KeyDetails, KeyMaterial,
};
use sd_crypto::primitives::{KEY_LEN, MASTER_PASSWORD_CONTEXT, ROOT_KEY_CONTEXT, SALT_LEN};
use sd_crypto::uuid::Uuid;
use sd_crypto::{Error, Protected};

const ALGORITHM: Algorithm = Algorithm::XChaCha20Poly1305;
const HASHING: HashingAlgorithm = HashingAlgorithm::Argon2id(Params::Standard);
const CONTENT_SALT: [u8; SALT_LEN] = [0x5a; SALT_LEN];

/// A hash that takes little time, in place of what the key manager would compute.
fn cheap_hash(password: &str, secret: &str) -> Protected<[u8; KEY_LEN]> {
    let cost = Argon2Cost { memory: 8, passes: 1, lanes: 1 };
    PasswordHasher::argon2id(password.as_bytes(), &CONTENT_SALT, secret.as_bytes(), cost).unwrap()
}

fn text(text: &str) -> Protected<String> {
    Protected::new(String::from(text))
}

fn bytes(bytes: &[u8]) -> Protected<Vec<u8>> {
    Protected::new(bytes.to_vec())
}

fn verification_key(root_key: [u8; KEY_LEN], password: &str, secret: &str) -> StoredKey {
    KeyManager::seal_root_key(
        cheap_hash(password, secret),
        ALGORITHM,
        HASHING,
        KeyMaterial::generate(ALGORITHM, CONTENT_SALT),
        &Protected::new(root_key),
    )
    .unwrap()
}

fn locked_manager() -> KeyManager {
    KeyManager::new(vec![verification_key([1; KEY_LEN], "password", "secret")]).unwrap()
}

fn unlock(manager: &mut KeyManager, password: &str, secret: &str) -> sd_crypto::Result<()> {
    let verification_key = manager.begin_unlock()?;
    manager.unlock_with_hash(&verification_key, Ok(cheap_hash(password, secret)))
}

fn manager() -> KeyManager {
    let mut manager = locked_manager();
    unlock(&mut manager, "password", "secret").unwrap();
    manager
}

fn add(manager: &mut KeyManager, key: &[u8]) -> Uuid {
    manager.add_to_keystore(bytes(key), ALGORITHM, HASHING, false, false, None).unwrap()
}

/// Mounts a key with a hash that takes little time.
fn mount(manager: &mut KeyManager, uuid: Uuid, hash: u8) {
    let stored_key = manager.begin_mount(uuid).unwrap();
    manager.mount_with_hash(uuid, &stored_key, Ok(Protected::new([hash; KEY_LEN]))).unwrap();
}

fn same(left: &StoredKey, right: &StoredKey) -> bool {
    left == right
}

#[test]
fn a_new_manager_is_empty() {
    let manager = KeyManager::new(vec![]).unwrap();
    assert_eq!(manager.has_master_password(), Ok(false));
    assert_eq!(manager.get_verification_key().err(), Some(Error::NoVerificationKey));
    assert_eq!(manager.get_default().err(), Some(Error::NoDefaultKeySet));
    assert!(manager.dump_keystore().is_empty());
    assert!(manager.enumerate_hashed_keys().is_empty());
    assert!(manager.get_mounted_uuids().is_empty());
    assert!(manager.get_queue().is_empty());
    let uuid = Uuid::from_u128(1);
    assert_eq!(manager.access_keystore(uuid).err(), Some(Error::KeyNotFound));
    assert_eq!(manager.access_keymount(uuid).err(), Some(Error::KeyNotFound));
    assert_eq!(manager.get_key(uuid).err(), Some(Error::KeyNotFound));
    assert_eq!(manager.is_memory_only(uuid).err(), Some(Error::KeyNotFound));
}

#[test]
fn unlocking_takes_password_and_secret_key() {
    let mut manager = locked_manager();
    for (password, secret) in [("password", "Secret"), ("Password", "secret"), ("password", "")] {
        assert_eq!(
            unlock(&mut manager, password, secret),
            Err(Error::IncorrectKeymanagerDetails)
        );
        assert_eq!(manager.has_master_password(), Ok(false));
        assert!(manager.get_queue().is_empty());
    }
    assert_eq!(unlock(&mut manager, "password", "secret"), Ok(()));
    assert_eq!(manager.has_master_password(), Ok(true));
    assert!(manager.get_queue().is_empty());
}

#[test]
fn unlocking_is_refused_before_any_hashing() {
    let calls = Cell::new(0);
    let invalidate = || calls.set(calls.get() + 1);

    let mut empty = KeyManager::new(vec![]).unwrap();
    assert_eq!(
        empty.set_master_password(text("password"), None, &invalidate),
        Err(Error::NoVerificationKey)
    );

    let mut unlocked = manager();
    assert_eq!(
        unlocked.set_master_password(text("password"), Some(text("secret")), &invalidate),
        Err(Error::KeyAlreadyMounted)
    );

    let mut queued = locked_manager();
    queued.begin_unlock().unwrap();
    assert!(queued.is_queued(Uuid::nil()));
    assert_eq!(queued.get_queue(), vec![Uuid::nil()]);
    assert_eq!(
        queued.set_master_password(text("password"), Some(text("secret")), &invalidate),
        Err(Error::KeyAlreadyQueued)
    );
    assert_eq!(
        queued.unlock_notifying(text("password"), None, &invalidate, &invalidate),
        Err(Error::KeyAlreadyQueued)
    );
    assert_eq!(calls.get(), 0);
}

#[test]
fn invalidation_follows_the_queue() {
    let calls = Cell::new(0);
    let invalidate = || calls.set(calls.get() + 1);
    let mut manager = locked_manager();

    let key = manager.begin_unlock().unwrap();
    assert_eq!(
        manager.finish_unlock(&key, Ok(cheap_hash("wrong", "secret")), &invalidate),
        Err(Error::IncorrectKeymanagerDetails)
    );
    assert_eq!(calls.get(), 1);
    assert!(!manager.is_queued(Uuid::nil()));

    manager.begin_unlock().unwrap();
    assert_eq!(
        manager.finish_unlock(&key, Err(Error::PasswordHash), &invalidate),
        Err(Error::PasswordHash)
    );
    assert_eq!(calls.get(), 2);

    let key = manager.begin_unlock().unwrap();
    let mut damaged = key.clone();
    damaged.key[0] ^= 1;
    assert_eq!(
        manager.finish_unlock(&damaged, Ok(cheap_hash("password", "secret")), &invalidate),
        Err(Error::Decrypt)
    );
    assert_eq!(calls.get(), 2);
    assert!(manager.is_queued(Uuid::nil()));

    assert_eq!(
        manager.finish_unlock(&key, Ok(cheap_hash("password", "secret")), &invalidate),
        Ok(())
    );
    assert_eq!(calls.get(), 3);
    assert_eq!(manager.has_master_password(), Ok(true));
}

#[test]
fn failed_hashing_ends_unlocking() {
    let mut manager = locked_manager();
    let key = manager.begin_unlock().unwrap();
    assert_eq!(
        manager.unlock_with_hash(&key, Err(Error::PasswordHash)),
        Err(Error::PasswordHash)
    );
    assert!(!manager.is_queued(Uuid::nil()));
    assert_eq!(manager.has_master_password(), Ok(false));
}

#[test]
fn unlocking_judges_the_master_key() {
    let mut manager = locked_manager();
    let key = manager.begin_unlock().unwrap();
    assert_eq!(
        manager.unlock_with_master_key(&key, Ok(bytes(&[0; 31]))),
        Err(Error::VecArrSizeMismatch)
    );
    assert!(manager.is_queued(Uuid::nil()));
    assert_eq!(
        manager.unlock_with_master_key(&key, Ok(bytes(&[0; 32]))),
        Err(Error::Decrypt)
    );
    assert!(manager.is_queued(Uuid::nil()));
    assert_eq!(
        manager.unlock_with_master_key(&key, Err(Error::Decrypt)),
        Err(Error::IncorrectKeymanagerDetails)
    );
    assert!(!manager.is_queued(Uuid::nil()));
}

#[test]
fn unlocking_judges_the_root_key() {
    let mut manager = locked_manager();
    manager.begin_unlock().unwrap();
    assert_eq!(manager.unlock_with_root_key(Err(Error::Decrypt)), Err(Error::Decrypt));
    assert!(manager.is_queued(Uuid::nil()));
    assert_eq!(
        manager.unlock_with_root_key(Ok(bytes(&[0; 33]))),
        Err(Error::VecArrSizeMismatch)
    );
    assert!(!manager.is_queued(Uuid::nil()));
    assert_eq!(manager.has_master_password(), Ok(false));
    manager.begin_unlock().unwrap();
    assert_eq!(manager.unlock_with_root_key(Ok(bytes(&[1; 32]))), Ok(()));
    assert_eq!(manager.has_master_password(), Ok(true));
}

#[test]
fn locking_and_unlocking_keeps_the_keys() {
    let mut manager = manager();
    let uuid = add(&mut manager, b"a key");
    manager.clear_root_key().unwrap();
    assert_eq!(manager.has_master_password(), Ok(false));
    assert_eq!(manager.get_key(uuid).err(), Some(Error::NoMasterPassword));
    assert_eq!(
        manager.add_to_keystore(bytes(b"x"), ALGORITHM, HASHING, false, false, None).err(),
        Some(Error::NoMasterPassword)
    );
    unlock(&mut manager, "password", "secret").unwrap();
    assert_eq!(manager.get_key(uuid).unwrap().expose(), b"a key");
}

#[test]
fn a_verification_key_holds_the_root_key() {
    let key = verification_key([9; KEY_LEN], "password", "secret");
    assert!(key.uuid.is_nil());
    assert_eq!(key.version, StoredKeyVersion::V1);
    assert!(!key.memory_only);
    assert!(!key.automount);
    assert_eq!(key.key.len(), KEY_LEN + 16);
    let root_key = key.unseal_root_key(cheap_hash("password", "secret")).unwrap();
    assert_eq!(root_key.expose(), &[9; KEY_LEN]);
    assert_eq!(
        key.unseal_root_key(cheap_hash("password", "other")).err(),
        Some(Error::Decrypt)
    );
    let mut bad = key.clone();
    bad.master_key_nonce.push(0);
    assert_eq!(
        bad.unseal_root_key(cheap_hash("password", "secret")).err(),
        Some(Error::NonceLengthMismatch)
    );
}

#[test]
fn added_keys_come_back() {
    let mut manager = manager();
    for algorithm in [Algorithm::XChaCha20Poly1305, Algorithm::Aes256Gcm] {
        for key in [&b""[..], &b"key"[..]] {
            let uuid = manager
                .add_to_keystore(bytes(key), algorithm, HASHING, true, false, None)
                .unwrap();
            assert!(!uuid.is_nil());
            assert_eq!(manager.get_key(uuid).unwrap().expose().as_slice(), key);
            let stored = manager.access_keystore(uuid).unwrap();
            assert_eq!(stored.uuid, uuid);
            assert_eq!(stored.algorithm, algorithm);
            assert_eq!(stored.hashing_algorithm, HASHING);
            assert!(stored.memory_only);
            assert!(!stored.automount);
            assert_ne!(stored.key.as_slice(), key);
            assert_eq!(stored.master_key_nonce.len(), algorithm.nonce_len());
            assert_eq!(stored.key_nonce.len(), algorithm.nonce_len());
        }
    }
    assert_eq!(manager.dump_keystore().len(), 4);
    assert!(manager.get_mounted_uuids().is_empty());
}

#[test]
fn a_content_salt_can_be_provided() {
    let mut manager = manager();
    let uuid = manager
        .add_to_keystore(bytes(b"key"), ALGORITHM, HASHING, false, true, Some([3; SALT_LEN]))
        .unwrap();
    let stored = manager.access_keystore(uuid).unwrap();
    assert_eq!(stored.content_salt, [3; SALT_LEN]);
    assert!(stored.automount);
    let other = add(&mut manager, b"key");
    assert_ne!(manager.access_keystore(other).unwrap().content_salt, [3; SALT_LEN]);
}

#[test]
fn sealing_with_given_material() {
    let mut manager = manager();
    let details = KeyDetails {
        uuid: Uuid::from_u128(7),
        algorithm: Algorithm::Aes256Gcm,
        hashing_algorithm: HASHING,
        memory_only: false,
        automount: false,
    };
    let material = || KeyMaterial {
        content_salt: [1; SALT_LEN],
        salt: [2; SALT_LEN],
        master_key: Protected::new([3; KEY_LEN]),
        master_key_nonce: vec![4; 8],
        key_nonce: vec![5; 8],
    };
    assert_eq!(manager.add_sealed(bytes(b"key"), details, material()), Ok(details.uuid));
    let stored = manager.access_keystore(details.uuid).unwrap();
    assert_eq!(stored.content_salt, [1; SALT_LEN]);
    assert_eq!(stored.salt, [2; SALT_LEN]);
    assert_eq!(stored.master_key_nonce, vec![4; 8]);
    assert_eq!(stored.key_nonce, vec![5; 8]);
    let root_key = || Protected::new([1; KEY_LEN]);
    let master_key = stored.decrypt_master_key(root_key(), ROOT_KEY_CONTEXT).unwrap();
    assert_eq!(master_key.expose().as_slice(), &[3; KEY_LEN]);
    let key = stored.decrypt_key(Protected::new([3; KEY_LEN])).unwrap();
    assert_eq!(key.expose(), b"key");
    let wrapped = wrap_master_key(
        root_key(),
        [2; SALT_LEN],
        ROOT_KEY_CONTEXT,
        Algorithm::Aes256Gcm,
        &[4; 8],
        &Protected::new([3; KEY_LEN]),
    );
    assert_eq!(wrapped, Ok(stored.master_key));

    let mut bad = material();
    bad.key_nonce = vec![5; 9];
    assert_eq!(
        manager.add_sealed(bytes(b"key"), details, bad).err(),
        Some(Error::NonceLengthMismatch)
    );
    assert!(same(&manager.access_keystore(details.uuid).unwrap(), &stored));
}

#[test]
fn master_keys_are_accepted_or_not() {
    let accepted = accept_master_key(Ok(bytes(&[6; 32]))).unwrap();
    assert_eq!(accepted.expose(), &[6; 32]);
    assert_eq!(
        accept_master_key(Ok(bytes(&[6; 16]))).err(),
        Some(Error::VecArrSizeMismatch)
    );
    assert_eq!(
        accept_master_key(Err(Error::Decrypt)).err(),
        Some(Error::IncorrectPassword)
    );
}

#[test]
fn keys_do_not_open_under_another_root_key() {
    let mut first = manager();
    let uuid = add(&mut first, b"key");
    let mut keys = first.dump_keystore();
    keys.push(verification_key([2; KEY_LEN], "password", "secret"));
    let mut second = KeyManager::new(keys).unwrap();
    unlock(&mut second, "password", "secret").unwrap();
    assert_eq!(second.get_key(uuid).err(), Some(Error::IncorrectPassword));
    assert_eq!(second.mount(uuid), Err(Error::IncorrectPassword));
    assert!(!second.is_queued(uuid));
}

#[test]
fn a_damaged_key_is_not_mounted() {
    let mut first = manager();
    let uuid = add(&mut first, b"key");
    let mut stored = first.access_keystore(uuid).unwrap();
    stored.key[0] ^= 1;
    first.remove_key(uuid).unwrap();
    first.populate_keystore(vec![stored]).unwrap();
    assert_eq!(first.get_key(uuid).err(), Some(Error::Decrypt));
    assert_eq!(first.mount(uuid), Err(Error::Decrypt));
    assert!(!first.is_queued(uuid));
    assert!(first.get_mounted_uuids().is_empty());
}

#[test]
fn mounting_is_refused_before_any_hashing() {
    let mut manager = manager();
    let uuid = add(&mut manager, b"key");
    assert_eq!(manager.mount(Uuid::from_u128(1)), Err(Error::KeyNotFound));
    assert!(manager.get_queue().is_empty());

    let stored = manager.begin_mount(uuid).unwrap();
    assert!(manager.is_queued(uuid));
    assert_eq!(manager.mount(uuid), Err(Error::KeyAlreadyQueued));
    manager.mount_with_hash(uuid, &stored, Ok(Protected::new([8; KEY_LEN]))).unwrap();
    assert!(!manager.is_queued(uuid));
    assert_eq!(manager.mount(uuid), Err(Error::KeyAlreadyMounted));
}

#[test]
fn mounting_without_a_root_key_stays_queued() {
    let mut manager = manager();
    let uuid = add(&mut manager, b"key");
    manager.clear_root_key().unwrap();
    assert_eq!(manager.mount(uuid), Err(Error::NoMasterPassword));
    assert!(manager.is_queued(uuid));
    assert_eq!(manager.mount(uuid), Err(Error::KeyAlreadyQueued));
    assert_eq!(manager.remove_from_queue(uuid), Ok(()));
    assert_eq!(manager.remove_from_queue(uuid), Err(Error::KeyNotQueued));
    assert_eq!(manager.mount(uuid), Err(Error::NoMasterPassword));
}

#[test]
fn mounting_judges_what_was_decrypted() {
    let mut manager = manager();
    let uuid = add(&mut manager, b"key");
    let stored = manager.begin_mount(uuid).unwrap();
    assert_eq!(
        manager.open_with_master_key(uuid, &stored, Ok(bytes(&[0; 3]))).err(),
        Some(Error::VecArrSizeMismatch)
    );
    assert!(manager.is_queued(uuid));
    assert_eq!(
        manager.open_with_master_key(uuid, &stored, Err(Error::Decrypt)).err(),
        Some(Error::IncorrectPassword)
    );
    assert!(!manager.is_queued(uuid));
    manager.begin_mount(uuid).unwrap();
    assert_eq!(
        manager.open_with_key(uuid, Err(Error::Decrypt)).err(),
        Some(Error::Decrypt)
    );
    assert!(!manager.is_queued(uuid));
    manager.begin_mount(uuid).unwrap();
    assert_eq!(
        manager.mount_with_hash(uuid, &stored, Err(Error::PasswordHash)),
        Err(Error::PasswordHash)
    );
    assert!(!manager.is_queued(uuid));
    assert_eq!(
        manager.mount_with_hash(uuid, &stored, Ok(Protected::new([8; KEY_LEN]))),
        Err(Error::KeyNotQueued)
    );
    assert_eq!(manager.get_mounted_uuids(), vec![uuid]);
}

#[test]
fn queued_keys_are_opened() {
    let mut manager = manager();
    let uuid = add(&mut manager, b"key");
    let stored = manager.begin_mount(uuid).unwrap();
    let key = manager.open_queued(uuid, &stored).unwrap();
    assert_eq!(key.expose(), b"key");
    assert!(manager.is_queued(uuid));

    let mut damaged = stored.clone();
    damaged.key[0] ^= 1;
    assert_eq!(manager.open_queued(uuid, &damaged).err(), Some(Error::Decrypt));
    assert!(!manager.is_queued(uuid));

    manager.begin_mount(uuid).unwrap();
    manager.clear_root_key().unwrap();
    assert_eq!(manager.open_queued(uuid, &stored).err(), Some(Error::NoMasterPassword));
    assert!(manager.is_queued(uuid));
}

#[test]
fn mounted_keys_are_listed_and_unmounted() {
    let mut manager = manager();
    let first = add(&mut manager, b"first");
    let second = add(&mut manager, b"second");
    mount(&mut manager, first, 0x11);
    mount(&mut manager, second, 0x22);

    let mounted = manager.access_keymount(first).unwrap();
    assert_eq!(mounted.uuid, first);
    assert_eq!(mounted.hashed_key.expose(), &[0x11; KEY_LEN]);
    assert_eq!(mounted.clone().hashed_key.expose(), &[0x11; KEY_LEN]);

    let mut hashes: Vec<[u8; KEY_LEN]> =
        manager.enumerate_hashed_keys().iter().map(|hash| *hash.expose()).collect();
    hashes.sort();
    assert_eq!(hashes, vec![[0x11; KEY_LEN], [0x22; KEY_LEN]]);
    let mut uuids: Vec<u128> =
        manager.get_mounted_uuids().iter().map(|uuid| uuid.as_u128()).collect();
    uuids.sort();
    let mut expected = vec![first.as_u128(), second.as_u128()];
    expected.sort();
    assert_eq!(uuids, expected);

    assert_eq!(manager.unmount(first), Ok(()));
    assert_eq!(manager.unmount(first), Err(Error::KeyNotMounted));
    assert_eq!(manager.access_keymount(first).err(), Some(Error::KeyNotFound));
    assert!(manager.access_keymount(second).is_ok());
    assert_eq!(manager.get_key(first).unwrap().expose(), b"first");

    mount(&mut manager, first, 0x33);
    manager.empty_keymount();
    assert!(manager.enumerate_hashed_keys().is_empty());
    assert_eq!(manager.dump_keystore().len(), 2);
}

#[test]
fn removed_keys_are_gone() {
    let mut manager = manager();
    let first = add(&mut manager, b"first");
    let second = add(&mut manager, b"second");
    mount(&mut manager, first, 0x11);
    mount(&mut manager, second, 0x22);
    manager.set_default(first).unwrap();

    assert_eq!(manager.remove_key(first), Ok(()));
    assert_eq!(manager.access_keystore(first).err(), Some(Error::KeyNotFound));
    assert_eq!(manager.access_keymount(first).err(), Some(Error::KeyNotFound));
    assert_eq!(manager.get_default().err(), Some(Error::NoDefaultKeySet));
    assert_eq!(manager.remove_key(first), Ok(()));

    manager.set_default(second).unwrap();
    assert_eq!(manager.remove_key(first), Ok(()));
    assert_eq!(manager.get_default(), Ok(second));
    assert_eq!(manager.get_mounted_uuids(), vec![second]);
    assert_eq!(manager.get_key(second).unwrap().expose(), b"second");
}

#[test]
fn the_default_key_is_in_the_keystore() {
    let mut manager = manager();
    let uuid = add(&mut manager, b"key");
    assert_eq!(manager.set_default(Uuid::from_u128(1)), Err(Error::KeyNotFound));
    assert_eq!(manager.set_default(Uuid::nil()), Err(Error::KeyNotFound));
    assert_eq!(manager.get_default().err(), Some(Error::NoDefaultKeySet));
    assert_eq!(manager.set_default(uuid), Ok(()));
    assert_eq!(manager.get_default(), Ok(uuid));
}

#[test]
fn the_default_key_outlasts_other_operations() {
    let mut manager = manager();
    let first = add(&mut manager, b"first");
    let second = add(&mut manager, b"second");
    manager.set_default(second).unwrap();
    manager.set_default(first).unwrap();
    assert!(manager.set_default(Uuid::from_u128(1)).is_err());
    mount(&mut manager, first, 0x11);
    manager.unmount(first).unwrap();
    manager.change_automount_status(first, true).unwrap();
    manager.clear_root_key().unwrap();
    unlock(&mut manager, "password", "secret").unwrap();
    add(&mut manager, b"third");
    manager.remove_key(second).unwrap();
    assert_eq!(manager.get_default(), Ok(first));

    let stored = manager.access_keystore(first).unwrap();
    manager.remove_key(first).unwrap();
    manager.populate_keystore(vec![stored]).unwrap();
    assert_eq!(manager.get_default(), Err(Error::NoDefaultKeySet));
}

#[test]
fn memory_only_keys_are_saved_once() {
    let mut manager = manager();
    let uuid = manager
        .add_to_keystore(bytes(b"key"), ALGORITHM, HASHING, true, false, None)
        .unwrap();
    assert_eq!(manager.is_memory_only(uuid), Ok(true));
    let mut expected = manager.access_keystore(uuid).unwrap();
    expected.memory_only = false;
    let saved = manager.sync_to_database(uuid).unwrap();
    assert!(same(&saved, &expected));
    assert!(same(&manager.access_keystore(uuid).unwrap(), &expected));
    assert_eq!(manager.is_memory_only(uuid), Ok(false));
    assert_eq!(manager.sync_to_database(uuid).err(), Some(Error::KeyNotMemoryOnly));
    assert_eq!(
        manager.sync_to_database(Uuid::from_u128(1)).err(),
        Some(Error::KeyNotFound)
    );
    assert_eq!(manager.get_key(uuid).unwrap().expose(), b"key");
}

#[test]
fn the_automount_flag_can_be_changed() {
    let mut manager = manager();
    let uuid = add(&mut manager, b"key");
    let before = manager.access_keystore(uuid).unwrap();
    assert_eq!(manager.change_automount_status(uuid, true), Ok(()));
    let mut expected = before.clone();
    expected.automount = true;
    assert!(same(&manager.access_keystore(uuid).unwrap(), &expected));
    assert_eq!(manager.change_automount_status(uuid, false), Ok(()));
    assert!(same(&manager.access_keystore(uuid).unwrap(), &before));
    assert_eq!(
        manager.change_automount_status(Uuid::from_u128(1), true),
        Err(Error::KeyNotFound)
    );
    assert_eq!(manager.get_key(uuid).unwrap().expose(), b"key");
}

#[test]
fn loading_never_replaces_a_key() {
    let mut manager = manager();
    let uuid = add(&mut manager, b"key");
    let stored = manager.access_keystore(uuid).unwrap();
    let mut changed = stored.clone();
    changed.automount = true;
    let mut first = stored.clone();
    first.uuid = Uuid::from_u128(5);
    let mut second = changed.clone();
    second.uuid = Uuid::from_u128(5);
    manager.populate_keystore(vec![changed, first.clone(), second]).unwrap();
    assert!(same(&manager.access_keystore(uuid).unwrap(), &stored));
    assert!(same(&manager.access_keystore(Uuid::from_u128(5)).unwrap(), &first));
    assert_eq!(manager.dump_keystore().len(), 2);
}

#[test]
fn the_last_nil_key_is_the_verification_key() {
    let first = verification_key([1; KEY_LEN], "first", "");
    let second = verification_key([2; KEY_LEN], "second", "");
    let mut manager = KeyManager::new(vec![first, second.clone()]).unwrap();
    assert!(same(&manager.get_verification_key().unwrap(), &second));
    assert_eq!(manager.access_keystore(Uuid::nil()).err(), Some(Error::KeyNotFound));
    assert!(manager.dump_keystore().is_empty());
    assert_eq!(unlock(&mut manager, "second", ""), Ok(()));
}

#[test]
fn dumped_keys_load_into_a_new_manager() {
    let mut manager = manager();
    let first = add(&mut manager, b"first");
    let second = add(&mut manager, b"second");
    let mut keys = manager.dump_keystore();
    keys.push(manager.get_verification_key().unwrap());
    let mut copy = KeyManager::new(keys).unwrap();
    unlock(&mut copy, "password", "secret").unwrap();
    assert_eq!(copy.get_key(first).unwrap().expose(), b"first");
    assert_eq!(copy.get_key(second).unwrap().expose(), b"second");
    assert_eq!(copy.dump_keystore().len(), 2);
}

#[test]
fn rewrapped_keys_open_under_the_new_root_key() {
    let mut manager = manager();
    let uuid = add(&mut manager, b"key");
    let stored = manager.access_keystore(uuid).unwrap();
    let old_root = || Protected::new([1; KEY_LEN]);
    let new_root = || Some(Protected::new([2; KEY_LEN]));
    let rewrapped = stored.rewrap(old_root(), new_root(), vec![6; 20], [7; SALT_LEN]).unwrap();
    assert_eq!(rewrapped.master_key_nonce, vec![6; 20]);
    assert_eq!(rewrapped.salt, [7; SALT_LEN]);
    assert_eq!(rewrapped.key, stored.key);
    assert_eq!(rewrapped.key_nonce, stored.key_nonce);
    assert_eq!(rewrapped.content_salt, stored.content_salt);
    let key = rewrapped.open_key(Protected::new([2; KEY_LEN])).unwrap();
    assert_eq!(key.expose(), b"key");
    assert_eq!(rewrapped.open_key(old_root()).err(), Some(Error::IncorrectPassword));

    assert_eq!(
        stored.rewrap(Protected::new([3; KEY_LEN]), None, vec![6; 20], [7; SALT_LEN]).err(),
        Some(Error::IncorrectPassword)
    );
    assert_eq!(
        stored.rewrap(old_root(), None, vec![6; 20], [7; SALT_LEN]).err(),
        Some(Error::NoMasterPassword)
    );
    assert_eq!(
        stored.rewrap(old_root(), new_root(), vec![6; 8], [7; SALT_LEN]).err(),
        Some(Error::NonceLengthMismatch)
    );
}

#[test]
fn backups_are_imported() {
    let mut backup = KeyManager::new(vec![verification_key([7; KEY_LEN], "old", "")]).unwrap();
    unlock(&mut backup, "old", "").unwrap();
    let first = add(&mut backup, b"first");
    let second = add(&mut backup, b"second");
    let mut keys = backup.dump_keystore();
    keys.push(backup.get_verification_key().unwrap());
    let duplicate = keys[0].clone();
    keys.push(duplicate);

    let mut manager = manager();
    let own = add(&mut manager, b"own");
    let added = manager.import_keys(&keys, Protected::new([7; KEY_LEN])).unwrap();
    assert_eq!(added.len(), 2);
    for key in &added {
        assert!(same(&manager.access_keystore(key.uuid).unwrap(), key));
    }
    assert_eq!(manager.get_key(first).unwrap().expose(), b"first");
    assert_eq!(manager.get_key(second).unwrap().expose(), b"second");
    assert_eq!(manager.get_key(own).unwrap().expose(), b"own");
    assert_eq!(manager.dump_keystore().len(), 3);

    let again = manager.import_keys(&keys, Protected::new([7; KEY_LEN])).unwrap();
    assert!(again.is_empty());
}

#[test]
fn imports_keep_what_came_before_a_failure() {
    let mut backup = KeyManager::new(vec![verification_key([7; KEY_LEN], "old", "")]).unwrap();
    unlock(&mut backup, "old", "").unwrap();
    add(&mut backup, b"first");
    add(&mut backup, b"second");
    add(&mut backup, b"third");
    let mut keys = backup.dump_keystore();
    keys[1].master_key[0] ^= 1;

    let mut manager = manager();
    assert_eq!(
        manager.import_keys(&keys, Protected::new([7; KEY_LEN])).err(),
        Some(Error::IncorrectPassword)
    );
    assert!(manager.access_keystore(keys[0].uuid).is_ok());
    assert!(manager.access_keystore(keys[1].uuid).is_err());
    assert!(manager.access_keystore(keys[2].uuid).is_err());
}

#[test]
fn imports_take_a_root_key_where_there_are_new_keys() {
    let mut backup = KeyManager::new(vec![verification_key([7; KEY_LEN], "old", "")]).unwrap();
    unlock(&mut backup, "old", "").unwrap();
    add(&mut backup, b"key");
    let keys = backup.dump_keystore();

    let mut manager = locked_manager();
    assert_eq!(
        manager.import_keys(&keys, Protected::new([7; KEY_LEN])).err(),
        Some(Error::NoMasterPassword)
    );
    assert!(manager.dump_keystore().is_empty());
    assert!(manager.import_keys(&[], Protected::new([7; KEY_LEN])).unwrap().is_empty());
}

#[test]
fn backups_need_a_verification_key() {
    let mut manager = manager();
    let uuid = add(&mut manager, b"key");
    let keys = vec![manager.access_keystore(uuid).unwrap()];
    assert_eq!(
        manager.import_keystore_backup(text("password"), None, &keys).err(),
        Some(Error::NoVerificationKey)
    );
}

#[test]
fn one_key_of_a_backup() {
    let mut backup = manager();
    let uuid = add(&mut backup, b"key");
    let stored = backup.access_keystore(uuid).unwrap();
    let mut manager = KeyManager::new(vec![verification_key([2; KEY_LEN], "new", "")]).unwrap();
    unlock(&mut manager, "new", "").unwrap();
    let root_key = || Protected::new([1; KEY_LEN]);
    let nil = verification_key([1; KEY_LEN], "x", "");
    assert!(manager.import_key(&nil, root_key(), vec![0; 20], [0; SALT_LEN]).unwrap().is_none());
    let added = manager.import_key(&stored, root_key(), vec![6; 20], [7; SALT_LEN]).unwrap();
    assert_eq!(added.unwrap().salt, [7; SALT_LEN]);
    assert!(manager.import_key(&stored, root_key(), vec![6; 20], [7; SALT_LEN]).unwrap().is_none());
    assert_eq!(manager.get_key(uuid).unwrap().expose(), b"key");
}

#[test]
fn a_new_password_opens_the_same_keys() {
    let mut manager = manager();
    let uuid = add(&mut manager, b"key");
    let mut keys = manager.dump_keystore();
    keys.push(verification_key([1; KEY_LEN], "new password", "new secret"));
    let mut changed = KeyManager::new(keys).unwrap();
    assert_eq!(
        unlock(&mut changed, "password", "secret"),
        Err(Error::IncorrectKeymanagerDetails)
    );
    assert_eq!(unlock(&mut changed, "new password", "new secret"), Ok(()));
    assert_eq!(changed.get_key(uuid).unwrap().expose(), b"key");
}

#[test]
fn contexts_keep_uses_apart() {
    let key = verification_key([9; KEY_LEN], "password", "secret");
    let hash = || cheap_hash("password", "secret");
    assert!(key.decrypt_master_key(hash(), MASTER_PASSWORD_CONTEXT).is_ok());
    assert_eq!(
        key.decrypt_master_key(hash(), ROOT_KEY_CONTEXT).err(),
        Some(Error::Decrypt)
    );
}
