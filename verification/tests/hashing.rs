use sd_crypto::keys::hashing::{Argon2Cost, BalloonCost, Params, PasswordHasher};
use sd_crypto::Error;

fn hex(bytes: &[u8]) -> String {
    bytes.iter().map(|byte| format!("{byte:02x}")).collect()
}

const CHEAP: Argon2Cost = Argon2Cost { memory: 256, passes: 2, lanes: 1 };

#[test]
fn argon2_levels() {
    let levels = [Params::Standard, Params::Hardened, Params::Paranoid];
    let memory: Vec<u32> = levels.iter().map(|level| level.argon2_cost().memory).collect();
    assert_eq!(memory, vec![131_072, 262_144, 524_288]);
    for level in levels {
        assert_eq!(level.argon2_cost().passes, 8);
        assert_eq!(level.argon2_cost().lanes, 4);
    }
}

#[test]
fn balloon_levels() {
    let levels = [Params::Standard, Params::Hardened, Params::Paranoid];
    let space: Vec<u32> = levels.iter().map(|level| level.balloon_cost().space).collect();
    assert_eq!(space, vec![131_072, 262_144, 524_288]);
    for level in levels {
        assert_eq!(level.balloon_cost().rounds, 2);
    }
}

#[test]
fn argon2id_known_answers() {
    let hash = PasswordHasher::argon2id(b"password", b"somesalt", b"", CHEAP).unwrap();
    assert_eq!(
        hex(hash.expose()),
        "9dfeb910e80bad0311fee20f9c0e2b12c17987b4cac90c2ef54d5b3021c68bfe"
    );
    let two_lanes = Argon2Cost { lanes: 2, ..CHEAP };
    let hash = PasswordHasher::argon2id(b"password", b"somesalt", b"", two_lanes).unwrap();
    assert_eq!(
        hex(hash.expose()),
        "6d093c501fd5999645e0ea3bf620d7b8be7fd2db59c20d9fff9539da2bf57037"
    );
}

#[test]
fn argon2id_depends_on_every_input() {
    let hash = |password: &[u8], salt: &[u8], secret: &[u8], cost: Argon2Cost| {
        *PasswordHasher::argon2id(password, salt, secret, cost).unwrap().expose()
    };
    let base = hash(b"password", b"somesalt", b"secret", CHEAP);
    assert_eq!(base, hash(b"password", b"somesalt", b"secret", CHEAP));
    assert_ne!(base, hash(b"Password", b"somesalt", b"secret", CHEAP));
    assert_ne!(base, hash(b"password", b"Somesalt", b"secret", CHEAP));
    assert_ne!(base, hash(b"password", b"somesalt", b"Secret", CHEAP));
    assert_ne!(base, hash(b"password", b"somesalt", b"", CHEAP));
    let more_passes = Argon2Cost { passes: 3, ..CHEAP };
    assert_ne!(base, hash(b"password", b"somesalt", b"secret", more_passes));
}

#[test]
fn argon2id_refuses_bad_parameters() {
    let bad = [
        Argon2Cost { memory: 7, ..CHEAP },
        Argon2Cost { passes: 0, ..CHEAP },
        Argon2Cost { lanes: 0, ..CHEAP },
        Argon2Cost { lanes: 33, ..CHEAP },
    ];
    for cost in bad {
        assert_eq!(
            PasswordHasher::argon2id(b"password", b"somesalt", b"", cost).err(),
            Some(Error::PasswordHash)
        );
    }
    assert_eq!(
        PasswordHasher::argon2id(b"password", b"short", b"", CHEAP).err(),
        Some(Error::PasswordHash)
    );
}

#[test]
fn balloon_depends_on_every_input() {
    let cost = BalloonCost { space: 16, rounds: 2 };
    let hash = |password: &[u8], salt: &[u8], secret: &[u8], cost: BalloonCost| {
        *PasswordHasher::balloon_blake3(password, salt, secret, cost).unwrap().expose()
    };
    let base = hash(b"password", b"somesalt", b"secret", cost);
    assert_eq!(base, hash(b"password", b"somesalt", b"secret", cost));
    assert_ne!(base, hash(b"Password", b"somesalt", b"secret", cost));
    assert_ne!(base, hash(b"password", b"Somesalt", b"secret", cost));
    assert_ne!(base, hash(b"password", b"somesalt", b"Secret", cost));
    assert_ne!(base, hash(b"password", b"somesalt", b"secret", BalloonCost { space: 17, ..cost }));
    assert_ne!(base, hash(b"password", b"somesalt", b"secret", BalloonCost { rounds: 3, ..cost }));
}

#[test]
fn balloon_is_what_the_crate_computes() {
    let params = balloon_hash::Params::new(16, 2, 1).unwrap();
    let balloon = balloon_hash::Balloon::<blake3::Hasher>::new(
        balloon_hash::Algorithm::Balloon,
        params,
        Some(b"secret"),
    );
    let mut expected = [0u8; 32];
    balloon.hash_into(b"password", b"somesalt", &mut expected).unwrap();
    let cost = BalloonCost { space: 16, rounds: 2 };
    let hash = PasswordHasher::balloon_blake3(b"password", b"somesalt", b"secret", cost).unwrap();
    assert_eq!(hash.expose(), &expected);
}

#[test]
fn balloon_refuses_bad_parameters() {
    for cost in [BalloonCost { space: 0, rounds: 2 }, BalloonCost { space: 16, rounds: 0 }] {
        assert_eq!(
            PasswordHasher::balloon_blake3(b"password", b"somesalt", b"", cost).err(),
            Some(Error::PasswordHash)
        );
    }
}
