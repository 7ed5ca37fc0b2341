# sd_crypto

A key manager. It keeps encrypted keys (the keystore), decrypts and hashes them on demand (mounting),
and guards all of them with a root key, which a master password and an optional secret key open.

The library is written in Verus: the functions state in `requires` and `ensures` what they do, and
Verus proves it. Of values that are drawn at random only the lengths are stated.

- `src/keys/keymanager.rs`: the key manager, and the stored and mounted keys.
- `src/keys/model.rs`: the mathematical model that the contracts speak of.
- `src/keys/laws.rs`: what holds across operations, such as that unmounting undoes mounting.
- `src/keys/history.rs`: what holds over any sequence of operations.
- `src/keys/sealing.rs`: encrypting keys into stored keys, and decrypting them.
- `src/keys/store.rs`: the `dashmap` collections behind the key manager.
- `src/keys/hashing.rs`: password hashing with Argon2id and BLAKE3 balloon hashing.
- `src/crypto/stream.rs`: authenticated encryption with XChaCha20-Poly1305 and AES-256-GCM.
- `src/primitives.rs`, `src/uuid.rs`, `src/protected.rs`, `src/error.rs`: what these build on.
- `app/`: serialisable copies of the stored keys, and a key manager behind a lock.

The ciphers, hash functions, random numbers and concurrent maps come from outside crates. Each call
stands in a small function marked `#[verifier::external_body]`, whose doc comment says what is taken
on trust.
