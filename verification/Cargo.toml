[package]
name = "sd-crypto"
version = "0.1.0"
edition = "2021"
publish = false

[dependencies]
aes-gcm = { version = "0.10", features = ["stream"] }
argon2 = "0.4"
balloon-hash = "0.3"
blake3 = { version = "~1.5", features = ["pure", "traits-preview"] }
chacha20poly1305 = { version = "0.10", features = ["stream"] }
dashmap = "5.4"
rand = "0.8"
serde = { version = "1", features = ["derive"] }
serde-big-array = "0.5"
specta = { version = "1", features = ["uuid"] }
uuid = { version = "1", features = ["serde", "v4"] }
