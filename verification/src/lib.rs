//! Key management for an encrypted library: password-protected root keys, stored keys wrapped
//! under the root key, and an in-memory mount table of keys that are ready for use.

pub mod crypto;
pub mod error;
pub mod keys;
pub mod primitives;
pub mod protected;
pub mod uuid;

pub use error::{Error, Result};
pub use protected::Protected;
