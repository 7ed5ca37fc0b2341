//! Everything about keys: hashing passwords into keys, and managing stored and mounted keys.

pub mod hashing;
pub mod history;
pub mod key_laws;
pub mod keymanager;
pub mod laws;
pub mod model;
pub mod operation_laws;
pub mod sealing;
mod store;
