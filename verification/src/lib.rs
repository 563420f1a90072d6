//! Client-side retrieval of secrets from a remote vault.
//!
//! The crate holds the key store, the one-time binding of a client key to an
//! application key, and the pipeline that turns an encrypted vault response
//! into decrypted records. Network transport and file access stay with the
//! caller: the library takes and returns plain values.

pub mod config;
pub mod crypto;
pub mod dict;
pub mod json;
pub mod key_value_storage;
pub mod records;
pub mod secret_manager;
pub mod utils;
pub mod wire;
