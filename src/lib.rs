//! Cryptographic core of a secure messaging client: key material, a hybrid
//! classical / post-quantum key agreement, a per-message authenticated cipher,
//! hashing, randomness, secure erasure, key derivation and a proof of
//! knowledge of an identity key.

pub mod error;
pub mod primitives;
pub mod keys;
pub mod cipher;
pub mod kem;
pub mod agreement;
pub mod identity_proof;
pub mod boundary;
