//! A pluggable cryptographic primitive layer: capability contracts for
//! randomness, Diffie-Hellman key agreement, authenticated encryption and
//! hashing, plus a generic HMAC and two-output HKDF construction built
//! entirely on the hash contract, verified once for every conforming
//! backend.

pub mod constants;
pub mod crypto_types;
pub mod kdf;
pub mod laws;

pub use constants::MAXBLOCKLEN;
pub use constants::MAXHASHLEN;
pub use constants::MAXHASHLEN1;
pub use crypto_types::CipherType;
pub use crypto_types::DhType;
pub use crypto_types::HashType;
pub use crypto_types::RandomType;
