//! Keys and signatures.

pub mod export;
pub mod key;
pub mod schemes;
pub mod signer;

pub use key::{KeyType, PrivateKey};
