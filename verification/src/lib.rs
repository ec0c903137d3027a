//! Offline signing for Filecoin messages: address text codec, canonical
//! message encoding, content identifiers and the two signature schemes.

pub mod chain;
pub mod config;
pub mod crypto;
pub mod hash;
pub mod service;
pub mod text;
pub mod wallet;
