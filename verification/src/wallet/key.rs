//! Key types and the making of keys.

use crate::chain::address::{Address, Protocol, SECP256K1_PAYLOAD_LEN};
use crate::hash::{blake2b, blake2b_hash};
use crate::text::{eq_ignore_ascii_case, lower};
use crate::wallet::schemes::{
    bls_derive_public, bls_error_text, bls_generate_secret, bls_key_from_seed, bls_public_key,
    is_secp256k1_secret,
    random_seed, secp256k1_derive_public, secp256k1_error_text, secp256k1_generate_secret,
    secp256k1_public_key, BLS_PUBLIC_KEY_LEN, PRIVATE_KEY_LEN, SECP256K1_PUBLIC_KEY_LEN,
};
use crate::wallet::signer::{reverse_bytes, reversed, SigningError};
use vstd::prelude::*;
use vstd::string::*;

verus! {

/// The two kinds of key.
#[derive(Debug, Clone, Copy, PartialEq, Eq, Structural)]
pub enum KeyType {
    Secp256k1,
    BLS,
}

/// A private key with its public key.
#[derive(Debug)]
pub struct PrivateKey {
    pub key_type: KeyType,
    pub private_key: Vec<u8>,
    pub public_key: Vec<u8>,
}

/// The name of a key type.
pub open spec fn key_type_name(key_type: KeyType) -> Seq<char> {
    match key_type {
        KeyType::Secp256k1 => "secp256k1"@,
        KeyType::BLS => "bls"@,
    }
}

/// The public key of a private key of the given type, where it has one. A
/// BLS private key is stored least significant byte first.
pub open spec fn public_key_of(key_type: KeyType, private_key: Seq<u8>) -> Option<Seq<u8>> {
    match key_type {
        KeyType::Secp256k1 => if is_secp256k1_secret(private_key) {
            Some(secp256k1_public_key(private_key))
        } else {
            None
        },
        KeyType::BLS => if private_key.len() == PRIVATE_KEY_LEN {
            bls_public_key(reversed(private_key))
        } else {
            None
        },
    }
}

impl KeyType {
    /// The name of the key type.
    pub fn as_str(&self) -> (name: &'static str)
        ensures
            name@ == key_type_name(*self),
    {
        match self {
            KeyType::Secp256k1 => "secp256k1",
            KeyType::BLS => "bls",
        }
    }

    /// The key type with the given name, in any case of the letters.
    pub fn from_str(s: &str) -> (r: Result<Self, SigningError>)
        ensures
            match r {
                Ok(key_type) => lower(s@) == key_type_name(key_type),
                Err(e) => e is UnknownKeyType && lower(s@) != key_type_name(KeyType::Secp256k1)
                    && lower(s@) != key_type_name(KeyType::BLS),
            },
    {
        proof {
            reveal_strlit("secp256k1");
            reveal_strlit("bls");
            assert(lower("secp256k1"@) =~= "secp256k1"@);
            assert(lower("bls"@) =~= "bls"@);
        }
        if eq_ignore_ascii_case(s, "secp256k1") {
            Ok(KeyType::Secp256k1)
        } else if eq_ignore_ascii_case(s, "bls") {
            Ok(KeyType::BLS)
        } else {
            Err(SigningError::UnknownKeyType)
        }
    }
}

impl PrivateKey {
    /// Whether the public key is the one of the private key.
    pub open spec fn well_formed(&self) -> bool {
        &&& public_key_of(self.key_type, self.private_key@) == Some(self.public_key@)
        &&& self.private_key@.len() == PRIVATE_KEY_LEN
        &&& self.public_key@.len() == (match self.key_type {
            KeyType::Secp256k1 => SECP256K1_PUBLIC_KEY_LEN,
            KeyType::BLS => BLS_PUBLIC_KEY_LEN,
        })
    }

    /// The public key of `private_key`. Fails where the key is none of its
    /// type.
    pub fn derive_public_key(key_type: KeyType, private_key: &[u8]) -> (r: Result<
        Vec<u8>,
        SigningError,
    >)
        ensures
            match r {
                Ok(public) => public_key_of(key_type, private_key@) == Some(public@) && public@.len()
                    == (match key_type {
                    KeyType::Secp256k1 => SECP256K1_PUBLIC_KEY_LEN,
                    KeyType::BLS => BLS_PUBLIC_KEY_LEN,
                }),
                Err(SigningError::InvalidKeyLength) => key_type == KeyType::BLS && private_key@.len()
                    != PRIVATE_KEY_LEN,
                Err(SigningError::CryptoFailure(_)) => public_key_of(key_type, private_key@) is None
                    && (key_type == KeyType::BLS ==> private_key@.len() == PRIVATE_KEY_LEN),
                Err(_) => false,
            },
    {
        match key_type {
            KeyType::Secp256k1 => match secp256k1_derive_public(private_key) {
                Ok(public) => Ok(public),
                Err(e) => Err(SigningError::CryptoFailure(secp256k1_error_text(&e))),
            },
            KeyType::BLS => {
                if private_key.len() != PRIVATE_KEY_LEN {
                    return Err(SigningError::InvalidKeyLength);
                }
                let key_reversed = reverse_bytes(private_key);
                match bls_derive_public(key_reversed.as_slice()) {
                    Ok(public) => Ok(public),
                    Err(e) => Err(SigningError::CryptoFailure(bls_error_text(&e))),
                }
            },
        }
    }

    /// The address of the public key of `private_key`.
    pub fn derive_address(key_type: KeyType, private_key: &[u8]) -> (r: Result<
        Address,
        SigningError,
    >)
        ensures
            match r {
                Ok(a) => public_key_of(key_type, private_key@) matches Some(public) && (
                match key_type {
                    KeyType::Secp256k1 => a.protocol == Protocol::Secp256k1 && a.payload@
                        == blake2b(public, SECP256K1_PAYLOAD_LEN as nat),
                    KeyType::BLS => a.protocol == Protocol::BLS && a.payload@ == public,
                }) && a.well_formed(),
                Err(SigningError::InvalidKeyLength) => key_type == KeyType::BLS && private_key@.len()
                    != PRIVATE_KEY_LEN,
                Err(SigningError::CryptoFailure(_)) => public_key_of(key_type, private_key@) is None
                    && (key_type == KeyType::BLS ==> private_key@.len() == PRIVATE_KEY_LEN),
                Err(_) => false,
            },
    {
        let public = match PrivateKey::derive_public_key(key_type, private_key) {
            Ok(public) => public,
            Err(e) => {
                return Err(e);
            },
        };
        match key_type {
            KeyType::Secp256k1 => Ok(
                Address {
                    protocol: Protocol::Secp256k1,
                    payload: blake2b_hash(public.as_slice(), SECP256K1_PAYLOAD_LEN),
                },
            ),
            KeyType::BLS => Ok(Address { protocol: Protocol::BLS, payload: public }),
        }
    }

    /// A new key of the given type, drawn from the operating system's
    /// random numbers.
    pub fn generate(key_type: KeyType) -> (r: Result<Self, SigningError>)
        ensures
            match r {
                Ok(key) => key.key_type == key_type && key.well_formed(),
                Err(e) => key_type == KeyType::BLS && e is CryptoFailure,
            },
    {
        match key_type {
            KeyType::Secp256k1 => PrivateKey::generate_secp256k1(),
            KeyType::BLS => PrivateKey::generate_bls(),
        }
    }

    /// A new secp256k1 key.
    pub fn generate_secp256k1() -> (r: Result<Self, SigningError>)
        ensures
            r matches Ok(key) && key.key_type == KeyType::Secp256k1 && key.well_formed(),
    {
        let private_key = secp256k1_generate_secret();
        match secp256k1_derive_public(private_key.as_slice()) {
            Ok(public_key) => Ok(
                PrivateKey { key_type: KeyType::Secp256k1, private_key, public_key },
            ),
            Err(e) => Err(SigningError::CryptoFailure(secp256k1_error_text(&e))),
        }
    }

    /// A new BLS key, stored least significant byte first.
    pub fn generate_bls() -> (r: Result<Self, SigningError>)
        ensures
            match r {
                Ok(key) => key.key_type == KeyType::BLS && key.well_formed(),
                Err(e) => e is CryptoFailure,
            },
    {
        let seed = random_seed();
        PrivateKey::bls_from_seed(seed.as_slice())
    }

    /// The BLS key that key generation derives from `seed`, stored least
    /// significant byte first. The seed must have 32 bytes or more.
    pub fn bls_from_seed(seed: &[u8]) -> (r: Result<Self, SigningError>)
        ensures
            match r {
                Ok(key) => seed@.len() >= 32 && key.key_type == KeyType::BLS && key.private_key@
                    == reversed(bls_key_from_seed(seed@)) && key.well_formed(),
                Err(e) => e is CryptoFailure && (seed@.len() < 32 || bls_public_key(
                    bls_key_from_seed(seed@),
                ) is None),
            },
    {
        let secret = match bls_generate_secret(seed) {
            Ok(secret) => secret,
            Err(e) => {
                return Err(SigningError::CryptoFailure(bls_error_text(&e)));
            },
        };
        let private_key = reverse_bytes(secret.as_slice());
        proof {
            assert(reversed(private_key@) =~= secret@);
        }
        match bls_derive_public(secret.as_slice()) {
            Ok(public_key) => Ok(PrivateKey { key_type: KeyType::BLS, private_key, public_key }),
            Err(e) => Err(SigningError::CryptoFailure(bls_error_text(&e))),
        }
    }
}

} // verus!
