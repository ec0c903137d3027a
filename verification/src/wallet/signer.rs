//! Signing of messages.
//!
//! What is signed is the content identifier of the canonical encoding of the
//! message. A secp256k1 key signs the 32-byte digest of the identifier; a
//! BLS key signs the identifier itself.

use crate::chain::cbor::{
    cid_bytes, compute_cid_bytes, first_too_long, message_bytes, serialize_message,
    EncodingLimitError,
};
use crate::chain::message::{
    Message, MessageView, Signature, SignatureView, SIG_TYPE_BLS, SIG_TYPE_SECP256K1,
};
use crate::hash::{blake2b, blake2b_hash};
use crate::text::eq_str;
use crate::wallet::schemes::{
    bls_error_text, bls_sign, bls_sign_bytes, ecdsa_sign_recoverable, is_secp256k1_secret,
    secp256k1_error_text, secp256k1_sign_recoverable, PRIVATE_KEY_LEN,
};
use vstd::prelude::*;
use vstd::string::*;

verus! {

/// Why a message was not signed.
#[derive(Debug)]
pub enum SigningError {
    /// The key's type is neither of the two that are known.
    UnknownKeyType,
    /// There is no key for the address.
    KeyNotFound,
    /// A BLS key that does not have 32 bytes.
    InvalidKeyLength,
    /// The signature scheme refused the key; the text is the scheme's own.
    CryptoFailure(String),
    /// The message has a byte string that is too long to encode.
    EncodingLimit(EncodingLimitError),
}

/// Bytes of the digest that a secp256k1 key signs.
pub const SIGNED_DIGEST_LEN: usize = 32;

/// The domain separation tag of BLS signatures on this chain.
pub open spec fn bls_dst() -> Seq<char> {
    "BLS_SIG_BLS12381G2_XMD:SHA-256_SSWU_RO_NUL_"@
}

/// `bytes` from last to first.
pub open spec fn reversed(bytes: Seq<u8>) -> Seq<u8> {
    Seq::new(bytes.len(), |i: int| bytes[bytes.len() - 1 - i])
}

/// The bytes of a secp256k1 signature: the compact signature, then the
/// recovery identifier as one byte.
pub open spec fn recoverable_bytes(compact: Seq<u8>, recovery: int) -> Seq<u8> {
    compact.push(recovery as u8)
}

/// The secp256k1 signature of `data` by `key`.
pub open spec fn secp256k1_signature(key: Seq<u8>, data: Seq<u8>) -> SignatureView {
    let signed = ecdsa_sign_recoverable(key, blake2b(data, SIGNED_DIGEST_LEN as nat));
    SignatureView { sig_type: SIG_TYPE_SECP256K1, data: recoverable_bytes(signed.0, signed.1) }
}

/// The content identifier of a message.
pub open spec fn message_cid(m: MessageView) -> Seq<u8> {
    cid_bytes(message_bytes(m))
}

/// The bytes of the domain separation tag.
pub open spec fn bls_dst_bytes() -> Seq<u8> {
    bls_dst().map_values(|c: char| c as u8)
}

/// What a key store holds for an address: the name of the key's type and
/// the bytes of the private key.
#[derive(Debug)]
pub struct StoredKey {
    pub key_type: String,
    pub private_key: Vec<u8>,
}

/// Whether `s` is the signature that `sign` owes for a message with the
/// content identifier `cid` under a key of the named type.
pub open spec fn is_signature_by(
    key_type: Seq<char>,
    private_key: Seq<u8>,
    cid: Seq<u8>,
    s: SignatureView,
) -> bool {
    if key_type == "secp256k1"@ {
        is_secp256k1_secret(private_key) && s == secp256k1_signature(private_key, cid)
    } else {
        &&& key_type == "bls"@
        &&& private_key.len() == PRIVATE_KEY_LEN
        &&& s.sig_type == SIG_TYPE_BLS
        &&& bls_sign(reversed(private_key), cid, bls_dst_bytes()) == Some(s.data)
    }
}

/// Whether the scheme of the named type refuses the key for a message with
/// the content identifier `cid`.
pub open spec fn is_refused_by(key_type: Seq<char>, private_key: Seq<u8>, cid: Seq<u8>) -> bool {
    if key_type == "secp256k1"@ {
        !is_secp256k1_secret(private_key)
    } else {
        &&& key_type == "bls"@
        &&& private_key.len() == PRIVATE_KEY_LEN
        &&& bls_sign(reversed(private_key), cid, bls_dst_bytes()) is None
    }
}

/// `bytes` from last to first.
pub fn reverse_bytes(bytes: &[u8]) -> (r: Vec<u8>)
    ensures
        r@ == reversed(bytes@),
{
    let n = bytes.len();
    let mut r: Vec<u8> = Vec::new();
    let mut i: usize = 0;
    while i < n
        invariant
            n == bytes@.len(),
            i <= n,
            r@.len() == i,
            forall|j: int| 0 <= j < i ==> r@[j] == bytes@[n - 1 - j],
        decreases n - i,
    {
        r.push(bytes[n - 1 - i]);
        i = i + 1;
    }
    assert(r@ =~= reversed(bytes@));
    r
}

/// The secp256k1 signature made of a compact signature and a recovery
/// identifier.
pub fn recoverable_signature(compact: Vec<u8>, recovery: i32) -> (r: Signature)
    requires
        0 <= recovery <= 3,
    ensures
        r@ == (SignatureView {
            sig_type: SIG_TYPE_SECP256K1,
            data: recoverable_bytes(compact@, recovery as int),
        }),
        r.data@.len() == compact@.len() + 1,
{
    let mut data = compact;
    data.push(recovery as u8);
    Signature { sig_type: SIG_TYPE_SECP256K1, data }
}

/// Signs `data` with a secp256k1 key: a recoverable signature over the
/// 32-byte digest of `data`. Fails exactly where `key` is no private key of
/// the group.
pub fn sign_secp256k1(key: &[u8], data: &[u8]) -> (r: Result<Signature, SigningError>)
    ensures
        match r {
            Ok(s) => is_secp256k1_secret(key@) && s@ == secp256k1_signature(key@, data@)
                && s.well_formed(),
            Err(e) => !is_secp256k1_secret(key@) && e is CryptoFailure,
        },
{
    let hash = blake2b_hash(data, SIGNED_DIGEST_LEN);
    match secp256k1_sign_recoverable(key, hash.as_slice()) {
        Ok((compact, recovery)) => Ok(recoverable_signature(compact, recovery)),
        Err(e) => Err(SigningError::CryptoFailure(secp256k1_error_text(&e))),
    }
}

/// Signs `data` with a BLS key that is stored least significant byte first:
/// the signature that the scheme gives for the reversed key, over `data`
/// itself, under the chain's domain separation tag.
pub fn sign_bls(key: &[u8], data: &[u8]) -> (r: Result<Signature, SigningError>)
    ensures
        match r {
            Ok(s) => key@.len() == PRIVATE_KEY_LEN && s.sig_type == SIG_TYPE_BLS && bls_sign(
                reversed(key@),
                data@,
                bls_dst_bytes(),
            ) == Some(s.data@) && s.well_formed(),
            Err(SigningError::InvalidKeyLength) => key@.len() != PRIVATE_KEY_LEN,
            Err(SigningError::CryptoFailure(_)) => key@.len() == PRIVATE_KEY_LEN && bls_sign(
                reversed(key@),
                data@,
                bls_dst_bytes(),
            ) is None,
            Err(_) => false,
        },
{
    if key.len() != PRIVATE_KEY_LEN {
        return Err(SigningError::InvalidKeyLength);
    }
    let key_reversed = reverse_bytes(key);
    let dst = "BLS_SIG_BLS12381G2_XMD:SHA-256_SSWU_RO_NUL_";
    proof {
        reveal_strlit("BLS_SIG_BLS12381G2_XMD:SHA-256_SSWU_RO_NUL_");
    }
    assert(dst.is_ascii());
    let dst_bytes = dst.as_bytes();
    proof {
        is_ascii_spec_bytes(dst);
        assert(dst_bytes@ =~= bls_dst_bytes());
    }
    match bls_sign_bytes(key_reversed.as_slice(), data, dst_bytes) {
        Ok(data) => Ok(Signature { sig_type: SIG_TYPE_BLS, data }),
        Err(e) => Err(SigningError::CryptoFailure(bls_error_text(&e))),
    }
}

/// The bytes of the content identifier of `msg`, which are what is signed.
pub fn message_cid_bytes(msg: &Message) -> (r: Result<Vec<u8>, EncodingLimitError>)
    ensures
        match r {
            Ok(cid) => first_too_long(msg@) is None && cid@ == message_cid(msg@),
            Err(e) => first_too_long(msg@) == Some(e.len as nat),
        },
{
    match serialize_message(msg) {
        Ok(cbor_data) => Ok(compute_cid_bytes(cbor_data.as_slice())),
        Err(e) => Err(e),
    }
}

/// Signs `msg` with the key that the key store gave for the sender, if it
/// gave one. The key's type selects the scheme by its exact name.
pub fn sign(msg: &Message, key: Option<&StoredKey>) -> (r: Result<Signature, SigningError>)
    ensures
        match r {
            Ok(s) => key matches Some(k) && first_too_long(msg@) is None && is_signature_by(
                k.key_type@,
                k.private_key@,
                message_cid(msg@),
                s@,
            ) && s.well_formed(),
            Err(SigningError::KeyNotFound) => key is None,
            Err(SigningError::EncodingLimit(e)) => key is Some && first_too_long(msg@) == Some(
                e.len as nat,
            ),
            Err(SigningError::UnknownKeyType) => key matches Some(k) && first_too_long(msg@) is None
                && k.key_type@ != "secp256k1"@ && k.key_type@ != "bls"@,
            Err(SigningError::InvalidKeyLength) => key matches Some(k) && first_too_long(msg@)
                is None && k.key_type@ == "bls"@ && k.private_key@.len() != PRIVATE_KEY_LEN,
            Err(SigningError::CryptoFailure(_)) => key matches Some(k) && first_too_long(msg@)
                is None && is_refused_by(k.key_type@, k.private_key@, message_cid(msg@)),
        },
{
    let key = match key {
        Some(key) => key,
        None => {
            return Err(SigningError::KeyNotFound);
        },
    };
    let cid = match message_cid_bytes(msg) {
        Ok(cid) => cid,
        Err(e) => {
            return Err(SigningError::EncodingLimit(e));
        },
    };
    proof {
        reveal_strlit("secp256k1");
        reveal_strlit("bls");
    }
    if eq_str(key.key_type.as_str(), "secp256k1") {
        sign_secp256k1(key.private_key.as_slice(), cid.as_slice())
    } else if eq_str(key.key_type.as_str(), "bls") {
        sign_bls(key.private_key.as_slice(), cid.as_slice())
    } else {
        Err(SigningError::UnknownKeyType)
    }
}

} // verus!
