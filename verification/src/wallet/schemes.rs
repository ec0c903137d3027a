//! The two signature schemes, as `secp256k1` and `blst` compute them.
//!
//! Keys, digests and signatures cross this boundary as bytes. What each
//! function here returns is taken on trust from the crate that it calls.

use crate::chain::bytes::be_nat;
use crate::chain::message::BLS_SIGNATURE_LEN;
use vstd::prelude::*;

verus! {

/// Errors of `secp256k1`.
#[verifier::external_type_specification]
#[verifier::external_body]
pub struct ExSecp256k1Error(secp256k1::Error);

/// Errors of `blst`.
#[verifier::external_type_specification]
#[verifier::external_body]
pub struct ExBlstError(blst::BLST_ERROR);

/// Bytes in a private key of either scheme.
pub const PRIVATE_KEY_LEN: usize = 32;

/// Bytes in an uncompressed secp256k1 public key.
pub const SECP256K1_PUBLIC_KEY_LEN: usize = 65;

/// Bytes in a compact secp256k1 signature, without the recovery identifier.
pub const SECP256K1_COMPACT_LEN: usize = 64;

/// Bytes in a compressed BLS public key.
pub const BLS_PUBLIC_KEY_LEN: usize = 48;

/// The order of the secp256k1 group.
pub open spec fn secp256k1_order() -> nat {
    0xFFFFFFFF_FFFFFFFF_FFFFFFFF_FFFFFFFE_BAAEDCE6_AF48A03B_BFD25E8C_D0364141nat
}

/// Whether `key` is a secp256k1 private key: 32 bytes that write, most
/// significant first, a number above zero and below the order of the group.
pub open spec fn is_secp256k1_secret(key: Seq<u8>) -> bool {
    key.len() == PRIVATE_KEY_LEN && 0 < be_nat(key) < secp256k1_order()
}

/// The compact signature and the recovery identifier that secp256k1 gives
/// for a private key and a 32-byte digest, with the nonce of RFC 6979.
pub uninterp spec fn ecdsa_sign_recoverable(key: Seq<u8>, digest: Seq<u8>) -> (Seq<u8>, int);

/// The uncompressed public key of a secp256k1 private key.
pub uninterp spec fn secp256k1_public_key(key: Seq<u8>) -> Seq<u8>;

/// The BLS private key, most significant byte first, that key generation
/// derives from a seed.
pub uninterp spec fn bls_key_from_seed(seed: Seq<u8>) -> Seq<u8>;

/// The compressed public key of a BLS private key given most significant
/// byte first; `None` where the key is refused.
pub uninterp spec fn bls_public_key(key: Seq<u8>) -> Option<Seq<u8>>;

/// The compressed BLS signature of `msg` under the domain separation tag
/// `dst`, by a private key given most significant byte first; `None` where
/// the key is refused.
pub uninterp spec fn bls_sign(key: Seq<u8>, msg: Seq<u8>, dst: Seq<u8>) -> Option<Seq<u8>>;

/// Signs with `Secp256k1::sign_ecdsa_recoverable`, on a key read by
/// `SecretKey::from_slice` and a digest read by `Message::from_digest_slice`,
/// and takes the result apart with `serialize_compact`. Taken on trust: the
/// call succeeds exactly on a private key of the group and a digest of 32
/// bytes; it then gives the 64 bytes and the recovery identifier, from 0 to
/// 3, that `ecdsa_sign_recoverable` names.
#[verifier::external_body]
pub(crate) fn secp256k1_sign_recoverable(
    key: &[u8],
    digest: &[u8],
) -> (r: Result<(Vec<u8>, i32), secp256k1::Error>)
    ensures
        r is Ok <==> (is_secp256k1_secret(key@) && digest@.len() == 32),
        r matches Ok((compact, recovery)) ==> (compact@, recovery as int)
            == ecdsa_sign_recoverable(key@, digest@) && compact@.len() == SECP256K1_COMPACT_LEN
            && 0 <= recovery <= 3,
{
    let secret = secp256k1::SecretKey::from_slice(key)?;
    let msg = secp256k1::Message::from_digest_slice(digest)?;
    let sig = secp256k1::Secp256k1::new().sign_ecdsa_recoverable(&msg, &secret);
    let (recovery, compact) = sig.serialize_compact();
    Ok((compact.to_vec(), recovery.to_i32()))
}

/// Derives the public key with `PublicKey::from_secret_key`, on a key read
/// by `SecretKey::from_slice`, and writes it with `serialize_uncompressed`.
/// Taken on trust: the call succeeds exactly on a private key of the group,
/// and then gives the 65 bytes that `secp256k1_public_key` names.
#[verifier::external_body]
pub(crate) fn secp256k1_derive_public(key: &[u8]) -> (r: Result<Vec<u8>, secp256k1::Error>)
    ensures
        r is Ok <==> is_secp256k1_secret(key@),
        r matches Ok(public) ==> public@ == secp256k1_public_key(key@) && public@.len()
            == SECP256K1_PUBLIC_KEY_LEN,
{
    let secret = secp256k1::SecretKey::from_slice(key)?;
    let public = secp256k1::PublicKey::from_secret_key(&secp256k1::Secp256k1::new(), &secret);
    Ok(public.serialize_uncompressed().to_vec())
}

/// Draws a private key with `Secp256k1::generate_keypair` from the operating
/// system's random numbers. Taken on trust: whatever is drawn is a private
/// key of the group. The call panics where the system has no random numbers
/// to give.
#[verifier::external_body]
pub(crate) fn secp256k1_generate_secret() -> (key: Vec<u8>)
    ensures
        is_secp256k1_secret(key@),
{
    let (secret, _) = secp256k1::Secp256k1::new().generate_keypair(&mut rand::rngs::OsRng);
    secret.secret_bytes().to_vec()
}

/// The text of a `secp256k1` error, from its `Display`.
#[verifier::external_body]
pub(crate) fn secp256k1_error_text(e: &secp256k1::Error) -> String {
    e.to_string()
}

/// Fills 32 bytes with `rand::RngCore::fill_bytes` from the operating
/// system's random numbers. Nothing is claimed of the bytes but their count.
/// The call panics where the system has no random numbers to give.
#[verifier::external_body]
pub(crate) fn random_seed() -> (seed: Vec<u8>)
    ensures
        seed@.len() == 32,
{
    let mut seed = [0u8; 32];
    rand::RngCore::fill_bytes(&mut rand::rngs::OsRng, &mut seed);
    seed.to_vec()
}

/// Derives a BLS private key with `blst::min_pk::SecretKey::key_gen`, with
/// no key information, and writes it with `to_bytes`. Taken on trust: the
/// call succeeds exactly on a seed of 32 bytes or more, and then gives the
/// 32 bytes that `bls_key_from_seed` names.
#[verifier::external_body]
pub(crate) fn bls_generate_secret(seed: &[u8]) -> (r: Result<Vec<u8>, blst::BLST_ERROR>)
    ensures
        r is Ok <==> seed@.len() >= 32,
        r matches Ok(key) ==> key@ == bls_key_from_seed(seed@) && key@.len() == PRIVATE_KEY_LEN,
{
    let secret = blst::min_pk::SecretKey::key_gen(seed, &[])?;
    Ok(secret.to_bytes().to_vec())
}

/// Derives the public key with `blst::min_pk::SecretKey::sk_to_pk`, on a key
/// read by `from_bytes`, and writes it with `to_bytes`. Taken on trust: the
/// outcome is the one that `bls_public_key` names; a key that is accepted
/// has 32 bytes and gives 48.
#[verifier::external_body]
pub(crate) fn bls_derive_public(key: &[u8]) -> (r: Result<Vec<u8>, blst::BLST_ERROR>)
    ensures
        match r {
            Ok(public) => bls_public_key(key@) == Some(public@) && public@.len()
                == BLS_PUBLIC_KEY_LEN && key@.len() == PRIVATE_KEY_LEN,
            Err(_) => bls_public_key(key@) is None,
        },
{
    let secret = blst::min_pk::SecretKey::from_bytes(key)?;
    Ok(secret.sk_to_pk().to_bytes().to_vec())
}

/// Signs with `blst::min_pk::SecretKey::sign`, with no augmentation, on a
/// key read by `from_bytes`, and writes the signature with `to_bytes`. Taken
/// on trust: the outcome is the one that `bls_sign` names; a key that is
/// accepted has 32 bytes and gives a signature of 96.
#[verifier::external_body]
pub(crate) fn bls_sign_bytes(
    key: &[u8],
    msg: &[u8],
    dst: &[u8],
) -> (r: Result<Vec<u8>, blst::BLST_ERROR>)
    ensures
        match r {
            Ok(signature) => bls_sign(key@, msg@, dst@) == Some(signature@) && signature@.len()
                == BLS_SIGNATURE_LEN && key@.len() == PRIVATE_KEY_LEN,
            Err(_) => bls_sign(key@, msg@, dst@) is None,
        },
{
    let secret = blst::min_pk::SecretKey::from_bytes(key)?;
    Ok(secret.sign(msg, dst, &[]).to_bytes().to_vec())
}

/// The name of a `blst` error, from its `Debug`.
#[verifier::external_body]
pub(crate) fn bls_error_text(e: &blst::BLST_ERROR) -> String {
    format!("{:?}", e)
}

} // verus!
