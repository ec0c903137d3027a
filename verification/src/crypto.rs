//! Protection of stored keys.
//!
//! A key is sealed with AES-256-GCM under a key derived from a password.
//! What is stored is the nonce, then the ciphertext with its tag.

use vstd::prelude::*;
use vstd::slice::slice_subrange;
use vstd::string::*;

verus! {

/// Bytes in a nonce.
pub const NONCE_SIZE: usize = 12;

/// Bytes in the tag that follows the ciphertext.
pub const TAG_SIZE: usize = 16;

/// Longest plaintext that AES-GCM seals, in bytes.
pub const MAX_PLAINTEXT_LEN: u64 = 0x10_0000_0000;

/// Why sealing or opening failed.
#[derive(Debug, Clone, Copy, PartialEq, Eq, Structural)]
pub enum CryptoError {
    /// What was stored is shorter than a nonce.
    DataTooShort,
    /// The plaintext is too long to seal.
    EncryptionFailed,
    /// The ciphertext was not sealed under this key and nonce.
    DecryptionFailed,
}

/// The ciphertext and tag that AES-256-GCM gives for a key, a nonce and a
/// plaintext, with no associated data.
pub uninterp spec fn aes256_gcm_seal(key: Seq<u8>, nonce: Seq<u8>, data: Seq<u8>) -> Seq<u8>;

/// The plaintext that AES-256-GCM recovers from a ciphertext with its tag;
/// `None` where the tag does not fit.
pub uninterp spec fn aes256_gcm_open(key: Seq<u8>, nonce: Seq<u8>, sealed: Seq<u8>) -> Option<
    Seq<u8>,
>;

/// The SHA-256 digest of `data`.
pub uninterp spec fn sha256(data: Seq<u8>) -> Seq<u8>;

/// What is stored for a plaintext sealed under `nonce`: the nonce, then the
/// ciphertext with its tag.
pub open spec fn sealed_with(key: Seq<u8>, nonce: Seq<u8>, data: Seq<u8>) -> Seq<u8> {
    nonce + aes256_gcm_seal(key, nonce, data)
}

/// The plaintext of what was stored, where it opens: the first twelve bytes
/// are the nonce, the rest the ciphertext with its tag.
pub open spec fn opened(key: Seq<u8>, stored: Seq<u8>) -> Option<Seq<u8>> {
    aes256_gcm_open(key, stored.take(NONCE_SIZE as int), stored.skip(NONCE_SIZE as int))
}

/// Seals with `aes_gcm::Aes256Gcm`, through `Aead::encrypt`, under a nonce
/// read by `Nonce::from_slice`, which panics on a slice of another length
/// than twelve. Taken on trust: the call succeeds exactly on a plaintext of
/// at most two to the thirty-sixth bytes, and then gives the bytes that
/// `aes256_gcm_seal` names, sixteen more than the plaintext.
#[verifier::external_body]
fn seal_bytes(key: &[u8; 32], nonce: &[u8], data: &[u8]) -> (r: Option<Vec<u8>>)
    requires
        nonce@.len() == NONCE_SIZE,
    ensures
        r is Some <==> data@.len() <= MAX_PLAINTEXT_LEN,
        r matches Some(sealed) ==> sealed@ == aes256_gcm_seal(key@, nonce@, data@) && sealed@.len()
            == data@.len() + TAG_SIZE,
{
    let cipher = <aes_gcm::Aes256Gcm as aes_gcm::aead::KeyInit>::new(key.into());
    aes_gcm::aead::Aead::encrypt(&cipher, aes_gcm::Nonce::from_slice(nonce), data).ok()
}

/// Opens with `aes_gcm::Aes256Gcm`, through `Aead::decrypt`, under a nonce
/// read by `Nonce::from_slice`, which panics on a slice of another length
/// than twelve. Taken on trust: the outcome is the one that
/// `aes256_gcm_open` names; a plaintext that comes back is sixteen bytes
/// shorter than what was opened.
#[verifier::external_body]
fn open_bytes(key: &[u8; 32], nonce: &[u8], sealed: &[u8]) -> (r: Option<Vec<u8>>)
    requires
        nonce@.len() == NONCE_SIZE,
    ensures
        r is Some <==> aes256_gcm_open(key@, nonce@, sealed@) is Some,
        r matches Some(data) ==> Some(data@) == aes256_gcm_open(key@, nonce@, sealed@)
            && data@.len() + TAG_SIZE == sealed@.len(),
{
    let cipher = <aes_gcm::Aes256Gcm as aes_gcm::aead::KeyInit>::new(key.into());
    aes_gcm::aead::Aead::decrypt(&cipher, aes_gcm::Nonce::from_slice(nonce), sealed).ok()
}

/// Draws twelve bytes with `rand::Rng::gen` from the thread's generator.
/// Nothing is claimed of the bytes but their count. The call panics where
/// the generator cannot be seeded.
#[verifier::external_body]
fn random_nonce() -> (nonce: Vec<u8>)
    ensures
        nonce@.len() == NONCE_SIZE,
{
    let nonce_bytes: [u8; NONCE_SIZE] = rand::Rng::gen(&mut rand::thread_rng());
    nonce_bytes.to_vec()
}

/// Hashes with `sha2::Sha256`, through `Digest::update` and `finalize`.
/// Taken on trust: the 32 bytes returned are the digest named `sha256`.
#[verifier::external_body]
fn sha256_digest(data: &[u8]) -> (digest: [u8; 32])
    ensures
        digest@ == sha256(data@),
{
    let mut hasher = <sha2::Sha256 as sha2::Digest>::new();
    sha2::Digest::update(&mut hasher, data);
    sha2::Digest::finalize(hasher).into()
}

/// What is stored for a ciphertext sealed under `nonce`.
pub fn frame(nonce: &[u8], sealed: &[u8]) -> (stored: Vec<u8>)
    ensures
        stored@ == nonce@ + sealed@,
{
    let mut stored: Vec<u8> = Vec::new();
    stored.extend_from_slice(nonce);
    stored.extend_from_slice(sealed);
    stored
}

/// Seals `data` under `key` and a nonce drawn at random. The result starts
/// with the nonce and opens under `key` by `decrypt`'s reading of it. Fails
/// exactly where `data` is too long.
pub fn encrypt(data: &[u8], key: &[u8; 32]) -> (r: Result<Vec<u8>, CryptoError>)
    ensures
        match r {
            Ok(stored) => data@.len() <= MAX_PLAINTEXT_LEN && stored@.len() == NONCE_SIZE
                + data@.len() + TAG_SIZE && stored@ == sealed_with(
                key@,
                stored@.take(NONCE_SIZE as int),
                data@,
            ),
            Err(e) => data@.len() > MAX_PLAINTEXT_LEN && e == CryptoError::EncryptionFailed,
        },
{
    let nonce = random_nonce();
    match seal_bytes(key, nonce.as_slice(), data) {
        Some(sealed) => {
            let stored = frame(nonce.as_slice(), sealed.as_slice());
            assert(stored@.take(NONCE_SIZE as int) =~= nonce@);
            Ok(stored)
        },
        None => Err(CryptoError::EncryptionFailed),
    }
}

/// Opens what `encrypt` sealed under `key`.
pub fn decrypt(data: &[u8], key: &[u8; 32]) -> (r: Result<Vec<u8>, CryptoError>)
    ensures
        match r {
            Ok(plain) => data@.len() >= NONCE_SIZE && opened(key@, data@) == Some(plain@),
            Err(CryptoError::DataTooShort) => data@.len() < NONCE_SIZE,
            Err(CryptoError::DecryptionFailed) => data@.len() >= NONCE_SIZE && opened(key@, data@)
                is None,
            Err(CryptoError::EncryptionFailed) => false,
        },
{
    if data.len() < NONCE_SIZE {
        return Err(CryptoError::DataTooShort);
    }
    let nonce = slice_subrange(data, 0, NONCE_SIZE);
    let sealed = slice_subrange(data, NONCE_SIZE, data.len());
    assert(nonce@ =~= data@.take(NONCE_SIZE as int));
    assert(sealed@ =~= data@.skip(NONCE_SIZE as int));
    match open_bytes(key, nonce, sealed) {
        Some(plain) => Ok(plain),
        None => Err(CryptoError::DecryptionFailed),
    }
}

/// The key that a password gives: the SHA-256 digest of its bytes.
pub fn derive_key(password: &str) -> (key: [u8; 32])
    ensures
        key@ == sha256(password.spec_bytes()),
{
    sha256_digest(password.as_bytes())
}

} // verus!
