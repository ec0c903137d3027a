//! The BLAKE2b digest that addresses, content identifiers and signatures
//! are built on.

use vstd::prelude::*;

verus! {

/// The unkeyed BLAKE2b digest of `data` with an output of `size` bytes.
pub uninterp spec fn blake2b(data: Seq<u8>, size: nat) -> Seq<u8>;

/// Longest digest that BLAKE2b gives, in bytes.
pub const MAX_DIGEST_LEN: usize = 64;

/// Hashes `data` with `blake2b_simd::Params::hash`, after `hash_length` has
/// set the output length. Taken on trust: the bytes returned are the digest
/// named `blake2b`, and there are `size` of them. The length must lie between
/// 1 and 64, outside of which `hash_length` panics.
#[verifier::external_body]
pub(crate) fn blake2b_hash(data: &[u8], size: usize) -> (digest: Vec<u8>)
    requires
        1 <= size <= MAX_DIGEST_LEN,
    ensures
        digest@ == blake2b(data@, size as nat),
        digest@.len() == size,
{
    blake2b_simd::Params::new().hash_length(size).hash(data).as_bytes().to_vec()
}

} // verus!
