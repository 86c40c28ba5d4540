use vstd::prelude::*;
use blake2_rfc::blake2b::blake2b;

verus! {

/// The BLAKE2b hash, with a 32-byte output and no key, of a byte string.
pub uninterp spec fn blake2_256_of(data: Seq<u8>) -> Seq<u8>;

/// Hashes `data` with BLAKE2b to 32 bytes, through
/// `blake2_rfc::blake2b::blake2b(32, &[], data)` (the digest length 32 is
/// within the 1 to 64 that the function asserts, and the key is empty).
/// The contract only names the result: it is the hash of `data` and
/// depends on nothing else.
#[verifier::external_body]
pub(crate) fn blake2_256(data: &[u8]) -> (r: [u8; 32])
    ensures
        r@ == blake2_256_of(data@),
{
    let mut r = [0u8; 32];
    r.copy_from_slice(blake2b(32, &[], data).as_bytes());
    r
}

} // verus!
