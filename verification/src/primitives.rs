use vstd::prelude::*;

verus! {

/// Identifies the consensus engine that a digest item belongs to.
pub type ConsensusEngineId = [u8; 4];

/// The engine identifier of BABE: the bytes of `"BABE"`.
pub const BABE_ENGINE_ID: ConsensusEngineId = [66u8, 65u8, 66u8, 69u8];

/// The length of a VRF output.
pub const VRF_OUTPUT_LENGTH: usize = 32;

/// The length of a VRF proof.
pub const VRF_PROOF_LENGTH: usize = 64;

/// The length of a BABE public key.
pub const PUBLIC_KEY_LENGTH: usize = 32;

/// The length of the BABE randomness.
pub const RANDOMNESS_LENGTH: usize = 32;

/// The index of an authority in the authority set.
pub type AuthorityIndex = u32;

/// A slot number.
pub type SlotNumber = u64;

/// The weight of an authority.
pub type BabeAuthorityWeight = u64;

/// An authority identifier: an sr25519 public key.
pub type AuthorityId = [u8; PUBLIC_KEY_LENGTH];

/// The output of a VRF evaluation.
pub type VrfOutput = [u8; VRF_OUTPUT_LENGTH];

/// A BABE public key.
pub type BabeKey = [u8; PUBLIC_KEY_LENGTH];

/// Whether an engine identifier is BABE's.
pub open spec fn is_babe_engine(id: ConsensusEngineId) -> bool {
    id@ == BABE_ENGINE_ID@
}

/// Compares two byte arrays element by element.
pub fn same_bytes<const N: usize>(a: &[u8; N], b: &[u8; N]) -> (r: bool)
    ensures
        r == (a@ == b@),
{
    broadcast use vstd::array::group_array_axioms;
    let mut i: usize = 0;
    while i < N
        invariant
            i <= N,
            a@.len() == N,
            b@.len() == N,
            forall|j: int| 0 <= j < i ==> a@[j] == b@[j],
        decreases N - i,
    {
        if a[i] != b[i] {
            return false;
        }
        i = i + 1;
    }
    assert(a@ =~= b@);
    true
}

/// Whether an engine identifier is BABE's.
pub fn is_babe_engine_id(id: &ConsensusEngineId) -> (r: bool)
    ensures
        r == is_babe_engine(*id),
{
    same_bytes(id, &BABE_ENGINE_ID)
}

/// Appends the bytes of `bytes` to `out`.
pub(crate) fn append_bytes(out: &mut Vec<u8>, bytes: &[u8])
    ensures
        final(out)@ == old(out)@ + bytes@,
{
    let mut i: usize = 0;
    while i < bytes.len()
        invariant
            i <= bytes@.len(),
            out@ == old(out)@ + bytes@.subrange(0, i as int),
        decreases bytes@.len() - i,
    {
        out.push(bytes[i]);
        i = i + 1;
        assert(out@ =~= old(out)@ + bytes@.subrange(0, i as int));
    }
    assert(bytes@.subrange(0, i as int) =~= bytes@);
}

} // verus!
