use vstd::prelude::*;
use vstd::bytes::*;

use crate::codec::{encode_compact_u32, spec_compact_u32};
use crate::primitives::{
    append_bytes, is_babe_engine, is_babe_engine_id, AuthorityId, AuthorityIndex, BabeAuthorityWeight,
    ConsensusEngineId, SlotNumber, VRF_OUTPUT_LENGTH, VRF_PROOF_LENGTH,
};

verus! {

broadcast use vstd::array::group_array_axioms;

/// A BABE pre-runtime digest: the slot claim of a block author. A slot is
/// either assigned through the VRF (primary) or round-robin by slot number
/// (secondary).
#[derive(Clone, Copy, Debug)]
pub enum RawBabePreDigest {
    /// A primary VRF-based slot assignment.
    Primary {
        authority_index: AuthorityIndex,
        slot_number: SlotNumber,
        vrf_output: [u8; VRF_OUTPUT_LENGTH],
        vrf_proof: [u8; VRF_PROOF_LENGTH],
    },
    /// A secondary deterministic slot assignment.
    Secondary { authority_index: AuthorityIndex, slot_number: SlotNumber },
}

impl RawBabePreDigest {
    pub open spec fn spec_slot_number(&self) -> SlotNumber {
        match *self {
            RawBabePreDigest::Primary { slot_number, .. } => slot_number,
            RawBabePreDigest::Secondary { slot_number, .. } => slot_number,
        }
    }

    pub open spec fn spec_authority_index(&self) -> AuthorityIndex {
        match *self {
            RawBabePreDigest::Primary { authority_index, .. } => authority_index,
            RawBabePreDigest::Secondary { authority_index, .. } => authority_index,
        }
    }

    /// The VRF output carried by a primary claim.
    pub open spec fn spec_vrf_output(&self) -> Option<[u8; VRF_OUTPUT_LENGTH]> {
        match *self {
            RawBabePreDigest::Primary { vrf_output, .. } => Some(vrf_output),
            RawBabePreDigest::Secondary { .. } => None,
        }
    }

    /// The slot that the digest claims.
    pub fn slot_number(&self) -> (r: SlotNumber)
        ensures
            r == self.spec_slot_number(),
    {
        match *self {
            RawBabePreDigest::Primary { slot_number, .. } => slot_number,
            RawBabePreDigest::Secondary { slot_number, .. } => slot_number,
        }
    }

    /// The index of the authority that claims the slot.
    pub fn authority_index(&self) -> (r: AuthorityIndex)
        ensures
            r == self.spec_authority_index(),
    {
        match *self {
            RawBabePreDigest::Primary { authority_index, .. } => authority_index,
            RawBabePreDigest::Secondary { authority_index, .. } => authority_index,
        }
    }

    /// The SCALE encoding of the digest: the variant index (1 for primary,
    /// 2 for secondary) followed by the fields in order, integers in
    /// little-endian and arrays as their raw bytes.
    pub open spec fn spec_encoding(&self) -> Seq<u8> {
        match *self {
            RawBabePreDigest::Primary { authority_index, slot_number, vrf_output, vrf_proof } =>
                seq![1u8] + spec_u32_to_le_bytes(authority_index) + spec_u64_to_le_bytes(
                    slot_number,
                ) + vrf_output@ + vrf_proof@,
            RawBabePreDigest::Secondary { authority_index, slot_number } => seq![2u8]
                + spec_u32_to_le_bytes(authority_index) + spec_u64_to_le_bytes(slot_number),
        }
    }
}

/// `data` starts with the encoding of `d`; decoding reads that prefix and
/// leaves whatever follows it.
pub open spec fn decodes_to(data: Seq<u8>, d: RawBabePreDigest) -> bool {
    let e = d.spec_encoding();
    e.len() <= data.len() && data.subrange(0, e.len() as int) == e
}

/// What decoding a pre-digest from `data` gives: the digest whose encoding
/// `data` starts with, if there is one (there is at most one).
pub open spec fn decoded_pre_digest(data: Seq<u8>) -> Option<RawBabePreDigest> {
    if exists|d: RawBabePreDigest| decodes_to(data, d) {
        Some(choose|d: RawBabePreDigest| decodes_to(data, d))
    } else {
        None
    }
}

proof fn lemma_encoding_shape(d: RawBabePreDigest)
    ensures
        d.spec_encoding().len() == (if d is Primary { 109int } else { 13int }),
        d.spec_encoding()[0] == (if d is Primary { 1u8 } else { 2u8 }),
        d.spec_encoding().subrange(1, 5) == spec_u32_to_le_bytes(d.spec_authority_index()),
        d.spec_encoding().subrange(5, 13) == spec_u64_to_le_bytes(d.spec_slot_number()),
        d matches RawBabePreDigest::Primary { vrf_output, vrf_proof, .. } ==> {
            &&& d.spec_encoding().subrange(13, 45) == vrf_output@
            &&& d.spec_encoding().subrange(45, 109) == vrf_proof@
        },
{
    lemma_auto_spec_u32_to_from_le_bytes();
    lemma_auto_spec_u64_to_from_le_bytes();
    let e = d.spec_encoding();
    match d {
        RawBabePreDigest::Primary { authority_index, slot_number, vrf_output, vrf_proof } => {
            assert(e.subrange(1, 5) =~= spec_u32_to_le_bytes(authority_index));
            assert(e.subrange(5, 13) =~= spec_u64_to_le_bytes(slot_number));
            assert(e.subrange(13, 45) =~= vrf_output@);
            assert(e.subrange(45, 109) =~= vrf_proof@);
        },
        RawBabePreDigest::Secondary { authority_index, slot_number } => {
            assert(e.subrange(1, 5) =~= spec_u32_to_le_bytes(authority_index));
            assert(e.subrange(5, 13) =~= spec_u64_to_le_bytes(slot_number));
        },
    }
}

/// At most one digest has an encoding that `data` starts with.
pub proof fn lemma_decoding_unique(data: Seq<u8>, d1: RawBabePreDigest, d2: RawBabePreDigest)
    requires
        decodes_to(data, d1),
        decodes_to(data, d2),
    ensures
        d1 == d2,
{
    lemma_auto_spec_u32_to_from_le_bytes();
    lemma_auto_spec_u64_to_from_le_bytes();
    lemma_encoding_shape(d1);
    lemma_encoding_shape(d2);
    let e1 = d1.spec_encoding();
    let e2 = d2.spec_encoding();
    assert(data[0] == e1[0]);
    assert(data[0] == e2[0]);
    assert(e1.subrange(1, 5) == data.subrange(1, 5));
    assert(e2.subrange(1, 5) == data.subrange(1, 5));
    assert(e1.subrange(5, 13) == data.subrange(5, 13));
    assert(e2.subrange(5, 13) == data.subrange(5, 13));
    assert(spec_u32_from_le_bytes(spec_u32_to_le_bytes(d1.spec_authority_index()))
        == spec_u32_from_le_bytes(spec_u32_to_le_bytes(d2.spec_authority_index())));
    assert(spec_u64_from_le_bytes(spec_u64_to_le_bytes(d1.spec_slot_number()))
        == spec_u64_from_le_bytes(spec_u64_to_le_bytes(d2.spec_slot_number())));
    match (d1, d2) {
        (
            RawBabePreDigest::Primary { vrf_output: o1, vrf_proof: p1, .. },
            RawBabePreDigest::Primary { vrf_output: o2, vrf_proof: p2, .. },
        ) => {
            assert(e1.subrange(13, 45) == data.subrange(13, 45));
            assert(e2.subrange(13, 45) == data.subrange(13, 45));
            assert(e1.subrange(45, 109) == data.subrange(45, 109));
            assert(e2.subrange(45, 109) == data.subrange(45, 109));
            assert(o1@ == o2@);
            assert(p1@ == p2@);
            assert(o1 == o2);
            assert(p1 == p2);
        },
        _ => {},
    }
}

/// Reads `N` bytes of `data` from `start` into an array.
fn read_array<const N: usize>(data: &[u8], start: usize) -> (r: [u8; N])
    requires
        start + N <= data@.len(),
    ensures
        r@ == data@.subrange(start as int, start + N),
{
    let mut out: [u8; N] = vstd::array::array_fill_for_copy_types(0u8);
    let mut i: usize = 0;
    while i < N
        invariant
            i <= N,
            start + N <= data@.len(),
            data@.len() == data.len(),
            out@.len() == N,
            forall|j: int| 0 <= j < i ==> out@[j] == data@[start + j],
        decreases N - i,
    {
        out[i] = data[start + i];
        i = i + 1;
    }
    assert(out@ =~= data@.subrange(start as int, start + N));
    out
}

/// Decodes a BABE pre-digest from the front of `data`, as the SCALE
/// derivation of `Decode` does: the variant index, then each field. Bytes
/// after the encoding are left alone.
pub fn decode_pre_digest(data: &[u8]) -> (r: Option<RawBabePreDigest>)
    ensures
        r == decoded_pre_digest(data@),
{
    proof {
        lemma_auto_spec_u32_to_from_le_bytes();
        lemma_auto_spec_u64_to_from_le_bytes();
    }
    let len = data.len();
    if len == 0 {
        proof {
            assert forall|d: RawBabePreDigest| !decodes_to(data@, d) by {
                lemma_encoding_shape(d);
            }
        }
        return None;
    }
    let tag = data[0];
    let needed: usize = if tag == 1 { 109 } else { 13 };
    if (tag != 1 && tag != 2) || len < needed {
        proof {
            assert forall|d: RawBabePreDigest| !decodes_to(data@, d) by {
                lemma_encoding_shape(d);
                if decodes_to(data@, d) {
                    assert(data@[0] == d.spec_encoding()[0]);
                }
            }
        }
        return None;
    }
    let authority_index = u32_from_le_bytes(vstd::slice::slice_subrange(data, 1, 5));
    let slot_number = u64_from_le_bytes(vstd::slice::slice_subrange(data, 5, 13));
    let d = if tag == 1 {
        let vrf_output: [u8; VRF_OUTPUT_LENGTH] = read_array(data, 13);
        let vrf_proof: [u8; VRF_PROOF_LENGTH] = read_array(data, 45);
        RawBabePreDigest::Primary { authority_index, slot_number, vrf_output, vrf_proof }
    } else {
        RawBabePreDigest::Secondary { authority_index, slot_number }
    };
    proof {
        lemma_encoding_shape(d);
        let e = d.spec_encoding();
        assert(spec_u32_to_le_bytes(authority_index) == data@.subrange(1, 5));
        assert(spec_u64_to_le_bytes(slot_number) == data@.subrange(5, 13));
        assert(data@.subrange(0, e.len() as int) =~= e) by {
            assert forall|k: int| 0 <= k < e.len() implies data@[k] == e[k] by {
                if k == 0 {
                } else if k < 5 {
                    assert(e[k] == e.subrange(1, 5)[k - 1]);
                    assert(data@[k] == data@.subrange(1, 5)[k - 1]);
                } else if k < 13 {
                    assert(e[k] == e.subrange(5, 13)[k - 5]);
                    assert(data@[k] == data@.subrange(5, 13)[k - 5]);
                } else if k < 45 {
                    assert(e[k] == e.subrange(13, 45)[k - 13]);
                    assert(data@[k] == data@.subrange(13, 45)[k - 13]);
                } else {
                    assert(e[k] == e.subrange(45, 109)[k - 45]);
                    assert(data@[k] == data@.subrange(45, 109)[k - 45]);
                }
            }
        }
        assert(decodes_to(data@, d));
        let c = choose|x: RawBabePreDigest| decodes_to(data@, x);
        lemma_decoding_unique(data@, c, d);
    }
    Some(d)
}


/// An item of a block's digest.
pub enum DigestItem {
    /// Put by the block author before the runtime runs (the slot claim).
    PreRuntime(ConsensusEngineId, Vec<u8>),
    /// Put by the runtime, for the consensus engine to act upon.
    Consensus(ConsensusEngineId, Vec<u8>),
    /// The author's seal.
    Seal(ConsensusEngineId, Vec<u8>),
    /// Anything else.
    Other(Vec<u8>),
}

/// A digest item with its payload as a sequence of bytes.
pub enum DigestItemModel {
    PreRuntime(ConsensusEngineId, Seq<u8>),
    Consensus(ConsensusEngineId, Seq<u8>),
    Seal(ConsensusEngineId, Seq<u8>),
    Other(Seq<u8>),
}

impl View for DigestItem {
    type V = DigestItemModel;

    open spec fn view(&self) -> DigestItemModel {
        match self {
            DigestItem::PreRuntime(id, data) => DigestItemModel::PreRuntime(*id, data@),
            DigestItem::Consensus(id, data) => DigestItemModel::Consensus(*id, data@),
            DigestItem::Seal(id, data) => DigestItemModel::Seal(*id, data@),
            DigestItem::Other(data) => DigestItemModel::Other(data@),
        }
    }
}

/// The digest items as models.
pub open spec fn digest_model(items: Seq<DigestItem>) -> Seq<DigestItemModel> {
    items.map_values(|item: DigestItem| item@)
}

/// The first BABE pre-runtime item of `logs` whose payload decodes as a
/// pre-digest; items that fail to decode are passed over.
pub open spec fn first_babe_pre_digest(logs: Seq<DigestItemModel>) -> Option<RawBabePreDigest>
    decreases logs.len(),
{
    if logs.len() == 0 {
        None
    } else {
        match logs[0] {
            DigestItemModel::PreRuntime(id, data) if is_babe_engine(id) && decoded_pre_digest(
                data,
            ) is Some => decoded_pre_digest(data),
            _ => first_babe_pre_digest(logs.drop_first()),
        }
    }
}

/// Finds the BABE pre-digest of a block: the first pre-runtime item of the
/// BABE engine whose payload decodes.
pub fn find_pre_digest(logs: &Vec<DigestItem>) -> (r: Option<RawBabePreDigest>)
    ensures
        r == first_babe_pre_digest(digest_model(logs@)),
{
    let ghost all = digest_model(logs@);
    assert(all.subrange(0, all.len() as int) =~= all);
    let mut i: usize = 0;
    while i < logs.len()
        invariant
            i <= logs@.len(),
            all == digest_model(logs@),
            first_babe_pre_digest(all) == first_babe_pre_digest(all.subrange(i as int, all.len() as int)),
        decreases logs@.len() - i,
    {
        let ghost rest = all.subrange(i as int, all.len() as int);
        assert(rest[0] == logs@[i as int]@);
        assert(rest.drop_first() =~= all.subrange(i + 1, all.len() as int));
        match &logs[i] {
            DigestItem::PreRuntime(id, data) => {
                if is_babe_engine_id(id) {
                    let decoded = decode_pre_digest(data.as_slice());
                    if decoded.is_some() {
                        return decoded;
                    }
                }
            },
            _ => {},
        }
        i = i + 1;
    }
    assert(all.subrange(i as int, all.len() as int).len() == 0);
    None
}

/// The author of a block, from its pre-runtime digests: the authority
/// index of the first BABE item, or nothing when that item does not decode
/// or there is none.
pub open spec fn spec_find_author(digests: Seq<(ConsensusEngineId, Vec<u8>)>) -> Option<u32>
    decreases digests.len(),
{
    if digests.len() == 0 {
        None
    } else if is_babe_engine(digests[0].0) {
        match decoded_pre_digest(digests[0].1@) {
            Some(d) => Some(d.spec_authority_index()),
            None => None,
        }
    } else {
        spec_find_author(digests.drop_first())
    }
}

/// Finds the index of the authority that authored a block from its
/// pre-runtime digests.
pub fn find_author(digests: &[(ConsensusEngineId, Vec<u8>)]) -> (r: Option<u32>)
    ensures
        r == spec_find_author(digests@),
{
    let ghost all = digests@;
    assert(all.subrange(0, all.len() as int) =~= all);
    let mut i: usize = 0;
    while i < digests.len()
        invariant
            i <= all.len(),
            all == digests@,
            spec_find_author(all) == spec_find_author(all.subrange(i as int, all.len() as int)),
        decreases all.len() - i,
    {
        let ghost rest = all.subrange(i as int, all.len() as int);
        assert(rest[0] == all[i as int]);
        assert(rest.drop_first() =~= all.subrange(i + 1, all.len() as int));
        let (id, data) = &digests[i];
        if is_babe_engine_id(id) {
            return match decode_pre_digest(data.as_slice()) {
                Some(pre_digest) => Some(pre_digest.authority_index()),
                None => None,
            };
        }
        i = i + 1;
    }
    assert(all.subrange(i as int, all.len() as int).len() == 0);
    None
}

/// Information about the next epoch, signalled when an epoch begins.
pub struct NextEpochDescriptor {
    /// The authorities of the next epoch, with their weights.
    pub authorities: Vec<(AuthorityId, BabeAuthorityWeight)>,
    /// The randomness of the next epoch.
    pub randomness: [u8; VRF_OUTPUT_LENGTH],
}

/// A consensus log item of BABE.
pub enum ConsensusLog {
    /// The epoch has changed: information about the next epoch.
    NextEpochData(NextEpochDescriptor),
    /// Disable the authority with the given index.
    OnDisabled(AuthorityIndex),
}

/// The SCALE encoding of a list of authorities without its length prefix:
/// each key's bytes followed by the weight in little-endian.
pub open spec fn authority_list_encoding(a: Seq<(AuthorityId, BabeAuthorityWeight)>) -> Seq<u8>
    decreases a.len(),
{
    if a.len() == 0 {
        Seq::empty()
    } else {
        authority_list_encoding(a.drop_last()) + a.last().0@ + spec_u64_to_le_bytes(a.last().1)
    }
}

/// The encoding of `ConsensusLog::NextEpochData`: variant index 1, the
/// authority list with its compact length, then the randomness.
pub open spec fn next_epoch_data_encoding(
    authorities: Seq<(AuthorityId, BabeAuthorityWeight)>,
    randomness: Seq<u8>,
) -> Seq<u8> {
    seq![1u8] + spec_compact_u32(authorities.len() as u32) + authority_list_encoding(authorities)
        + randomness
}

/// The encoding of `ConsensusLog::OnDisabled`: variant index 2, then the
/// authority index in little-endian.
pub open spec fn on_disabled_encoding(index: AuthorityIndex) -> Seq<u8> {
    seq![2u8] + spec_u32_to_le_bytes(index)
}

impl ConsensusLog {
    /// The SCALE encoding of the log item.
    pub open spec fn spec_encoding(&self) -> Seq<u8> {
        match self {
            ConsensusLog::NextEpochData(next) => next_epoch_data_encoding(
                next.authorities@,
                next.randomness@,
            ),
            ConsensusLog::OnDisabled(index) => on_disabled_encoding(*index),
        }
    }

    /// Encodes the log item with SCALE. The length of an authority list is
    /// encoded as a `u32`, which a longer list would not fit.
    pub fn encode(&self) -> (r: Vec<u8>)
        requires
            self matches ConsensusLog::NextEpochData(next) ==> next.authorities@.len()
                <= u32::MAX,
        ensures
            r@ == self.spec_encoding(),
    {
        match self {
            ConsensusLog::NextEpochData(next) => {
                let mut out: Vec<u8> = Vec::new();
                out.push(1u8);
                let len_prefix = encode_compact_u32(next.authorities.len() as u32);
                append_bytes(&mut out, len_prefix.as_slice());
                let ghost head = out@;
                let mut i: usize = 0;
                while i < next.authorities.len()
                    invariant
                        i <= next.authorities@.len(),
                        out@ == head + authority_list_encoding(
                            next.authorities@.subrange(0, i as int),
                        ),
                    decreases next.authorities@.len() - i,
                {
                    let (key, weight) = next.authorities[i];
                    append_bytes(&mut out, vstd::array::array_as_slice(&key));
                    let weight_bytes = vstd::bytes::u64_to_le_bytes(weight);
                    append_bytes(&mut out, weight_bytes.as_slice());
                    proof {
                        let prefix = next.authorities@.subrange(0, i + 1);
                        assert(prefix.drop_last() =~= next.authorities@.subrange(0, i as int));
                        assert(out@ =~= head + authority_list_encoding(prefix));
                    }
                    i = i + 1;
                }
                assert(next.authorities@.subrange(0, i as int) =~= next.authorities@);
                append_bytes(&mut out, vstd::array::array_as_slice(&next.randomness));
                assert(out@ =~= self.spec_encoding());
                out
            },
            ConsensusLog::OnDisabled(index) => {
                let mut out: Vec<u8> = Vec::new();
                out.push(2u8);
                let index_bytes = vstd::bytes::u32_to_le_bytes(*index);
                append_bytes(&mut out, index_bytes.as_slice());
                assert(out@ =~= self.spec_encoding());
                out
            },
        }
    }
}

} // verus!
