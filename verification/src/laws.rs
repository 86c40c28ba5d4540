use vstd::prelude::*;
use vstd::bytes::*;

use crate::digest::{
    first_babe_pre_digest, decoded_pre_digest, decodes_to, lemma_decoding_unique, next_epoch_data_encoding,
    spec_find_author, DigestItemModel, RawBabePreDigest,
};
use crate::inherent::{
    lemma_lookup_replaced, lookup, replaced, spec_babe_inherent_data, spec_check_inherent,
    spec_timestamp_inherent_data, InherentIdentifier, INHERENT_IDENTIFIER,
};
use crate::module::{
    lemma_vrf_bytes_append, segment_of, segments_bytes, segments_concat, spec_compute_randomness,
    vrf_bytes, with_segment,
    ModuleState, UNDER_CONSTRUCTION_SEGMENT_LENGTH,
};
use crate::offence::{spec_rational_parts, spec_slash_fraction};
use crate::module::{spec_slot_duration, BabeConfig};
use crate::primitives::{is_babe_engine, AuthorityId, BabeAuthorityWeight, ConsensusEngineId, VrfOutput, BABE_ENGINE_ID};

verus! {

/// Per-block initialization changes the storage once per block: after it
/// has run, running it again in the same block changes nothing.
pub proof fn law_initialize_once_per_block(s: ModuleState, now: u64, internal: bool, again: u64, internal_again: bool)
    ensures
        s.initialize(now, internal).initialize(again, internal_again) == s.initialize(now, internal),
{
}

/// No epoch change is due at block 1: epoch 0 starts there with the
/// randomness and authorities of the genesis.
pub proof fn law_no_epoch_change_at_block_one(s: ModuleState)
    ensures
        !s.should_epoch_change(1),
{
}

/// An epoch change advances the epoch index by one, so that the current
/// epoch then starts one epoch duration later.
pub proof fn law_epoch_change_advances_epoch(
    s: ModuleState,
    authorities: Seq<(AuthorityId, BabeAuthorityWeight)>,
    next_authorities: Seq<(AuthorityId, BabeAuthorityWeight)>,
)
    requires
        s.epoch_index + 2 <= u64::MAX,
    ensures
        s.enact_epoch_change(authorities, next_authorities).epoch_index == s.epoch_index + 1,
        s.enact_epoch_change(authorities, next_authorities).current_epoch_start()
            == s.current_epoch_start() + s.config.epoch_duration,
        s.enact_epoch_change(authorities, next_authorities).authorities == authorities,
{
    let t = s.enact_epoch_change(authorities, next_authorities);
    assert(t.current_epoch_start() == s.current_epoch_start() + s.config.epoch_duration) by (nonlinear_arith)
        requires
            t.epoch_index == s.epoch_index + 1,
            t.config == s.config,
            t.genesis_slot == s.genesis_slot,
            t.current_epoch_start() == t.epoch_index * t.config.epoch_duration + t.genesis_slot,
            s.current_epoch_start() == s.epoch_index * s.config.epoch_duration + s.genesis_slot,
    ;
}

/// At an epoch change the randomness prepared during the previous epoch
/// becomes the current epoch's; the next epoch's randomness is the hash of
/// it, the index of the epoch after the new one, and the VRF outputs
/// collected; those segments are emptied and collection starts over at
/// segment 0.
pub proof fn law_epoch_change_rotates_randomness(
    s: ModuleState,
    authorities: Seq<(AuthorityId, BabeAuthorityWeight)>,
    next_authorities: Seq<(AuthorityId, BabeAuthorityWeight)>,
)
    requires
        s.epoch_index + 2 <= u64::MAX,
    ensures
        s.enact_epoch_change(authorities, next_authorities).randomness == s.next_randomness,
        s.enact_epoch_change(authorities, next_authorities).next_randomness == spec_compute_randomness(
            s.next_randomness,
            (s.epoch_index + 2) as u64,
            s.collected_randomness(),
        ),
        s.enact_epoch_change(authorities, next_authorities).segment_index == 0,
        forall|i: int| 0 <= i <= s.segment_index ==> #[trigger] s.enact_epoch_change(authorities, next_authorities).segment(i).len() == 0,
{
}

proof fn lemma_segments_bytes_concat(segments: Seq<Seq<VrfOutput>>, n: nat)
    ensures
        segments_bytes(segments, n) == vrf_bytes(segments_concat(segments, n)),
    decreases n,
{
    if n == 0 {
        assert(vrf_bytes(Seq::<VrfOutput>::empty()) =~= Seq::<u8>::empty());
    } else {
        lemma_segments_bytes_concat(segments, (n - 1) as nat);
        lemma_vrf_bytes_append(segments_concat(segments, (n - 1) as nat), segment_of(segments, n - 1));
    }
}

/// The randomness of the next epoch is computed from every VRF output
/// collected during the ending epoch, in the order they were deposited.
pub proof fn law_collected_randomness_is_all_outputs(s: ModuleState)
    ensures
        s.collected_randomness() == vrf_bytes(s.under_construction_outputs()),
{
    lemma_segments_bytes_concat(s.under_construction, (s.segment_index + 1) as nat);
}

/// At an epoch change, with the segments laid out as deposits leave them,
/// every segment is emptied: no VRF output of the ending epoch is left
/// for a later one.
pub proof fn law_epoch_change_empties_all_segments(
    s: ModuleState,
    authorities: Seq<(AuthorityId, BabeAuthorityWeight)>,
    next_authorities: Seq<(AuthorityId, BabeAuthorityWeight)>,
)
    requires
        s.segments_laid_out(),
    ensures
        forall|i: int| #[trigger] s.enact_epoch_change(authorities, next_authorities).segment(i).len() == 0,
        s.enact_epoch_change(authorities, next_authorities).under_construction_outputs().len() == 0,
{
    let t = s.enact_epoch_change(authorities, next_authorities);
    assert forall|i: int| #[trigger] t.segment(i).len() == 0 by {
        if i > s.segment_index {
            assert(s.segment(i).len() == 0);
        }
    }
    assert(t.segment_index == 0);
    assert(segments_concat(t.under_construction, 0) =~= Seq::<VrfOutput>::empty());
    assert(t.segment(0).len() == 0);
    assert(t.under_construction_outputs() =~= Seq::<VrfOutput>::empty());
}

proof fn lemma_laid_out_same_segments(a: ModuleState, b: ModuleState)
    requires
        a.segments_laid_out(),
        a.under_construction == b.under_construction,
        a.segment_index == b.segment_index,
    ensures
        b.segments_laid_out(),
{
    assert forall|i: int| 0 <= i < b.segment_index implies #[trigger] b.segment(i).len() == UNDER_CONSTRUCTION_SEGMENT_LENGTH by {
        assert(a.segment(i).len() == UNDER_CONSTRUCTION_SEGMENT_LENGTH);
    }
    assert forall|i: int| i > b.segment_index implies #[trigger] b.segment(i).len() == 0 by {
        assert(a.segment(i).len() == 0);
    }
}

/// The module's storage at genesis has its segments laid out.
pub proof fn law_genesis_laid_out(config: crate::module::BabeConfig)
    ensures
        ModuleState::at_genesis(config).segments_laid_out(),
{
}

/// A deposit keeps the segments laid out: the current segment fills up to
/// its length, then the next one begins.
pub proof fn law_deposit_keeps_layout(s: ModuleState, vrf: VrfOutput)
    requires
        s.segments_laid_out(),
        s.can_deposit_vrf_output(),
    ensures
        s.deposit_vrf_output(vrf).segments_laid_out(),
{
    let t = s.deposit_vrf_output(vrf);
    let idx = s.segment_index as int;
    let segment = s.segment(idx);
    if segment.len() < UNDER_CONSTRUCTION_SEGMENT_LENGTH {
        assert forall|j: int| 0 <= j < t.segment_index implies #[trigger] t.segment(j).len() == UNDER_CONSTRUCTION_SEGMENT_LENGTH by {
            lemma_segment_of_with_segment(s.under_construction, idx, segment.push(vrf), j);
            assert(s.segment(j).len() == UNDER_CONSTRUCTION_SEGMENT_LENGTH);
        }
        lemma_segment_of_with_segment(s.under_construction, idx, segment.push(vrf), idx);
        assert forall|j: int| j > t.segment_index implies #[trigger] t.segment(j).len() == 0 by {
            lemma_segment_of_with_segment(s.under_construction, idx, segment.push(vrf), j);
            assert(s.segment(j).len() == 0);
        }
    } else {
        assert forall|j: int| 0 <= j < t.segment_index implies #[trigger] t.segment(j).len() == UNDER_CONSTRUCTION_SEGMENT_LENGTH by {
            lemma_segment_of_with_segment(s.under_construction, idx + 1, seq![vrf], j);
            if j < idx {
                assert(s.segment(j).len() == UNDER_CONSTRUCTION_SEGMENT_LENGTH);
            }
        }
        lemma_segment_of_with_segment(s.under_construction, idx + 1, seq![vrf], idx + 1);
        assert forall|j: int| j > t.segment_index implies #[trigger] t.segment(j).len() == 0 by {
            lemma_segment_of_with_segment(s.under_construction, idx + 1, seq![vrf], j);
            assert(s.segment(j).len() == 0);
        }
    }
}

/// An epoch change keeps the segments laid out.
pub proof fn law_epoch_change_keeps_layout(
    s: ModuleState,
    authorities: Seq<(AuthorityId, BabeAuthorityWeight)>,
    next_authorities: Seq<(AuthorityId, BabeAuthorityWeight)>,
)
    requires
        s.segments_laid_out(),
    ensures
        s.enact_epoch_change(authorities, next_authorities).segments_laid_out(),
{
    law_epoch_change_empties_all_segments(s, authorities, next_authorities);
}

/// Per-block initialization keeps the segments laid out.
pub proof fn law_initialize_keeps_layout(s: ModuleState, now: u64, internal: bool)
    requires
        s.segments_laid_out(),
    ensures
        s.initialize(now, internal).segments_laid_out(),
{
    let noted = s.note_pre_digest();
    if s.initialized is None {
        lemma_laid_out_same_segments(s, noted);
    }
    if s.initialized is None && internal && noted.should_epoch_change(now) {
        law_epoch_change_keeps_layout(noted, noted.authorities, noted.authorities);
    }
}

/// Block finalization keeps the segments laid out.
pub proof fn law_finalize_keeps_layout(s: ModuleState)
    requires
        s.segments_laid_out(),
        s.can_deposit_vrf_output(),
    ensures
        s.finalize().segments_laid_out(),
{
    let cleared = ModuleState { initialized: None, ..s };
    lemma_laid_out_same_segments(s, cleared);
    if let Some(Some(vrf)) = s.initialized {
        law_deposit_keeps_layout(cleared, vrf);
    }
}

/// An epoch change announces the next epoch: a BABE consensus item with
/// the next authorities and the randomness computed for the next epoch is
/// added to the block's digest, and nothing else is.
pub proof fn law_epoch_change_announces_next_epoch(
    s: ModuleState,
    authorities: Seq<(AuthorityId, BabeAuthorityWeight)>,
    next_authorities: Seq<(AuthorityId, BabeAuthorityWeight)>,
)
    ensures
        s.enact_epoch_change(authorities, next_authorities).digest == s.digest.push(
            DigestItemModel::Consensus(
                BABE_ENGINE_ID,
                next_epoch_data_encoding(
                    next_authorities,
                    s.enact_epoch_change(authorities, next_authorities).next_randomness,
                ),
            ),
        ),
{
}

proof fn lemma_segments_concat_agree(a: Seq<Seq<VrfOutput>>, b: Seq<Seq<VrfOutput>>, n: nat)
    requires
        forall|i: int| 0 <= i < n ==> segment_of(a, i) == segment_of(b, i),
    ensures
        segments_concat(a, n) == segments_concat(b, n),
    decreases n,
{
    if n > 0 {
        lemma_segments_concat_agree(a, b, (n - 1) as nat);
    }
}

proof fn lemma_segment_of_with_segment(segments: Seq<Seq<VrfOutput>>, i: int, segment: Seq<VrfOutput>, j: int)
    requires
        0 <= i,
        0 <= j,
    ensures
        segment_of(with_segment(segments, i, segment), j) == if j == i { segment } else { segment_of(segments, j) },
{
}

/// A deposited VRF output is appended to the outputs under construction,
/// whether it goes onto the current segment or begins the next.
pub proof fn law_deposit_appends_vrf_output(s: ModuleState, vrf: VrfOutput)
    requires
        s.can_deposit_vrf_output(),
    ensures
        s.deposit_vrf_output(vrf).under_construction_outputs() == s.under_construction_outputs().push(vrf),
{
    let t = s.deposit_vrf_output(vrf);
    let idx = s.segment_index as int;
    let segment = s.segment(idx);
    assert forall|j: int| 0 <= j < idx implies segment_of(t.under_construction, j) == segment_of(s.under_construction, j) by {
        if segment.len() < UNDER_CONSTRUCTION_SEGMENT_LENGTH {
            lemma_segment_of_with_segment(s.under_construction, idx, segment.push(vrf), j);
        } else {
            lemma_segment_of_with_segment(s.under_construction, idx + 1, seq![vrf], j);
        }
    }
    lemma_segments_concat_agree(t.under_construction, s.under_construction, idx as nat);
    if segment.len() < UNDER_CONSTRUCTION_SEGMENT_LENGTH {
        lemma_segment_of_with_segment(s.under_construction, idx, segment.push(vrf), idx);
        assert(t.under_construction_outputs() =~= s.under_construction_outputs().push(vrf));
    } else {
        lemma_segment_of_with_segment(s.under_construction, idx + 1, seq![vrf], idx);
        lemma_segment_of_with_segment(s.under_construction, idx + 1, seq![vrf], idx + 1);
        assert(segments_concat(t.under_construction, (idx + 1) as nat) == segments_concat(s.under_construction, (idx + 1) as nat));
        assert(t.under_construction_outputs() =~= s.under_construction_outputs().push(vrf));
    }
}

/// Depositing a VRF output keeps every segment within its length.
pub proof fn law_deposit_keeps_segments_bounded(s: ModuleState, vrf: VrfOutput)
    requires
        s.segments_bounded(),
    ensures
        s.deposit_vrf_output(vrf).segments_bounded(),
{
    let t = s.deposit_vrf_output(vrf);
    let idx = s.segment_index as int;
    let segment = s.segment(idx);
    assert forall|j: int| #[trigger] t.segment(j).len() <= UNDER_CONSTRUCTION_SEGMENT_LENGTH by {
        assert(s.segment(j).len() <= UNDER_CONSTRUCTION_SEGMENT_LENGTH);
        if j >= 0 {
            if segment.len() < UNDER_CONSTRUCTION_SEGMENT_LENGTH {
                lemma_segment_of_with_segment(s.under_construction, idx, segment.push(vrf), j);
            } else {
                lemma_segment_of_with_segment(s.under_construction, idx + 1, seq![vrf], j);
            }
        }
    }
}

/// An epoch change keeps every segment within its length.
pub proof fn law_epoch_change_keeps_segments_bounded(
    s: ModuleState,
    authorities: Seq<(AuthorityId, BabeAuthorityWeight)>,
    next_authorities: Seq<(AuthorityId, BabeAuthorityWeight)>,
)
    requires
        s.segments_bounded(),
    ensures
        s.enact_epoch_change(authorities, next_authorities).segments_bounded(),
{
    let t = s.enact_epoch_change(authorities, next_authorities);
    assert forall|j: int| #[trigger] t.segment(j).len() <= UNDER_CONSTRUCTION_SEGMENT_LENGTH by {
        assert(s.segment(j).len() <= UNDER_CONSTRUCTION_SEGMENT_LENGTH);
    }
}

/// Per-block initialization keeps every segment within its length.
pub proof fn law_initialize_keeps_segments_bounded(s: ModuleState, now: u64, internal: bool)
    requires
        s.segments_bounded(),
    ensures
        s.initialize(now, internal).segments_bounded(),
{
    let noted = s.note_pre_digest();
    assert forall|j: int| #[trigger] noted.segment(j).len() <= UNDER_CONSTRUCTION_SEGMENT_LENGTH by {
        assert(s.segment(j).len() <= UNDER_CONSTRUCTION_SEGMENT_LENGTH);
    }
    if internal && noted.should_epoch_change(now) {
        law_epoch_change_keeps_segments_bounded(noted, noted.authorities, noted.authorities);
    }
}

/// Block finalization keeps every segment within its length.
pub proof fn law_finalize_keeps_segments_bounded(s: ModuleState)
    requires
        s.segments_bounded(),
    ensures
        s.finalize().segments_bounded(),
{
    let cleared = ModuleState { initialized: None, ..s };
    assert forall|j: int| #[trigger] cleared.segment(j).len() <= UNDER_CONSTRUCTION_SEGMENT_LENGTH by {
        assert(s.segment(j).len() <= UNDER_CONSTRUCTION_SEGMENT_LENGTH);
    }
    if let Some(Some(vrf)) = s.initialized {
        law_deposit_keeps_segments_bounded(cleared, vrf);
    }
}

/// Block finalization clears the initialization mark, so that the next
/// block is initialized afresh, and adds the block's VRF output, if it had
/// a primary claim, to the outputs under construction.
pub proof fn law_finalize_collects_block_vrf(s: ModuleState)
    requires
        s.can_deposit_vrf_output(),
    ensures
        s.finalize().initialized is None,
        s.finalize().under_construction_outputs() == match s.initialized {
            Some(Some(vrf)) => s.under_construction_outputs().push(vrf),
            _ => s.under_construction_outputs(),
        },
{
    let cleared = ModuleState { initialized: None, ..s };
    if let Some(Some(vrf)) = s.initialized {
        law_deposit_appends_vrf_output(cleared, vrf);
    }
}

/// The epoch index and the randomness change only at epoch changes: block
/// finalization keeps them, and so does initialization unless the trigger
/// enacts a due epoch change.
pub proof fn law_epoch_state_changes_only_at_epoch_change(s: ModuleState, now: u64, internal: bool)
    ensures
        s.finalize().epoch_index == s.epoch_index,
        s.finalize().randomness == s.randomness,
        s.finalize().next_randomness == s.next_randomness,
        !(internal && s.note_pre_digest().should_epoch_change(now)) ==> {
            &&& s.initialize(now, internal).epoch_index == s.epoch_index
            &&& s.initialize(now, internal).randomness == s.randomness
            &&& s.initialize(now, internal).next_randomness == s.next_randomness
        },
{
}

/// The first block with a claim sets the genesis slot to its slot; once
/// set, the genesis slot never changes again.
pub proof fn law_genesis_slot_set_once(s: ModuleState, now: u64, internal: bool)
    ensures
        s.genesis_slot != 0 ==> s.initialize(now, internal).genesis_slot == s.genesis_slot,
        s.genesis_slot == 0 && s.initialized is None ==> s.initialize(now, internal).genesis_slot == match crate::digest::first_babe_pre_digest(s.digest) {
            Some(d) => d.spec_slot_number(),
            None => 0,
        },
{
}

proof fn lemma_first_pre_digest_skips(logs: Seq<DigestItemModel>, i: int, item: DigestItemModel)
    requires
        0 <= i <= logs.len(),
        !(item matches DigestItemModel::PreRuntime(id, data) && is_babe_engine(id) && decoded_pre_digest(data) is Some),
    ensures
        first_babe_pre_digest(logs.insert(i, item)) == first_babe_pre_digest(logs),
    decreases logs.len(),
{
    if i == 0 {
        assert(logs.insert(0, item).drop_first() =~= logs);
    } else {
        assert(logs.insert(i, item)[0] == logs[0]);
        assert(logs.insert(i, item).drop_first() =~= logs.drop_first().insert(i - 1, item));
        lemma_first_pre_digest_skips(logs.drop_first(), i - 1, item);
    }
}

proof fn lemma_push_after_insert(logs: Seq<DigestItemModel>, i: int, item: DigestItemModel, pushed: DigestItemModel)
    requires
        0 <= i <= logs.len(),
    ensures
        logs.insert(i, item).push(pushed) == logs.push(pushed).insert(i, item),
{
    assert(logs.insert(i, item).push(pushed) =~= logs.push(pushed).insert(i, item));
}

/// The state `a` with `item` inserted into its digest at position `i`.
pub open spec fn with_digest_item(a: ModuleState, i: int, item: DigestItemModel) -> ModuleState {
    ModuleState { digest: a.digest.insert(i, item), ..a }
}

proof fn lemma_trigger_with_digest_item(a: ModuleState, now: u64, internal: bool, i: int, item: DigestItemModel)
    requires
        0 <= i <= a.digest.len(),
    ensures
        with_digest_item(a, i, item).trigger(now, internal) == with_digest_item(a.trigger(now, internal), i, item),
{
    let b = with_digest_item(a, i, item);
    if internal && a.should_epoch_change(now) {
        let ea = a.enact_epoch_change(a.authorities, a.authorities);
        let eb = b.enact_epoch_change(b.authorities, b.authorities);
        let payload = next_epoch_data_encoding(a.authorities, ea.next_randomness);
        lemma_push_after_insert(a.digest, i, item, DigestItemModel::Consensus(BABE_ENGINE_ID, payload));
        assert(eb =~= with_digest_item(ea, i, item));
    }
}

/// A BABE pre-runtime item that does not decode is passed over by block
/// initialization, wherever it stands in the digest (unlike the author
/// lookup, which stops at the first BABE item): initialization over the
/// digest with the item gives the same storage and the same new consensus
/// items as over the digest without it.
pub proof fn law_undecodable_pre_digest_ignored(s: ModuleState, now: u64, internal: bool, i: int, data: Seq<u8>)
    requires
        0 <= i <= s.digest.len(),
        decoded_pre_digest(data) is None,
    ensures
        with_digest_item(s, i, DigestItemModel::PreRuntime(BABE_ENGINE_ID, data)).initialize(now, internal)
            == with_digest_item(s.initialize(now, internal), i, DigestItemModel::PreRuntime(BABE_ENGINE_ID, data)),
{
    let item = DigestItemModel::PreRuntime(BABE_ENGINE_ID, data);
    let b = with_digest_item(s, i, item);
    if s.initialized is None {
        lemma_first_pre_digest_skips(s.digest, i, item);
        let na = s.note_pre_digest();
        let nb = b.note_pre_digest();
        match first_babe_pre_digest(s.digest) {
            None => {
                assert(nb =~= with_digest_item(na, i, item));
            },
            Some(d) => {
                if s.genesis_slot == 0 {
                    let payload = next_epoch_data_encoding(s.authorities, s.randomness);
                    lemma_push_after_insert(s.digest, i, item, DigestItemModel::Consensus(BABE_ENGINE_ID, payload));
                }
                assert(nb =~= with_digest_item(na, i, item));
            },
        }
        assert(na.digest.len() >= s.digest.len());
        lemma_trigger_with_digest_item(na, now, internal, i, item);
    }
}

/// Decoding a pre-digest from its encoding, followed by any bytes, gives
/// the pre-digest back.
pub proof fn law_pre_digest_roundtrip(d: RawBabePreDigest, rest: Seq<u8>)
    ensures
        decoded_pre_digest(d.spec_encoding() + rest) == Some(d),
{
    let data = d.spec_encoding() + rest;
    assert(data.subrange(0, d.spec_encoding().len() as int) =~= d.spec_encoding());
    assert(decodes_to(data, d));
    let c = choose|x: RawBabePreDigest| decodes_to(data, x);
    lemma_decoding_unique(data, c, d);
}

/// The author of a block whose first BABE pre-runtime digest encodes a
/// claim is the authority that the claim names.
pub proof fn law_find_author_of_claim(digests: Seq<(ConsensusEngineId, Vec<u8>)>, d: RawBabePreDigest)
    requires
        digests.len() > 0,
        is_babe_engine(digests[0].0),
        digests[0].1@ == d.spec_encoding(),
    ensures
        spec_find_author(digests) == Some(d.spec_authority_index()),
{
    law_pre_digest_roundtrip(d, Seq::empty());
    assert(d.spec_encoding() + Seq::<u8>::empty() =~= d.spec_encoding());
}

/// The BABE inherent read after it is replaced is the slot written.
pub proof fn law_babe_inherent_read_after_replace(entries: Seq<(InherentIdentifier, Seq<u8>)>, slot: u64)
    ensures
        spec_babe_inherent_data(replaced(entries, INHERENT_IDENTIFIER, spec_u64_to_le_bytes(slot))) == Ok::<u64, crate::inherent::InherentError>(slot),
{
    lemma_auto_spec_u64_to_from_le_bytes();
    let bytes = spec_u64_to_le_bytes(slot);
    lemma_lookup_replaced(entries, INHERENT_IDENTIFIER, bytes);
    assert(bytes.subrange(0, 8) =~= bytes);
}

proof fn lemma_lookup_push_absent(entries: Seq<(InherentIdentifier, Seq<u8>)>, id: InherentIdentifier, value: Seq<u8>, other: InherentIdentifier)
    requires
        lookup(entries, id) is None,
    ensures
        lookup(entries.push((id, value)), other) == if other == id { Some(value) } else { lookup(entries, other) },
    decreases entries.len(),
{
    if entries.len() > 0 {
        assert(entries.push((id, value)).drop_first() =~= entries.drop_first().push((id, value)));
        assert(entries.push((id, value))[0] == entries[0]);
        if entries[0].0 != id {
            lemma_lookup_push_absent(entries.drop_first(), id, value, other);
        }
    } else {
        assert(entries.push((id, value)).drop_first() =~= entries);
    }
}

/// A block whose BABE inherent was put by the provider from the block's
/// timestamp passes the check of that timestamp, when the provider's slot
/// duration is the module's.
pub proof fn law_provided_slot_passes_check(entries: Seq<(InherentIdentifier, Seq<u8>)>, slot_duration: u64)
    requires
        slot_duration > 0,
        spec_timestamp_inherent_data(entries) is Ok,
        lookup(entries, INHERENT_IDENTIFIER) is None,
    ensures
        ({
            let timestamp = spec_timestamp_inherent_data(entries)->Ok_0;
            let provided = entries.push((INHERENT_IDENTIFIER, spec_u64_to_le_bytes(timestamp / slot_duration)));
            spec_check_inherent(timestamp, slot_duration, provided) == Ok::<(), crate::inherent::InherentError>(())
        }),
{
    lemma_auto_spec_u64_to_from_le_bytes();
    let timestamp = spec_timestamp_inherent_data(entries)->Ok_0;
    let bytes = spec_u64_to_le_bytes(timestamp / slot_duration);
    lemma_lookup_push_absent(entries, INHERENT_IDENTIFIER, bytes, INHERENT_IDENTIFIER);
    assert(bytes.subrange(0, 8) =~= bytes);
}

/// An approximated fraction is at most a whole, and is a whole when the
/// numerator is positive and at least the denominator.
pub proof fn law_rational_approximation_bounded(p: u64, q: u64)
    ensures
        0 <= spec_rational_parts(p, q) <= 1_000_000_000,
        p >= q && p > 0 ==> spec_rational_parts(p, q) == 1_000_000_000,
{
    crate::offence::lemma_rational_parts_bounded(p, q);
}

/// The slash fraction `min((3k / n)^2, 1)` is at most a whole, and is a
/// whole once a third of the validators (or more) equivocated.
pub proof fn law_slash_fraction_capped(offenders_count: u32, validator_set_count: u32)
    ensures
        0 <= spec_slash_fraction(offenders_count, validator_set_count) <= 1_000_000_000,
        3 * offenders_count >= validator_set_count && offenders_count > 0 ==> spec_slash_fraction(offenders_count, validator_set_count) == 1_000_000_000,
{
    let x = spec_rational_parts((3 * offenders_count) as u64, validator_set_count as u64);
    crate::offence::lemma_rational_parts_bounded((3 * offenders_count) as u64, validator_set_count as u64);
    assert(0 <= x * x <= 1_000_000_000_000_000_000) by (nonlinear_arith)
        requires
            0 <= x <= 1_000_000_000,
    ;
    crate::offence::lemma_rational_parts_bounded((x * x) as u64, 1_000_000_000_000_000_000);
    if 3 * offenders_count >= validator_set_count && offenders_count > 0 {
        assert(x == 1_000_000_000);
        assert(x * x == 1_000_000_000_000_000_000) by (nonlinear_arith)
            requires
                x == 1_000_000_000,
        ;
    }
}

/// A block's timestamp is accepted exactly when its slot (the timestamp
/// divided by the slot duration) is the slot in the block's BABE seal; any
/// other timestamp, earlier or later, is a slot mismatch.
pub proof fn law_check_inherent_accepts_exactly_the_seal_slot(
    timestamp: u64,
    slot_duration: u64,
    entries: Seq<(InherentIdentifier, Seq<u8>)>,
)
    requires
        slot_duration > 0,
        spec_babe_inherent_data(entries) is Ok,
    ensures
        spec_check_inherent(timestamp, slot_duration, entries) is Ok
            <==> timestamp / slot_duration == spec_babe_inherent_data(entries)->Ok_0,
        timestamp / slot_duration != spec_babe_inherent_data(entries)->Ok_0
            ==> spec_check_inherent(timestamp, slot_duration, entries)
            == Err::<(), crate::inherent::InherentError>(crate::inherent::InherentError::SlotMismatch),
{
}

/// The slot duration is twice the timestamp module's minimum period,
/// capped at `u64::MAX`; the other settings do not enter into it.
pub proof fn law_slot_duration_is_double_minimum_period(config: BabeConfig, other: BabeConfig)
    ensures
        2 * config.minimum_period <= u64::MAX ==> spec_slot_duration(config) == 2 * config.minimum_period,
        2 * config.minimum_period > u64::MAX ==> spec_slot_duration(config) == u64::MAX,
        other.minimum_period == config.minimum_period ==> spec_slot_duration(other) == spec_slot_duration(config),
{
}

/// An epoch change leaves the block's initialization mark, and the VRF
/// output kept in it, as it was: the output of the block that begins an
/// epoch is still there for block finalization.
pub proof fn law_epoch_change_keeps_initialization(
    s: ModuleState,
    authorities: Seq<(AuthorityId, BabeAuthorityWeight)>,
    next_authorities: Seq<(AuthorityId, BabeAuthorityWeight)>,
)
    ensures
        s.enact_epoch_change(authorities, next_authorities).initialized == s.initialized,
{
}

/// The VRF output of the block that begins an epoch is the first output
/// under construction for the new epoch: finalizing that block, after the
/// epoch change, leaves exactly that output collected.
pub proof fn law_epoch_opening_block_contributes_vrf(
    s: ModuleState,
    authorities: Seq<(AuthorityId, BabeAuthorityWeight)>,
    next_authorities: Seq<(AuthorityId, BabeAuthorityWeight)>,
    vrf: VrfOutput,
)
    requires
        s.segments_laid_out(),
        s.initialized == Some(Some(vrf)),
    ensures
        s.enact_epoch_change(authorities, next_authorities).finalize().under_construction_outputs() == seq![vrf],
{
    let t = s.enact_epoch_change(authorities, next_authorities);
    law_epoch_change_empties_all_segments(s, authorities, next_authorities);
    law_epoch_change_keeps_initialization(s, authorities, next_authorities);
    assert(t.segment(0).len() == 0);
    assert(t.can_deposit_vrf_output());
    law_finalize_collects_block_vrf(t);
    assert(t.under_construction_outputs().len() == 0);
    assert(t.under_construction_outputs().push(vrf) =~= seq![vrf]);
}

/// The first block with a decodable claim, primary or secondary, announces
/// epoch 0: initialization sets the genesis slot to the claimed slot and
/// adds one consensus item with the genesis authorities and randomness
/// right after the digest it found, whatever the trigger does afterwards.
pub proof fn law_first_block_announces_epoch_zero(
    s: ModuleState,
    now: u64,
    internal: bool,
    d: RawBabePreDigest,
)
    requires
        s.genesis_slot == 0,
        s.initialized is None,
        first_babe_pre_digest(s.digest) == Some(d),
    ensures
        s.initialize(now, internal).genesis_slot == d.spec_slot_number(),
        s.initialize(now, internal).digest.len() > s.digest.len(),
        s.initialize(now, internal).digest.subrange(0, s.digest.len() + 1int) == s.digest.push(
            DigestItemModel::Consensus(BABE_ENGINE_ID, next_epoch_data_encoding(s.authorities, s.randomness)),
        ),
{
    let item = DigestItemModel::Consensus(BABE_ENGINE_ID, next_epoch_data_encoding(s.authorities, s.randomness));
    let noted = s.note_pre_digest();
    assert(noted.digest == s.digest.push(item));
    let r = s.initialize(now, internal);
    if internal && noted.should_epoch_change(now) {
        let t = noted.enact_epoch_change(noted.authorities, noted.authorities);
        assert(t.digest == noted.digest.push(DigestItemModel::Consensus(
            BABE_ENGINE_ID,
            next_epoch_data_encoding(noted.authorities, t.next_randomness),
        )));
        assert(r.digest.subrange(0, s.digest.len() + 1int) =~= s.digest.push(item));
    } else {
        assert(r.digest.subrange(0, s.digest.len() + 1int) =~= s.digest.push(item));
    }
}

} // verus!
