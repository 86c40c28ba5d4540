use vstd::prelude::*;
use vstd::bytes::*;

use crate::digest::{
    digest_model, find_pre_digest, first_babe_pre_digest, next_epoch_data_encoding,
    on_disabled_encoding, ConsensusLog, DigestItem, DigestItemModel, NextEpochDescriptor,
    RawBabePreDigest,
};
use crate::hashing::{blake2_256, blake2_256_of};
use crate::primitives::{
    append_bytes, same_bytes, AuthorityId, BabeAuthorityWeight, VrfOutput, BABE_ENGINE_ID,
    RANDOMNESS_LENGTH,
};

verus! {

broadcast use vstd::array::group_array_axioms;

/// The number of VRF outputs that a segment of the randomness under
/// construction holds before the next segment is begun.
pub const UNDER_CONSTRUCTION_SEGMENT_LENGTH: usize = 256;

/// The configuration of the module.
#[derive(Clone, Copy, Debug)]
pub struct BabeConfig {
    /// The amount of time, in slots, that each epoch lasts.
    pub epoch_duration: u64,
    /// The expected average block time at which BABE should be creating
    /// blocks.
    pub expected_block_time: u64,
    /// The minimum period between blocks of the timestamp module.
    pub minimum_period: u64,
}

/// The storage of the BABE module, together with the digest of the block
/// being built (as the system module holds it): the pre-runtime items that
/// the block author placed there, and the consensus items that this module
/// deposits.
pub struct Module {
    /// The configuration of the module.
    pub config: BabeConfig,
    /// Current epoch index.
    pub epoch_index: u64,
    /// Current epoch authorities.
    pub authorities: Vec<(AuthorityId, BabeAuthorityWeight)>,
    /// The slot at which the first epoch actually started. This is 0
    /// until the first block of the chain.
    pub genesis_slot: u64,
    /// Current slot number.
    pub current_slot: u64,
    /// The epoch randomness for the current epoch.
    pub randomness: [u8; RANDOMNESS_LENGTH],
    /// Next epoch randomness.
    pub next_randomness: [u8; RANDOMNESS_LENGTH],
    /// The index of the segment of the randomness under construction that
    /// VRF outputs are added to.
    pub segment_index: u32,
    /// The randomness under construction, in segments; segment `i` is at
    /// position `i`, and a segment past the end is empty.
    pub under_construction: Vec<Vec<VrfOutput>>,
    /// `Some` once per-block initialization has run for the current block,
    /// holding the VRF output of the block's primary claim, if it has one.
    pub initialized: Option<Option<VrfOutput>>,
    /// The digest of the current block.
    pub digest: Vec<DigestItem>,
}

/// The module's storage as mathematical values.
#[verifier::ext_equal]
pub struct ModuleState {
    pub config: BabeConfig,
    pub epoch_index: u64,
    pub authorities: Seq<(AuthorityId, BabeAuthorityWeight)>,
    pub genesis_slot: u64,
    pub current_slot: u64,
    pub randomness: Seq<u8>,
    pub next_randomness: Seq<u8>,
    pub segment_index: u32,
    pub under_construction: Seq<Seq<VrfOutput>>,
    pub initialized: Option<Option<VrfOutput>>,
    pub digest: Seq<DigestItemModel>,
}

impl View for Module {
    type V = ModuleState;

    open spec fn view(&self) -> ModuleState {
        ModuleState {
            config: self.config,
            epoch_index: self.epoch_index,
            authorities: self.authorities@,
            genesis_slot: self.genesis_slot,
            current_slot: self.current_slot,
            randomness: self.randomness@,
            next_randomness: self.next_randomness@,
            segment_index: self.segment_index,
            under_construction: self.under_construction@.map_values(|s: Vec<VrfOutput>| s@),
            initialized: self.initialized,
            digest: digest_model(self.digest@),
        }
    }
}

/// Segment `i` of the randomness under construction.
pub open spec fn segment_of(segments: Seq<Seq<VrfOutput>>, i: int) -> Seq<VrfOutput> {
    if 0 <= i < segments.len() {
        segments[i]
    } else {
        Seq::empty()
    }
}

/// The segments with segment `i` set to `segment`; a position past the end
/// is reached by appending empty segments.
pub open spec fn with_segment(segments: Seq<Seq<VrfOutput>>, i: int, segment: Seq<VrfOutput>) -> Seq<
    Seq<VrfOutput>,
> {
    if i < segments.len() {
        segments.update(i, segment)
    } else {
        segments + Seq::new((i - segments.len()) as nat, |j: int| Seq::<VrfOutput>::empty())
            + seq![segment]
    }
}

/// The segments with the first `n` emptied.
pub open spec fn without_segments(segments: Seq<Seq<VrfOutput>>, n: int) -> Seq<Seq<VrfOutput>> {
    Seq::new(segments.len(), |j: int| if j < n { Seq::<VrfOutput>::empty() } else { segments[j] })
}

/// The bytes of a list of VRF outputs, one after the other.
pub open spec fn vrf_bytes(vrfs: Seq<VrfOutput>) -> Seq<u8>
    decreases vrfs.len(),
{
    if vrfs.len() == 0 {
        Seq::empty()
    } else {
        vrf_bytes(vrfs.drop_last()) + vrfs.last()@
    }
}

/// The bytes of the VRF outputs in segments `0..n`, in order.
pub open spec fn segments_bytes(segments: Seq<Seq<VrfOutput>>, n: nat) -> Seq<u8>
    decreases n,
{
    if n == 0 {
        Seq::empty()
    } else {
        segments_bytes(segments, (n - 1) as nat) + vrf_bytes(segment_of(segments, n - 1))
    }
}

/// The VRF outputs of segments `0..n`, in order.
pub open spec fn segments_concat(segments: Seq<Seq<VrfOutput>>, n: nat) -> Seq<VrfOutput>
    decreases n,
{
    if n == 0 {
        Seq::empty()
    } else {
        segments_concat(segments, (n - 1) as nat) + segment_of(segments, n - 1)
    }
}

/// The randomness of an epoch: the hash of the previous epoch's randomness,
/// the epoch index in little-endian and the VRF outputs collected (`rho`).
pub open spec fn spec_compute_randomness(last: Seq<u8>, epoch_index: u64, rho: Seq<u8>) -> Seq<u8> {
    blake2_256_of(last + spec_u64_to_le_bytes(epoch_index) + rho)
}

/// `segment_index.saturating_add(1) * UNDER_CONSTRUCTION_SEGMENT_LENGTH`,
/// the number of VRF outputs that the segments may hold, and the size of
/// the buffer that it reserves, within what a vector may reserve
/// (`isize::MAX` bytes).
pub open spec fn rho_capacity_fits(segment_index: u32) -> bool {
    let segments: int = if segment_index < u32::MAX {
        segment_index + 1
    } else {
        segment_index as int
    };
    40 + segments * 256 * 32 <= isize::MAX
}

impl ModuleState {
    /// The storage at genesis: every item at its default.
    pub open spec fn at_genesis(config: BabeConfig) -> ModuleState {
        ModuleState {
            config,
            epoch_index: 0,
            authorities: Seq::empty(),
            genesis_slot: 0,
            current_slot: 0,
            randomness: Seq::new(32, |i: int| 0u8),
            next_randomness: Seq::new(32, |i: int| 0u8),
            segment_index: 0,
            under_construction: Seq::empty(),
            initialized: None,
            digest: Seq::empty(),
        }
    }

    /// Segment `i` of the randomness under construction.
    pub open spec fn segment(self, i: int) -> Seq<VrfOutput> {
        segment_of(self.under_construction, i)
    }

    /// The slot at which the current epoch started.
    pub open spec fn current_epoch_start(self) -> int {
        self.epoch_index * self.config.epoch_duration + self.genesis_slot
    }

    /// Whether an epoch change is due at block `now`: never at block 1
    /// (epoch 0 starts there, with the genesis randomness and authorities),
    /// otherwise once the current slot is an epoch's duration past the
    /// start of the current epoch.
    pub open spec fn should_epoch_change(self, now: u64) -> bool {
        let start = self.current_epoch_start();
        let diff: int = if self.current_slot >= start {
            self.current_slot - start
        } else {
            0
        };
        now != 1 && diff >= self.config.epoch_duration
    }

    /// The state after a consensus item with the given payload is added to
    /// the digest.
    pub open spec fn deposit_consensus(self, payload: Seq<u8>) -> ModuleState {
        ModuleState {
            digest: self.digest.push(DigestItemModel::Consensus(BABE_ENGINE_ID, payload)),
            ..self
        }
    }

    /// The state after a VRF output is added to the randomness under
    /// construction: onto the current segment while it is not full, else
    /// into a new segment that becomes current.
    pub open spec fn deposit_vrf_output(self, vrf: VrfOutput) -> ModuleState {
        let idx = self.segment_index;
        let segment = self.segment(idx as int);
        if segment.len() < UNDER_CONSTRUCTION_SEGMENT_LENGTH {
            ModuleState {
                under_construction: with_segment(self.under_construction, idx as int, segment.push(vrf)),
                ..self
            }
        } else {
            ModuleState {
                under_construction: with_segment(self.under_construction, idx + 1, seq![vrf]),
                segment_index: (idx + 1) as u32,
                ..self
            }
        }
    }

    /// The VRF outputs under construction, from the first segment up to and
    /// including the current one.
    pub open spec fn under_construction_outputs(self) -> Seq<VrfOutput> {
        segments_concat(self.under_construction, (self.segment_index + 1) as nat)
    }

    /// No segment holds more than `UNDER_CONSTRUCTION_SEGMENT_LENGTH` VRF
    /// outputs.
    pub open spec fn segments_bounded(self) -> bool {
        forall|i: int| #[trigger] self.segment(i).len() <= UNDER_CONSTRUCTION_SEGMENT_LENGTH
    }

    /// The segments are laid out as deposits fill them: those before the
    /// current one are full, the current one holds at most a segment's
    /// length, and those after it are empty.
    pub open spec fn segments_laid_out(self) -> bool {
        &&& forall|i: int| 0 <= i < self.segment_index ==> #[trigger] self.segment(i).len() == UNDER_CONSTRUCTION_SEGMENT_LENGTH
        &&& self.segment(self.segment_index as int).len() <= UNDER_CONSTRUCTION_SEGMENT_LENGTH
        &&& forall|i: int| i > self.segment_index ==> #[trigger] self.segment(i).len() == 0
    }

    /// The bytes of the VRF outputs that the next randomness is computed
    /// from: those of every segment up to and including the current one,
    /// that is, all the outputs collected during the epoch.
    pub open spec fn collected_randomness(self) -> Seq<u8> {
        segments_bytes(self.under_construction, (self.segment_index + 1) as nat)
    }

    /// The state after the randomness of the epoch `next_epoch_index` is
    /// computed: all segments that went into it are emptied and the segment
    /// index returns to 0.
    pub open spec fn randomness_change_epoch(self, next_epoch_index: u64) -> ModuleState {
        ModuleState {
            next_randomness: spec_compute_randomness(
                self.next_randomness,
                next_epoch_index,
                self.collected_randomness(),
            ),
            segment_index: 0,
            under_construction: without_segments(
                self.under_construction,
                self.segment_index + 1,
            ),
            ..self
        }
    }

    /// The state after an epoch change: the next epoch index, the given
    /// authorities, the randomness that was prepared for this epoch, fresh
    /// randomness for the next, and a consensus item announcing the next
    /// epoch's authorities and randomness.
    pub open spec fn enact_epoch_change(
        self,
        authorities: Seq<(AuthorityId, BabeAuthorityWeight)>,
        next_authorities: Seq<(AuthorityId, BabeAuthorityWeight)>,
    ) -> ModuleState {
        let epoch_index = (self.epoch_index + 1) as u64;
        let advanced = ModuleState { epoch_index, authorities, ..self };
        let changed = advanced.randomness_change_epoch((epoch_index + 1) as u64);
        let updated = ModuleState { randomness: self.next_randomness, ..changed };
        updated.deposit_consensus(next_epoch_data_encoding(next_authorities, updated.next_randomness))
    }

    /// The state after an epoch-change trigger runs at block `now`: an
    /// internal trigger enacts a due epoch change, keeping the authorities.
    pub open spec fn trigger(self, now: u64, internal: bool) -> ModuleState {
        if internal && self.should_epoch_change(now) {
            self.enact_epoch_change(self.authorities, self.authorities)
        } else {
            self
        }
    }

    /// The state after the block's pre-digest is taken note of: on the
    /// first block with a claim, the genesis slot is set and the genesis
    /// authorities and randomness are announced; the current slot is the
    /// claimed one; and the VRF output of a primary claim is kept.
    pub open spec fn note_pre_digest(self) -> ModuleState {
        match first_babe_pre_digest(self.digest) {
            None => ModuleState { initialized: Some(None), ..self },
            Some(d) => {
                let started = if self.genesis_slot == 0 {
                    ModuleState { genesis_slot: d.spec_slot_number(), ..self }.deposit_consensus(
                        next_epoch_data_encoding(self.authorities, self.randomness),
                    )
                } else {
                    self
                };
                ModuleState {
                    current_slot: d.spec_slot_number(),
                    initialized: Some(d.spec_vrf_output()),
                    ..started
                }
            },
        }
    }

    /// The state after per-block initialization at block `now`; nothing
    /// changes when it has already run in this block.
    pub open spec fn initialize(self, now: u64, internal: bool) -> ModuleState {
        if self.initialized is Some {
            self
        } else {
            self.note_pre_digest().trigger(now, internal)
        }
    }

    /// The state after block finalization: the initialization mark is
    /// cleared and the block's VRF output, if any, joins the randomness
    /// under construction.
    pub open spec fn finalize(self) -> ModuleState {
        let cleared = ModuleState { initialized: None, ..self };
        match self.initialized {
            Some(Some(vrf)) => cleared.deposit_vrf_output(vrf),
            _ => cleared,
        }
    }

    /// The start of the current epoch fits in a `u64`.
    pub open spec fn epoch_start_fits(self) -> bool {
        self.current_epoch_start() <= u64::MAX
    }

    /// An epoch change can be enacted without a panic: initialization has
    /// run, the next two epoch indices fit, the randomness buffer can be
    /// sized, and the next authority list can be encoded.
    pub open spec fn can_enact(self, next_authorities_len: int) -> bool {
        &&& self.initialized is Some
        &&& self.epoch_index + 2 <= u64::MAX
        &&& rho_capacity_fits(self.segment_index)
        &&& next_authorities_len <= u32::MAX
    }

    /// A VRF output can be deposited without the segment index overflowing.
    pub open spec fn can_deposit_vrf_output(self) -> bool {
        self.segment(self.segment_index as int).len() >= UNDER_CONSTRUCTION_SEGMENT_LENGTH
            ==> self.segment_index < u32::MAX
    }

    /// The trigger can run at block `now` without a panic.
    pub open spec fn can_trigger(self, now: u64, internal: bool) -> bool {
        internal ==> {
            &&& now != 1 ==> self.epoch_start_fits()
            &&& self.should_epoch_change(now) ==> self.can_enact(self.authorities.len() as int)
        }
    }

    /// Initialization can run at block `now` without a panic: the first
    /// claimed slot is not 0, the genesis authorities can be encoded, and
    /// the trigger can run.
    pub open spec fn can_initialize(self, now: u64, internal: bool) -> bool {
        self.initialized is None ==> {
            &&& self.genesis_slot == 0 ==> (first_babe_pre_digest(self.digest) matches Some(d) ==> {
                &&& d.spec_slot_number() != 0
                &&& self.authorities.len() <= u32::MAX
            })
            &&& self.note_pre_digest().can_trigger(now, internal)
        }
    }
}

/// The bytes of the VRF outputs of `a` and then of `b`.
pub proof fn lemma_vrf_bytes_append(a: Seq<VrfOutput>, b: Seq<VrfOutput>)
    ensures
        vrf_bytes(a + b) == vrf_bytes(a) + vrf_bytes(b),
    decreases b.len(),
{
    if b.len() == 0 {
        assert(a + b =~= a);
        assert(vrf_bytes(a) + vrf_bytes(b) =~= vrf_bytes(a));
    } else {
        lemma_vrf_bytes_append(a, b.drop_last());
        assert((a + b).drop_last() =~= a + b.drop_last());
        assert((a + b).last() == b.last());
        assert(vrf_bytes(a + b) =~= vrf_bytes(a) + vrf_bytes(b));
    }
}

/// Computes the randomness of a new epoch from the last epoch's randomness,
/// the epoch index and `rho`, the VRF outputs of the prior epoch, by
/// hashing them together. The size hint is how many VRF outputs there may
/// be; it only sizes the buffer.
pub fn compute_randomness(
    last_epoch_randomness: [u8; RANDOMNESS_LENGTH],
    epoch_index: u64,
    rho: &[VrfOutput],
    rho_size_hint: Option<usize>,
) -> (r: [u8; RANDOMNESS_LENGTH])
    requires
        rho_size_hint matches Some(hint) ==> 40 + hint * 32 <= isize::MAX,
    ensures
        r@ == spec_compute_randomness(last_epoch_randomness@, epoch_index, vrf_bytes(rho@)),
{
    let mut s: Vec<u8> = Vec::with_capacity(40 + rho_size_hint.unwrap_or(0) * 32);
    append_bytes(&mut s, vstd::array::array_as_slice(&last_epoch_randomness));
    let index_bytes = u64_to_le_bytes(epoch_index);
    append_bytes(&mut s, index_bytes.as_slice());
    let ghost head = s@;
    let mut i: usize = 0;
    while i < rho.len()
        invariant
            i <= rho@.len(),
            s@ == head + vrf_bytes(rho@.subrange(0, i as int)),
        decreases rho@.len() - i,
    {
        let vrf_output = rho[i];
        append_bytes(&mut s, vstd::array::array_as_slice(&vrf_output));
        assert(rho@.subrange(0, i + 1).drop_last() =~= rho@.subrange(0, i as int));
        i = i + 1;
        assert(s@ =~= head + vrf_bytes(rho@.subrange(0, i as int)));
    }
    assert(rho@.subrange(0, i as int) =~= rho@);
    assert(s@ =~= last_epoch_randomness@ + spec_u64_to_le_bytes(epoch_index) + vrf_bytes(rho@));
    blake2_256(s.as_slice())
}

impl Module {
    /// A module at genesis, before any block: every storage item at its
    /// default.
    pub fn new(config: BabeConfig) -> (r: Module)
        ensures
            r@ == ModuleState::at_genesis(config),
    {
        let r = Module {
            config,
            epoch_index: 0,
            authorities: Vec::new(),
            genesis_slot: 0,
            current_slot: 0,
            randomness: [0u8; 32],
            next_randomness: [0u8; 32],
            segment_index: 0,
            under_construction: Vec::new(),
            initialized: None,
            digest: Vec::new(),
        };
        assert(r@ =~= ModuleState::at_genesis(config));
        r
    }

    /// The BABE slot duration: double the minimum block period of the
    /// timestamp module (saturating), so that each author can always
    /// propose within the majority of their slot.
    pub fn slot_duration(&self) -> (r: u64)
        ensures
            r == spec_slot_duration(self.config),
    {
        match self.config.minimum_period.checked_mul(2) {
            Some(doubled) => doubled,
            None => u64::MAX,
        }
    }

    /// The slot at which the current epoch started. Only correct once the
    /// first block of the chain was initialized, as it is based off the
    /// genesis slot.
    fn current_epoch_start(&self) -> (r: u64)
        requires
            self@.epoch_start_fits(),
        ensures
            r == self@.current_epoch_start(),
    {
        proof {
            assert(0 <= self.epoch_index * self.config.epoch_duration) by (nonlinear_arith);
        }
        self.epoch_index * self.config.epoch_duration + self.genesis_slot
    }

    /// Whether an epoch change should take place at block `now`. Assumes
    /// that initialization has already taken place.
    pub fn should_epoch_change(&self, now: u64) -> (r: bool)
        requires
            now != 1 ==> self@.epoch_start_fits(),
        ensures
            r == self@.should_epoch_change(now),
    {
        now != 1 && {
            let diff = self.current_slot.saturating_sub(self.current_epoch_start());
            diff >= self.config.epoch_duration
        }
    }

    /// Adds a consensus item of the BABE engine with the log's encoding to
    /// the block's digest.
    fn deposit_consensus(&mut self, log: ConsensusLog)
        requires
            log matches ConsensusLog::NextEpochData(next) ==> next.authorities@.len() <= u32::MAX,
        ensures
            final(self)@ == old(self)@.deposit_consensus(log.spec_encoding()),
    {
        let encoded = log.encode();
        let ghost payload = encoded@;
        self.digest.push(DigestItem::Consensus(BABE_ENGINE_ID, encoded));
        assert(self@.digest =~= old(self)@.digest.push(
            DigestItemModel::Consensus(BABE_ENGINE_ID, payload),
        ));
        assert(self@ =~= old(self)@.deposit_consensus(log.spec_encoding()));
    }

    /// A copy of segment `i` of the randomness under construction.
    fn segment(&self, i: u32) -> (r: Vec<VrfOutput>)
        ensures
            r@ == self@.segment(i as int),
    {
        let mut out: Vec<VrfOutput> = Vec::new();
        if (i as usize) < self.under_construction.len() {
            let segment = &self.under_construction[i as usize];
            assert(segment@ == self@.under_construction[i as int]);
            let mut j: usize = 0;
            while j < segment.len()
                invariant
                    j <= segment@.len(),
                    out@ == segment@.subrange(0, j as int),
                decreases segment@.len() - j,
            {
                out.push(segment[j]);
                j = j + 1;
                assert(out@ =~= segment@.subrange(0, j as int));
            }
            assert(segment@.subrange(0, j as int) =~= segment@);
        }
        out
    }

    /// Sets segment `i` of the randomness under construction.
    fn insert_segment(&mut self, i: u32, segment: Vec<VrfOutput>)
        ensures
            final(self)@ == (ModuleState {
                under_construction: with_segment(old(self)@.under_construction, i as int, segment@),
                ..old(self)@
            }),
    {
        let ghost old_len = old(self).under_construction@.len();
        let ghost old_view = old(self)@.under_construction;
        while self.under_construction.len() <= i as usize
            invariant
                self.under_construction@.len() >= old_len,
                self.under_construction@.len() <= if i as int >= old_len { i + 1 } else { old_len as int },
                forall|j: int| 0 <= j < old_len ==> self.under_construction@[j] == old(self).under_construction@[j],
                forall|j: int| old_len <= j < self.under_construction@.len() ==> self.under_construction@[j]@.len() == 0,
                self.config == old(self).config,
                self.epoch_index == old(self).epoch_index,
                self.authorities == old(self).authorities,
                self.genesis_slot == old(self).genesis_slot,
                self.current_slot == old(self).current_slot,
                self.randomness == old(self).randomness,
                self.next_randomness == old(self).next_randomness,
                self.segment_index == old(self).segment_index,
                self.initialized == old(self).initialized,
                self.digest == old(self).digest,
            decreases i as int + 1 - self.under_construction@.len(),
        {
            self.under_construction.push(Vec::new());
        }
        let ghost grown = self@.under_construction;
        self.under_construction.set(i as usize, segment);
        proof {
            let expected = with_segment(old_view, i as int, segment@);
            if (i as int) < old_len {
                assert(self.under_construction@.len() == old_len);
            } else {
                assert(self.under_construction@.len() == i + 1);
                assert forall|j: int| 0 <= j < expected.len() implies #[trigger] self@.under_construction[j] == expected[j] by {
                    if j < old_len {
                    } else if j < i {
                        assert(self@.under_construction[j] =~= Seq::<VrfOutput>::empty());
                    }
                }
            }
            assert(self@.under_construction =~= expected);
            assert(self@ =~= ModuleState { under_construction: expected, ..old(self)@ });
        }
    }

    /// Takes segment `i` out of the randomness under construction, leaving
    /// it empty.
    fn take_segment(&mut self, i: u32) -> (r: Vec<VrfOutput>)
        ensures
            r@ == old(self)@.segment(i as int),
            final(self)@ == (ModuleState {
                under_construction: if (i as int) < old(self)@.under_construction.len() {
                    old(self)@.under_construction.update(i as int, Seq::empty())
                } else {
                    old(self)@.under_construction
                },
                ..old(self)@
            }),
    {
        let mut taken: Vec<VrfOutput> = Vec::new();
        if (i as usize) < self.under_construction.len() {
            self.under_construction.set_and_swap(i as usize, &mut taken);
        }
        assert(self@ =~= (ModuleState {
            under_construction: if (i as int) < old(self)@.under_construction.len() {
                old(self)@.under_construction.update(i as int, Seq::empty())
            } else {
                old(self)@.under_construction
            },
            ..old(self)@
        }));
        taken
    }

    /// Computes the randomness of the epoch `next_epoch_index` from the
    /// randomness prepared for the current epoch and all the VRF outputs
    /// collected during the epoch, which are taken out of every segment up
    /// to and including the current one; the segment index returns to 0. Returns the randomness for the current epoch.
    /// Call this exactly once when an epoch changes.
    fn randomness_change_epoch(&mut self, next_epoch_index: u64) -> (r: [u8; RANDOMNESS_LENGTH])
        requires
            rho_capacity_fits(old(self).segment_index),
        ensures
            r@ == old(self)@.next_randomness,
            final(self)@ == old(self)@.randomness_change_epoch(next_epoch_index),
    {
        let this_randomness = self.next_randomness;
        let segment_idx: u32 = self.segment_index;
        self.segment_index = 0;
        let rho_size = (segment_idx.saturating_add(1) as usize) * UNDER_CONSTRUCTION_SEGMENT_LENGTH;
        let ghost old_segments = old(self)@.under_construction;
        let mut rho: Vec<VrfOutput> = Vec::new();
        let mut i: u64 = 0;
        assert(without_segments(old_segments, 0) =~= old_segments);
        while i <= segment_idx as u64
            invariant
                i <= segment_idx + 1,
                segment_idx == old(self).segment_index,
                vrf_bytes(rho@) == segments_bytes(old_segments, i as nat),
                self@ == (ModuleState {
                    under_construction: without_segments(old_segments, i as int),
                    segment_index: 0,
                    ..old(self)@
                }),
            decreases segment_idx + 1 - i,
        {
            let segment = self.take_segment(i as u32);
            assert(segment@ == segment_of(old_segments, i as int));
            let ghost before = rho@;
            let mut j: usize = 0;
            while j < segment.len()
                invariant
                    j <= segment@.len(),
                    rho@ == before + segment@.subrange(0, j as int),
                decreases segment@.len() - j,
            {
                rho.push(segment[j]);
                j = j + 1;
                assert(rho@ =~= before + segment@.subrange(0, j as int));
            }
            assert(segment@.subrange(0, j as int) =~= segment@);
            proof {
                lemma_vrf_bytes_append(before, segment@);
                assert(self@.under_construction =~= without_segments(old_segments, i + 1));
            }
            i = i + 1;
        }
        let next_randomness = compute_randomness(
            this_randomness,
            next_epoch_index,
            rho.as_slice(),
            Some(rho_size),
        );
        self.next_randomness = next_randomness;
        assert(self@ =~= old(self)@.randomness_change_epoch(next_epoch_index));
        this_randomness
    }

    /// Enacts an epoch change: the epoch index advances, the given
    /// authorities take over, the randomness prepared for this epoch
    /// becomes current, the next epoch's randomness is computed, and a
    /// consensus item announces the next epoch's authorities and
    /// randomness. Should be done on every block where
    /// `should_epoch_change` returned `true`, by its only caller;
    /// typically that is higher-level validator-set logic such as a session
    /// module.
    pub fn enact_epoch_change(
        &mut self,
        authorities: Vec<(AuthorityId, BabeAuthorityWeight)>,
        next_authorities: Vec<(AuthorityId, BabeAuthorityWeight)>,
    )
        requires
            old(self)@.can_enact(next_authorities@.len() as int),
        ensures
            final(self)@ == old(self)@.enact_epoch_change(authorities@, next_authorities@),
    {
        let epoch_index = self.epoch_index.checked_add(1).expect(
            "epoch indices will never reach 2^64 before the death of the universe; qed",
        );
        self.epoch_index = epoch_index;
        self.authorities = authorities;
        let next_epoch_index = epoch_index.checked_add(1).expect(
            "epoch indices will never reach 2^64 before the death of the universe; qed",
        );
        let randomness = self.randomness_change_epoch(next_epoch_index);
        self.randomness = randomness;
        let next_randomness = self.next_randomness;
        let next = NextEpochDescriptor { authorities: next_authorities, randomness: next_randomness };
        self.deposit_consensus(ConsensusLog::NextEpochData(next));
    }

    /// The module at genesis with the given authorities (the genesis
    /// configuration's build step).
    pub fn genesis(config: BabeConfig, authorities: &[(AuthorityId, BabeAuthorityWeight)]) -> (r: Module)
        ensures
            r@ == (ModuleState { authorities: authorities@, ..ModuleState::at_genesis(config) }),
    {
        let mut module = Module::new(config);
        module.initialize_authorities(authorities);
        assert(module@ =~= (ModuleState { authorities: authorities@, ..ModuleState::at_genesis(config) }));
        module
    }

    /// Sets the authorities when there are any; the authorities must not
    /// have been set already.
    fn initialize_authorities(&mut self, authorities: &[(AuthorityId, BabeAuthorityWeight)])
        requires
            authorities@.len() > 0 ==> old(self)@.authorities.len() == 0,
        ensures
            final(self)@ == (if authorities@.len() > 0 {
                ModuleState { authorities: authorities@, ..old(self)@ }
            } else {
                old(self)@
            }),
    {
        if authorities.len() != 0 {
            self.authorities = copy_authorities(authorities);
            assert(self@ =~= ModuleState { authorities: authorities@, ..old(self)@ });
        }
    }

    /// Per-block initialization, which runs once per block: takes note of
    /// the block's pre-digest (on the first block with one, the genesis
    /// slot is set and the genesis authorities and randomness are
    /// announced; the current slot becomes the claimed one; the VRF output
    /// of a primary claim is kept for block finalization), then lets the
    /// trigger enact an epoch change if any is due. A second call in the
    /// same block changes nothing.
    pub fn do_initialize<T: EpochChangeTrigger>(&mut self, now: u64)
        requires
            old(self)@.can_initialize(now, T::enacts_epoch_changes()),
        ensures
            final(self)@ == old(self)@.initialize(now, T::enacts_epoch_changes()),
    {
        if self.initialized.is_some() {
            return;
        }
        let maybe_pre_digest = find_pre_digest(&self.digest);
        let maybe_vrf = match maybe_pre_digest {
            None => None,
            Some(pre_digest) => {
                if self.genesis_slot == 0 {
                    self.genesis_slot = pre_digest.slot_number();
                    let next = NextEpochDescriptor {
                        authorities: copy_authorities(self.authorities.as_slice()),
                        randomness: self.randomness,
                    };
                    self.deposit_consensus(ConsensusLog::NextEpochData(next));
                }
                self.current_slot = pre_digest.slot_number();
                match pre_digest {
                    RawBabePreDigest::Primary { vrf_output, .. } => Some(vrf_output),
                    RawBabePreDigest::Secondary { .. } => None,
                }
            },
        };
        self.initialized = Some(maybe_vrf);
        assert(self@ =~= old(self)@.note_pre_digest());
        T::trigger(self, now);
    }

    /// Block initialization.
    pub fn on_initialize<T: EpochChangeTrigger>(&mut self, now: u64)
        requires
            old(self)@.can_initialize(now, T::enacts_epoch_changes()),
        ensures
            final(self)@ == old(self)@.initialize(now, T::enacts_epoch_changes()),
    {
        self.do_initialize::<T>(now);
    }

    /// Block finalization: the VRF output of this block, if it had a
    /// primary claim, joins the randomness under construction. If this
    /// block began a new epoch, the changeover has already happened, so the
    /// output goes to the right epoch.
    pub fn on_finalize(&mut self)
        requires
            old(self)@.initialized matches Some(Some(_)) ==> old(self)@.can_deposit_vrf_output(),
        ensures
            final(self)@ == old(self)@.finalize(),
    {
        let initialized = self.initialized.take();
        assert(self@ =~= ModuleState { initialized: None, ..old(self)@ });
        if let Some(Some(vrf_output)) = initialized {
            self.deposit_vrf_output(&vrf_output);
        }
    }

    /// Whether the session should end at block `now`: initialization is
    /// made sure of first (a session module may ask from its own block
    /// initialization, before this module's), then whether an epoch change
    /// is due.
    pub fn should_end_session<T: EpochChangeTrigger>(&mut self, now: u64) -> (r: bool)
        requires
            old(self)@.can_initialize(now, T::enacts_epoch_changes()),
            now != 1 ==> old(self)@.initialize(now, T::enacts_epoch_changes()).epoch_start_fits(),
        ensures
            final(self)@ == old(self)@.initialize(now, T::enacts_epoch_changes()),
            r == final(self)@.should_epoch_change(now),
    {
        self.do_initialize::<T>(now);
        self.should_epoch_change(now)
    }

    /// The session module's genesis: the validators' keys become the
    /// authorities, each of weight 1.
    pub fn on_genesis_session<A>(&mut self, validators: &[(A, AuthorityId)])
        requires
            validators@.len() > 0 ==> old(self)@.authorities.len() == 0,
        ensures
            final(self)@ == (if validators@.len() > 0 {
                ModuleState { authorities: weighted_keys(validators@), ..old(self)@ }
            } else {
                old(self)@
            }),
    {
        let authorities = keys_with_unit_weight(validators);
        self.initialize_authorities(authorities.as_slice());
    }

    /// A new session: the validators become the authorities of the epoch
    /// that begins, the queued validators are announced for the next, each
    /// of weight 1.
    pub fn on_new_session<A>(
        &mut self,
        changed: bool,
        validators: &[(A, AuthorityId)],
        queued_validators: &[(A, AuthorityId)],
    )
        requires
            old(self)@.can_enact(queued_validators@.len() as int),
        ensures
            final(self)@ == old(self)@.enact_epoch_change(
                weighted_keys(validators@),
                weighted_keys(queued_validators@),
            ),
    {
        let authorities = keys_with_unit_weight(validators);
        let next_authorities = keys_with_unit_weight(queued_validators);
        self.enact_epoch_change(authorities, next_authorities);
    }

    /// A validator was disabled: a consensus item tells the engine to
    /// disable the authority with that index (truncated to 32 bits).
    pub fn on_disabled(&mut self, i: usize)
        ensures
            final(self)@ == old(self)@.deposit_consensus(on_disabled_encoding(i as u32)),
    {
        self.deposit_consensus(ConsensusLog::OnDisabled(i as u32));
    }

    /// A timestamp was set: nothing to do.
    pub fn on_timestamp_set(&self, _moment: u64) {
    }

    /// Whether `authority_id` is one of the current authorities.
    pub fn is_member(&self, authority_id: &AuthorityId) -> (r: bool)
        ensures
            r == exists|i: int| 0 <= i < self@.authorities.len() && #[trigger] self@.authorities[i].0 == *authority_id,
    {
        let mut i: usize = 0;
        while i < self.authorities.len()
            invariant
                i <= self@.authorities.len(),
                forall|j: int| 0 <= j < i ==> #[trigger] self@.authorities[j].0 != *authority_id,
            decreases self@.authorities.len() - i,
        {
            let entry = self.authorities[i];
            if same_bytes(&entry.0, authority_id) {
                assert(entry.0 =~= *authority_id);
                return true;
            }
            i = i + 1;
        }
        false
    }

    /// The randomness of the current epoch.
    pub fn random(&self) -> (r: [u8; RANDOMNESS_LENGTH])
        ensures
            r@ == self@.randomness,
    {
        self.randomness
    }

    /// Adds a VRF output to the randomness under construction: onto the
    /// current segment while it is not full, else into a new segment that
    /// becomes current.
    fn deposit_vrf_output(&mut self, vrf_output: &VrfOutput)
        requires
            old(self)@.can_deposit_vrf_output(),
        ensures
            final(self)@ == old(self)@.deposit_vrf_output(*vrf_output),
    {
        let segment_idx = self.segment_index;
        let mut segment = self.segment(segment_idx);
        if segment.len() < UNDER_CONSTRUCTION_SEGMENT_LENGTH {
            segment.push(*vrf_output);
            self.insert_segment(segment_idx, segment);
        } else {
            let segment_idx = segment_idx + 1;
            let mut fresh: Vec<VrfOutput> = Vec::new();
            fresh.push(*vrf_output);
            assert(fresh@ =~= seq![*vrf_output]);
            self.insert_segment(segment_idx, fresh);
            self.segment_index = segment_idx;
            assert(self@ =~= old(self)@.deposit_vrf_output(*vrf_output));
        }
    }
}

/// The BABE slot duration for a configuration.
pub open spec fn spec_slot_duration(config: BabeConfig) -> u64 {
    if config.minimum_period * 2 > u64::MAX {
        u64::MAX
    } else {
        (config.minimum_period * 2) as u64
    }
}

/// The keys of a list of validators, each with weight 1.
pub open spec fn weighted_keys<A>(validators: Seq<(A, AuthorityId)>) -> Seq<(AuthorityId, BabeAuthorityWeight)> {
    validators.map_values(|v: (A, AuthorityId)| (v.1, 1u64))
}

/// The validators' keys, each with weight 1.
fn keys_with_unit_weight<A>(validators: &[(A, AuthorityId)]) -> (r: Vec<(AuthorityId, BabeAuthorityWeight)>)
    ensures
        r@ == weighted_keys(validators@),
{
    let mut out: Vec<(AuthorityId, BabeAuthorityWeight)> = Vec::new();
    let mut i: usize = 0;
    while i < validators.len()
        invariant
            i <= validators@.len(),
            out@ == weighted_keys(validators@.subrange(0, i as int)),
        decreases validators@.len() - i,
    {
        let key = validators[i].1;
        out.push((key, 1u64));
        i = i + 1;
        assert(out@ =~= weighted_keys(validators@.subrange(0, i as int)));
    }
    assert(validators@.subrange(0, i as int) =~= validators@);
    out
}

/// A copy of an authority list.
fn copy_authorities(authorities: &[(AuthorityId, BabeAuthorityWeight)]) -> (r: Vec<(AuthorityId, BabeAuthorityWeight)>)
    ensures
        r@ == authorities@,
{
    let mut out: Vec<(AuthorityId, BabeAuthorityWeight)> = Vec::new();
    let mut i: usize = 0;
    while i < authorities.len()
        invariant
            i <= authorities@.len(),
            out@ == authorities@.subrange(0, i as int),
        decreases authorities@.len() - i,
    {
        out.push(authorities[i]);
        i = i + 1;
        assert(out@ =~= authorities@.subrange(0, i as int));
    }
    assert(authorities@.subrange(0, i as int) =~= authorities@);
    out
}

/// Triggers an epoch change, if any should take place. Called during every
/// block, after initialization is done.
pub trait EpochChangeTrigger {
    /// Whether the trigger enacts due epoch changes itself, rather than
    /// leaving them to an external party.
    spec fn enacts_epoch_changes() -> bool;

    /// Triggers an epoch change at block `now`, if any should take place.
    fn trigger(module: &mut Module, now: u64)
        requires
            old(module)@.can_trigger(now, Self::enacts_epoch_changes()),
        ensures
            final(module)@ == old(module)@.trigger(now, Self::enacts_epoch_changes()),
    ;
}

/// An external trigger for epoch changes (such as a session module) is
/// used: BABE does nothing itself.
pub struct ExternalTrigger;

impl EpochChangeTrigger for ExternalTrigger {
    open spec fn enacts_epoch_changes() -> bool {
        false
    }

    fn trigger(module: &mut Module, now: u64) {
    }
}

/// BABE performs epoch changes itself, recycling the same authorities
/// forever.
pub struct SameAuthoritiesForever;

impl EpochChangeTrigger for SameAuthoritiesForever {
    open spec fn enacts_epoch_changes() -> bool {
        true
    }

    fn trigger(module: &mut Module, now: u64) {
        if module.should_epoch_change(now) {
            let authorities = copy_authorities(module.authorities.as_slice());
            let next_authorities = copy_authorities(authorities.as_slice());
            module.enact_epoch_change(authorities, next_authorities);
        }
    }
}

} // verus!
