use srml_babe::digest::DigestItem;
use srml_babe::module::{compute_randomness, BabeConfig, ExternalTrigger, Module, SameAuthoritiesForever};

fn config() -> BabeConfig {
    BabeConfig { epoch_duration: 10, expected_block_time: 6000, minimum_period: 3000 }
}

fn primary(authority_index: u32, slot: u64, vrf: u8) -> DigestItem {
    let mut bytes = vec![1u8];
    bytes.extend_from_slice(&authority_index.to_le_bytes());
    bytes.extend_from_slice(&slot.to_le_bytes());
    bytes.extend_from_slice(&[vrf; 32]);
    bytes.extend_from_slice(&[0u8; 64]);
    DigestItem::PreRuntime(*b"BABE", bytes)
}

fn secondary(authority_index: u32, slot: u64) -> DigestItem {
    let mut bytes = vec![2u8];
    bytes.extend_from_slice(&authority_index.to_le_bytes());
    bytes.extend_from_slice(&slot.to_le_bytes());
    DigestItem::PreRuntime(*b"BABE", bytes)
}

fn blake2_256(data: &[u8]) -> [u8; 32] {
    let mut r = [0u8; 32];
    r.copy_from_slice(blake2_rfc::blake2b::blake2b(32, &[], data).as_bytes());
    r
}

fn next_epoch_payload(authorities: &[([u8; 32], u64)], randomness: [u8; 32]) -> Vec<u8> {
    let mut expected = vec![1u8, (authorities.len() as u8) * 4];
    for (key, weight) in authorities {
        expected.extend_from_slice(key);
        expected.extend_from_slice(&weight.to_le_bytes());
    }
    expected.extend_from_slice(&randomness);
    expected
}

fn consensus_payload(item: &DigestItem) -> Vec<u8> {
    match item {
        DigestItem::Consensus(id, data) => {
            assert_eq!(id, b"BABE");
            data.clone()
        }
        _ => panic!("not a consensus item"),
    }
}

#[test]
fn genesis_sets_authorities() {
    let module = Module::genesis(config(), &[([1u8; 32], 1)]);
    assert_eq!(module.authorities, vec![([1u8; 32], 1)]);
    assert_eq!(module.epoch_index, 0);
    assert_eq!(module.genesis_slot, 0);
    assert_eq!(module.randomness, [0u8; 32]);
    assert!(module.initialized.is_none());
    let empty = Module::genesis(config(), &[]);
    assert!(empty.authorities.is_empty());
}

#[test]
fn slot_duration_doubles_minimum_period() {
    assert_eq!(Module::new(config()).slot_duration(), 6000);
    let saturated = Module::new(BabeConfig { epoch_duration: 1, expected_block_time: 1, minimum_period: u64::MAX / 2 + 1 });
    assert_eq!(saturated.slot_duration(), u64::MAX);
}

#[test]
fn first_block_starts_epoch_zero() {
    let mut module = Module::genesis(config(), &[([1u8; 32], 1)]);
    module.digest = vec![primary(0, 100, 7)];
    module.do_initialize::<ExternalTrigger>(1);
    assert_eq!(module.genesis_slot, 100);
    assert_eq!(module.current_slot, 100);
    assert_eq!(module.initialized, Some(Some([7u8; 32])));
    assert_eq!(module.digest.len(), 2);
    assert_eq!(consensus_payload(&module.digest[1]), next_epoch_payload(&[([1u8; 32], 1)], [0u8; 32]));
    // A second initialization in the same block changes nothing.
    module.do_initialize::<ExternalTrigger>(1);
    assert_eq!(module.digest.len(), 2);
    assert_eq!(module.genesis_slot, 100);
}

#[test]
fn later_blocks_keep_genesis_slot() {
    let mut module = Module::genesis(config(), &[([1u8; 32], 1)]);
    module.digest = vec![secondary(0, 100)];
    module.on_initialize::<ExternalTrigger>(1);
    assert_eq!(module.initialized, Some(None));
    module.on_finalize();
    assert!(module.initialized.is_none());
    assert!(module.under_construction.iter().all(|s| s.is_empty()));
    module.digest = vec![secondary(0, 104)];
    module.on_initialize::<ExternalTrigger>(2);
    assert_eq!(module.genesis_slot, 100);
    assert_eq!(module.current_slot, 104);
    assert_eq!(module.digest.len(), 1);
}

#[test]
fn block_without_claim_is_initialized_without_vrf() {
    let mut module = Module::genesis(config(), &[([1u8; 32], 1)]);
    module.digest = vec![DigestItem::Other(vec![1])];
    module.do_initialize::<ExternalTrigger>(1);
    assert_eq!(module.initialized, Some(None));
    assert_eq!(module.genesis_slot, 0);
    assert_eq!(module.digest.len(), 1);
}

#[test]
fn finalize_collects_vrf_output() {
    let mut module = Module::genesis(config(), &[([1u8; 32], 1)]);
    module.digest = vec![primary(0, 100, 7)];
    module.do_initialize::<ExternalTrigger>(1);
    module.on_finalize();
    assert!(module.initialized.is_none());
    assert_eq!(module.segment_index, 0);
    assert_eq!(module.under_construction, vec![vec![[7u8; 32]]]);
}

#[test]
fn segments_fill_up_to_their_length() {
    let mut module = Module::new(config());
    for i in 0..257u32 {
        module.initialized = Some(Some([(i % 251) as u8; 32]));
        module.on_finalize();
    }
    assert_eq!(module.segment_index, 1);
    assert_eq!(module.under_construction[0].len(), 256);
    assert_eq!(module.under_construction[1], vec![[(256 % 251) as u8; 32]]);
}

#[test]
fn epoch_change_is_due_after_an_epoch() {
    let mut module = Module::genesis(config(), &[([1u8; 32], 1)]);
    module.genesis_slot = 100;
    module.current_slot = 109;
    assert!(!module.should_epoch_change(5));
    module.current_slot = 110;
    assert!(module.should_epoch_change(5));
    // Never at block 1.
    assert!(!module.should_epoch_change(1));
    // A slot before the epoch start saturates to no difference.
    module.current_slot = 50;
    assert!(!module.should_epoch_change(5));
}

#[test]
fn enact_epoch_change_rotates_randomness() {
    let mut module = Module::genesis(config(), &[([1u8; 32], 1)]);
    module.next_randomness = [5u8; 32];
    module.initialized = Some(None);
    module.enact_epoch_change(vec![([2u8; 32], 1)], vec![([3u8; 32], 2)]);
    assert_eq!(module.epoch_index, 1);
    assert_eq!(module.authorities, vec![([2u8; 32], 1)]);
    assert_eq!(module.randomness, [5u8; 32]);
    let mut input = vec![5u8; 32];
    input.extend_from_slice(&2u64.to_le_bytes());
    let expected_next = blake2_256(&input);
    assert_eq!(module.next_randomness, expected_next);
    assert_ne!(expected_next, [5u8; 32]);
    assert_eq!(module.digest.len(), 1);
    assert_eq!(consensus_payload(&module.digest[0]), next_epoch_payload(&[([3u8; 32], 2)], expected_next));
    // The current epoch now starts one epoch duration after genesis.
    module.current_slot = 19;
    assert!(!module.should_epoch_change(5));
    module.current_slot = 20;
    assert!(module.should_epoch_change(5));
}

#[test]
fn epoch_change_hashes_every_collected_output() {
    let mut module = Module::new(config());
    for i in 0..257u32 {
        module.initialized = Some(Some([(i % 251) as u8; 32]));
        module.on_finalize();
    }
    module.initialized = Some(None);
    module.enact_epoch_change(vec![], vec![]);
    let mut input = vec![0u8; 32];
    input.extend_from_slice(&2u64.to_le_bytes());
    for i in 0..257u32 {
        input.extend_from_slice(&[(i % 251) as u8; 32]);
    }
    assert_eq!(module.next_randomness, blake2_256(&input));
    assert_eq!(module.segment_index, 0);
    assert!(module.under_construction.iter().all(|segment| segment.is_empty()));
}

#[test]
fn epoch_change_hashes_a_partial_segment() {
    let mut module = Module::genesis(config(), &[([1u8; 32], 1)]);
    module.digest = vec![primary(0, 100, 7)];
    module.do_initialize::<ExternalTrigger>(1);
    module.on_finalize();
    module.digest = vec![secondary(0, 110)];
    module.do_initialize::<ExternalTrigger>(2);
    module.enact_epoch_change(vec![([1u8; 32], 1)], vec![([1u8; 32], 1)]);
    let mut input = vec![0u8; 32];
    input.extend_from_slice(&2u64.to_le_bytes());
    input.extend_from_slice(&[7u8; 32]);
    assert_eq!(module.next_randomness, blake2_256(&input));
    assert!(module.under_construction[0].is_empty());
}

#[test]
fn compute_randomness_hashes_inputs() {
    let rho = vec![[1u8; 32], [2u8; 32]];
    let mut input = vec![9u8; 32];
    input.extend_from_slice(&7u64.to_le_bytes());
    input.extend_from_slice(&[1u8; 32]);
    input.extend_from_slice(&[2u8; 32]);
    assert_eq!(compute_randomness([9u8; 32], 7, &rho, Some(512)), blake2_256(&input));
    assert_eq!(compute_randomness([9u8; 32], 7, &rho, None), blake2_256(&input));
}

#[test]
fn same_authorities_forever_enacts_due_changes() {
    let mut module = Module::genesis(config(), &[([1u8; 32], 1)]);
    module.digest = vec![primary(0, 100, 7)];
    module.do_initialize::<SameAuthoritiesForever>(1);
    assert_eq!(module.epoch_index, 0);
    module.on_finalize();
    module.digest = vec![primary(0, 110, 8)];
    module.do_initialize::<SameAuthoritiesForever>(2);
    assert_eq!(module.epoch_index, 1);
    assert_eq!(module.authorities, vec![([1u8; 32], 1)]);
    assert_eq!(module.digest.len(), 2);
    assert_eq!(consensus_payload(&module.digest[1]), next_epoch_payload(&[([1u8; 32], 1)], module.next_randomness));
}

#[test]
fn external_trigger_leaves_changes_to_session() {
    let mut module = Module::genesis(config(), &[([1u8; 32], 1)]);
    module.genesis_slot = 100;
    module.digest = vec![primary(0, 130, 8)];
    assert!(module.should_end_session::<ExternalTrigger>(3));
    assert_eq!(module.epoch_index, 0);
    module.on_new_session(true, &[(10u64, [4u8; 32])], &[(11u64, [5u8; 32]), (12u64, [6u8; 32])]);
    assert_eq!(module.epoch_index, 1);
    assert_eq!(module.authorities, vec![([4u8; 32], 1)]);
    assert_eq!(consensus_payload(&module.digest[1]), next_epoch_payload(&[([5u8; 32], 1), ([6u8; 32], 1)], module.next_randomness));
}

#[test]
fn genesis_session_sets_authorities_once() {
    let mut module = Module::new(config());
    module.on_genesis_session(&[("a", [4u8; 32]), ("b", [5u8; 32])]);
    assert_eq!(module.authorities, vec![([4u8; 32], 1), ([5u8; 32], 1)]);
    let no_validators: [(&str, [u8; 32]); 0] = [];
    module.on_genesis_session(&no_validators);
    assert_eq!(module.authorities.len(), 2);
}

#[test]
fn on_disabled_deposits_truncated_index() {
    let mut module = Module::new(config());
    module.on_disabled(3);
    module.on_disabled((1usize << 32) + 7);
    assert_eq!(consensus_payload(&module.digest[0]), vec![2, 3, 0, 0, 0]);
    assert_eq!(consensus_payload(&module.digest[1]), vec![2, 7, 0, 0, 0]);
}

#[test]
fn membership_follows_authorities() {
    let module = Module::genesis(config(), &[([1u8; 32], 1), ([2u8; 32], 5)]);
    assert!(module.is_member(&[2u8; 32]));
    assert!(!module.is_member(&[3u8; 32]));
    assert_eq!(module.random(), [0u8; 32]);
    module.on_timestamp_set(5);
}
