use srml_babe::digest::{decode_pre_digest, find_author, find_pre_digest, ConsensusLog, DigestItem, NextEpochDescriptor, RawBabePreDigest};
use srml_babe::primitives::BABE_ENGINE_ID;

fn primary_bytes(authority_index: u32, slot: u64, vrf: u8, proof: u8) -> Vec<u8> {
    let mut bytes = vec![1u8];
    bytes.extend_from_slice(&authority_index.to_le_bytes());
    bytes.extend_from_slice(&slot.to_le_bytes());
    bytes.extend_from_slice(&[vrf; 32]);
    bytes.extend_from_slice(&[proof; 64]);
    bytes
}

fn secondary_bytes(authority_index: u32, slot: u64) -> Vec<u8> {
    let mut bytes = vec![2u8];
    bytes.extend_from_slice(&authority_index.to_le_bytes());
    bytes.extend_from_slice(&slot.to_le_bytes());
    bytes
}

#[test]
fn decodes_primary_pre_digest() {
    let bytes = primary_bytes(3, 0x0102_0304_0506_0708, 7, 9);
    match decode_pre_digest(&bytes) {
        Some(RawBabePreDigest::Primary { authority_index, slot_number, vrf_output, vrf_proof }) => {
            assert_eq!(authority_index, 3);
            assert_eq!(slot_number, 0x0102_0304_0506_0708);
            assert_eq!(vrf_output, [7u8; 32]);
            assert_eq!(vrf_proof, [9u8; 64]);
        }
        other => panic!("unexpected decoding: {:?}", other),
    }
}

#[test]
fn decodes_secondary_pre_digest_and_ignores_trailing_bytes() {
    let mut bytes = secondary_bytes(5, 42);
    bytes.extend_from_slice(&[0xff, 0xee]);
    let decoded = decode_pre_digest(&bytes).expect("decodes");
    assert!(matches!(decoded, RawBabePreDigest::Secondary { authority_index: 5, slot_number: 42 }));
    assert_eq!(decoded.slot_number(), 42);
    assert_eq!(decoded.authority_index(), 5);
}

#[test]
fn rejects_bad_pre_digests() {
    assert!(decode_pre_digest(&[]).is_none());
    assert!(decode_pre_digest(&[3, 0, 0, 0, 0, 0, 0, 0, 0, 0, 0, 0, 0]).is_none());
    assert!(decode_pre_digest(&[0, 0, 0, 0, 0, 0, 0, 0, 0, 0, 0, 0, 0]).is_none());
    let short_primary = &primary_bytes(1, 1, 1, 1)[..108];
    assert!(decode_pre_digest(short_primary).is_none());
    let short_secondary = &secondary_bytes(1, 1)[..12];
    assert!(decode_pre_digest(short_secondary).is_none());
}

#[test]
fn finds_author_of_first_babe_digest() {
    let digests = vec![(*b"aura", secondary_bytes(9, 1)), (*b"BABE", secondary_bytes(4, 10)), (*b"BABE", secondary_bytes(6, 11))];
    assert_eq!(find_author(&digests), Some(4));
    let primary = vec![(*b"BABE", primary_bytes(11, 10, 0, 0))];
    assert_eq!(find_author(&primary), Some(11));
}

#[test]
fn find_author_stops_at_undecodable_babe_digest() {
    let digests = vec![(*b"BABE", vec![9u8, 1, 2]), (*b"BABE", secondary_bytes(6, 11))];
    assert_eq!(find_author(&digests), None);
    let none: Vec<([u8; 4], Vec<u8>)> = vec![(*b"aura", secondary_bytes(9, 1))];
    assert_eq!(find_author(&none), None);
}

#[test]
fn finds_first_decodable_pre_digest() {
    let logs = vec![
        DigestItem::Other(vec![1, 2, 3]),
        DigestItem::PreRuntime(*b"BABE", vec![9u8]),
        DigestItem::Consensus(*b"BABE", secondary_bytes(1, 1)),
        DigestItem::PreRuntime(*b"aura", secondary_bytes(2, 2)),
        DigestItem::PreRuntime(*b"BABE", secondary_bytes(3, 30)),
    ];
    let found = find_pre_digest(&logs).expect("a pre-digest");
    assert_eq!(found.authority_index(), 3);
    assert_eq!(found.slot_number(), 30);
    assert!(find_pre_digest(&vec![DigestItem::Seal(*b"BABE", vec![])]).is_none());
}

#[test]
fn encodes_on_disabled() {
    assert_eq!(ConsensusLog::OnDisabled(5).encode(), vec![2, 5, 0, 0, 0]);
    assert_eq!(ConsensusLog::OnDisabled(0x0102_0304).encode(), vec![2, 4, 3, 2, 1]);
}

#[test]
fn encodes_next_epoch_data() {
    let log = ConsensusLog::NextEpochData(NextEpochDescriptor { authorities: vec![([1u8; 32], 2)], randomness: [3u8; 32] });
    let mut expected = vec![1u8, 4];
    expected.extend_from_slice(&[1u8; 32]);
    expected.extend_from_slice(&2u64.to_le_bytes());
    expected.extend_from_slice(&[3u8; 32]);
    assert_eq!(log.encode(), expected);
}

#[test]
fn encodes_authority_list_lengths_compactly() {
    let empty = ConsensusLog::NextEpochData(NextEpochDescriptor { authorities: vec![], randomness: [0u8; 32] });
    assert_eq!(&empty.encode()[..2], &[1u8, 0]);
    let sixty_four = ConsensusLog::NextEpochData(NextEpochDescriptor { authorities: vec![([0u8; 32], 1); 64], randomness: [0u8; 32] });
    let encoded = sixty_four.encode();
    assert_eq!(&encoded[..3], &[1u8, 0x01, 0x01]);
    assert_eq!(encoded.len(), 1 + 2 + 64 * 40 + 32);
    let many = ConsensusLog::NextEpochData(NextEpochDescriptor { authorities: vec![([0u8; 32], 1); 16384], randomness: [0u8; 32] });
    assert_eq!(&many.encode()[..5], &[1u8, 2, 0, 1, 0]);
}

#[test]
fn babe_engine_id_is_babe() {
    assert_eq!(&BABE_ENGINE_ID, b"BABE");
    assert!(srml_babe::primitives::is_babe_engine_id(b"BABE"));
    assert!(!srml_babe::primitives::is_babe_engine_id(b"BABF"));
}
