use beacon_schema::codec::{sanitize_offset, SszError};
use beacon_schema::head_tracker::SszHeadTracker;
use ssz::{Decode, Encode};

fn le32(x: u32) -> Vec<u8> {
    x.to_le_bytes().to_vec()
}

fn tracker(roots: Vec<[u8; 32]>, slots: Vec<u64>) -> SszHeadTracker {
    SszHeadTracker { roots, slots }
}

#[test]
fn empty_tracker_encodes_to_two_offsets() {
    let t = tracker(vec![], vec![]);
    assert_eq!(t.as_ssz_bytes(), vec![8, 0, 0, 0, 8, 0, 0, 0]);
    assert_eq!(t.ssz_bytes_len(), 8);
}

#[test]
fn tracker_encoding_layout() {
    let t = tracker(vec![[1u8; 32], [2u8; 32]], vec![5, 0x0102_0304_0506_0708]);
    let bytes = t.as_ssz_bytes();
    let mut expected = le32(8);
    expected.extend(le32(8 + 64));
    expected.extend([1u8; 32]);
    expected.extend([2u8; 32]);
    expected.extend(5u64.to_le_bytes());
    expected.extend([8, 7, 6, 5, 4, 3, 2, 1]);
    assert_eq!(bytes, expected);
    assert_eq!(t.ssz_bytes_len(), 8 + 64 + 16);
    assert_eq!(bytes.len(), t.ssz_bytes_len());
}

#[test]
fn tracker_encoding_matches_ssz_container_of_two_lists() {
    let roots = vec![[7u8; 32], [9u8; 32], [0u8; 32]];
    let slots = vec![1u64, 2, 3, u64::MAX];
    let t = tracker(roots.clone(), slots.clone());
    assert_eq!(t.as_ssz_bytes(), (roots, slots).as_ssz_bytes());
}

#[test]
fn tracker_roundtrip() {
    let t = tracker(vec![[3u8; 32]], vec![42, 43, 44]);
    let decoded = SszHeadTracker::from_ssz_bytes(&t.as_ssz_bytes()).unwrap();
    assert_eq!(decoded.roots, t.roots);
    assert_eq!(decoded.slots, t.slots);
}

#[test]
fn tracker_roots_and_slots_need_not_match_in_length() {
    let t = tracker(vec![], vec![1, 2]);
    let decoded = SszHeadTracker::from_ssz_bytes(&t.as_ssz_bytes()).unwrap();
    assert!(decoded.roots.is_empty());
    assert_eq!(decoded.slots, vec![1, 2]);
}

#[test]
fn tracker_reencodes_what_it_decodes() {
    let mut bytes = le32(8);
    bytes.extend(le32(40));
    bytes.extend((0u8..32).collect::<Vec<u8>>());
    bytes.extend((100u8..108).collect::<Vec<u8>>());
    let t = SszHeadTracker::from_ssz_bytes(&bytes).unwrap();
    assert_eq!(t.as_ssz_bytes(), bytes);
}

fn decode_err(bytes: &[u8]) -> SszError {
    SszHeadTracker::from_ssz_bytes(bytes).err().unwrap()
}

#[test]
fn tracker_too_short_for_first_offset() {
    assert_eq!(decode_err(&[8, 0]), SszError::InvalidLengthPrefix { len: 2, expected: 4 });
    assert_eq!(decode_err(&[]), SszError::InvalidLengthPrefix { len: 0, expected: 4 });
}

#[test]
fn tracker_first_offset_out_of_bounds() {
    assert_eq!(decode_err(&[9, 0, 0, 0, 8, 0, 0, 0]), SszError::OffsetOutOfBounds(9));
}

#[test]
fn tracker_too_short_for_second_offset() {
    assert_eq!(decode_err(&[4, 0, 0, 0, 8, 0]), SszError::InvalidLengthPrefix { len: 2, expected: 4 });
}

#[test]
fn tracker_second_offset_out_of_bounds() {
    assert_eq!(decode_err(&[8, 0, 0, 0, 9, 0, 0, 0]), SszError::OffsetOutOfBounds(9));
}

#[test]
fn tracker_offsets_decreasing() {
    assert_eq!(decode_err(&[8, 0, 0, 0, 4, 0, 0, 0]), SszError::OffsetsAreDecreasing(4));
}

#[test]
fn tracker_offset_into_fixed_portion() {
    assert_eq!(decode_err(&[4, 0, 0, 0, 8, 0, 0, 0]), SszError::OffsetIntoFixedPortion(4));
}

#[test]
fn tracker_offset_skips_variable_bytes() {
    let mut bytes = le32(9);
    bytes.extend(le32(9));
    bytes.push(0);
    assert_eq!(decode_err(&bytes), SszError::OffsetSkipsVariableBytes(9));
}

#[test]
fn tracker_roots_not_whole() {
    let mut bytes = le32(8);
    bytes.extend(le32(18));
    bytes.extend([0u8; 10]);
    assert_eq!(decode_err(&bytes), SszError::InvalidByteLength { len: 10, expected: 32 });
}

#[test]
fn tracker_slots_not_whole() {
    let mut bytes = le32(8);
    bytes.extend(le32(8));
    bytes.extend([0u8; 11]);
    assert_eq!(decode_err(&bytes), SszError::InvalidByteLength { len: 3, expected: 8 });
}

#[test]
fn tracker_errors_agree_with_ssz_tuple_decoder() {
    let cases: Vec<Vec<u8>> = vec![
        vec![],
        vec![8, 0],
        vec![9, 0, 0, 0, 8, 0, 0, 0],
        vec![4, 0, 0, 0, 8, 0],
        vec![8, 0, 0, 0, 9, 0, 0, 0],
        vec![8, 0, 0, 0, 4, 0, 0, 0],
        vec![4, 0, 0, 0, 8, 0, 0, 0],
        vec![8, 0, 0, 0, 8, 0, 0, 0, 1, 2, 3],
        vec![8, 0, 0, 0, 12, 0, 0, 0, 1, 2, 3, 4],
    ];
    for bytes in cases {
        let ours = SszHeadTracker::from_ssz_bytes(&bytes).err().unwrap();
        let theirs = <(Vec<[u8; 32]>, Vec<u64>)>::from_ssz_bytes(&bytes).err().unwrap();
        assert_eq!(format!("{:?}", ours), format!("{:?}", theirs));
    }
}

#[test]
fn tracker_is_encodable_for_ordinary_sizes() {
    assert!(tracker(vec![[0u8; 32]; 3], vec![1, 2, 3]).is_encodable());
    assert!(tracker(vec![], vec![]).is_encodable());
}

#[test]
fn sanitize_offset_checks_in_order() {
    assert_eq!(sanitize_offset(3, None, 10, Some(4)), Err(SszError::OffsetIntoFixedPortion(3)));
    assert_eq!(sanitize_offset(5, None, 10, Some(4)), Err(SszError::OffsetSkipsVariableBytes(5)));
    assert_eq!(sanitize_offset(11, Some(4), 10, Some(4)), Err(SszError::OffsetOutOfBounds(11)));
    assert_eq!(sanitize_offset(5, Some(6), 10, None), Err(SszError::OffsetsAreDecreasing(5)));
    assert_eq!(sanitize_offset(6, Some(6), 10, None), Ok(6));
    assert_eq!(sanitize_offset(4, None, 10, Some(4)), Ok(4));
}
