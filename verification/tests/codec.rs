use kvlog::KvError;
use kvlog::codec::{
    KEY_SIZE, decode_length, encode_get_response, encode_key, encode_length, encode_record,
    ok_response,
};
use kvlog::utils::compare_keys;

#[test]
fn length_is_little_endian() {
    assert_eq!(encode_length(3), vec![3u8, 0, 0, 0, 0, 0, 0, 0]);
    assert_eq!(
        encode_length(0x0102030405060708),
        vec![8u8, 7, 6, 5, 4, 3, 2, 1]
    );
    assert_eq!(encode_length(0), vec![0u8; 8]);
}

#[test]
fn length_round_trips() {
    assert_eq!(decode_length(&encode_length(5)), 5);
    assert_eq!(decode_length(&[5, 0, 0, 0, 0, 0, 0, 0]), 5);
    assert_eq!(decode_length(&encode_length(usize::MAX)), usize::MAX as u64);
}

#[test]
fn key_slot_is_zero_padded() {
    let slot = encode_key(b"abc").unwrap();
    assert_eq!(slot.len(), KEY_SIZE);
    assert_eq!(&slot[0..3], b"abc");
    assert!(slot[3..].iter().all(|&b| b == 0));
}

#[test]
fn full_width_key_fits() {
    let key = [7u8; 128];
    let slot = encode_key(&key).unwrap();
    assert_eq!(slot.as_slice(), &key[..]);
}

#[test]
fn oversized_key_is_rejected() {
    let key = [1u8; 129];
    assert_eq!(encode_key(&key), Err(KvError::KeyTooLong));
    assert_eq!(encode_record(&key, b"v"), Err(KvError::KeyTooLong));
}

#[test]
fn record_frame_layout() {
    let frame = encode_record(b"abc", b"hello").unwrap();
    assert_eq!(frame.len(), KEY_SIZE + 8 + 5);
    assert_eq!(&frame[0..3], b"abc");
    assert!(frame[3..KEY_SIZE].iter().all(|&b| b == 0));
    assert_eq!(&frame[KEY_SIZE..KEY_SIZE + 8], &[5, 0, 0, 0, 0, 0, 0, 0]);
    assert_eq!(&frame[KEY_SIZE + 8..], b"hello");
}

#[test]
fn ok_response_bytes() {
    assert_eq!(ok_response(), vec![0x4F, 0x4B, 0x00]);
}

#[test]
fn missing_key_answered_with_eight_zero_bytes() {
    assert_eq!(encode_get_response(&None), vec![0u8; 8]);
}

#[test]
fn found_value_answered_length_prefixed() {
    let resp = encode_get_response(&Some(b"hello".to_vec()));
    assert_eq!(&resp[0..8], &[5, 0, 0, 0, 0, 0, 0, 0]);
    assert_eq!(&resp[8..], b"hello");
}

#[test]
fn empty_value_answered_like_missing() {
    // A stored empty value and an absent key both answer eight zero
    // bytes: the wire cannot tell them apart.
    assert_eq!(encode_get_response(&Some(Vec::new())), vec![0u8; 8]);
}

#[test]
fn compare_keys_matches_own_slot() {
    let slot = encode_key(b"abc").unwrap();
    assert!(compare_keys(b"abc", &slot, KEY_SIZE));
}

#[test]
fn compare_keys_rejects_prefix_and_extension() {
    let slot = encode_key(b"abc").unwrap();
    assert!(!compare_keys(b"ab", &slot, KEY_SIZE));
    assert!(!compare_keys(b"abcd", &slot, KEY_SIZE));
    assert!(!compare_keys(b"abd", &slot, KEY_SIZE));
}

#[test]
fn compare_keys_checks_every_padding_byte() {
    // "a" must not match the slot of "a\0b": the slot holds a nonzero
    // byte past the probe.
    let slot = encode_key(b"a\0b").unwrap();
    assert!(!compare_keys(b"a", &slot, KEY_SIZE));
}

#[test]
fn compare_keys_oversized_probe_never_matches() {
    let slot = encode_key(b"abc").unwrap();
    let probe = [0u8; 129];
    assert!(!compare_keys(&probe, &slot, KEY_SIZE));
}

#[test]
fn compare_keys_empty_probe() {
    let zero_slot = encode_key(b"").unwrap();
    assert!(compare_keys(b"", &zero_slot, KEY_SIZE));
    let slot = encode_key(b"a").unwrap();
    assert!(!compare_keys(b"", &slot, KEY_SIZE));
}
