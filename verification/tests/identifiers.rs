use salvo_worker::random::{
    code_char, i64_from_be_bytes, is_valid_id, random_i64, random_id_candidate, random_u64, token_char,
    u64_from_be_bytes, MAX_SAFE_ID, MIN_ID_EXCLUSIVE,
};

#[test]
fn valid_id_keeps_large_ids() {
    assert_eq!(is_valid_id(12345678901), Some(12345678901));
    assert_eq!(is_valid_id(MAX_SAFE_ID - 1), Some(MAX_SAFE_ID - 1));
}

#[test]
fn valid_id_reduces_into_safe_range() {
    // 2 * MAX + 20000000000 reduces to 20000000000.
    assert_eq!(is_valid_id(2 * MAX_SAFE_ID + 20000000000), Some(20000000000));
    // i64::MAX reduces to 1023, which is too small.
    assert_eq!(is_valid_id(i64::MAX), None);
    assert_eq!(is_valid_id(MAX_SAFE_ID + 20000000000), Some(20000000000));
}

#[test]
fn valid_id_refuses_small_and_negative_ids() {
    assert_eq!(is_valid_id(10000000000), None);
    assert_eq!(is_valid_id(0), None);
    assert_eq!(is_valid_id(-12345678901), None);
    assert_eq!(is_valid_id(MAX_SAFE_ID), None);
    assert_eq!(is_valid_id(i64::MIN), None);
}

#[test]
fn big_endian_bytes() {
    assert_eq!(u64_from_be_bytes([0, 0, 0, 0, 0, 0, 1, 2]), 258);
    assert_eq!(u64_from_be_bytes([0xff; 8]), u64::MAX);
    assert_eq!(u64_from_be_bytes([1, 2, 3, 4, 5, 6, 7, 8]), u64::from_be_bytes([1, 2, 3, 4, 5, 6, 7, 8]));
    assert_eq!(i64_from_be_bytes([0xff; 8]), -1);
    assert_eq!(i64_from_be_bytes([0x80, 0, 0, 0, 0, 0, 0, 0]), i64::MIN);
    assert_eq!(i64_from_be_bytes([0x7f, 0xff, 0xff, 0xff, 0xff, 0xff, 0xff, 0xff]), i64::MAX);
    assert_eq!(i64_from_be_bytes([0xfe, 1, 2, 3, 4, 5, 6, 7]), i64::from_be_bytes([0xfe, 1, 2, 3, 4, 5, 6, 7]));
}

#[test]
fn random_numbers_come_back() {
    assert!(random_u64().is_ok());
    assert!(random_i64().is_ok());
    // Many draws: every accepted id lies in range.
    for _ in 0..200 {
        if let Ok(Some(id)) = random_id_candidate() {
            assert!(MIN_ID_EXCLUSIVE < id && id < MAX_SAFE_ID);
        }
    }
}

#[test]
fn token_characters() {
    assert_eq!(token_char(0), Some('a'));
    assert_eq!(token_char(25), Some('z'));
    assert_eq!(token_char(26), Some('A'));
    assert_eq!(token_char(52), Some('0'));
    assert_eq!(token_char(61), Some('9'));
    assert_eq!(token_char(62), None);
}

#[test]
fn code_characters() {
    assert_eq!(code_char(0), '0');
    assert_eq!(code_char(9), '9');
    assert_eq!(code_char(10), ':');
}

#[test]
fn valid_ids_stay_valid() {
    for id in [12345678901i64, 2 * MAX_SAFE_ID - 5, 3 * MAX_SAFE_ID + 99999999999] {
        let v = is_valid_id(id).unwrap();
        assert_eq!(is_valid_id(v), Some(v));
    }
}
