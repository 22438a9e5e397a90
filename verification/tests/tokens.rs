use salvo_worker::random::{random_code, random_token, scale_to};

#[test]
fn scaling_maps_words_to_positions() {
    assert_eq!(scale_to(0, 62), 0);
    assert_eq!(scale_to(u64::MAX, 62), 61);
    assert_eq!(scale_to(1 << 63, 10), 5);
    assert_eq!(scale_to(1 << 63, 62), 31);
    assert_eq!(scale_to(u64::MAX, 1), 0);
    assert_eq!(scale_to((1 << 63) - 1, 2), 0);
}

#[test]
fn tokens_have_the_length_asked_for() {
    for n in [0u8, 1, 16, 255] {
        let t = random_token(n).unwrap();
        assert_eq!(t.chars().count(), n as usize);
        assert!(t.chars().all(|c| c.is_ascii_alphanumeric()));
    }
}

#[test]
fn codes_are_decimal_digits() {
    for n in [0u8, 6, 200] {
        let c = random_code(n).unwrap();
        assert_eq!(c.len(), n as usize);
        assert!(c.chars().all(|c| c.is_ascii_digit()));
    }
}
