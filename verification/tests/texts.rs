use salvo_worker::text::{
    char_from_digit, decimal_len, ends_with, matches_at, prefixed, push_decimal, push_signed_padded, push_zero_padded,
    same_text, starts_with, trim_start_matches,
};

#[test]
fn prefixes_and_suffixes() {
    assert!(starts_with("// #[endpoint]", "// "));
    assert!(!starts_with("/", "// "));
    assert!(ends_with("main.rs", ".rs"));
    assert!(!ends_with("main.rsx", ".rs"));
    assert!(matches_at("ab// c", 2, "// "));
    assert!(!matches_at("ab// c", 1, "// "));
    assert!(matches_at("abc", 3, ""));
}

#[test]
fn trimming_removes_every_leading_copy() {
    assert_eq!(trim_start_matches("// // x", "// "), "x");
    assert_eq!(trim_start_matches("x // ", "// "), "x // ");
    assert_eq!(trim_start_matches("abc", ""), "abc");
    assert_eq!(prefixed("// ", "#[handler]"), "// #[handler]");
    assert!(same_text("héllo", "héllo"));
    assert!(!same_text("hello", "hell"));
}

#[test]
fn decimal_digits() {
    assert_eq!(decimal_len(0), 1);
    assert_eq!(decimal_len(9), 1);
    assert_eq!(decimal_len(10), 2);
    assert_eq!(decimal_len(u64::MAX), 20);
    assert_eq!(char_from_digit(7), '7');
    let mut s = String::from("n=");
    push_decimal(&mut s, 1234567);
    assert_eq!(s, "n=1234567");
}

#[test]
fn padded_numbers() {
    let mut s = String::new();
    push_zero_padded(&mut s, 7, 3);
    s.push(' ');
    push_zero_padded(&mut s, 12345, 3);
    s.push(' ');
    push_signed_padded(&mut s, -5, 4);
    s.push(' ');
    push_signed_padded(&mut s, 42, 4);
    s.push(' ');
    push_signed_padded(&mut s, i64::MIN, 1);
    assert_eq!(s, format!("007 12345 -005 0042 {}", i64::MIN));
    assert_eq!(format!("{:04}", -5), "-005");
}
