use salvo_worker::datetime::{
    format_date_time, format_local, format_shanghai, format_utc, now_format, now_format_utc, DateTimeParts,
    DAY, HOUR, MAX_UNIX_SECONDS, MINUTE, MIN_UNIX_SECONDS, SECOND,
};

fn parts(year: i32, month: u8, day: u8, hour: u8, minute: u8, second: u8, millisecond: u16) -> DateTimeParts {
    DateTimeParts { year, month, day, hour, minute, second, millisecond }
}

#[test]
fn constants_in_milliseconds() {
    assert_eq!(SECOND, 1000);
    assert_eq!(MINUTE, 60_000);
    assert_eq!(HOUR, 3_600_000);
    assert_eq!(DAY, 86_400_000);
}

#[test]
fn utc_format_pads_every_field() {
    assert_eq!(format_utc(&parts(2025, 5, 7, 3, 35, 44, 456)), "2025-05-07T03:35:44.456Z");
    assert_eq!(format_utc(&parts(7, 1, 2, 0, 0, 9, 5)), "0007-01-02T00:00:09.005Z");
}

#[test]
fn negative_years_keep_their_sign() {
    assert_eq!(format_local(&parts(-5, 12, 31, 23, 59, 59, 0)), "-005-12-31 23:59:59");
    assert_eq!(format_local(&parts(-9999, 1, 1, 0, 0, 0, 0)), "-9999-01-01 00:00:00");
}

#[test]
fn shanghai_format() {
    assert_eq!(format_shanghai(&parts(2024, 2, 29, 12, 0, 1, 999)), "2024-02-29 12:00:01.999+8");
}

#[test]
fn date_time_of_nanos() {
    assert_eq!(format_date_time(0), "1970-01-01 08:00:00.000+8");
    assert_eq!(format_date_time(1_746_588_944_456_000_000), "2025-05-07 11:35:44.456+8");
    assert_eq!(format_date_time(-1), "1970-01-01 07:59:59.999+8");
    assert_eq!(format_date_time(-28_800_000_000_001), "1969-12-31 23:59:59.999+8");
    assert_eq!(format_date_time(MIN_UNIX_SECONDS as i128 * 1_000_000_000), "-9999-01-01 08:00:00.000+8");
    assert_eq!(
        format_date_time((MAX_UNIX_SECONDS as i128 - 28_800) * 1_000_000_000 + 999_999_999),
        "9999-12-31 23:59:59.999+8"
    );
}

fn digits_at(s: &str, positions: &[usize]) -> bool {
    positions.iter().all(|&i| s.as_bytes()[i].is_ascii_digit())
}

#[test]
fn current_time_shapes() {
    let utc = now_format_utc();
    assert_eq!(utc.len(), 24);
    assert_eq!(&utc[4..5], "-");
    assert_eq!(&utc[10..11], "T");
    assert_eq!(&utc[23..24], "Z");
    assert!(digits_at(&utc, &[0, 1, 2, 3, 5, 6, 8, 9, 11, 12, 14, 15, 17, 18, 20, 21, 22]));
    let local = now_format();
    assert_eq!(local.len(), 19);
    assert_eq!(&local[10..11], " ");
    assert!(digits_at(&local, &[0, 1, 2, 3, 5, 6, 8, 9, 11, 12, 14, 15, 17, 18]));
}
