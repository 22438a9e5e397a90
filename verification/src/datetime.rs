//! Timestamps as text: the current time in UTC and in UTC+8, and a given instant.
use vstd::prelude::*;
use crate::text::{push_char, push_signed_padded, push_zero_padded, signed_padded, zero_padded};

verus! {

/// One second in milliseconds.
pub const SECOND: i64 = 1000;
/// One minute in milliseconds.
pub const MINUTE: i64 = SECOND * 60;
/// One hour in milliseconds.
pub const HOUR: i64 = MINUTE * 60;
/// One day in milliseconds.
pub const DAY: i64 = HOUR * 24;

/// The first second that a date-time can hold: -9999-01-01 00:00:00 UTC.
pub const MIN_UNIX_SECONDS: i64 = -377705116800;
/// The last second that a date-time can hold: 9999-12-31 23:59:59 UTC.
pub const MAX_UNIX_SECONDS: i64 = 253402300799;

/// The calendar fields of a date-time.
#[derive(Clone, Copy, Debug, PartialEq, Eq, Structural)]
pub struct DateTimeParts {
    /// Year, possibly negative.
    pub year: i32,
    /// Month, 1 to 12.
    pub month: u8,
    /// Day of the month, 1 to 31.
    pub day: u8,
    /// Hour, 0 to 23.
    pub hour: u8,
    /// Minute, 0 to 59.
    pub minute: u8,
    /// Second, 0 to 59.
    pub second: u8,
    /// Millisecond, 0 to 999.
    pub millisecond: u16,
}

impl DateTimeParts {
    /// The fields lie in the ranges that a date-time gives them.
    pub open spec fn is_valid(self) -> bool {
        &&& -9999 <= self.year <= 9999
        &&& 1 <= self.month <= 12
        &&& 1 <= self.day <= 31
        &&& self.hour < 24
        &&& self.minute < 60
        &&& self.second < 60
        &&& self.millisecond < 1000
    }
}

/// `YYYY-MM-DD`.
pub open spec fn date_text(p: DateTimeParts) -> Seq<char> {
    signed_padded(p.year as int, 4) + seq!['-'] + zero_padded(p.month as nat, 2) + seq!['-']
        + zero_padded(p.day as nat, 2)
}

/// `hh:mm:ss`.
pub open spec fn clock_text(p: DateTimeParts) -> Seq<char> {
    zero_padded(p.hour as nat, 2) + seq![':'] + zero_padded(p.minute as nat, 2) + seq![':']
        + zero_padded(p.second as nat, 2)
}

/// `YYYY-MM-DDThh:mm:ss.mmmZ`.
pub open spec fn utc_text(p: DateTimeParts) -> Seq<char> {
    date_text(p) + seq!['T'] + clock_text(p) + seq!['.'] + zero_padded(p.millisecond as nat, 3)
        + seq!['Z']
}

/// `YYYY-MM-DD hh:mm:ss`.
pub open spec fn local_text(p: DateTimeParts) -> Seq<char> {
    date_text(p) + seq![' '] + clock_text(p)
}

/// `YYYY-MM-DD hh:mm:ss.mmm+8`.
pub open spec fn shanghai_text(p: DateTimeParts) -> Seq<char> {
    local_text(p) + seq!['.'] + zero_padded(p.millisecond as nat, 3) + seq!['+', '8']
}

/// The proleptic Gregorian date (year, month, day) of the day `days` days after
/// 1970-01-01.
pub open spec fn civil_of_days(days: int) -> (int, int, int) {
    let z = days + 719468;
    let era = z / 146097;
    let doe = z - era * 146097;
    let yoe = (doe - doe / 1460 + doe / 36524 - doe / 146096) / 365;
    let doy = doe - (365 * yoe + yoe / 4 - yoe / 100);
    let mp = (5 * doy + 2) / 153;
    let day = doy - (153 * mp + 2) / 5 + 1;
    let month = if mp < 10 { mp + 3 } else { mp - 9 };
    let year = yoe + era * 400 + if month <= 2 { 1int } else { 0int };
    (year, month, day)
}

/// The calendar fields in UTC of the instant `nanos` nanoseconds after the Unix epoch:
/// the second is the floor of the instant, and the millisecond the whole milliseconds
/// past it.
pub open spec fn utc_parts_of_nanos(nanos: int) -> DateTimeParts {
    let secs = nanos / 1_000_000_000;
    let sub = nanos % 1_000_000_000;
    let of_day = secs % 86400;
    let date = civil_of_days(secs / 86400);
    DateTimeParts {
        year: date.0 as i32,
        month: date.1 as u8,
        day: date.2 as u8,
        hour: (of_day / 3600) as u8,
        minute: ((of_day % 3600) / 60) as u8,
        second: (of_day % 60) as u8,
        millisecond: (sub / 1_000_000) as u16,
    }
}

/// The fields are those in UTC of some instant that a date-time can hold: a real date
/// of the calendar and a time of day.
pub open spec fn is_calendar_time(p: DateTimeParts) -> bool {
    exists|u: int| nanos_in_range(u) && #[trigger] utc_parts_of_nanos(u) == p
}

/// The calendar fields in UTC of the instant `offset` nanoseconds after instant `t`:
/// the fields of `t` on a clock that runs `offset` ahead of UTC.
pub open spec fn parts_at_offset(t: int, offset: int) -> DateTimeParts {
    utc_parts_of_nanos(t + offset)
}

/// The fields are those of some instant that a date-time can hold, read on a clock that
/// runs `offset` nanoseconds ahead of UTC, and that clock's reading is also one a
/// date-time can hold.
pub open spec fn is_time_at_offset(p: DateTimeParts, offset: int) -> bool {
    exists|t: int| nanos_in_range(t) && nanos_in_range(t + offset) && #[trigger] parts_at_offset(t, offset) == p
}

/// Eight hours in nanoseconds: how far Shanghai time runs ahead of UTC.
pub const SHANGHAI_OFFSET_NANOS: i128 = 28_800_000_000_000;

/// The instants, in nanoseconds since the Unix epoch, that a date-time can hold.
pub open spec fn nanos_in_range(nanos: int) -> bool {
    MIN_UNIX_SECONDS * 1_000_000_000 <= nanos < (MAX_UNIX_SECONDS + 1) * 1_000_000_000
}

/// The current time in UTC, by `time::OffsetDateTime::now_utc`, read as calendar
/// fields. The clock decides the instant; it is stated only that the fields are those
/// of some instant, and lie in their ranges.
#[verifier::external_body]
fn now_utc_parts() -> (p: DateTimeParts)
    ensures
        p.is_valid(),
        is_calendar_time(p),
{
    let t = ::time::OffsetDateTime::now_utc();
    DateTimeParts {
        year: t.year(),
        month: t.month() as u8,
        day: t.day(),
        hour: t.hour(),
        minute: t.minute(),
        second: t.second(),
        millisecond: t.millisecond(),
    }
}

/// The current time moved to the offset `hours` east of UTC, by
/// `time::OffsetDateTime::now_utc`, `time::UtcOffset::from_hms` and
/// `time::OffsetDateTime::to_offset`, read as calendar fields: those in UTC of the
/// instant moved `hours` later. The clock decides the instant; it is stated only that
/// the fields are those of some instant read `hours` ahead of UTC, and lie in their
/// ranges. `to_offset` panics when the moved time falls after the year 9999, which no
/// clock before that year reaches.
#[verifier::external_body]
fn now_parts_east_of_utc(hours: i8) -> (p: DateTimeParts)
    requires
        0 <= hours <= 25,
    ensures
        p.is_valid(),
        is_calendar_time(p),
        is_time_at_offset(p, hours as int * 3_600_000_000_000),
{
    let offset = ::time::UtcOffset::from_hms(hours, 0, 0).unwrap();
    let t = ::time::OffsetDateTime::now_utc().to_offset(offset);
    DateTimeParts {
        year: t.year(),
        month: t.month() as u8,
        day: t.day(),
        hour: t.hour(),
        minute: t.minute(),
        second: t.second(),
        millisecond: t.millisecond(),
    }
}

/// `time::OffsetDateTime::from_unix_timestamp_nanos`, read as calendar fields: it
/// succeeds exactly when the second of the instant lies between
/// [`MIN_UNIX_SECONDS`] and [`MAX_UNIX_SECONDS`], and then gives the UTC fields of the
/// instant in the proleptic Gregorian calendar, [`utc_parts_of_nanos`], which lie in
/// their ranges.
#[verifier::external_body]
fn parts_from_unix_nanos(nanos: i128) -> (r: Option<DateTimeParts>)
    ensures
        r is Some <==> nanos_in_range(nanos as int),
        r matches Some(p) ==> p == utc_parts_of_nanos(nanos as int) && p.is_valid(),
{
    match ::time::OffsetDateTime::from_unix_timestamp_nanos(nanos) {
        Ok(t) => Some(DateTimeParts {
            year: t.year(),
            month: t.month() as u8,
            day: t.day(),
            hour: t.hour(),
            minute: t.minute(),
            second: t.second(),
            millisecond: t.millisecond(),
        }),
        Err(_) => None,
    }
}

fn push_date(s: &mut String, p: &DateTimeParts)
    ensures
        final(s)@ == old(s)@ + date_text(*p),
{
    push_signed_padded(s, p.year as i64, 4);
    push_char(s, '-');
    push_zero_padded(s, p.month as u64, 2);
    push_char(s, '-');
    push_zero_padded(s, p.day as u64, 2);
    assert(final(s)@ =~= old(s)@ + date_text(*p));
}

fn push_clock(s: &mut String, p: &DateTimeParts)
    ensures
        final(s)@ == old(s)@ + clock_text(*p),
{
    push_zero_padded(s, p.hour as u64, 2);
    push_char(s, ':');
    push_zero_padded(s, p.minute as u64, 2);
    push_char(s, ':');
    push_zero_padded(s, p.second as u64, 2);
    assert(final(s)@ =~= old(s)@ + clock_text(*p));
}

/// Formats date-time fields as `YYYY-MM-DDThh:mm:ss.mmmZ`.
pub fn format_utc(p: &DateTimeParts) -> (res: String)
    ensures
        res@ == utc_text(*p),
{
    let mut s = String::new();
    push_date(&mut s, p);
    push_char(&mut s, 'T');
    push_clock(&mut s, p);
    push_char(&mut s, '.');
    push_zero_padded(&mut s, p.millisecond as u64, 3);
    push_char(&mut s, 'Z');
    assert(s@ =~= utc_text(*p));
    s
}

/// Formats date-time fields as `YYYY-MM-DD hh:mm:ss`.
pub fn format_local(p: &DateTimeParts) -> (res: String)
    ensures
        res@ == local_text(*p),
{
    let mut s = String::new();
    push_date(&mut s, p);
    push_char(&mut s, ' ');
    push_clock(&mut s, p);
    assert(s@ =~= local_text(*p));
    s
}

/// Formats date-time fields as `YYYY-MM-DD hh:mm:ss.mmm+8`.
pub fn format_shanghai(p: &DateTimeParts) -> (res: String)
    ensures
        res@ == shanghai_text(*p),
{
    let mut s = format_local(p);
    push_char(&mut s, '.');
    push_zero_padded(&mut s, p.millisecond as u64, 3);
    push_char(&mut s, '+');
    push_char(&mut s, '8');
    assert(s@ =~= shanghai_text(*p));
    s
}

/// The current UTC date-time as `YYYY-MM-DDThh:mm:ss.mmmZ`.
pub fn now_format_utc() -> (res: String)
    ensures
        exists|p: DateTimeParts| p.is_valid() && is_calendar_time(p) && res@ == utc_text(p),
{
    let p = now_utc_parts();
    format_utc(&p)
}

/// The current date-time in UTC+8 as `YYYY-MM-DD hh:mm:ss`.
pub fn now_format() -> (res: String)
    ensures
        exists|p: DateTimeParts| p.is_valid() && is_calendar_time(p) && res@ == local_text(p),
        exists|p: DateTimeParts| is_time_at_offset(p, SHANGHAI_OFFSET_NANOS as int) && #[trigger] local_text(p) == res@,
{
    let p = now_parts_east_of_utc(8);
    format_local(&p)
}

/// The instant `nanos` nanoseconds after the Unix epoch in Shanghai time (UTC+8), as
/// `YYYY-MM-DD hh:mm:ss.mmm+8`. Both the instant and its Shanghai time must lie between
/// the years -9999 and 9999.
pub fn format_date_time(nanos: i128) -> (res: String)
    requires
        nanos_in_range(nanos as int),
        nanos_in_range(nanos + SHANGHAI_OFFSET_NANOS),
    ensures
        res@ == shanghai_text(utc_parts_of_nanos(nanos + SHANGHAI_OFFSET_NANOS)),
        utc_parts_of_nanos(nanos + SHANGHAI_OFFSET_NANOS).is_valid(),
{
    let p = parts_from_unix_nanos(nanos + SHANGHAI_OFFSET_NANOS);
    match p {
        Some(p) => format_shanghai(&p),
        None => String::new(),
    }
}

} // verus!
