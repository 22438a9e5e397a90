//! The message envelope that every response body carries.
use vstd::prelude::*;
use crate::datetime::{is_calendar_time, now_format_utc, utc_text, DateTimeParts};

verus! {

/// A response message: a code (0 for success), a summary, the time it was made and
/// optional data.
#[derive(Debug)]
pub struct MessageResponse<T> {
    /// Message code: 0 for success, anything else for a failure.
    pub code: u16,
    /// Summary: `success`, or what went wrong.
    pub message: String,
    /// When the message was made, as `YYYY-MM-DDThh:mm:ss.mmmZ` in UTC.
    pub created: String,
    /// The data carried, if any.
    pub data: Option<T>,
}

/// The text is a UTC timestamp of some instant that a date-time can hold.
pub open spec fn is_utc_timestamp(s: Seq<char>) -> bool {
    exists|p: DateTimeParts| p.is_valid() && is_calendar_time(p) && s == utc_text(p)
}

/// The word that successful messages carry.
pub open spec fn success_word() -> Seq<char> {
    "success"@
}

/// The creation time given to a message that arrives without one: now.
pub fn default_created() -> (res: String)
    ensures
        is_utc_timestamp(res@),
{
    now_format_utc()
}

impl<T> MessageResponse<T> {
    /// A success without data.
    pub fn success() -> (res: Self)
        ensures
            res.code == 0,
            res.message@ == success_word(),
            is_utc_timestamp(res.created@),
            res.data is None,
    {
        MessageResponse {
            code: 0,
            message: String::from_str("success"),
            created: now_format_utc(),
            data: None,
        }
    }

    /// A success carrying `data`.
    pub fn data(data: T) -> (res: Self)
        ensures
            res.code == 0,
            res.message@ == success_word(),
            is_utc_timestamp(res.created@),
            res.data == Some(data),
    {
        MessageResponse {
            code: 0,
            message: String::from_str("success"),
            created: now_format_utc(),
            data: Some(data),
        }
    }

    /// A failure with `code` and `message`.
    pub fn failed(code: u16, message: String) -> (res: Self)
        ensures
            res.code == code,
            res.message == message,
            is_utc_timestamp(res.created@),
            res.data is None,
    {
        MessageResponse { code, message, created: now_format_utc(), data: None }
    }

    /// A failure with code 400 and `message`.
    pub fn bad_request(message: String) -> (res: Self)
        ensures
            res.code == 400,
            res.message == message,
            is_utc_timestamp(res.created@),
            res.data is None,
    {
        Self::failed(400, message)
    }
}

impl MessageResponse<()> {
    /// A success without data.
    pub fn none_success() -> (res: Self)
        ensures
            res.code == 0,
            res.message@ == success_word(),
            is_utc_timestamp(res.created@),
            res.data is None,
    {
        Self::success()
    }

    /// A failure with `code` and `message`.
    pub fn none_failed(code: u16, message: String) -> (res: Self)
        ensures
            res.code == code,
            res.message == message,
            is_utc_timestamp(res.created@),
            res.data is None,
    {
        MessageResponse { code, message, created: now_format_utc(), data: None }
    }

    /// A failure with code 400 and `message`.
    pub fn none_bad_request(message: String) -> (res: Self)
        ensures
            res.code == 400,
            res.message == message,
            is_utc_timestamp(res.created@),
            res.data is None,
    {
        Self::failed(400, message)
    }
}

} // verus!
