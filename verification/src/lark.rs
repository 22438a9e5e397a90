//! Notices sent to a Lark chat bot: the text they carry and how the bot's reply is read.
use vstd::prelude::*;
use crate::datetime::{is_calendar_time, local_text, now_format, DateTimeParts};
use crate::text::push_char;

verus! {

/// `reqwest::Error`, a failure of the HTTP client.
#[verifier::external_type_specification]
#[verifier::external_body]
pub struct ExReqwestError(reqwest::Error);

/// Why a notice was not delivered.
#[derive(Debug)]
pub enum LarkNoticeError {
    /// The HTTP client failed.
    Reqwest(reqwest::Error),
    /// The bot refused the notice; the text says why.
    Lark(String),
}

impl From<reqwest::Error> for LarkNoticeError {
    fn from(value: reqwest::Error) -> (res: Self) {
        LarkNoticeError::Reqwest(value)
    }
}

impl vstd::std_specs::convert::FromSpecImpl<reqwest::Error> for LarkNoticeError {
    open spec fn obeys_from_spec() -> bool {
        true
    }

    open spec fn from_spec(v: reqwest::Error) -> Self {
        LarkNoticeError::Reqwest(v)
    }
}

/// The text a notice carries: the message, a line break, and the time in UTC+8.
pub fn notice_text(text: &str) -> (res: String)
    ensures
        exists|p: DateTimeParts| p.is_valid() && is_calendar_time(p) && res@ == text@ + seq!['\n'] + local_text(p),
{
    let now = now_format();
    let mut s = String::from_str(text);
    push_char(&mut s, '\n');
    s.append(now.as_str());
    s
}

/// The prefix of the reason given when the bot refuses a notice.
pub open spec fn refusal_prefix() -> Seq<char> {
    "lark notice service failed: "@
}

/// How the bot's reply is read: code 0 is success; any other code is a refusal whose
/// reason carries the reply's message.
pub fn reply_result(code: u32, msg: &str) -> (res: Result<(), LarkNoticeError>)
    ensures
        res is Ok <==> code == 0,
        res matches Err(e) ==> e matches LarkNoticeError::Lark(m) && m@ == refusal_prefix() + msg@,
{
    if code != 0 {
        let mut s = String::from_str("lark notice service failed: ");
        s.append(msg);
        Err(LarkNoticeError::Lark(s))
    } else {
        Ok(())
    }
}

} // verus!
