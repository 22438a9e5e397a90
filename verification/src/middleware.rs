//! Request logging and timing middleware, and the status they report.
use vstd::prelude::*;
use crate::text::{decimal, push_decimal};

verus! {

/// Logs every request with the status it was answered with and how long it took.
#[derive(Debug, Default)]
pub struct Logger {}

impl Logger {
    /// A logger.
    pub fn new() -> (res: Self)
        ensures
            res == (Logger {}),
    {
        Logger {}
    }
}

/// Adds the time a request took, in milliseconds, to the response as `X-ELAPSED-MS`.
#[derive(Debug, Default)]
pub struct Elapsed {}

impl Elapsed {
    /// A timer.
    pub fn new() -> (res: Self)
        ensures
            res == (Elapsed {}),
    {
        Elapsed {}
    }
}

/// What a response body holds, as far as its status goes.
#[derive(Debug, Clone, Copy, PartialEq, Eq, Structural)]
pub enum BodyState {
    /// No body at all.
    Empty,
    /// An error with this status code.
    Error(u16),
    /// Anything else.
    Content,
}

/// The status a response is logged with: the one it was given, or else 404 for no
/// body, the error's code for an error, and 200 for anything else.
pub open spec fn logged_status_of(status: Option<u16>, body: BodyState) -> u16 {
    match status {
        Some(s) => s,
        None => match body {
            BodyState::Empty => 404,
            BodyState::Error(code) => code,
            BodyState::Content => 200,
        },
    }
}

/// The status a response is logged with.
pub fn logged_status(status: Option<u16>, body: &BodyState) -> (res: u16)
    ensures
        res == logged_status_of(status, *body),
        status matches Some(s) ==> res == s,
        status is None ==> (body matches BodyState::Error(c) ==> res == c),
        status is None && *body == BodyState::Empty ==> res == 404,
        status is None && *body == BodyState::Content ==> res == 200,
{
    match status {
        Some(s) => s,
        None => match body {
            BodyState::Empty => 404,
            BodyState::Error(code) => *code,
            BodyState::Content => 200,
        },
    }
}

/// A status set on the response is the one logged. Without one, an error body is logged
/// with the error's own code, whatever it is, a missing body as 404, and any other body
/// as 200.
pub proof fn lemma_logged_status(s: u16, c: u16)
    ensures
        forall|b: BodyState| logged_status_of(Some(s), b) == s,
        logged_status_of(None, BodyState::Error(c)) == c,
        logged_status_of(None, BodyState::Empty) == 404,
        logged_status_of(None, BodyState::Content) == 200,
{
}

/// The name of the header that carries the time a request took.
pub fn elapsed_header_name() -> (res: &'static str)
    ensures
        res@ == "X-ELAPSED-MS"@,
{
    "X-ELAPSED-MS"
}

/// The value of the elapsed-time header: the milliseconds in decimal.
pub fn elapsed_header_value(millis: u64) -> (res: String)
    ensures
        res@ == decimal(millis as nat),
{
    let mut s = String::new();
    push_decimal(&mut s, millis);
    s
}

} // verus!
