//! Answers for requests that went wrong: bad requests and unknown routes are answered
//! with status 200 and a failure message that names the request.
use vstd::prelude::*;
use crate::response::{is_utc_timestamp, MessageResponse};
use crate::text::push_char;

verus! {

/// `method path cause`.
pub open spec fn bad_request_text(method: Seq<char>, path: Seq<char>, cause: Seq<char>) -> Seq<char> {
    method + seq![' '] + path + seq![' '] + cause
}

/// `method path`.
pub open spec fn not_found_text(method: Seq<char>, path: Seq<char>) -> Seq<char> {
    method + seq![' '] + path
}

/// The message that replaces an error response with code 400 that has a cause: code 400
/// and the method, path and cause. `None` for any other response, which stays as it is.
pub fn bad_request(method: &str, path: &str, error_code: Option<u16>, cause: Option<&str>) -> (res: Option<MessageResponse<()>>)
    ensures
        res is Some <==> (error_code == Some(400u16) && cause is Some),
        res matches Some(m) ==> {
            &&& m.code == 400
            &&& m.message@ == bad_request_text(method@, path@, cause.unwrap()@)
            &&& is_utc_timestamp(m.created@)
            &&& m.data is None
        },
{
    match (error_code, cause) {
        (Some(400), Some(c)) => {
            let mut s = String::from_str(method);
            push_char(&mut s, ' ');
            s.append(path);
            push_char(&mut s, ' ');
            s.append(c);
            Some(MessageResponse::failed(400, s))
        },
        _ => None,
    }
}

/// The message that replaces a response with status 404: code 404 and the method and
/// path. `None` for any other response, which stays as it is.
pub fn not_found(method: &str, path: &str, status: Option<u16>) -> (res: Option<MessageResponse<()>>)
    ensures
        res is Some <==> status == Some(404u16),
        res matches Some(m) ==> {
            &&& m.code == 404
            &&& m.message@ == not_found_text(method@, path@)
            &&& is_utc_timestamp(m.created@)
            &&& m.data is None
        },
{
    match status {
        Some(404) => {
            let mut s = String::from_str(method);
            push_char(&mut s, ' ');
            s.append(path);
            Some(MessageResponse::failed(404, s))
        },
        _ => None,
    }
}

} // verus!
