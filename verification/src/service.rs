//! Turning platform requests into framework requests and back: the scheme a request
//! came in with, and the status a response goes out with.
use vstd::prelude::*;
use crate::finder::{ascii_text, header_text, visible_ascii};
use crate::text::same_text;

verus! {

/// A URI scheme.
#[derive(Debug, Clone)]
pub enum Scheme {
    /// `http`
    Http,
    /// `https`
    Https,
    /// Any other scheme, by name.
    Other(String),
}

/// The scheme that the edge network reports in a `cf-visitor` header value: only the
/// exact values `{"scheme":"https"}` and `{"scheme":"http"}` count.
pub open spec fn visitor_scheme_of(value: Seq<u8>) -> Option<Scheme> {
    if visible_ascii(value) && ascii_text(value) == "{\"scheme\":\"https\"}"@ {
        Some(Scheme::Https)
    } else if visible_ascii(value) && ascii_text(value) == "{\"scheme\":\"http\"}"@ {
        Some(Scheme::Http)
    } else {
        None
    }
}

/// The scheme that a `cf-visitor` header value reports.
pub fn visitor_scheme(value: &Vec<u8>) -> (res: Option<Scheme>)
    ensures
        res == visitor_scheme_of(value@),
{
    let text = match header_text(value) {
        Some(t) => t,
        None => return None,
    };
    if same_text(text.as_str(), "{\"scheme\":\"https\"}") {
        Some(Scheme::Https)
    } else if same_text(text.as_str(), "{\"scheme\":\"http\"}") {
        Some(Scheme::Http)
    } else {
        None
    }
}

/// The scheme of a request: the URI's own, else the one the edge network reports, else
/// `http`.
pub open spec fn request_scheme_of(uri_scheme: Option<Scheme>, cf_visitor: Option<Seq<u8>>) -> Scheme {
    match uri_scheme {
        Some(s) => s,
        None => match cf_visitor {
            Some(v) => match visitor_scheme_of(v) {
                Some(s) => s,
                None => Scheme::Http,
            },
            None => Scheme::Http,
        },
    }
}

/// The scheme of a request, from its URI and its first `cf-visitor` header value.
pub fn request_scheme(uri_scheme: Option<Scheme>, cf_visitor: Option<&Vec<u8>>) -> (res: Scheme)
    ensures
        res == request_scheme_of(uri_scheme, match cf_visitor { Some(v) => Some(v@), None => None }),
        uri_scheme matches Some(s) ==> res == s,
        cf_visitor matches Some(v) ==> (uri_scheme is None && visitor_scheme_of(v@) is Some ==> res == visitor_scheme_of(v@)->0),
        uri_scheme is None && (cf_visitor is None || visitor_scheme_of(cf_visitor.unwrap()@) is None) ==> res == Scheme::Http,
{
    match uri_scheme {
        Some(s) => s,
        None => match cf_visitor {
            Some(v) => match visitor_scheme(v) {
                Some(s) => s,
                None => Scheme::Http,
            },
            None => Scheme::Http,
        },
    }
}

/// The scheme of a request is the one its URI gives; without one, the one that the edge
/// network reports in `cf-visitor`; without that, `http`. The edge network's report is
/// `https` or `http` exactly for the values `{"scheme":"https"}` and
/// `{"scheme":"http"}`.
pub proof fn lemma_request_scheme(uri_scheme: Option<Scheme>, cf_visitor: Option<Seq<u8>>, v: Seq<u8>)
    ensures
        uri_scheme matches Some(s) ==> request_scheme_of(uri_scheme, cf_visitor) == s,
        visitor_scheme_of(v) matches Some(s) ==> request_scheme_of(None, Some(v)) == s,
        visitor_scheme_of(v) is None ==> request_scheme_of(None, Some(v)) == Scheme::Http,
        request_scheme_of(None, None) == Scheme::Http,
        visitor_scheme_of(v) == Some(Scheme::Https) <==> visible_ascii(v) && ascii_text(v) == "{\"scheme\":\"https\"}"@,
        visitor_scheme_of(v) == Some(Scheme::Http) <==> visible_ascii(v) && ascii_text(v) == "{\"scheme\":\"http\"}"@,
{
    reveal_strlit("{\"scheme\":\"https\"}");
    reveal_strlit("{\"scheme\":\"http\"}");
    assert("{\"scheme\":\"https\"}"@.len() != "{\"scheme\":\"http\"}"@.len());
}

/// The status a response goes out with: the one it was given, or 200.
pub fn response_status(status: Option<u16>) -> (res: u16)
    ensures
        res == (match status { Some(s) => s, None => 200 }),
{
    match status {
        Some(s) => s,
        None => 200,
    }
}

/// The headers a response goes out with on the platform, from the headers as the
/// framework hands them over: each value with the name it stands under, the name given
/// only for the first value of each name. The first values become name-text pairs in
/// order, and later values under a name are left out; `None` when one of the first
/// values is not visible ASCII text.
pub open spec fn platform_headers_of(h: Seq<(Option<Seq<char>>, Seq<u8>)>) -> Option<Seq<(Seq<char>, Seq<char>)>>
    decreases h.len(),
{
    if h.len() == 0 {
        Some(Seq::empty())
    } else {
        match platform_headers_of(h.drop_last()) {
            None => None,
            Some(done) => match h.last().0 {
                None => Some(done),
                Some(name) => if visible_ascii(h.last().1) {
                    Some(done.push((name, ascii_text(h.last().1))))
                } else {
                    None
                },
            },
        }
    }
}

/// Names and raw values, as the framework hands them over.
pub open spec fn named_values_view(h: Seq<(Option<String>, Vec<u8>)>) -> Seq<(Option<Seq<char>>, Seq<u8>)> {
    h.map_values(|p: (Option<String>, Vec<u8>)| (match p.0 { Some(n) => Some(n@), None => None }, p.1@))
}

/// The headers a response goes out with on the platform; see [`platform_headers_of`].
pub fn platform_headers(headers: &Vec<(Option<String>, Vec<u8>)>) -> (res: Option<Vec<(String, String)>>)
    ensures
        match (res, platform_headers_of(named_values_view(headers@))) {
            (Some(v), Some(t)) => v@.map_values(|p: (String, String)| (p.0@, p.1@)) == t,
            (None, None) => true,
            _ => false,
        },
{
    let ghost all = named_values_view(headers@);
    let mut out: Vec<(String, String)> = Vec::new();
    let mut k: usize = 0;
    while k < headers.len()
        invariant
            k <= headers@.len(),
            all == named_values_view(headers@),
            platform_headers_of(all.take(k as int)) == Some(out@.map_values(|p: (String, String)| (p.0@, p.1@))),
        decreases headers@.len() - k,
    {
        let ghost before = out@.map_values(|p: (String, String)| (p.0@, p.1@));
        assert(all.take(k + 1).drop_last() =~= all.take(k as int));
        assert(all.take(k + 1).last() == all[k as int]);
        match &headers[k].0 {
            None => {},
            Some(name) => {
                let value = &headers[k].1;
                match header_text(value) {
                    None => {
                        proof {
                            lemma_platform_headers_fail(all, k as int);
                        }
                        return None;
                    },
                    Some(text) => {
                        out.push((name.clone(), text));
                        assert(out@.map_values(|p: (String, String)| (p.0@, p.1@)) =~= before.push((name@, ascii_text(value@))));
                    },
                }
            },
        }
        k = k + 1;
    }
    assert(all.take(headers@.len() as int) =~= all);
    Some(out)
}

/// Once a prefix of the headers fails, the whole does.
proof fn lemma_platform_headers_fail(h: Seq<(Option<Seq<char>>, Seq<u8>)>, k: int)
    requires
        0 <= k < h.len(),
        platform_headers_of(h.take(k + 1)) is None,
    ensures
        platform_headers_of(h) is None,
    decreases h.len() - k,
{
    if k + 1 < h.len() {
        assert(h.take(k + 2).drop_last() =~= h.take(k + 1));
        lemma_platform_headers_fail(h, k + 1);
    } else {
        assert(h.take(k + 1) =~= h);
    }
}

} // verus!
