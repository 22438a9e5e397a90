//! Where cached responses are kept: a key-value namespace of the worker platform, with
//! an optional time to live for every entry written.
use vstd::prelude::*;
use core::time::Duration;
use crate::finder::{ascii_text, header_text, visible_ascii};
use crate::text::same_text;

verus! {

/// Builds a [`WorkerStore`].
pub struct Builder {
    key: String,
    live: Option<Duration>,
}

impl Builder {
    /// The namespace binding that the store will use.
    pub closed spec fn spec_key(self) -> String {
        self.key
    }

    /// How long the store will keep entries, if it lets them expire.
    pub closed spec fn spec_live(self) -> Option<Duration> {
        self.live
    }

    /// Lets entries expire `duration` after they are written; the platform asks for at
    /// least sixty seconds.
    pub fn time_to_live(self, duration: Duration) -> (res: Self)
        ensures
            res.spec_key() == self.spec_key(),
            res.spec_live() == Some(duration),
    {
        Builder { key: self.key, live: Some(duration) }
    }

    /// The store.
    pub fn build(self) -> (res: WorkerStore)
        ensures
            res.spec_key() == self.spec_key(),
            res.spec_live() == self.spec_live(),
    {
        WorkerStore { key: self.key, live: self.live }
    }
}

/// A cache store kept in the worker platform's key-value namespace bound as `key`.
pub struct WorkerStore {
    key: String,
    live: Option<Duration>,
}

impl WorkerStore {
    /// The namespace binding that the store uses.
    pub closed spec fn spec_key(self) -> String {
        self.key
    }

    /// How long the store keeps entries, if it lets them expire.
    pub closed spec fn spec_live(self) -> Option<Duration> {
        self.live
    }

    /// A store whose entries never expire.
    pub fn new(key: String) -> (res: Self)
        ensures
            res.spec_key() == key,
            res.spec_live() is None,
    {
        WorkerStore { key, live: None }
    }

    /// A builder for a store in namespace `key`, whose entries never expire unless
    /// told otherwise.
    pub fn builder(key: String) -> (res: Builder)
        ensures
            res.spec_key() == key,
            res.spec_live() is None,
    {
        Builder { key, live: None }
    }

    /// The namespace binding.
    pub fn key(&self) -> (res: &String)
        ensures
            *res == self.spec_key(),
    {
        &self.key
    }

    /// How long entries live, if they expire.
    pub fn live(&self) -> (res: Option<Duration>)
        ensures
            res == self.spec_live(),
    {
        self.live
    }
}


/// The body of a cached response.
#[derive(Debug, Clone)]
pub enum CachedBody {
    /// No body.
    Empty,
    /// The body in one piece.
    Once(Vec<u8>),
    /// The body in pieces, in order.
    Chunks(Vec<Vec<u8>>),
}

/// A cached response: status, headers by lower-case name with raw values, and body.
#[derive(Debug)]
pub struct CachedEntry {
    /// The status code, if the response set one.
    pub status: Option<u16>,
    /// The headers in order, by lower-case name and raw value.
    pub headers: Vec<(String, Vec<u8>)>,
    /// The body.
    pub body: CachedBody,
}

/// A cached response as it is written to the store: header values as text.
#[derive(Debug)]
pub struct StoredEntry {
    /// The status code, if the response set one.
    pub status: Option<u16>,
    /// The headers in order, by name and text value.
    pub headers: Vec<(String, String)>,
    /// The body.
    pub body: CachedBody,
}

/// Why an entry could not be converted.
#[derive(Debug, Clone, Copy, PartialEq, Eq, Structural)]
pub enum CacheError {
    /// A header value is not visible ASCII and cannot be written as text.
    UnreadableHeaderValue,
    /// A stored status code lies outside 100 to 999.
    InvalidStatus,
    /// A stored header name is no valid header name.
    InvalidHeaderName,
    /// A stored header value holds a forbidden character.
    InvalidHeaderValue,
}

/// A character that a header name may hold: a letter, a digit, or one of
/// `` !#$%&'*+-.^_`|~ ``.
pub open spec fn is_token_char(c: char) -> bool {
    ||| 'a' <= c <= 'z'
    ||| 'A' <= c <= 'Z'
    ||| '0' <= c <= '9'
    ||| c == '!' || c == '#' || c == '$' || c == '%' || c == '&' || c == '\'' || c == '*'
    ||| c == '+' || c == '-' || c == '.' || c == '^' || c == '_' || c == '`' || c == '|' || c == '~'
}

/// A character with an upper-case ASCII letter made lower-case.
pub open spec fn ascii_lower(c: char) -> char {
    if 'A' <= c <= 'Z' {
        ((c as int) + 32) as char
    } else {
        c
    }
}

/// The normalized header name of the text `name`: its characters lower-cased, when it
/// has from 1 to 65535 characters that are all token characters; `None` otherwise.
pub open spec fn header_name_of(name: Seq<char>) -> Option<Seq<char>> {
    if 0 < name.len() <= 65535 && forall|i: int| 0 <= i < name.len() ==> #[trigger] is_token_char(name[i]) {
        Some(name.map_values(|c: char| ascii_lower(c)))
    } else {
        None
    }
}

/// The characters that a header value may hold: a tab, or anything from the space on
/// except DEL.
pub open spec fn valid_value_chars(v: Seq<char>) -> bool {
    forall|i: int| 0 <= i < v.len() ==> (#[trigger] v[i] == '\t' || (v[i] >= ' ' && v[i] != '\x7f'))
}

/// Whether `code` is a status code: one from 100 to 999, the codes that
/// `http::StatusCode::from_u16` accepts.
fn status_code_valid(code: u16) -> (r: bool)
    ensures
        r == (100 <= code <= 999),
{
    100 <= code && code <= 999
}

/// `http::HeaderName::from_bytes` on the bytes of `name`, giving the normalized name as
/// text, as [`header_name_of`] states it: the lower-cased name when the text is from 1
/// to 65535 token characters.
#[verifier::external_body]
fn header_name(name: &str) -> (r: Option<String>)
    ensures
        r matches Some(n) ==> header_name_of(name@) == Some(n@),
        r is None ==> header_name_of(name@) is None,
{
    http::HeaderName::from_bytes(name.as_bytes()).ok().map(|n| n.as_str().to_string())
}

/// `http::HeaderValue::from_str`: the bytes of `value` when every character is allowed
/// in a header value.
#[verifier::external_body]
fn header_value(value: &str) -> (r: Option<Vec<u8>>)
    ensures
        r is Some <==> valid_value_chars(value@),
        r matches Some(b) ==> b@ == vstd::utf8::encode_utf8(value@),
{
    http::HeaderValue::from_str(value).ok().map(|v| v.as_bytes().to_vec())
}

/// Header names and raw values.
pub open spec fn raw_headers_view(h: Seq<(String, Vec<u8>)>) -> Seq<(Seq<char>, Seq<u8>)> {
    h.map_values(|p: (String, Vec<u8>)| (p.0@, p.1@))
}

/// Header names and text values.
pub open spec fn text_headers_view(h: Seq<(String, String)>) -> Seq<(Seq<char>, Seq<char>)> {
    h.map_values(|p: (String, String)| (p.0@, p.1@))
}

/// The text headers that a cached entry is written with, or the error when a value is
/// not visible ASCII.
pub open spec fn written_headers(h: Seq<(Seq<char>, Seq<u8>)>) -> Result<Seq<(Seq<char>, Seq<char>)>, CacheError> {
    if forall|i: int| 0 <= i < h.len() ==> visible_ascii(#[trigger] h[i].1) {
        Ok(h.map_values(|p: (Seq<char>, Seq<u8>)| (p.0, ascii_text(p.1))))
    } else {
        Err(CacheError::UnreadableHeaderValue)
    }
}

/// The position of the header named `name`, if there is one.
pub open spec fn header_index(h: Seq<(Seq<char>, Seq<u8>)>, name: Seq<char>) -> Option<int> {
    if exists|i: int| 0 <= i < h.len() && #[trigger] h[i].0 == name {
        Some(choose|i: int| 0 <= i < h.len() && #[trigger] h[i].0 == name)
    } else {
        None
    }
}

/// The header map after inserting `value` under `name`: it replaces the entry of that
/// name, or is added at the end.
pub open spec fn insert_header(h: Seq<(Seq<char>, Seq<u8>)>, name: Seq<char>, value: Seq<u8>) -> Seq<(Seq<char>, Seq<u8>)> {
    match header_index(h, name) {
        Some(i) => h.update(i, (name, value)),
        None => h.push((name, value)),
    }
}

/// The raw headers that stored headers are read back as: each name normalized and each
/// value checked, in order, inserted one after the other; the first bad name or value
/// gives the error.
pub open spec fn read_headers(h: Seq<(Seq<char>, Seq<char>)>) -> Result<Seq<(Seq<char>, Seq<u8>)>, CacheError>
    decreases h.len(),
{
    if h.len() == 0 {
        Ok(Seq::empty())
    } else {
        match read_headers(h.drop_last()) {
            Err(e) => Err(e),
            Ok(m) => {
                let (name, value) = h.last();
                match header_name_of(name) {
                    None => Err(CacheError::InvalidHeaderName),
                    Some(n) => if valid_value_chars(value) {
                        Ok(insert_header(m, n, vstd::utf8::encode_utf8(value)))
                    } else {
                        Err(CacheError::InvalidHeaderValue)
                    },
                }
            },
        }
    }
}

impl StoredEntry {
    /// The entry as it is written: the same status and body, and every header value as
    /// text; fails when a header value is not visible ASCII.
    pub fn from_cached(entry: CachedEntry) -> (res: Result<StoredEntry, CacheError>)
        ensures
            match (res, written_headers(raw_headers_view(entry.headers@))) {
                (Ok(s), Ok(h)) => s.status == entry.status && s.body == entry.body && text_headers_view(s.headers@) == h,
                (Err(e), Err(e2)) => e == e2,
                _ => false,
            },
    {
        let ghost raw = raw_headers_view(entry.headers@);
        let n = entry.headers.len();
        let mut out: Vec<(String, String)> = Vec::new();
        let mut k: usize = 0;
        while k < n
            invariant
                n == entry.headers@.len(),
                raw == raw_headers_view(entry.headers@),
                k <= n,
                out@.len() == k,
                forall|i: int| 0 <= i < k ==> visible_ascii(#[trigger] raw[i].1),
                forall|i: int| 0 <= i < k ==> (#[trigger] text_headers_view(out@)[i]) == (raw[i].0, ascii_text(raw[i].1)),
            decreases n - k,
        {
            let (name, value) = &entry.headers[k];
            match header_text(value) {
                Some(t) => {
                    let ghost before = text_headers_view(out@);
                    out.push((name.clone(), t));
                    assert forall|i: int| 0 <= i < k implies (#[trigger] text_headers_view(out@)[i]) == (raw[i].0, ascii_text(raw[i].1)) by {
                        assert(text_headers_view(out@)[i] == before[i]);
                    }
                    assert(text_headers_view(out@)[k as int] == (raw[k as int].0, ascii_text(raw[k as int].1)));
                },
                None => {
                    assert(!visible_ascii(raw[k as int].1));
                    return Err(CacheError::UnreadableHeaderValue);
                },
            }
            k = k + 1;
        }
        assert(text_headers_view(out@) =~= raw.map_values(|p: (Seq<char>, Seq<u8>)| (p.0, ascii_text(p.1))));
        Ok(StoredEntry { status: entry.status, headers: out, body: entry.body })
    }
}

/// Whether the status code of a stored entry is acceptable.
pub open spec fn status_readable(status: Option<u16>) -> bool {
    match status {
        Some(c) => 100 <= c <= 999,
        None => true,
    }
}

impl CachedEntry {
    /// The entry that a stored entry is read back as: the status checked, the headers
    /// as [`read_headers`] makes them, and the body unchanged.
    pub fn from_stored(entry: StoredEntry) -> (res: Result<CachedEntry, CacheError>)
        ensures
            !status_readable(entry.status) ==> res == Err::<CachedEntry, CacheError>(CacheError::InvalidStatus),
            status_readable(entry.status) ==> match (res, read_headers(text_headers_view(entry.headers@))) {
                (Ok(c), Ok(h)) => c.status == entry.status && c.body == entry.body && raw_headers_view(c.headers@) == h,
                (Err(e), Err(e2)) => e == e2,
                _ => false,
            },
    {
        match entry.status {
            Some(c) => {
                if !status_code_valid(c) {
                    return Err(CacheError::InvalidStatus);
                }
            },
            None => {},
        }
        let ghost stored = text_headers_view(entry.headers@);
        let n = entry.headers.len();
        let mut out: Vec<(String, Vec<u8>)> = Vec::new();
        let mut k: usize = 0;
        assert(stored.subrange(0, 0) =~= Seq::<(Seq<char>, Seq<char>)>::empty());
        assert(raw_headers_view(out@) =~= Seq::<(Seq<char>, Seq<u8>)>::empty());
        while k < n
            invariant
                status_readable(entry.status),
                n == entry.headers@.len(),
                stored == text_headers_view(entry.headers@),
                k <= n,
                read_headers(stored.subrange(0, k as int)) == Ok::<Seq<(Seq<char>, Seq<u8>)>, CacheError>(raw_headers_view(out@)),
                distinct_names(raw_headers_view(out@)),
            decreases n - k,
        {
            let ghost prefix = stored.subrange(0, (k + 1) as int);
            assert(prefix.drop_last() =~= stored.subrange(0, k as int));
            assert(prefix.last() == (entry.headers@[k as int].0@, entry.headers@[k as int].1@));
            let (name, value) = &entry.headers[k];
            let norm = match header_name(name.as_str()) {
                Some(nm) => nm,
                None => {
                    assert(read_headers(prefix) is Err);
                    proof { lemma_read_headers_err_extends(stored, k as int + 1); }
                    return Err(CacheError::InvalidHeaderName);
                },
            };
            let bytes = match header_value(value.as_str()) {
                Some(b) => b,
                None => {
                    assert(read_headers(prefix) == Err::<Seq<(Seq<char>, Seq<u8>)>, CacheError>(CacheError::InvalidHeaderValue));
                    proof { lemma_read_headers_err_extends(stored, k as int + 1); }
                    return Err(CacheError::InvalidHeaderValue);
                },
            };
            let ghost before = raw_headers_view(out@);
            insert_raw_header(&mut out, norm, bytes);
            assert(raw_headers_view(out@) == insert_header(before, norm@, vstd::utf8::encode_utf8(value@)));
            k = k + 1;
        }
        assert(stored.subrange(0, n as int) =~= stored);
        Ok(CachedEntry { status: entry.status, headers: out, body: entry.body })
    }
}

/// An error while reading a prefix of the headers is the error of reading them all.
proof fn lemma_read_headers_err_extends(h: Seq<(Seq<char>, Seq<char>)>, k: int)
    requires
        0 <= k <= h.len(),
        read_headers(h.subrange(0, k)) is Err,
    ensures
        read_headers(h) == read_headers(h.subrange(0, k)),
    decreases h.len() - k,
{
    if k < h.len() {
        let next = h.subrange(0, k + 1);
        assert(next.drop_last() =~= h.subrange(0, k));
        lemma_read_headers_err_extends(h, k + 1);
    } else {
        assert(h.subrange(0, k) =~= h);
    }
}

/// No two headers have the same name.
pub open spec fn distinct_names<V>(h: Seq<(Seq<char>, V)>) -> bool {
    forall|i: int, j: int| 0 <= i < j < h.len() ==> (#[trigger] h[i]).0 != (#[trigger] h[j]).0
}

proof fn lemma_insert_keeps_distinct(h: Seq<(Seq<char>, Seq<u8>)>, name: Seq<char>, value: Seq<u8>)
    requires
        distinct_names(h),
    ensures
        distinct_names(insert_header(h, name, value)),
{
    let r = insert_header(h, name, value);
    match header_index(h, name) {
        Some(i) => {
            assert forall|a: int, b: int| 0 <= a < b < r.len() implies (#[trigger] r[a]).0 != (#[trigger] r[b]).0 by {
                if a != i && b != i {
                    assert(r[a] == h[a] && r[b] == h[b]);
                } else if a == i {
                    assert(h[b].0 != h[i].0);
                } else {
                    assert(h[a].0 != h[i].0);
                }
            }
        },
        None => {
            assert forall|a: int, b: int| 0 <= a < b < r.len() implies (#[trigger] r[a]).0 != (#[trigger] r[b]).0 by {
                if b == h.len() {
                    assert(h[a].0 != name);
                } else {
                    assert(r[a] == h[a] && r[b] == h[b]);
                }
            }
        },
    }
}

/// Inserts a header: replaces the entry of the same name, or adds one at the end.
fn insert_raw_header(h: &mut Vec<(String, Vec<u8>)>, name: String, value: Vec<u8>)
    requires
        distinct_names(raw_headers_view(old(h)@)),
    ensures
        raw_headers_view(final(h)@) == insert_header(raw_headers_view(old(h)@), name@, value@),
        distinct_names(raw_headers_view(final(h)@)),
{
    proof { lemma_insert_keeps_distinct(raw_headers_view(h@), name@, value@); }
    let ghost view = raw_headers_view(h@);
    let n = h.len();
    let mut k: usize = 0;
    while k < n
        invariant
            n == h@.len(),
            view == raw_headers_view(h@),
            h@ == old(h)@,
            k <= n,
            forall|i: int| 0 <= i < k ==> (#[trigger] view[i]).0 != name@,
            distinct_names(view),
            distinct_names(insert_header(view, name@, value@)),
        decreases n - k,
    {
        if same_text(h[k].0.as_str(), name.as_str()) {
            assert(view[k as int].0 == name@);
            h.set(k, (name, value));
            proof {
                let i = header_index(view, name@)->0;
                assert(header_index(view, name@) is Some);
                assert(view[i].0 == name@);
                assert(i == k) by {
                    if i < k {
                        assert(view[i].0 != name@);
                    }
                    if i > k {
                        assert(view[k as int].0 != view[i].0);
                    }
                }
            }
            assert(raw_headers_view(h@) =~= insert_header(view, name@, value@));
            return;
        }
        k = k + 1;
    }
    assert(header_index(view, name@) is None);
    h.push((name, value));
    assert(raw_headers_view(h@) =~= insert_header(view, name@, value@));
}

/// Headers as a cache entry holds them: each name already normalized, no name twice,
/// and every value visible ASCII.
pub open spec fn well_formed_headers(h: Seq<(Seq<char>, Seq<u8>)>) -> bool {
    &&& distinct_names(h)
    &&& forall|i: int| 0 <= i < h.len() ==> visible_ascii((#[trigger] h[i]).1) && header_name_of(h[i].0) == Some(h[i].0)
}

proof fn lemma_ascii_utf8(v: Seq<u8>)
    requires
        visible_ascii(v),
    ensures
        vstd::utf8::encode_utf8(ascii_text(v)) == v,
        valid_value_chars(ascii_text(v)),
{
    let t = ascii_text(v);
    assert(vstd::utf8::is_ascii_chars(t)) by {
        assert forall|i: int| 0 <= i < t.len() implies '\0' <= #[trigger] t[i] <= '\u{7f}' by {
            assert(v[i] == 9 || (32 <= v[i] && v[i] < 127));
        }
    }
    vstd::utf8::is_ascii_chars_encode_utf8(t);
    assert forall|i: int| 0 <= i < v.len() implies #[trigger] vstd::utf8::encode_utf8(t)[i] == v[i] by {
        assert(t[i] == v[i] as char);
        assert((v[i] as char) as u8 == v[i]);
    }
    assert(vstd::utf8::encode_utf8(t) =~= v);
    assert forall|i: int| 0 <= i < t.len() implies (#[trigger] t[i] == '\t' || (t[i] >= ' ' && t[i] != '\x7f')) by {
        assert(v[i] == 9 || (32 <= v[i] && v[i] < 127));
    }
}

proof fn lemma_read_written_prefix(h: Seq<(Seq<char>, Seq<u8>)>, k: int)
    requires
        well_formed_headers(h),
        0 <= k <= h.len(),
    ensures
        read_headers(h.map_values(|p: (Seq<char>, Seq<u8>)| (p.0, ascii_text(p.1))).subrange(0, k))
            == Ok::<Seq<(Seq<char>, Seq<u8>)>, CacheError>(h.subrange(0, k)),
    decreases k,
{
    let t = h.map_values(|p: (Seq<char>, Seq<u8>)| (p.0, ascii_text(p.1)));
    if k == 0 {
        assert(t.subrange(0, 0) =~= Seq::<(Seq<char>, Seq<char>)>::empty());
        assert(h.subrange(0, 0) =~= Seq::<(Seq<char>, Seq<u8>)>::empty());
    } else {
        lemma_read_written_prefix(h, k - 1);
        let tk = t.subrange(0, k);
        assert(tk.drop_last() =~= t.subrange(0, k - 1));
        assert(tk.last() == (h[k - 1].0, ascii_text(h[k - 1].1)));
        assert(visible_ascii(h[k - 1].1) && header_name_of(h[k - 1].0) == Some(h[k - 1].0));
        lemma_ascii_utf8(h[k - 1].1);
        let prev = h.subrange(0, k - 1);
        assert(header_index(prev, h[k - 1].0) is None) by {
            if exists|i: int| 0 <= i < prev.len() && #[trigger] prev[i].0 == h[k - 1].0 {
                let i = choose|i: int| 0 <= i < prev.len() && #[trigger] prev[i].0 == h[k - 1].0;
                assert(h[i].0 != h[k - 1].0);
            }
        }
        assert(insert_header(prev, h[k - 1].0, h[k - 1].1) =~= h.subrange(0, k));
    }
}

/// What the cache writes it reads back: headers that are well formed survive being
/// written as text and read again unchanged, in order.
pub proof fn lemma_headers_round_trip(h: Seq<(Seq<char>, Seq<u8>)>)
    requires
        well_formed_headers(h),
    ensures
        written_headers(h) matches Ok(t) && read_headers(t) == Ok::<Seq<(Seq<char>, Seq<u8>)>, CacheError>(h),
{
    let t = h.map_values(|p: (Seq<char>, Seq<u8>)| (p.0, ascii_text(p.1)));
    assert(forall|i: int| 0 <= i < h.len() ==> visible_ascii(#[trigger] h[i].1));
    lemma_read_written_prefix(h, h.len() as int);
    assert(t.subrange(0, h.len() as int) =~= t);
    assert(h.subrange(0, h.len() as int) =~= h);
}
impl CachedEntry {
    /// The entry is one that a response gives: a status code from 100 to 999 if any, and
    /// headers as [`well_formed_headers`] has them.
    pub open spec fn well_formed(self) -> bool {
        &&& status_readable(self.status)
        &&& well_formed_headers(raw_headers_view(self.headers@))
    }
}

/// What the cache writes it reads back: a well-formed entry is written with its status,
/// its body, and its headers as text, and that status is accepted and that text read
/// back as the same headers, so `from_stored` after `from_cached` gives the entry back.
pub proof fn lemma_entry_round_trip(e: CachedEntry)
    requires
        e.well_formed(),
    ensures
        status_readable(e.status),
        written_headers(raw_headers_view(e.headers@)) matches Ok(t)
            && read_headers(t) == Ok::<Seq<(Seq<char>, Seq<u8>)>, CacheError>(raw_headers_view(e.headers@)),
{
    lemma_headers_round_trip(raw_headers_view(e.headers@));
}
} // verus!
