//! Form bodies: which parser a request's content type calls for, the files uploaded with
//! a multipart form, and the names they are stored under.
use vstd::prelude::*;
use std::path::PathBuf;
use base64::engine::Engine;
use rand::TryRngCore;
use crate::finder::{ascii_text, header_text, visible_ascii};
use crate::text::{push_char, same_text};

verus! {

/// `http::HeaderMap`, a multimap from header names to values.
#[verifier::external_type_specification]
#[verifier::external_body]
#[verifier::reject_recursive_types(T)]
pub struct ExHeaderMap<T>(http::HeaderMap<T>);

/// `http::HeaderValue`, the raw value of one header.
#[verifier::external_type_specification]
#[verifier::external_body]
pub struct ExHeaderValue(http::HeaderValue);

/// `std::path::PathBuf`.
#[verifier::external_type_specification]
#[verifier::external_body]
pub struct ExPathBuf(std::path::PathBuf);

/// `mime::Mime`, a parsed media type.
#[verifier::external_type_specification]
#[verifier::external_body]
pub struct ExMime(mime::Mime);

/// What a header map holds: for each lower-case header name, its raw values in order.
pub uninterp spec fn header_map_values(h: http::HeaderMap) -> Map<Seq<char>, Seq<Seq<u8>>>;

/// The media type that `s` spells, if it spells one: its lower-case type and subtype,
/// and the parsed value.
pub uninterp spec fn parsed_mime_of(s: Seq<char>) -> Option<(Seq<char>, Seq<char>, mime::Mime)>;

/// The boundary of a `multipart/form-data` content type.
pub uninterp spec fn multipart_boundary_of(s: Seq<char>) -> Option<Seq<char>>;

/// The name-value pairs of an `application/x-www-form-urlencoded` body.
pub uninterp spec fn urlencoded_pairs_of(body: Seq<u8>) -> Seq<(Seq<char>, Seq<char>)>;

/// The extension of the last component of a path.
pub uninterp spec fn path_extension_of(path: Seq<char>) -> Option<Seq<char>>;

/// The character of a six-bit value in the URL-safe base64 alphabet: `A`-`Z`, `a`-`z`,
/// `0`-`9`, `-` and `_`.
pub open spec fn base64_url_digit(v: int) -> char {
    if v < 26 {
        (65 + v) as char
    } else if v < 52 {
        (97 + v - 26) as char
    } else if v < 62 {
        (48 + v - 52) as char
    } else if v == 62 {
        '-'
    } else {
        '_'
    }
}

/// The URL-safe base64 encoding of bytes, without padding: every three bytes become four
/// characters of six bits each, most significant first, and a last group of one or two
/// bytes becomes two or three characters, its missing low bits zero.
pub open spec fn base64_url_of(b: Seq<u8>) -> Seq<char>
    decreases b.len(),
{
    if b.len() == 0 {
        Seq::empty()
    } else if b.len() == 1 {
        seq![base64_url_digit(b[0] as int / 4), base64_url_digit((b[0] as int % 4) * 16)]
    } else if b.len() == 2 {
        seq![
            base64_url_digit(b[0] as int / 4),
            base64_url_digit((b[0] as int % 4) * 16 + b[1] as int / 16),
            base64_url_digit((b[1] as int % 16) * 4),
        ]
    } else {
        seq![
            base64_url_digit(b[0] as int / 4),
            base64_url_digit((b[0] as int % 4) * 16 + b[1] as int / 16),
            base64_url_digit((b[1] as int % 16) * 4 + b[2] as int / 64),
            base64_url_digit(b[2] as int % 64),
        ] + base64_url_of(b.subrange(3, b.len() as int))
    }
}

/// Twenty-four bytes encode as thirty-two characters.
proof fn lemma_base64_url_len(b: Seq<u8>)
    requires
        b.len() % 3 == 0,
    ensures
        base64_url_of(b).len() == b.len() / 3 * 4,
    decreases b.len(),
{
    if b.len() > 0 {
        lemma_base64_url_len(b.subrange(3, b.len() as int));
    }
}

/// The first `content-type` value of a header map, by `http::HeaderMap::get`, which gives
/// the first of the values stored under a name.
#[verifier::external_body]
fn content_type_value(h: &http::HeaderMap) -> (r: Option<Vec<u8>>)
    ensures
        r matches Some(v) ==> header_map_values(*h).contains_key("content-type"@)
            && header_map_values(*h)["content-type"@].len() > 0
            && v@ == header_map_values(*h)["content-type"@][0],
        r is None ==> !header_map_values(*h).contains_key("content-type"@)
            || header_map_values(*h)["content-type"@].len() == 0,
{
    h.get(http::header::CONTENT_TYPE).map(|v| v.as_bytes().to_vec())
}

/// Parses a media type with `mime::Mime`'s `FromStr`, giving its lower-case type and
/// subtype (by `type_` and `subtype`) and the parsed value, as [`parsed_mime_of`] names
/// them.
#[verifier::external_body]
fn parse_mime(s: &str) -> (r: Option<(String, String, mime::Mime)>)
    ensures
        r matches Some(p) ==> parsed_mime_of(s@) == Some((p.0@, p.1@, p.2)),
        r is None ==> parsed_mime_of(s@) is None,
{
    s.parse::<mime::Mime>().ok().map(|m| (m.type_().as_str().to_string(), m.subtype().as_str().to_string(), m))
}

/// `multer::parse_boundary`, as [`multipart_boundary_of`] names it.
#[verifier::external_body]
fn parse_boundary(s: &str) -> (r: Option<String>)
    ensures
        r matches Some(b) ==> multipart_boundary_of(s@) == Some(b@),
        r is None ==> multipart_boundary_of(s@) is None,
{
    multer::parse_boundary(s).ok()
}

/// `form_urlencoded::parse` with every pair owned, as [`urlencoded_pairs_of`] names it.
#[verifier::external_body]
fn urlencoded_pairs(body: &[u8]) -> (r: Vec<(String, String)>)
    ensures
        r@.map_values(|p: (String, String)| (p.0@, p.1@)) == urlencoded_pairs_of(body@),
{
    form_urlencoded::parse(body).into_owned().collect()
}

/// `std::path::Path::extension` of a path given as text, as [`path_extension_of`] names
/// it; a path that is text has an extension that is text.
#[verifier::external_body]
fn file_extension(name: &str) -> (r: Option<String>)
    ensures
        r matches Some(e) ==> path_extension_of(name@) == Some(e@),
        r is None ==> path_extension_of(name@) is None,
{
    std::path::Path::new(name).extension().and_then(|e| e.to_str()).map(|e| e.to_string())
}

/// `base64::engine::general_purpose::URL_SAFE_NO_PAD.encode`: the URL-safe alphabet
/// without padding, as [`base64_url_of`] spells it out.
#[verifier::external_body]
fn base64_url(bytes: &[u8]) -> (r: String)
    ensures
        r@ == base64_url_of(bytes@),
{
    base64::engine::general_purpose::URL_SAFE_NO_PAD.encode(bytes)
}

/// `n` bytes from the operating system, by `rand::rngs::OsRng`'s `try_fill_bytes`;
/// `None` when the source fails. The bytes are chance; only their number is stated.
#[verifier::external_body]
fn os_random_bytes(n: usize) -> (r: Option<Vec<u8>>)
    ensures
        r matches Some(v) ==> v.len() == n,
{
    let mut v = vec![0u8; n];
    match rand::rngs::OsRng.try_fill_bytes(&mut v) {
        Ok(()) => Some(v),
        Err(_) => None,
    }
}

/// The time since the Unix epoch as whole seconds and the nanoseconds past them, by
/// `std::time::SystemTime::now` and `duration_since`; `None` when the clock reads
/// before the epoch. The clock decides the value; only the nanoseconds' range is stated.
#[verifier::external_body]
fn unix_time_now() -> (r: Option<(u64, u32)>)
    ensures
        r matches Some(t) ==> t.1 < 1_000_000_000,
{
    match std::time::SystemTime::now().duration_since(std::time::UNIX_EPOCH) {
        Ok(d) => Some((d.as_secs(), d.subsec_nanos())),
        Err(_) => None,
    }
}

/// What parser a request body calls for.
#[derive(Debug, Clone)]
pub enum FormKind {
    /// `application/x-www-form-urlencoded`, or any other type with that subtype.
    UrlEncoded,
    /// A `multipart/*` type, with the boundary when it is `multipart/form-data` with one.
    Multipart(Option<String>),
    /// Anything else: the body is no form.
    Invalid,
}

/// The kind of form that a content-type header value calls for.
pub open spec fn form_kind_of(content_type: Option<Seq<u8>>) -> FormKind {
    match content_type {
        Some(v) if visible_ascii(v) => match parsed_mime_of(ascii_text(v)) {
            Some(p) => if p.1 == "x-www-form-urlencoded"@ {
                FormKind::UrlEncoded
            } else if p.0 == "multipart"@ {
                FormKind::Multipart(None)
            } else {
                FormKind::Invalid
            },
            None => FormKind::Invalid,
        },
        _ => FormKind::Invalid,
    }
}

/// The boundary that a multipart content-type header value gives, if any.
pub open spec fn boundary_of(content_type: Seq<u8>) -> Option<Seq<char>> {
    multipart_boundary_of(ascii_text(content_type))
}

/// The kind of form that the first content-type value of a request calls for.
pub fn form_kind(content_type: Option<&Vec<u8>>) -> (res: FormKind)
    ensures
        match (res, form_kind_of(match content_type { Some(v) => Some(v@), None => None })) {
            (FormKind::UrlEncoded, FormKind::UrlEncoded) => true,
            (FormKind::Invalid, FormKind::Invalid) => true,
            (FormKind::Multipart(b), FormKind::Multipart(_)) => match b {
                Some(s) => boundary_of(content_type.unwrap()@) == Some(s@),
                None => boundary_of(content_type.unwrap()@) is None,
            },
            _ => false,
        },
{
    let v = match content_type {
        Some(v) => v,
        None => return FormKind::Invalid,
    };
    let text = match header_text(v) {
        Some(t) => t,
        None => return FormKind::Invalid,
    };
    match parse_mime(text.as_str()) {
        Some((ty, sub, _)) => {
            if same_text(sub.as_str(), "x-www-form-urlencoded") {
                FormKind::UrlEncoded
            } else if same_text(ty.as_str(), "multipart") {
                FormKind::Multipart(parse_boundary(text.as_str()))
            } else {
                FormKind::Invalid
            }
        },
        None => FormKind::Invalid,
    }
}

/// The name-value pairs of an `application/x-www-form-urlencoded` body.
pub fn parse_urlencoded(body: &[u8]) -> (res: Vec<(String, String)>)
    ensures
        res@.map_values(|p: (String, String)| (p.0@, p.1@)) == urlencoded_pairs_of(body@),
{
    urlencoded_pairs(body)
}

/// Where a part of a multipart body goes.
#[derive(Debug, Clone)]
pub enum PartRoute {
    /// A part without a name is skipped.
    Skip,
    /// A part whose `Content-Disposition` gives no file name is a text field with this name.
    Field(String),
    /// A part whose `Content-Disposition` gives a file name is a file with this name.
    File(String),
}

/// Where a part goes, from the name and the file name that its `Content-Disposition`
/// header gives: nowhere without a name, to the files when it has a file name, and to
/// the text fields otherwise.
pub fn part_route(name: Option<&str>, file_name: Option<&str>) -> (res: PartRoute)
    ensures
        match name {
            None => res is Skip,
            Some(n) => match res {
                PartRoute::File(m) => file_name is Some && m@ == n@,
                PartRoute::Field(m) => file_name is None && m@ == n@,
                PartRoute::Skip => false,
            },
        },
{
    match name {
        None => PartRoute::Skip,
        Some(n) => match file_name {
            Some(_) => PartRoute::File(String::from_str(n)),
            None => PartRoute::Field(String::from_str(n)),
        },
    }
}

/// The first `content-type` value of a header map as text, when it has one and it is
/// visible ASCII.
pub open spec fn first_content_type_text(h: http::HeaderMap) -> Option<Seq<char>> {
    let values = header_map_values(h);
    if values.contains_key("content-type"@) && values["content-type"@].len() > 0
        && visible_ascii(values["content-type"@][0]) {
        Some(ascii_text(values["content-type"@][0]))
    } else {
        None
    }
}

/// A file uploaded with a multipart form and kept in a temporary directory.
#[derive(Debug)]
pub struct FilePart {
    name: Option<String>,
    headers: http::HeaderMap,
    path: PathBuf,
    size: u64,
    temp_dir: Option<PathBuf>,
}

impl FilePart {
    /// The file name the client gave.
    pub closed spec fn spec_name(self) -> Option<String> {
        self.name
    }

    /// The headers of the part.
    pub closed spec fn spec_headers(self) -> http::HeaderMap {
        self.headers
    }

    /// Where the content was stored.
    pub closed spec fn spec_path(self) -> PathBuf {
        self.path
    }

    /// The size of the content in bytes.
    pub closed spec fn spec_size(self) -> u64 {
        self.size
    }

    /// The temporary directory to remove with the file, if the file is to be removed.
    pub closed spec fn spec_temp_dir(self) -> Option<PathBuf> {
        self.temp_dir
    }

    /// A part whose content of `size` bytes was stored at `path`, inside the temporary
    /// directory `temp_dir` when it is to be removed with the part.
    pub fn from_upload(
        name: Option<String>,
        headers: http::HeaderMap,
        path: PathBuf,
        size: u64,
        temp_dir: Option<PathBuf>,
    ) -> (res: Self)
        ensures
            res.spec_name() == name,
            res.spec_headers() == headers,
            res.spec_path() == path,
            res.spec_size() == size,
            res.spec_temp_dir() == temp_dir,
    {
        FilePart { name, headers, path, size, temp_dir }
    }

    /// The file name.
    pub fn name(&self) -> (res: Option<&str>)
        ensures
            match self.spec_name() {
                Some(n) => res matches Some(s) && s@ == n@,
                None => res is None,
            },
    {
        match &self.name {
            Some(n) => Some(n.as_str()),
            None => None,
        }
    }

    /// The file name, to change in place.
    pub fn name_mut(&mut self) -> (res: Option<&mut String>)
        ensures
            match old(self).spec_name() {
                None => res is None && final(self).spec_name() is None,
                Some(n) => res is Some && *res.unwrap() == n && final(self).spec_name() == Some(*final(res.unwrap())),
            },
            final(self).spec_headers() == old(self).spec_headers(),
            final(self).spec_path() == old(self).spec_path(),
            final(self).spec_size() == old(self).spec_size(),
            final(self).spec_temp_dir() == old(self).spec_temp_dir(),
    {
        self.name.as_mut()
    }

    /// The headers of the part.
    pub fn headers(&self) -> (res: &http::HeaderMap)
        ensures
            *res == self.spec_headers(),
    {
        &self.headers
    }

    /// The headers, to change in place.
    pub fn headers_mut(&mut self) -> (res: &mut http::HeaderMap)
        ensures
            *res == old(self).spec_headers(),
            final(self).spec_headers() == *final(res),
            final(self).spec_name() == old(self).spec_name(),
            final(self).spec_path() == old(self).spec_path(),
            final(self).spec_size() == old(self).spec_size(),
            final(self).spec_temp_dir() == old(self).spec_temp_dir(),
    {
        &mut self.headers
    }

    /// The media type of the part, from its first `content-type` header, when that is
    /// text that spells a media type.
    pub fn content_type(&self) -> (res: Option<mime::Mime>)
        ensures
            res == (match first_content_type_text(self.spec_headers()) {
                Some(t) => match parsed_mime_of(t) {
                    Some(p) => Some(p.2),
                    None => None,
                },
                None => None,
            }),
    {
        match content_type_value(&self.headers) {
            Some(v) => match header_text(&v) {
                Some(t) => match parse_mime(t.as_str()) {
                    Some((_, _, m)) => Some(m),
                    None => None,
                },
                None => None,
            },
            None => None,
        }
    }

    /// Where the content was stored.
    pub fn path(&self) -> (res: &PathBuf)
        ensures
            *res == self.spec_path(),
    {
        &self.path
    }

    /// The size of the content in bytes.
    pub fn size(&self) -> (res: u64)
        ensures
            res == self.spec_size(),
    {
        self.size
    }

    /// The temporary directory to remove with the file, if the file is to be removed.
    pub fn temp_dir(&self) -> (res: Option<&PathBuf>)
        ensures
            match self.spec_temp_dir() {
                Some(d) => res == Some(&d),
                None => res is None,
            },
    {
        match &self.temp_dir {
            Some(d) => Some(d),
            None => None,
        }
    }

    /// Keeps the file on disk when the part goes away; cleaning it up is then the
    /// caller's business.
    pub fn do_not_delete_on_drop(&mut self)
        ensures
            final(self).spec_temp_dir() is None,
            final(self).spec_name() == old(self).spec_name(),
            final(self).spec_headers() == old(self).spec_headers(),
            final(self).spec_path() == old(self).spec_path(),
            final(self).spec_size() == old(self).spec_size(),
    {
        self.temp_dir = None;
    }
}

/// `multimap::MultiMap`, a hash map that keeps every value inserted under a key.
#[verifier::external_type_specification]
#[verifier::external_body]
#[verifier::reject_recursive_types(K)]
#[verifier::reject_recursive_types(V)]
#[verifier::reject_recursive_types(S)]
pub struct ExMultiMap<K, V, S>(multimap::MultiMap<K, V, S>);

/// Text fields by name.
pub type TextFields = multimap::MultiMap<String, String>;

/// Uploaded files by name.
pub type FileParts = multimap::MultiMap<String, FilePart>;

/// What a multimap of text fields holds: for each name, its values in the order they
/// were inserted.
pub uninterp spec fn text_fields_of(m: multimap::MultiMap<String, String>) -> Map<Seq<char>, Seq<Seq<char>>>;

/// What a multimap of uploaded files holds: for each name, its parts in the order they
/// were inserted.
pub uninterp spec fn file_parts_of(m: multimap::MultiMap<String, FilePart>) -> Map<Seq<char>, Seq<FilePart>>;

/// `m` with `v` added after the values already under `k`.
pub open spec fn appended<V>(m: Map<Seq<char>, Seq<V>>, k: Seq<char>, v: V) -> Map<Seq<char>, Seq<V>> {
    if m.contains_key(k) {
        m.insert(k, m[k].push(v))
    } else {
        m.insert(k, seq![v])
    }
}

/// Name-value pairs gathered under their names, each name's values in order.
pub open spec fn grouped(pairs: Seq<(Seq<char>, Seq<char>)>) -> Map<Seq<char>, Seq<Seq<char>>>
    decreases pairs.len(),
{
    if pairs.len() == 0 {
        Map::empty()
    } else {
        appended(grouped(pairs.drop_last()), pairs.last().0, pairs.last().1)
    }
}

/// The values of the pairs named `n`, in the order of the pairs.
pub open spec fn values_named(pairs: Seq<(Seq<char>, Seq<char>)>, n: Seq<char>) -> Seq<Seq<char>> {
    pairs.filter(|p: (Seq<char>, Seq<char>)| p.0 == n).map_values(|p: (Seq<char>, Seq<char>)| p.1)
}

/// Gathering pairs by name keeps every pair, whatever its value: a name is present
/// exactly when some pair has it, and it holds the values of the pairs with that name,
/// in order.
pub proof fn lemma_grouped_values(pairs: Seq<(Seq<char>, Seq<char>)>)
    ensures
        forall|n: Seq<char>| #[trigger] grouped(pairs).contains_key(n) <==> values_named(pairs, n).len() > 0,
        forall|n: Seq<char>| #[trigger] grouped(pairs).contains_key(n) ==> grouped(pairs)[n] == values_named(pairs, n),
    decreases pairs.len(),
{
    if pairs.len() > 0 {
        let d = pairs.drop_last();
        let last = pairs.last();
        lemma_grouped_values(d);
        assert(grouped(pairs) == appended(grouped(d), last.0, last.1));
        assert forall|n: Seq<char>| #[trigger] grouped(pairs).contains_key(n) <==> values_named(pairs, n).len() > 0 by {
            lemma_values_named_step(pairs, n);
            assert(grouped(d).contains_key(n) <==> values_named(d, n).len() > 0);
        }
        assert forall|n: Seq<char>| #[trigger] grouped(pairs).contains_key(n) implies grouped(pairs)[n] == values_named(pairs, n) by {
            lemma_values_named_step(pairs, n);
            assert(grouped(d).contains_key(n) <==> values_named(d, n).len() > 0);
            if grouped(d).contains_key(n) {
                assert(grouped(d)[n] == values_named(d, n));
            }
            if n == last.0 && !grouped(d).contains_key(n) {
                assert(values_named(d, n).len() == 0);
                assert(values_named(d, n).push(last.1) =~= seq![last.1]);
            }
        }
    } else {
        assert forall|n: Seq<char>| #[trigger] grouped(pairs).contains_key(n) <==> values_named(pairs, n).len() > 0 by {
            reveal(Seq::filter);
        }
    }
}

/// The values named `n` of pairs are those of all but the last, then the last's when it
/// is named `n`.
proof fn lemma_values_named_step(pairs: Seq<(Seq<char>, Seq<char>)>, n: Seq<char>)
    requires
        pairs.len() > 0,
    ensures
        values_named(pairs, n) == (if pairs.last().0 == n {
            values_named(pairs.drop_last(), n).push(pairs.last().1)
        } else {
            values_named(pairs.drop_last(), n)
        }),
{
    reveal(Seq::filter);
    let pred = |p: (Seq<char>, Seq<char>)| p.0 == n;
    let f = |p: (Seq<char>, Seq<char>)| p.1;
    let sub = pairs.drop_last().filter(pred);
    if pairs.last().0 == n {
        assert(pairs.filter(pred) == sub.push(pairs.last()));
        assert(sub.push(pairs.last()).map_values(f) =~= sub.map_values(f).push(pairs.last().1));
    } else {
        assert(pairs.filter(pred) == sub);
    }
}

/// `multimap::MultiMap::new` for text fields: an empty multimap.
#[verifier::external_body]
fn new_text_fields() -> (m: TextFields)
    ensures
        text_fields_of(m).dom().is_empty(),
{
    multimap::MultiMap::new()
}

/// `multimap::MultiMap::new` for files: an empty multimap.
#[verifier::external_body]
fn new_file_parts() -> (m: FileParts)
    ensures
        file_parts_of(m).dom().is_empty(),
{
    multimap::MultiMap::new()
}

/// `multimap::MultiMap::insert` for text fields: the value is pushed onto the vector
/// under its name, which is made when the name is new.
#[verifier::external_body]
fn insert_text_field(m: &mut multimap::MultiMap<String, String>, k: String, v: String)
    ensures
        text_fields_of(*final(m)) == appended(text_fields_of(*old(m)), k@, v@),
{
    m.insert(k, v)
}

/// `multimap::MultiMap::insert` for files: the part is pushed onto the vector under
/// its name, which is made when the name is new.
#[verifier::external_body]
fn insert_file_part(m: &mut multimap::MultiMap<String, FilePart>, k: String, v: FilePart)
    ensures
        file_parts_of(*final(m)) == appended(file_parts_of(*old(m)), k@, v),
{
    m.insert(k, v)
}

/// The text fields and uploaded files of a form.
#[derive(Debug)]
pub struct FormData {
    /// Parts without a file: name and text.
    pub fields: multimap::MultiMap<String, String>,
    /// Parts with a file: name and the stored upload.
    pub files: multimap::MultiMap<String, FilePart>,
}

impl FormData {
    /// An empty form.
    pub fn new() -> (res: FormData)
        ensures
            text_fields_of(res.fields).dom().is_empty(),
            file_parts_of(res.files).dom().is_empty(),
    {
        FormData { fields: new_text_fields(), files: new_file_parts() }
    }

    /// The form that an `application/x-www-form-urlencoded` body holds: its pairs as
    /// text fields, and no files.
    pub fn from_urlencoded(body: &[u8]) -> (res: FormData)
        ensures
            text_fields_of(res.fields) == grouped(urlencoded_pairs_of(body@)),
            file_parts_of(res.files).dom().is_empty(),
            forall|n: Seq<char>| #[trigger] text_fields_of(res.fields).contains_key(n)
                <==> values_named(urlencoded_pairs_of(body@), n).len() > 0,
            forall|n: Seq<char>| #[trigger] text_fields_of(res.fields).contains_key(n)
                ==> text_fields_of(res.fields)[n] == values_named(urlencoded_pairs_of(body@), n),
    {
        proof {
            lemma_grouped_values(urlencoded_pairs_of(body@));
        }
        let pairs = parse_urlencoded(body);
        let ghost view = pairs@.map_values(|p: (String, String)| (p.0@, p.1@));
        let mut form = FormData::new();
        let mut k: usize = 0;
        while k < pairs.len()
            invariant
                k <= pairs@.len(),
                view == pairs@.map_values(|p: (String, String)| (p.0@, p.1@)),
                text_fields_of(form.fields) == grouped(view.take(k as int)),
                file_parts_of(form.files).dom().is_empty(),
            decreases pairs@.len() - k,
        {
            let name = pairs[k].0.clone();
            let value = pairs[k].1.clone();
            assert(view.take(k + 1).drop_last() =~= view.take(k as int));
            insert_text_field(&mut form.fields, name, value);
            k = k + 1;
        }
        assert(view.take(pairs@.len() as int) =~= view);
        form
    }

    /// Adds a text field after those already under its name.
    pub fn add_field(&mut self, name: String, text: String)
        ensures
            text_fields_of(final(self).fields) == appended(text_fields_of(old(self).fields), name@, text@),
            file_parts_of(final(self).files) == file_parts_of(old(self).files),
    {
        insert_text_field(&mut self.fields, name, text);
    }

    /// Adds an uploaded file after those already under its name.
    pub fn add_file(&mut self, name: String, part: FilePart)
        ensures
            file_parts_of(final(self).files) == appended(file_parts_of(old(self).files), name@, part),
            text_fields_of(final(self).fields) == text_fields_of(old(self).fields),
    {
        insert_file_part(&mut self.files, name, part);
    }
}

impl Default for FormData {
    fn default() -> (res: FormData)
        ensures
            text_fields_of(res.fields).dom().is_empty(),
            file_parts_of(res.files).dom().is_empty(),
    {
        FormData::new()
    }
}

/// The name an upload is stored under: the nonce, a dot, and the extension of the
/// client's file name, or `unknown` when there is none.
pub open spec fn upload_name_text(nonce: Seq<char>, file_name: Option<Seq<char>>) -> Seq<char> {
    let ext = match file_name {
        Some(n) => match path_extension_of(n) {
            Some(e) => e,
            None => "unknown"@,
        },
        None => "unknown"@,
    };
    nonce + seq!['.'] + ext
}

/// An upload is stored under the nonce, a dot and the extension of the client's file
/// name, whatever that extension is; under the nonce and `.unknown` only when there is
/// no file name or it has no extension.
pub proof fn lemma_upload_name(nonce: Seq<char>, file_name: Seq<char>)
    ensures
        path_extension_of(file_name) matches Some(e) ==> upload_name_text(nonce, Some(file_name)) == nonce + seq!['.'] + e,
        path_extension_of(file_name) is None ==> upload_name_text(nonce, Some(file_name)) == nonce + ".unknown"@,
        upload_name_text(nonce, None) == nonce + ".unknown"@,
{
    reveal_strlit(".unknown");
    reveal_strlit("unknown");
    assert(nonce + seq!['.'] + "unknown"@ =~= nonce + ".unknown"@);
}

/// The name an upload is stored under.
pub fn upload_file_name(nonce: &str, file_name: Option<&str>) -> (res: String)
    ensures
        res@ == upload_name_text(nonce@, match file_name { Some(n) => Some(n@), None => None }),
        file_name is Some && path_extension_of(file_name.unwrap()@) is Some
            ==> res@ == nonce@ + seq!['.'] + path_extension_of(file_name.unwrap()@)->0,
        file_name is None || path_extension_of(file_name.unwrap()@) is None ==> res@ == nonce@ + ".unknown"@,
{
    proof {
        match file_name {
            Some(n) => lemma_upload_name(nonce@, n@),
            None => lemma_upload_name(nonce@, nonce@),
        }
    }
    let ext = match file_name {
        Some(n) => match file_extension(n) {
            Some(e) => e,
            None => String::from_str("unknown"),
        },
        None => String::from_str("unknown"),
    };
    let mut s = String::from_str(nonce);
    push_char(&mut s, '.');
    s.append(ext.as_str());
    s
}

/// The `n` low bytes of `x`, least significant first.
pub open spec fn le_bytes(x: nat, n: nat) -> Seq<u8>
    decreases n,
{
    if n == 0 {
        Seq::empty()
    } else {
        seq![(x % 256) as u8] + le_bytes(x / 256, (n - 1) as nat)
    }
}

/// The raw bytes of a nonce: the nanoseconds and seconds of the time, little-endian,
/// then the random bytes; or only random bytes when there is no time.
pub open spec fn nonce_layout(time: Option<(u64, u32)>, random: Seq<u8>) -> Seq<u8> {
    match time {
        Some((secs, nanos)) => le_bytes(nanos as nat, 4) + le_bytes(secs as nat, 8) + random,
        None => random,
    }
}

proof fn lemma_le_bytes_len(x: nat, n: nat)
    ensures
        le_bytes(x, n).len() == n,
    decreases n,
{
    if n > 0 {
        lemma_le_bytes_len(x / 256, (n - 1) as nat);
    }
}

/// Appends the `n` low bytes of `x`, least significant first.
fn push_le_bytes(v: &mut Vec<u8>, x: u64, n: usize)
    ensures
        final(v)@ == old(v)@ + le_bytes(x as nat, n as nat),
{
    let mut rest = x;
    let mut k: usize = 0;
    while k < n
        invariant
            k <= n,
            old(v)@ + le_bytes(x as nat, n as nat) == v@ + le_bytes(rest as nat, (n - k) as nat),
        decreases n - k,
    {
        let ghost before = v@;
        v.push((rest % 256) as u8);
        assert(le_bytes(rest as nat, (n - k) as nat) =~= seq![(rest % 256) as u8] + le_bytes((rest / 256) as nat, (n - k - 1) as nat));
        assert(before + le_bytes(rest as nat, (n - k) as nat) =~= v@ + le_bytes((rest / 256) as nat, (n - k - 1) as nat));
        rest = rest / 256;
        k = k + 1;
    }
    assert(le_bytes(rest as nat, 0) =~= Seq::<u8>::empty());
    assert(v@ + Seq::<u8>::empty() =~= v@);
}

/// The raw bytes of a nonce.
pub fn nonce_bytes(time: Option<(u64, u32)>, random: &[u8]) -> (res: Vec<u8>)
    ensures
        res@ == nonce_layout(time, random@),
{
    let mut v: Vec<u8> = Vec::new();
    match time {
        Some((secs, nanos)) => {
            push_le_bytes(&mut v, nanos as u64, 4);
            push_le_bytes(&mut v, secs, 8);
        },
        None => {},
    }
    let mut k: usize = 0;
    let ghost start = v@;
    while k < random.len()
        invariant
            k <= random@.len(),
            v@ == start + random@.subrange(0, k as int),
        decreases random@.len() - k,
    {
        v.push(random[k]);
        k = k + 1;
        assert(v@ =~= start + random@.subrange(0, k as int));
    }
    assert(random@.subrange(0, random@.len() as int) =~= random@);
    assert(start == match time { Some((secs, nanos)) => le_bytes(nanos as nat, 4) + le_bytes(secs as nat, 8), None => Seq::<u8>::empty() });
    assert(v@ =~= nonce_layout(time, random@));
    v
}

/// A fresh nonce of 24 bytes in URL-safe base64: twelve bytes of the current time and
/// twelve random ones, or 24 random ones when the clock reads before the epoch. `None`
/// when the operating system gives no random bytes.
pub fn text_nonce() -> (res: Option<String>)
    ensures
        res matches Some(s) ==> exists|time: Option<(u64, u32)>, random: Seq<u8>| {
            &&& random.len() == (if time is Some { 12int } else { 24int })
            &&& s@ == base64_url_of(nonce_layout(time, random))
        },
        res matches Some(s) ==> s@.len() == 32,
{
    let time = unix_time_now();
    let n: usize = if time.is_some() { 12 } else { 24 };
    let random = os_random_bytes(n)?;
    let raw = nonce_bytes(time, random.as_slice());
    let s = base64_url(raw.as_slice());
    assert(random@.len() == (if time is Some { 12int } else { 24int }));
    proof {
        lemma_le_bytes_len(0, 4);
        lemma_le_bytes_len(0, 8);
        match time {
            Some((secs, nanos)) => {
                lemma_le_bytes_len(nanos as nat, 4);
                lemma_le_bytes_len(secs as nat, 8);
            },
            None => {},
        }
        lemma_base64_url_len(raw@);
    }
    Some(s)
}

} // verus!
