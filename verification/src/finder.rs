//! Finding a JSON web token in a request: in a header, a query parameter, a form field
//! or a cookie, each only for the request methods that a finder cares about.
use vstd::prelude::*;
use crate::text::{has_prefix, push_char, same_text, starts_with};

verus! {

/// A request method.
#[derive(Debug, Clone)]
pub enum Method {
    /// `OPTIONS`
    Options,
    /// `GET`
    Get,
    /// `POST`
    Post,
    /// `PUT`
    Put,
    /// `DELETE`
    Delete,
    /// `HEAD`
    Head,
    /// `TRACE`
    Trace,
    /// `CONNECT`
    Connect,
    /// `PATCH`
    Patch,
    /// Any other method, by its name.
    Extension(String),
}

impl Method {
    /// The method's name; two methods are the same when their names are.
    pub open spec fn name(self) -> Seq<char> {
        match self {
            Method::Options => "OPTIONS"@,
            Method::Get => "GET"@,
            Method::Post => "POST"@,
            Method::Put => "PUT"@,
            Method::Delete => "DELETE"@,
            Method::Head => "HEAD"@,
            Method::Trace => "TRACE"@,
            Method::Connect => "CONNECT"@,
            Method::Patch => "PATCH"@,
            Method::Extension(s) => s@,
        }
    }

    /// The method's name.
    pub fn as_str(&self) -> (res: &str)
        ensures
            res@ == self.name(),
    {
        match self {
            Method::Options => "OPTIONS",
            Method::Get => "GET",
            Method::Post => "POST",
            Method::Put => "PUT",
            Method::Delete => "DELETE",
            Method::Head => "HEAD",
            Method::Trace => "TRACE",
            Method::Connect => "CONNECT",
            Method::Patch => "PATCH",
            Method::Extension(s) => s.as_str(),
        }
    }
}

/// Some method of `methods` has the name of `m`.
pub open spec fn lists_method(methods: Seq<Method>, m: Method) -> bool {
    exists|i: int| 0 <= i < methods.len() && #[trigger] methods[i].name() == m.name()
}

/// Whether `methods` holds `m`.
pub fn contains_method(methods: &Vec<Method>, m: &Method) -> (res: bool)
    ensures
        res == lists_method(methods@, *m),
{
    let mut k: usize = 0;
    while k < methods.len()
        invariant
            k <= methods@.len(),
            forall|i: int| 0 <= i < k ==> #[trigger] methods@[i].name() != m.name(),
        decreases methods@.len() - k,
    {
        if same_text(methods[k].as_str(), m.as_str()) {
            return true;
        }
        k = k + 1;
    }
    false
}

/// The methods that finders care about unless told otherwise.
pub open spec fn all_methods() -> Seq<Method> {
    seq![
        Method::Get,
        Method::Post,
        Method::Put,
        Method::Delete,
        Method::Head,
        Method::Options,
        Method::Connect,
        Method::Patch,
        Method::Trace,
    ]
}

/// The nine standard methods.
pub fn all_methods_vec() -> (res: Vec<Method>)
    ensures
        res@ == all_methods(),
{
    let mut v = Vec::new();
    v.push(Method::Get);
    v.push(Method::Post);
    v.push(Method::Put);
    v.push(Method::Delete);
    v.push(Method::Head);
    v.push(Method::Options);
    v.push(Method::Connect);
    v.push(Method::Patch);
    v.push(Method::Trace);
    assert(v@ =~= all_methods());
    v
}

/// What a finder can read of a request.
pub struct TokenSource {
    /// The request method.
    pub method: Method,
    /// The headers in order, by lower-case name and raw value.
    pub headers: Vec<(String, Vec<u8>)>,
    /// The query parameters in order.
    pub queries: Vec<(String, String)>,
    /// The form fields in order.
    pub form: Vec<(String, String)>,
    /// The cookies, by name and value.
    pub cookies: Vec<(String, String)>,
}

/// Header names and raw values.
pub open spec fn header_view(h: Seq<(String, Vec<u8>)>) -> Seq<(Seq<char>, Seq<u8>)> {
    h.map_values(|p: (String, Vec<u8>)| (p.0@, p.1@))
}

/// Names and text values.
pub open spec fn pair_view(h: Seq<(String, String)>) -> Seq<(Seq<char>, Seq<char>)> {
    h.map_values(|p: (String, String)| (p.0@, p.1@))
}

/// The value of the first pair named `name`.
pub open spec fn first_value<V>(pairs: Seq<(Seq<char>, V)>, name: Seq<char>) -> Option<V>
    decreases pairs.len(),
{
    if pairs.len() == 0 {
        None
    } else if pairs[0].0 == name {
        Some(pairs[0].1)
    } else {
        first_value(pairs.drop_first(), name)
    }
}

/// Every byte is a visible ASCII character or a tab: the header values that read as text.
pub open spec fn visible_ascii(v: Seq<u8>) -> bool {
    forall|i: int| 0 <= i < v.len() ==> (v[i] == 9 || (32 <= #[trigger] v[i] && v[i] < 127))
}

/// The characters of ASCII bytes.
pub open spec fn ascii_text(v: Seq<u8>) -> Seq<char> {
    v.map_values(|b: u8| b as char)
}

/// What follows the first space of `t`, if `t` has a space.
pub open spec fn after_first_space(t: Seq<char>) -> Option<Seq<char>>
    decreases t.len(),
{
    if t.len() == 0 {
        None
    } else if t[0] == ' ' {
        Some(t.drop_first())
    } else {
        after_first_space(t.drop_first())
    }
}

/// The bearer token found by looking at the headers `names` in order: the first of them
/// present with a text value that starts with `Bearer` decides, giving what follows the
/// first space of the value, or nothing when the value has no space.
pub open spec fn bearer_token(names: Seq<Seq<char>>, headers: Seq<(Seq<char>, Seq<u8>)>) -> Option<Seq<char>>
    decreases names.len(),
{
    if names.len() == 0 {
        None
    } else {
        let found = first_value(headers, names[0]);
        if found is Some && visible_ascii(found->0) && has_prefix(ascii_text(found->0), "Bearer"@) {
            after_first_space(ascii_text(found->0))
        } else {
            bearer_token(names.drop_first(), headers)
        }
    }
}

/// The first header named `name`, with its value.
fn header_value<'a>(headers: &'a Vec<(String, Vec<u8>)>, name: &String) -> (res: Option<&'a Vec<u8>>)
    ensures
        res matches Some(v) ==> first_value(header_view(headers@), name@) == Some(v@),
        res is None ==> first_value(header_view(headers@), name@) is None,
{
    let ghost all = header_view(headers@);
    let n = headers.len();
    let mut k: usize = 0;
    assert(all.subrange(0, n as int) =~= all);
    while k < n
        invariant
            n == headers@.len(),
            all == header_view(headers@),
            k <= n,
            first_value(all, name@) == first_value(all.subrange(k as int, n as int), name@),
        decreases n - k,
    {
        let ghost rest = all.subrange(k as int, n as int);
        assert(rest[0] == (headers@[k as int].0@, headers@[k as int].1@));
        if same_text(headers[k].0.as_str(), name.as_str()) {
            return Some(&headers[k].1);
        }
        assert(rest.drop_first() =~= all.subrange(k + 1, n as int));
        k = k + 1;
    }
    None
}

/// The value of the first pair named `name`.
pub fn find_value(pairs: &Vec<(String, String)>, name: &str) -> (res: Option<String>)
    ensures
        res matches Some(v) ==> first_value(pair_view(pairs@), name@) == Some(v@),
        res is None ==> first_value(pair_view(pairs@), name@) is None,
{
    let ghost all = pair_view(pairs@);
    let n = pairs.len();
    let mut k: usize = 0;
    assert(all.subrange(0, n as int) =~= all);
    while k < n
        invariant
            n == pairs@.len(),
            all == pair_view(pairs@),
            k <= n,
            first_value(all, name@) == first_value(all.subrange(k as int, n as int), name@),
        decreases n - k,
    {
        let ghost rest = all.subrange(k as int, n as int);
        assert(rest[0] == (pairs@[k as int].0@, pairs@[k as int].1@));
        if same_text(pairs[k].0.as_str(), name) {
            return Some(pairs[k].1.clone());
        }
        assert(rest.drop_first() =~= all.subrange(k + 1, n as int));
        k = k + 1;
    }
    None
}

/// The text of a header value that is visible ASCII.
pub(crate) fn header_text(v: &Vec<u8>) -> (res: Option<String>)
    ensures
        res matches Some(s) ==> visible_ascii(v@) && s@ == ascii_text(v@),
        res is None ==> !visible_ascii(v@),
{
    let mut s = String::new();
    let mut k: usize = 0;
    while k < v.len()
        invariant
            k <= v@.len(),
            forall|i: int| 0 <= i < k ==> (v@[i] == 9 || (32 <= #[trigger] v@[i] && v@[i] < 127)),
            s@ == ascii_text(v@.subrange(0, k as int)),
        decreases v@.len() - k,
    {
        let b = v[k];
        if !(b == 9 || (32 <= b && b < 127)) {
            return None;
        }
        push_char(&mut s, b as char);
        k = k + 1;
        assert(s@ =~= ascii_text(v@.subrange(0, k as int)));
    }
    assert(v@.subrange(0, v@.len() as int) =~= v@);
    Some(s)
}

/// What follows the first space of `t`.
fn split_after_space(t: &str) -> (res: Option<String>)
    ensures
        res matches Some(s) ==> after_first_space(t@) == Some(s@),
        res is None ==> after_first_space(t@) is None,
{
    let n = t.unicode_len();
    let mut k: usize = 0;
    assert(t@.subrange(0, n as int) =~= t@);
    while k < n
        invariant
            n == t@.len(),
            k <= n,
            after_first_space(t@) == after_first_space(t@.subrange(k as int, n as int)),
        decreases n - k,
    {
        let ghost rest = t@.subrange(k as int, n as int);
        if t.get_char(k) == ' ' {
            let s = String::from_str(t.substring_char(k + 1, n));
            assert(rest.drop_first() =~= t@.subrange(k + 1, n as int));
            return Some(s);
        }
        assert(rest.drop_first() =~= t@.subrange(k + 1, n as int));
        k = k + 1;
    }
    None
}

/// Extracts a token from a request.
pub trait JwtTokenFinder {
    /// The token found in `req`, if any.
    fn find_token(&self, req: &TokenSource) -> Option<String>;
}

/// Finds bearer tokens in request headers: by default in `authorization` and then
/// `proxy-authorization`, for every standard method.
#[derive(Debug, Clone)]
pub struct HeaderFinder {
    /// The methods for which the finder looks for a token.
    pub cared_methods: Vec<Method>,
    /// The lower-case names of the headers to look at, in order.
    pub header_names: Vec<String>,
}

impl HeaderFinder {
    /// A finder for the `authorization` and `proxy-authorization` headers.
    pub fn new() -> (res: Self)
        ensures
            res.cared_methods@ == all_methods(),
            res.header_names@.len() == 2,
            res.header_names@[0]@ == "authorization"@,
            res.header_names@[1]@ == "proxy-authorization"@,
    {
        let mut names = Vec::new();
        names.push(String::from_str("authorization"));
        names.push(String::from_str("proxy-authorization"));
        HeaderFinder { cared_methods: all_methods_vec(), header_names: names }
    }

    /// The header names, to change in place.
    pub fn header_names_mut(&mut self) -> (res: &mut Vec<String>)
        ensures
            *res == old(self).header_names,
            final(self).header_names == *final(res),
            final(self).cared_methods == old(self).cared_methods,
    {
        &mut self.header_names
    }

    /// The finder with its header names replaced.
    pub fn header_names(self, header_names: Vec<String>) -> (res: Self)
        ensures
            res.header_names == header_names,
            res.cared_methods == self.cared_methods,
    {
        HeaderFinder { header_names, ..self }
    }

    /// The cared methods, to change in place.
    pub fn cared_methods_mut(&mut self) -> (res: &mut Vec<Method>)
        ensures
            *res == old(self).cared_methods,
            final(self).cared_methods == *final(res),
            final(self).header_names == old(self).header_names,
    {
        &mut self.cared_methods
    }

    /// The finder with its cared methods replaced.
    pub fn cared_methods(self, methods: Vec<Method>) -> (res: Self)
        ensures
            res.cared_methods == methods,
            res.header_names == self.header_names,
    {
        HeaderFinder { cared_methods: methods, ..self }
    }
}

impl JwtTokenFinder for HeaderFinder {
    fn find_token(&self, req: &TokenSource) -> (res: Option<String>)
        ensures
            res matches Some(t) ==> lists_method(self.cared_methods@, req.method)
                && bearer_token(self.header_names@.map_values(|s: String| s@), header_view(req.headers@)) == Some(t@),
            res is None ==> !lists_method(self.cared_methods@, req.method)
                || bearer_token(self.header_names@.map_values(|s: String| s@), header_view(req.headers@)) is None,
    {
        if !contains_method(&self.cared_methods, &req.method) {
            return None;
        }
        let ghost names = self.header_names@.map_values(|s: String| s@);
        let ghost headers = header_view(req.headers@);
        let n = self.header_names.len();
        let mut k: usize = 0;
        assert(names.subrange(0, n as int) =~= names);
        while k < n
            invariant
                n == self.header_names@.len(),
                names == self.header_names@.map_values(|s: String| s@),
                headers == header_view(req.headers@),
                lists_method(self.cared_methods@, req.method),
                k <= n,
                bearer_token(names, headers) == bearer_token(names.subrange(k as int, n as int), headers),
            decreases n - k,
        {
            let ghost rest = names.subrange(k as int, n as int);
            assert(rest[0] == self.header_names@[k as int]@);
            assert(rest.drop_first() =~= names.subrange(k + 1, n as int));
            match header_value(&req.headers, &self.header_names[k]) {
                Some(v) => {
                    if let Some(text) = header_text(v) {
                        if starts_with(text.as_str(), "Bearer") {
                            assert(bearer_token(rest, headers) == after_first_space(ascii_text(v@)));
                            return split_after_space(text.as_str());
                        }
                    }
                },
                None => {},
            }
            k = k + 1;
        }
        None
    }
}


/// Finds tokens in the request's form field named `field_name`, for the cared methods.
#[derive(Debug, Clone)]
pub struct FormFinder {
    /// The methods for which the finder looks for a token.
    pub cared_methods: Vec<Method>,
    /// The name that holds the token.
    pub field_name: String,
}

impl FormFinder {
    /// A finder for `field_name`, for every standard method.
    pub fn new(field_name: &str) -> (res: Self)
        ensures
            res.cared_methods@ == all_methods(),
            res.field_name@ == field_name@,
    {
        FormFinder { cared_methods: all_methods_vec(), field_name: String::from_str(field_name) }
    }

    /// The cared methods, to change in place.
    pub fn cared_methods_mut(&mut self) -> (res: &mut Vec<Method>)
        ensures
            *res == old(self).cared_methods,
            final(self).cared_methods == *final(res),
            final(self).field_name == old(self).field_name,
    {
        &mut self.cared_methods
    }

    /// The finder with its cared methods replaced.
    pub fn cared_methods(self, methods: Vec<Method>) -> (res: Self)
        ensures
            res.cared_methods == methods,
            res.field_name == self.field_name,
    {
        FormFinder { cared_methods: methods, ..self }
    }
}

impl JwtTokenFinder for FormFinder {
    fn find_token(&self, req: &TokenSource) -> (res: Option<String>)
        ensures
            res matches Some(t) ==> lists_method(self.cared_methods@, req.method)
                && first_value(pair_view(req.form@), self.field_name@) == Some(t@),
            res is None ==> !lists_method(self.cared_methods@, req.method)
                || first_value(pair_view(req.form@), self.field_name@) is None,
    {
        if contains_method(&self.cared_methods, &req.method) {
            find_value(&req.form, self.field_name.as_str())
        } else {
            None
        }
    }
}

/// Finds tokens in the request's query parameter named `query_name`, for the cared methods.
#[derive(Debug, Clone)]
pub struct QueryFinder {
    /// The methods for which the finder looks for a token.
    pub cared_methods: Vec<Method>,
    /// The name that holds the token.
    pub query_name: String,
}

impl QueryFinder {
    /// A finder for `query_name`, for every standard method.
    pub fn new(query_name: &str) -> (res: Self)
        ensures
            res.cared_methods@ == all_methods(),
            res.query_name@ == query_name@,
    {
        QueryFinder { cared_methods: all_methods_vec(), query_name: String::from_str(query_name) }
    }

    /// The cared methods, to change in place.
    pub fn cared_methods_mut(&mut self) -> (res: &mut Vec<Method>)
        ensures
            *res == old(self).cared_methods,
            final(self).cared_methods == *final(res),
            final(self).query_name == old(self).query_name,
    {
        &mut self.cared_methods
    }

    /// The finder with its cared methods replaced.
    pub fn cared_methods(self, methods: Vec<Method>) -> (res: Self)
        ensures
            res.cared_methods == methods,
            res.query_name == self.query_name,
    {
        QueryFinder { cared_methods: methods, ..self }
    }
}

impl JwtTokenFinder for QueryFinder {
    fn find_token(&self, req: &TokenSource) -> (res: Option<String>)
        ensures
            res matches Some(t) ==> lists_method(self.cared_methods@, req.method)
                && first_value(pair_view(req.queries@), self.query_name@) == Some(t@),
            res is None ==> !lists_method(self.cared_methods@, req.method)
                || first_value(pair_view(req.queries@), self.query_name@) is None,
    {
        if contains_method(&self.cared_methods, &req.method) {
            find_value(&req.queries, self.query_name.as_str())
        } else {
            None
        }
    }
}

/// Finds tokens in the request's cookie named `cookie_name`, for the cared methods.
#[derive(Debug, Clone)]
pub struct CookieFinder {
    /// The methods for which the finder looks for a token.
    pub cared_methods: Vec<Method>,
    /// The name that holds the token.
    pub cookie_name: String,
}

impl CookieFinder {
    /// A finder for `cookie_name`, for every standard method.
    pub fn new(cookie_name: &str) -> (res: Self)
        ensures
            res.cared_methods@ == all_methods(),
            res.cookie_name@ == cookie_name@,
    {
        CookieFinder { cared_methods: all_methods_vec(), cookie_name: String::from_str(cookie_name) }
    }

    /// The cared methods, to change in place.
    pub fn cared_methods_mut(&mut self) -> (res: &mut Vec<Method>)
        ensures
            *res == old(self).cared_methods,
            final(self).cared_methods == *final(res),
            final(self).cookie_name == old(self).cookie_name,
    {
        &mut self.cared_methods
    }

    /// The finder with its cared methods replaced.
    pub fn cared_methods(self, methods: Vec<Method>) -> (res: Self)
        ensures
            res.cared_methods == methods,
            res.cookie_name == self.cookie_name,
    {
        CookieFinder { cared_methods: methods, ..self }
    }
}

impl JwtTokenFinder for CookieFinder {
    fn find_token(&self, req: &TokenSource) -> (res: Option<String>)
        ensures
            res matches Some(t) ==> lists_method(self.cared_methods@, req.method)
                && first_value(pair_view(req.cookies@), self.cookie_name@) == Some(t@),
            res is None ==> !lists_method(self.cared_methods@, req.method)
                || first_value(pair_view(req.cookies@), self.cookie_name@) is None,
    {
        if contains_method(&self.cared_methods, &req.method) {
            find_value(&req.cookies, self.cookie_name.as_str())
        } else {
            None
        }
    }
}
} // verus!
