use salvo_worker::finder::{
    all_methods_vec, contains_method, CookieFinder, FormFinder, HeaderFinder, JwtTokenFinder, Method, QueryFinder,
    TokenSource,
};

fn request(method: Method) -> TokenSource {
    TokenSource { method, headers: Vec::new(), queries: Vec::new(), form: Vec::new(), cookies: Vec::new() }
}

fn header(name: &str, value: &[u8]) -> (String, Vec<u8>) {
    (name.to_string(), value.to_vec())
}

fn pair(name: &str, value: &str) -> (String, String) {
    (name.to_string(), value.to_string())
}

#[test]
fn header_finder_defaults() {
    let f = HeaderFinder::new();
    assert_eq!(f.header_names, vec!["authorization".to_string(), "proxy-authorization".to_string()]);
    assert_eq!(f.cared_methods.len(), 9);
    assert_eq!(all_methods_vec().len(), 9);
}

#[test]
fn bearer_token_from_authorization() {
    let mut req = request(Method::Get);
    req.headers.push(header("authorization", b"Bearer abc.def"));
    assert_eq!(HeaderFinder::new().find_token(&req), Some("abc.def".to_string()));
}

#[test]
fn bearer_token_from_proxy_authorization() {
    let mut req = request(Method::Post);
    req.headers.push(header("authorization", b"Basic xyz"));
    req.headers.push(header("proxy-authorization", b"Bearer tok"));
    assert_eq!(HeaderFinder::new().find_token(&req), Some("tok".to_string()));
}

#[test]
fn bearer_without_space_stops_the_search() {
    let mut req = request(Method::Get);
    req.headers.push(header("authorization", b"Bearer"));
    req.headers.push(header("proxy-authorization", b"Bearer tok"));
    assert_eq!(HeaderFinder::new().find_token(&req), None);
}

#[test]
fn first_header_of_a_name_counts() {
    let mut req = request(Method::Get);
    req.headers.push(header("authorization", b"Token x"));
    req.headers.push(header("authorization", b"Bearer second"));
    assert_eq!(HeaderFinder::new().find_token(&req), None);
}

#[test]
fn unreadable_header_is_skipped() {
    let mut req = request(Method::Get);
    req.headers.push(header("authorization", b"Bearer \xff"));
    req.headers.push(header("proxy-authorization", b"Bearer ok"));
    assert_eq!(HeaderFinder::new().find_token(&req), Some("ok".to_string()));
}

#[test]
fn token_after_first_space() {
    let mut req = request(Method::Get);
    req.headers.push(header("authorization", b"Bearer a b"));
    assert_eq!(HeaderFinder::new().find_token(&req), Some("a b".to_string()));
}

#[test]
fn uncared_method_finds_nothing() {
    let mut req = request(Method::Get);
    req.headers.push(header("authorization", b"Bearer abc"));
    let f = HeaderFinder::new().cared_methods(vec![Method::Post]);
    assert_eq!(f.find_token(&req), None);
    req.method = Method::Extension("PURGE".to_string());
    assert_eq!(HeaderFinder::new().find_token(&req), None);
    let f = HeaderFinder::new().cared_methods(vec![Method::Extension("PURGE".to_string())]);
    assert_eq!(f.find_token(&req), Some("abc".to_string()));
}

#[test]
fn header_names_can_change() {
    let mut req = request(Method::Get);
    req.headers.push(header("x-token", b"Bearer t1"));
    let f = HeaderFinder::new().header_names(vec!["x-token".to_string()]);
    assert_eq!(f.find_token(&req), Some("t1".to_string()));
    let mut g = HeaderFinder::new();
    g.header_names_mut().push("x-token".to_string());
    assert_eq!(g.header_names.len(), 3);
    g.cared_methods_mut().clear();
    assert_eq!(g.find_token(&req), None);
}

#[test]
fn query_form_and_cookie_finders() {
    let mut req = request(Method::Put);
    req.queries.push(pair("jwt", "q1"));
    req.queries.push(pair("jwt", "q2"));
    req.form.push(pair("token", "f1"));
    req.cookies.push(pair("session", "c1"));
    assert_eq!(QueryFinder::new("jwt").find_token(&req), Some("q1".to_string()));
    assert_eq!(QueryFinder::new("other").find_token(&req), None);
    assert_eq!(FormFinder::new("token").find_token(&req), Some("f1".to_string()));
    assert_eq!(CookieFinder::new("session").find_token(&req), Some("c1".to_string()));
    assert_eq!(CookieFinder::new("session").cared_methods(vec![Method::Get]).find_token(&req), None);
    let mut q = QueryFinder::new("jwt");
    q.cared_methods_mut().retain(|m| !matches!(m, Method::Put));
    assert_eq!(q.find_token(&req), None);
    let mut f = FormFinder::new("token");
    assert_eq!(f.cared_methods_mut().len(), 9);
    let mut c = CookieFinder::new("session");
    assert_eq!(c.cared_methods_mut().len(), 9);
    assert_eq!(c.cookie_name, "session");
}

#[test]
fn method_membership_by_name() {
    let methods = vec![Method::Get, Method::Extension("PATCH".to_string())];
    assert!(contains_method(&methods, &Method::Patch));
    assert!(contains_method(&methods, &Method::Get));
    assert!(!contains_method(&methods, &Method::Head));
    assert_eq!(Method::Options.as_str(), "OPTIONS");
}
