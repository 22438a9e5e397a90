use salvo_worker::service::platform_headers;
use salvo_worker::catch::{bad_request, not_found};
use salvo_worker::lark::{notice_text, reply_result, LarkNoticeError};
use salvo_worker::middleware::{elapsed_header_name, logged_status, BodyState, Elapsed, Logger};
use salvo_worker::page::PageData;
use salvo_worker::response::{default_created, MessageResponse};
use salvo_worker::service::{request_scheme, response_status, visitor_scheme, Scheme};

fn is_utc_stamp(s: &str) -> bool {
    s.len() == 24 && &s[10..11] == "T" && s.ends_with('Z')
}

#[test]
fn success_messages() {
    let m: MessageResponse<u32> = MessageResponse::success();
    assert_eq!((m.code, m.message.as_str(), m.data), (0, "success", None));
    assert!(is_utc_stamp(&m.created));
    let d = MessageResponse::data(123456u32);
    assert_eq!((d.code, d.message.as_str(), d.data), (0, "success", Some(123456)));
    let n = MessageResponse::none_success();
    assert_eq!((n.code, n.message.as_str(), n.data), (0, "success", None));
    assert!(is_utc_stamp(&default_created()));
}

#[test]
fn failure_messages() {
    let m: MessageResponse<u8> = MessageResponse::failed(1, "System error".to_string());
    assert_eq!((m.code, m.message.as_str(), m.data), (1, "System error", None));
    let b: MessageResponse<u8> = MessageResponse::bad_request("missing id".to_string());
    assert_eq!((b.code, b.message.as_str()), (400, "missing id"));
    let nf = MessageResponse::none_failed(7, "x".to_string());
    assert_eq!((nf.code, nf.message.as_str(), nf.data), (7, "x", None));
    let nb = MessageResponse::none_bad_request("y".to_string());
    assert_eq!((nb.code, nb.message.as_str()), (400, "y"));
    assert!(is_utc_stamp(&nb.created));
}

#[derive(Debug, PartialEq)]
struct Wide(u64);
impl From<u32> for Wide {
    fn from(v: u32) -> Self {
        Wide(v as u64 * 2)
    }
}

#[derive(Debug, PartialEq)]
struct Small(u8);
impl TryFrom<u32> for Small {
    type Error = String;
    fn try_from(v: u32) -> Result<Self, String> {
        u8::try_from(v).map(Small).map_err(|_| format!("too big: {v}"))
    }
}

#[test]
fn page_conversions() {
    let p = PageData { total: 40, page: 2, size: 3, data: vec![1u32, 2, 3] };
    let q: PageData<Wide> = p.clone().into();
    assert_eq!((q.total, q.page, q.size), (40, 2, 3));
    assert_eq!(q.data, vec![Wide(2), Wide(4), Wide(6)]);
    let r: Result<PageData<Small>, String> = p.try_into();
    assert_eq!(r.unwrap().data, vec![Small(1), Small(2), Small(3)]);
    let bad = PageData { total: 1, page: 1, size: 10, data: vec![1u32, 300, 400] };
    let r: Result<PageData<Small>, String> = bad.try_into();
    assert_eq!(r.unwrap_err(), "too big: 300");
}

#[test]
fn logged_statuses() {
    assert_eq!(logged_status(Some(201), &BodyState::Empty), 201);
    assert_eq!(logged_status(None, &BodyState::Empty), 404);
    assert_eq!(logged_status(None, &BodyState::Error(503)), 503);
    assert_eq!(logged_status(None, &BodyState::Content), 200);
    let _ = (Logger::new(), Elapsed::new());
    assert_eq!(elapsed_header_name(), "X-ELAPSED-MS");
}

#[test]
fn schemes() {
    assert!(matches!(visitor_scheme(&br#"{"scheme":"https"}"#.to_vec()), Some(Scheme::Https)));
    assert!(matches!(visitor_scheme(&br#"{"scheme":"http"}"#.to_vec()), Some(Scheme::Http)));
    assert!(visitor_scheme(&br#"{"scheme": "https"}"#.to_vec()).is_none());
    let https = br#"{"scheme":"https"}"#.to_vec();
    assert!(matches!(request_scheme(None, Some(&https)), Scheme::Https));
    assert!(matches!(request_scheme(Some(Scheme::Http), Some(&https)), Scheme::Http));
    assert!(matches!(request_scheme(None, None), Scheme::Http));
    assert!(matches!(request_scheme(Some(Scheme::Other("ws".into())), None), Scheme::Other(ref s) if s == "ws"));
    assert_eq!(response_status(None), 200);
    assert_eq!(response_status(Some(302)), 302);
}

#[test]
fn catcher_messages() {
    let m = bad_request("GET", "/users", Some(400), Some("bad id")).unwrap();
    assert_eq!((m.code, m.message.as_str()), (400, "GET /users bad id"));
    assert!(bad_request("GET", "/users", Some(400), None).is_none());
    assert!(bad_request("GET", "/users", Some(500), Some("x")).is_none());
    assert!(bad_request("GET", "/users", None, Some("x")).is_none());
    let n = not_found("POST", "/nowhere", Some(404)).unwrap();
    assert_eq!((n.code, n.message.as_str()), (404, "POST /nowhere"));
    assert!(not_found("POST", "/nowhere", Some(200)).is_none());
    assert!(not_found("POST", "/nowhere", None).is_none());
}

#[test]
fn lark_notices() {
    let t = notice_text("disk full");
    assert!(t.starts_with("disk full\n"));
    assert_eq!(t.len(), "disk full\n".len() + 19);
    assert!(reply_result(0, "ok").is_ok());
    match reply_result(9499, "Bad Request") {
        Err(LarkNoticeError::Lark(m)) => assert_eq!(m, "lark notice service failed: Bad Request"),
        _ => panic!("expected a refusal"),
    }
}

#[test]
fn platform_headers_keep_first_values() {
    let h: Vec<(Option<String>, Vec<u8>)> = vec![
        (Some("a".into()), b"1".to_vec()),
        (None, b"2".to_vec()),
        (Some("b".into()), b"x y".to_vec()),
    ];
    let expected: Vec<(String, String)> = vec![("a".into(), "1".into()), ("b".into(), "x y".into())];
    assert_eq!(platform_headers(&h), Some(expected));
    let bad: Vec<(Option<String>, Vec<u8>)> = vec![(Some("a".into()), vec![0xff])];
    assert_eq!(platform_headers(&bad), None);
    let later_bad: Vec<(Option<String>, Vec<u8>)> = vec![(Some("a".into()), b"1".to_vec()), (None, vec![0xff])];
    assert_eq!(platform_headers(&later_bad).map(|v| v.len()), Some(1));
    assert_eq!(platform_headers(&Vec::new()), Some(Vec::new()));
}
