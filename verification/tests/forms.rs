use std::path::PathBuf;

use salvo_worker::form::{
    form_kind, nonce_bytes, parse_urlencoded, part_route, text_nonce, upload_file_name, FilePart, FormData, FormKind,
    PartRoute,
};

fn content_type(value: &str) -> http::HeaderMap {
    let mut headers = http::HeaderMap::new();
    headers.insert(http::header::CONTENT_TYPE, http::HeaderValue::from_str(value).unwrap());
    headers
}

#[test]
fn urlencoded_content_type_calls_for_pairs() {
    let v = b"application/x-www-form-urlencoded".to_vec();
    assert!(matches!(form_kind(Some(&v)), FormKind::UrlEncoded));
    let v = b"text/x-www-form-urlencoded; charset=utf-8".to_vec();
    assert!(matches!(form_kind(Some(&v)), FormKind::UrlEncoded));
}

#[test]
fn multipart_content_type_gives_its_boundary() {
    let v = b"multipart/form-data; boundary=ABCDEFG".to_vec();
    match form_kind(Some(&v)) {
        FormKind::Multipart(Some(b)) => assert_eq!(b, "ABCDEFG"),
        other => panic!("unexpected {other:?}"),
    }
    let v = b"multipart/mixed; boundary=X".to_vec();
    assert!(matches!(form_kind(Some(&v)), FormKind::Multipart(None)));
    let v = b"multipart/form-data".to_vec();
    assert!(matches!(form_kind(Some(&v)), FormKind::Multipart(None)));
}

#[test]
fn other_content_types_are_no_form() {
    assert!(matches!(form_kind(None), FormKind::Invalid));
    let v = b"text/plain".to_vec();
    assert!(matches!(form_kind(Some(&v)), FormKind::Invalid));
    let v = b"not a media type".to_vec();
    assert!(matches!(form_kind(Some(&v)), FormKind::Invalid));
    let v = vec![0xffu8, b'a'];
    assert!(matches!(form_kind(Some(&v)), FormKind::Invalid));
}

#[test]
fn urlencoded_pairs_are_decoded_in_order() {
    let pairs = parse_urlencoded(b"a=1&b=x%20y&a=3&c=p+q");
    let expected: Vec<(String, String)> = vec![
        ("a".into(), "1".into()),
        ("b".into(), "x y".into()),
        ("a".into(), "3".into()),
        ("c".into(), "p q".into()),
    ];
    assert_eq!(pairs, expected);
    assert!(parse_urlencoded(b"").is_empty());
}

#[test]
fn form_from_urlencoded_groups_values_by_name() {
    let form = FormData::from_urlencoded(b"a=1&b=2&a=3");
    assert_eq!(form.fields.get_vec("a"), Some(&vec!["1".to_string(), "3".to_string()]));
    assert_eq!(form.fields.get_vec("b"), Some(&vec!["2".to_string()]));
    assert_eq!(form.fields.get_vec("c"), None);
    assert!(form.files.is_empty());
}

#[test]
fn form_collects_fields_and_files() {
    let mut form = FormData::default();
    assert!(form.fields.is_empty() && form.files.is_empty());
    form.add_field("x".to_string(), "1".to_string());
    form.add_field("x".to_string(), "2".to_string());
    let part = FilePart::from_upload(
        Some("a.txt".to_string()),
        content_type("text/plain"),
        PathBuf::from("/tmp/up/n.txt"),
        3,
        None,
    );
    form.add_file("doc".to_string(), part);
    assert_eq!(form.fields.get_vec("x"), Some(&vec!["1".to_string(), "2".to_string()]));
    assert_eq!(form.files.get_vec("doc").map(|v| v.len()), Some(1));
    assert_eq!(form.files.get("doc").unwrap().size(), 3);
    assert!(FormData::new().fields.is_empty());
}

#[test]
fn parts_with_a_file_name_are_files() {
    assert!(matches!(part_route(Some("doc"), Some("a.png")), PartRoute::File(n) if n == "doc"));
    assert!(matches!(part_route(Some("doc"), Some("")), PartRoute::File(n) if n == "doc"));
    assert!(matches!(part_route(Some("x"), None), PartRoute::Field(n) if n == "x"));
    assert!(matches!(part_route(None, Some("a.png")), PartRoute::Skip));
    assert!(matches!(part_route(None, None), PartRoute::Skip));
}

#[test]
fn file_part_accessors() {
    let mut part = FilePart::from_upload(
        Some("photo.png".to_string()),
        content_type("image/png"),
        PathBuf::from("/tmp/up/n.png"),
        42,
        Some(PathBuf::from("/tmp/up")),
    );
    assert_eq!(part.name(), Some("photo.png"));
    assert_eq!(part.size(), 42);
    assert_eq!(part.path(), &PathBuf::from("/tmp/up/n.png"));
    assert_eq!(part.temp_dir(), Some(&PathBuf::from("/tmp/up")));
    assert_eq!(part.content_type(), Some(mime::IMAGE_PNG));
    assert_eq!(part.headers().len(), 1);

    if let Some(name) = part.name_mut() {
        name.push_str(".bak");
    }
    assert_eq!(part.name(), Some("photo.png.bak"));

    part.headers_mut().insert(http::header::CONTENT_TYPE, http::HeaderValue::from_static("image/jpeg"));
    assert_eq!(part.content_type(), Some(mime::IMAGE_JPEG));
    assert_eq!((part.name(), part.size()), (Some("photo.png.bak"), 42));
    part.headers_mut().insert(http::header::CONTENT_TYPE, http::HeaderValue::from_static("not a type"));
    assert_eq!(part.content_type(), None);

    part.do_not_delete_on_drop();
    assert_eq!(part.temp_dir(), None);
    assert_eq!(part.size(), 42);

    let mut nameless = FilePart::from_upload(None, http::HeaderMap::new(), PathBuf::from("x"), 0, None);
    assert_eq!(nameless.name(), None);
    assert!(nameless.name_mut().is_none());
    assert_eq!(nameless.content_type(), None);
}

#[test]
fn upload_names_keep_the_extension() {
    assert_eq!(upload_file_name("abc", Some("photo.png")), "abc.png");
    assert_eq!(upload_file_name("abc", Some("archive.tar.gz")), "abc.gz");
    assert_eq!(upload_file_name("abc", Some("noext")), "abc.unknown");
    assert_eq!(upload_file_name("abc", Some(".bashrc")), "abc.unknown");
    assert_eq!(upload_file_name("abc", None), "abc.unknown");
}

#[test]
fn nonce_bytes_lay_out_time_then_random() {
    let random = [9u8; 12];
    let raw = nonce_bytes(Some((0x0102, 0x0304)), &random);
    let mut expected = vec![0x04, 0x03, 0, 0, 0x02, 0x01, 0, 0, 0, 0, 0, 0];
    expected.extend_from_slice(&random);
    assert_eq!(raw, expected);
    assert_eq!(nonce_bytes(None, &[1, 2, 3]), vec![1, 2, 3]);
}

#[test]
fn text_nonces_are_url_safe_base64_of_24_bytes() {
    let a = text_nonce().unwrap();
    let b = text_nonce().unwrap();
    assert_eq!(a.len(), 32);
    assert!(a.chars().all(|c| c.is_ascii_alphanumeric() || c == '-' || c == '_'));
    assert_ne!(a, b);
}
