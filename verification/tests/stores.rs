use std::time::Duration;

use salvo_worker::cache::{Builder, CacheError, CachedBody, CachedEntry, StoredEntry, WorkerStore};
use salvo_worker::rate_limiter::{guard_or_reference, WorkerStore as RateStore};

#[test]
fn store_without_expiry() {
    let s = WorkerStore::new("KV".to_string());
    assert_eq!(s.key(), "KV");
    assert_eq!(s.live(), None);
}

#[test]
fn builder_sets_time_to_live() {
    let b: Builder = WorkerStore::builder("KV_TEST".to_string());
    let s = b.time_to_live(Duration::from_secs(60)).build();
    assert_eq!(s.key(), "KV_TEST");
    assert_eq!(s.live(), Some(Duration::from_secs(60)));
    let plain = WorkerStore::builder("KV_TEST".to_string()).build();
    assert_eq!(plain.live(), None);
    let twice = WorkerStore::builder("K".to_string())
        .time_to_live(Duration::from_secs(60))
        .time_to_live(Duration::from_secs(120))
        .build();
    assert_eq!(twice.live(), Some(Duration::from_secs(120)));
}

fn entry(status: Option<u16>, headers: &[(&str, &[u8])], body: CachedBody) -> CachedEntry {
    CachedEntry {
        status,
        headers: headers.iter().map(|(n, v)| (n.to_string(), v.to_vec())).collect(),
        body,
    }
}

#[test]
fn entry_round_trip() {
    let e = entry(
        Some(200),
        &[("content-type", b"text/plain"), ("x-a", b"1\t2")],
        CachedBody::Chunks(vec![b"ab".to_vec(), b"c".to_vec()]),
    );
    let stored = StoredEntry::from_cached(e).unwrap();
    assert_eq!(stored.status, Some(200));
    assert_eq!(stored.headers, vec![("content-type".to_string(), "text/plain".to_string()), ("x-a".to_string(), "1\t2".to_string())]);
    let back = CachedEntry::from_stored(stored).unwrap();
    assert_eq!(back.status, Some(200));
    assert_eq!(back.headers, vec![("content-type".to_string(), b"text/plain".to_vec()), ("x-a".to_string(), b"1\t2".to_vec())]);
    assert!(matches!(back.body, CachedBody::Chunks(ref c) if c == &vec![b"ab".to_vec(), b"c".to_vec()]));
}

#[test]
fn unreadable_value_is_not_written() {
    let e = entry(None, &[("x-bin", b"\x01")], CachedBody::Empty);
    assert_eq!(StoredEntry::from_cached(e).unwrap_err(), CacheError::UnreadableHeaderValue);
}

#[test]
fn bad_status_is_not_read() {
    let s = StoredEntry { status: Some(99), headers: Vec::new(), body: CachedBody::Empty };
    assert_eq!(CachedEntry::from_stored(s).unwrap_err(), CacheError::InvalidStatus);
    let s = StoredEntry { status: Some(1000), headers: Vec::new(), body: CachedBody::Empty };
    assert_eq!(CachedEntry::from_stored(s).unwrap_err(), CacheError::InvalidStatus);
    let s = StoredEntry { status: Some(999), headers: Vec::new(), body: CachedBody::Once(b"x".to_vec()) };
    assert!(CachedEntry::from_stored(s).is_ok());
}

#[test]
fn bad_header_is_not_read() {
    let s = StoredEntry { status: None, headers: vec![("bad name".to_string(), "v".to_string())], body: CachedBody::Empty };
    assert_eq!(CachedEntry::from_stored(s).unwrap_err(), CacheError::InvalidHeaderName);
    let s = StoredEntry { status: None, headers: vec![("x".to_string(), "a\nb".to_string())], body: CachedBody::Empty };
    assert_eq!(CachedEntry::from_stored(s).unwrap_err(), CacheError::InvalidHeaderValue);
}

#[test]
fn stored_names_are_normalized_and_merged() {
    let s = StoredEntry {
        status: None,
        headers: vec![
            ("Set-Cookie".to_string(), "a=1".to_string()),
            ("x-other".to_string(), "o".to_string()),
            ("set-cookie".to_string(), "b=2".to_string()),
        ],
        body: CachedBody::Empty,
    };
    let e = CachedEntry::from_stored(s).unwrap();
    // The later value of a name replaces the earlier one, in its place.
    assert_eq!(e.headers, vec![("set-cookie".to_string(), b"b=2".to_vec()), ("x-other".to_string(), b"o".to_vec())]);
}

#[test]
fn rate_store_and_guards() {
    let s: RateStore<String, u32> = RateStore::new("RL".to_string());
    assert_eq!(s.key(), "RL");
    assert_eq!(guard_or_reference(Some(5u32), &9), 5);
    assert_eq!(guard_or_reference(None, &9u32), 9);
}
