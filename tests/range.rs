use s3ite::{resolve_range, serve_object, ByteRange, ErrorCode, KeyValue};

fn object(bytes: &[u8]) -> KeyValue {
    KeyValue {
        key: "k".to_string(),
        value: Some(bytes.to_vec()),
        size: bytes.len() as u64,
        metadata: None,
        last_modified: "2024-01-01T00:00:00Z".to_string(),
        md5: Some("etag".to_string()),
    }
}

#[test]
fn suffix_of_zero_serves_nothing() {
    let served = serve_object(object(b"hello"), Some(ByteRange::Suffix { length: 0 })).unwrap();
    assert!(served.body.is_empty());
    assert_eq!(served.content_length, 0);
    assert_eq!(served.e_tag.as_deref(), Some("etag"));
}

#[test]
fn open_range_from_zero_serves_everything() {
    let served = serve_object(object(b"hello"), Some(ByteRange::Int { first: 0, last: None })).unwrap();
    assert_eq!(served.body, b"hello");
    assert_eq!(served.content_length, 5);
    let empty = serve_object(object(b""), Some(ByteRange::Int { first: 0, last: None })).unwrap();
    assert!(empty.body.is_empty());
}

#[test]
fn inclusive_and_suffix_ranges() {
    let served = serve_object(object(b"hello world"), Some(ByteRange::Int { first: 2, last: Some(4) })).unwrap();
    assert_eq!(served.body, b"llo");
    assert_eq!(served.content_length, 3);
    let tail = serve_object(object(b"hello world"), Some(ByteRange::Suffix { length: 5 })).unwrap();
    assert_eq!(tail.body, b"world");
    let clamped = serve_object(object(b"abc"), Some(ByteRange::Suffix { length: 10 })).unwrap();
    assert_eq!(clamped.body, b"abc");
    let past = serve_object(object(b"abc"), Some(ByteRange::Int { first: 1, last: Some(99) })).unwrap();
    assert_eq!(past.body, b"bc");
}

#[test]
fn out_of_range_is_refused() {
    let err = serve_object(object(b"abc"), Some(ByteRange::Int { first: 3, last: None })).unwrap_err();
    assert_eq!(err.code(), ErrorCode::InvalidRange);
    let err = resolve_range(Some(ByteRange::Int { first: 2, last: Some(1) }), 10).unwrap_err();
    assert_eq!(err.code(), ErrorCode::InvalidRange);
    assert!(resolve_range(Some(ByteRange::Int { first: 1, last: None }), 0).is_err());
    assert_eq!(resolve_range(None, 7).unwrap(), (0, 7));
}

#[test]
fn bounded_range_on_empty_object_is_refused() {
    let err = serve_object(object(b""), Some(ByteRange::Int { first: 0, last: Some(0) })).unwrap_err();
    assert_eq!(err.code(), ErrorCode::InvalidRange);
    let err = serve_object(object(b""), Some(ByteRange::Int { first: 0, last: Some(9) })).unwrap_err();
    assert_eq!(err.code(), ErrorCode::InvalidRange);
}
