use s3ite::engine::SqlValue;
use s3ite::query::{key_size_of, key_value_of};
use s3ite::ErrorCode;

fn text(s: &str) -> SqlValue {
    SqlValue::Text(s.to_string())
}

#[test]
fn listing_rows_decode() {
    let ks = key_size_of(vec![text("k"), SqlValue::Integer(3), text("t"), text("abc")]).unwrap();
    assert_eq!((ks.key.as_str(), ks.size, ks.last_modified.as_str()), ("k", 3, "t"));
    assert_eq!(ks.md5.as_deref(), Some("abc"));
    let marker = key_size_of(vec![text("d/"), SqlValue::Integer(0), text("t"), SqlValue::Null]).unwrap();
    assert!(marker.md5.is_none());
}

#[test]
fn malformed_listing_rows_are_internal_errors() {
    let negative = key_size_of(vec![text("k"), SqlValue::Integer(-1), text("t"), SqlValue::Null]);
    assert_eq!(negative.unwrap_err().code(), ErrorCode::InternalError);
    let null_key = key_size_of(vec![SqlValue::Null, SqlValue::Integer(1), text("t"), SqlValue::Null]);
    assert_eq!(null_key.unwrap_err().code(), ErrorCode::InternalError);
    let blob_md5 = key_size_of(vec![text("k"), SqlValue::Integer(1), text("t"), SqlValue::Blob(vec![1])]);
    assert!(blob_md5.is_err());
}

#[test]
fn object_rows_decode() {
    let kv = key_value_of(vec![
        text("k"),
        SqlValue::Blob(b"v".to_vec()),
        SqlValue::Integer(1),
        SqlValue::Null,
        text("t"),
        text("m"),
    ])
    .unwrap();
    assert_eq!(kv.value.as_deref(), Some(&b"v"[..]));
    assert!(kv.metadata.is_none());
    let marker =
        key_value_of(vec![text("d/"), SqlValue::Null, SqlValue::Integer(0), SqlValue::Null, text("t"), SqlValue::Null])
            .unwrap();
    assert!(marker.value.is_none());
    assert!(key_value_of(vec![text("k"), text("v"), SqlValue::Integer(0), SqlValue::Null, text("t"), SqlValue::Null])
        .is_err());
}

fn key_row(k: &str, size: i64) -> Vec<SqlValue> {
    vec![text(k), SqlValue::Integer(size), text("t"), SqlValue::Null]
}

#[test]
fn listing_keeps_every_qualifying_row() {
    let rows = vec![key_row("a", 1), key_row("b/1", 2), key_row("b/2", 3), key_row("c", 4)];
    let v = s3ite::query::listing_of_rows(rows, Some("b/"), None).unwrap();
    let keys: Vec<(&str, u64)> = v.iter().map(|k| (k.key.as_str(), k.size)).collect();
    assert_eq!(keys, vec![("b/1", 2), ("b/2", 3)]);
    let all = s3ite::query::listing_of_rows(vec![key_row("d/", 0)], None, None).unwrap();
    assert_eq!(all.len(), 1);
    assert!(all[0].md5.is_none());
    let out_of_order = s3ite::query::listing_of_rows(vec![key_row("b", 1), key_row("a", 1)], None, None);
    assert_eq!(out_of_order.unwrap_err().code(), ErrorCode::InternalError);
    let skipped = s3ite::query::listing_of_rows(vec![key_row("b", 1), key_row("a", 1)], None, Some("a"));
    assert_eq!(skipped.unwrap().len(), 1);
}

#[test]
fn part_rows_decode_in_order() {
    let row = |n: i64, size: i64| vec![text("t"), SqlValue::Integer(n), SqlValue::Integer(size)];
    let parts = s3ite::query::parts_metadata_of_rows(vec![row(1, 10), row(2, 20)]).unwrap();
    assert_eq!(parts.iter().map(|p| (p.part_number, p.size)).collect::<Vec<_>>(), vec![(1, 10), (2, 20)]);
    assert!(s3ite::query::parts_metadata_of_rows(vec![row(2, 1), row(1, 1)]).is_err());
    assert!(s3ite::query::parts_metadata_of_rows(vec![row(1 << 40, 1)]).is_err());
    let payload = |n: i64| vec![text("t"), SqlValue::Integer(n), SqlValue::Blob(vec![n as u8]), SqlValue::Integer(1), SqlValue::Null];
    let full = s3ite::query::parts_of_rows(vec![payload(1), payload(3)], &vec![9; 16]).unwrap();
    assert_eq!(full[1].value, vec![3u8]);
    assert_eq!(full[0].upload_id, vec![9u8; 16]);
}

#[test]
fn deleted_keys_decode() {
    let keys = vec!["a".to_string(), "b".to_string()];
    let v = s3ite::query::deleted_keys_of_rows(vec![vec![text("b")], vec![text("a")]], &keys).unwrap();
    assert_eq!(v, vec!["b".to_string(), "a".to_string()]);
    assert!(s3ite::query::deleted_keys_of_rows(vec![vec![text("z")]], &keys).is_err());
}

#[test]
fn owner_verdicts() {
    let owner = Some("AKID".to_string());
    assert_eq!(s3ite::query::access_verdict(vec![], &owner).unwrap(), false);
    assert_eq!(s3ite::query::access_verdict(vec![vec![text("AKID")]], &owner).unwrap(), true);
    assert_eq!(s3ite::query::access_verdict(vec![vec![SqlValue::Null]], &owner).unwrap(), false);
    assert_eq!(s3ite::query::access_verdict(vec![vec![SqlValue::Null]], &None).unwrap(), true);
    assert_eq!(
        s3ite::handlers::require_owner(Ok(false)).unwrap_err().code(),
        ErrorCode::AccessDenied
    );
}
