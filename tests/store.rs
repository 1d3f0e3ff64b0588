use rusqlite::Connection;
use s3ite::handlers::{
    complete_multipart_tx, create_bucket_tx, create_multipart_tx, delete_object_tx,
    delete_objects_tx, get_object_tx, head_object_tx, list_parts_tx, open_bucket_tx,
    put_object_tx, upload_part_tx,
};
use s3ite::ids::{fresh_upload_id, parse_upload_id, upload_id_text};
use s3ite::query::try_list_objects;
use s3ite::{
    bucket_file_name, bucket_of_file_name, directory_record, get_bucket_path, missing_buckets,
    object_record, part_record, retarget, serve_object, Bucket, Config, ErrorCode, KeyValue,
    TokenStore,
};

fn bucket() -> Connection {
    let conn = Connection::open_in_memory().unwrap();
    conn.execute_batch(&Config::default().to_sql(None)).unwrap();
    let tx = conn.unchecked_transaction().unwrap();
    create_bucket_tx(&tx).unwrap();
    tx.commit().unwrap();
    conn
}

fn put(conn: &Connection, kv: KeyValue) {
    let tx = conn.unchecked_transaction().unwrap();
    put_object_tx(&tx, kv).unwrap();
    tx.commit().unwrap();
}

fn object(key: &str, body: &[u8], at: &str) -> KeyValue {
    object_record(key.to_string(), body.to_vec(), None, at.to_string(), None).unwrap()
}

fn list(conn: &Connection, prefix: Option<&str>, after: Option<&str>) -> Vec<String> {
    let tx = conn.unchecked_transaction().unwrap();
    try_list_objects(&tx, prefix, after).unwrap().into_iter().map(|r| r.key).collect()
}

fn count(conn: &Connection, table: &str) -> i64 {
    conn.query_row(&format!("SELECT COUNT(*) FROM {table}"), [], |r| r.get(0)).unwrap()
}

#[test]
fn test_single_object() {
    let conn = bucket();
    let content = "hello world\n你好世界\n";
    let kv = object_record(
        "sample.txt".to_string(),
        content.as_bytes().to_vec(),
        None,
        "2024-01-01T00:00:00Z".to_string(),
        Some("SpRKmvVRaPLiBjkHxCGwYQ=="),
    )
    .unwrap();
    put(&conn, kv);
    let tx = conn.unchecked_transaction().unwrap();
    let stored = get_object_tx(&tx, "sample.txt").unwrap();
    drop(tx);
    let served = serve_object(stored, None).unwrap();
    assert_eq!(served.content_length as usize, content.len());
    assert_eq!(served.body, content.as_bytes());
    assert_eq!(served.e_tag.as_deref(), Some("4a944a9af55168f2e2063907c421b061"));
    let tx = conn.unchecked_transaction().unwrap();
    delete_object_tx(&tx, "sample.txt").unwrap();
    tx.commit().unwrap();
    let tx = conn.unchecked_transaction().unwrap();
    assert_eq!(get_object_tx(&tx, "sample.txt").unwrap_err().code(), ErrorCode::NoSuchKey);
    assert_eq!(delete_object_tx(&tx, "sample.txt").unwrap_err().code(), ErrorCode::NoSuchKey);
}

#[test]
fn test_multipart() {
    let conn = bucket();
    let content = "abcdefghijklmnopqrstuvwxyz/0123456789/!@#$%^&*();\n";
    let upload_id = fresh_upload_id();
    let text = upload_id_text(&upload_id);
    assert_eq!(text.len(), 36);
    assert_eq!(parse_upload_id(&text), Some(upload_id.clone()));
    let owner = Some("AKID".to_string());
    let tx = conn.unchecked_transaction().unwrap();
    create_multipart_tx(&tx, upload_id.clone(), "b2", "sample.txt", owner.clone(), "2024-01-01T00:00:00Z".into())
        .unwrap();
    tx.commit().unwrap();
    let part = part_record(
        upload_id.clone(),
        1,
        content.as_bytes().to_vec(),
        Some("H6dHQaYjxrasUfXrWk55IQ=="),
        "2024-01-01T00:00:01Z".into(),
    )
    .unwrap();
    let tx = conn.unchecked_transaction().unwrap();
    let stranger = part_record(upload_id.clone(), 2, b"x".to_vec(), None, "t".into()).unwrap();
    assert_eq!(
        upload_part_tx(&tx, stranger, "b2", "sample.txt", &None).unwrap_err().code(),
        ErrorCode::AccessDenied
    );
    upload_part_tx(&tx, part, "b2", "sample.txt", &owner).unwrap();
    tx.commit().unwrap();
    let tx = conn.unchecked_transaction().unwrap();
    let parts = list_parts_tx(&tx, &upload_id, "b2", "sample.txt", &owner).unwrap();
    assert_eq!(parts.len(), 1);
    assert_eq!(parts[0].part_number, 1);
    assert_eq!(parts[0].size, 50);
    drop(tx);
    let tx = conn.unchecked_transaction().unwrap();
    let etag = complete_multipart_tx(&tx, &upload_id, "b2", "sample.txt", &owner, "2024-01-01T00:00:02Z".into())
        .unwrap();
    tx.commit().unwrap();
    assert_eq!(etag, "1fa74741a623c6b6ac51f5eb5a4e7921");
    let tx = conn.unchecked_transaction().unwrap();
    let served = serve_object(get_object_tx(&tx, "sample.txt").unwrap(), None).unwrap();
    assert_eq!(served.content_length as usize, content.len());
    assert_eq!(served.body, content.as_bytes());
    drop(tx);
    assert_eq!(count(&conn, "multipart_upload"), 0);
    assert_eq!(count(&conn, "multipart_upload_part"), 0);
}

#[test]
fn test_list_buckets() {
    let names: Vec<String> = (0..5).map(|i| format!("test-list-buckets-{i}")).collect();
    let files: Vec<String> = names.iter().map(|n| bucket_file_name(n)).collect();
    let found: Vec<String> = files.iter().filter_map(|f| bucket_of_file_name(f)).collect();
    assert_eq!(found, names);
    assert_eq!(bucket_of_file_name("notes.txt"), None);
    assert_eq!(bucket_of_file_name(".sqlite3"), None);
    assert_eq!(bucket_of_file_name("a.b.sqlite3").as_deref(), Some("a.b"));
}

#[test]
fn bucket_paths_stay_under_the_root() {
    assert_eq!(get_bucket_path("/data", "b1").unwrap(), "/data/b1.sqlite3");
    assert_eq!(get_bucket_path("/data", "../etc").unwrap_err().code(), ErrorCode::InvalidBucketName);
    assert_eq!(get_bucket_path("/data", "").unwrap_err().code(), ErrorCode::InvalidBucketName);
}

#[test]
fn configured_buckets_must_exist() {
    let mut config = Config::default();
    for name in ["a", "b", "c"] {
        config.buckets.push((name.to_string(), Bucket { read_only: None, sqlite: None }));
    }
    assert_eq!(missing_buckets(&config, &vec!["b".to_string()]), vec!["a".to_string(), "c".to_string()]);
    assert!(missing_buckets(&config, &vec!["a".into(), "b".into(), "c".into()]).is_empty());
}

#[test]
fn listing_is_filtered_and_ascending() {
    let conn = bucket();
    for key in ["b/2", "a/1", "b/1", "B/3", "c", "b%x"] {
        put(&conn, object(key, key.as_bytes(), "t"));
    }
    assert_eq!(list(&conn, None, None), vec!["B/3", "a/1", "b%x", "b/1", "b/2", "c"]);
    assert_eq!(list(&conn, Some("b/"), None), vec!["b/1", "b/2"]);
    assert_eq!(list(&conn, Some("b"), Some("b/1")), vec!["b/2"]);
    assert_eq!(list(&conn, None, Some("b/2")), vec!["c"]);
    assert!(list(&conn, Some("zzz"), None).is_empty());
}

#[test]
fn listing_2500_keys_through_tokens() {
    let conn = bucket();
    let tx = conn.unchecked_transaction().unwrap();
    for i in 0..2500 {
        put_object_tx(&tx, object(&format!("k{i:05}"), b"", "t")).unwrap();
    }
    tx.commit().unwrap();
    let tx = conn.unchecked_transaction().unwrap();
    let snapshot = try_list_objects(&tx, None, None).unwrap();
    drop(tx);
    let mut store = TokenStore::new();
    let first = store.start_listing(snapshot, None, None, 1000, 0).unwrap();
    let token = first.next_continuation_token.clone().unwrap();
    let second = store.continue_listing(&token, 1000, 1).unwrap();
    let third = store.continue_listing(&token, 1000, 2).unwrap();
    assert_eq!((first.key_sizes.len(), second.key_sizes.len(), third.key_sizes.len()), (1000, 1000, 500));
    let keys: Vec<String> = first
        .key_sizes
        .iter()
        .chain(&second.key_sizes)
        .chain(&third.key_sizes)
        .map(|r| r.key.clone())
        .collect();
    let expected: Vec<String> = (0..2500).map(|i| format!("k{i:05}")).collect();
    assert_eq!(keys, expected);
    assert_eq!(store.continue_listing(&token, 1000, 3).unwrap_err().code(), ErrorCode::InvalidToken);
}

#[test]
fn second_put_replaces_the_first() {
    let conn = bucket();
    put(&conn, object("k", b"one", "2024-01-01T00:00:00Z"));
    put(&conn, object("k", b"two!", "2024-01-02T00:00:00Z"));
    assert_eq!(count(&conn, "data"), 1);
    assert_eq!(count(&conn, "metadata"), 1);
    let tx = conn.unchecked_transaction().unwrap();
    let kv = get_object_tx(&tx, "k").unwrap();
    assert_eq!(kv.value.as_deref(), Some(&b"two!"[..]));
    assert_eq!(kv.last_modified, "2024-01-02T00:00:00Z");
    let head = head_object_tx(&tx, "k").unwrap();
    assert_eq!(head.size, 4);
}

#[test]
fn metadata_follows_data() {
    let conn = bucket();
    put(&conn, object("k", b"v", "t"));
    conn.execute("DELETE FROM data WHERE key = 'k'", []).unwrap();
    assert_eq!(count(&conn, "metadata"), 0);
}

#[test]
fn copy_round_trip() {
    let conn = bucket();
    put(&conn, object("src", b"copy me", "t0"));
    let tx = conn.unchecked_transaction().unwrap();
    let source = get_object_tx(&tx, "src").unwrap();
    drop(tx);
    put(&conn, retarget(source, "dst".to_string()));
    let tx = conn.unchecked_transaction().unwrap();
    let copy = get_object_tx(&tx, "dst").unwrap();
    let source = get_object_tx(&tx, "src").unwrap();
    assert_eq!(copy.md5, source.md5);
    assert_eq!(copy.last_modified, "t0");
    assert_eq!(serve_object(copy, None).unwrap().body, b"copy me");
}

#[test]
fn directory_markers() {
    let conn = bucket();
    put(&conn, directory_record("dir/".into(), None, "t".into()));
    assert_eq!(list(&conn, None, None), vec!["dir/"]);
    let tx = conn.unchecked_transaction().unwrap();
    assert!(get_object_tx(&tx, "dir/").unwrap().value.is_none());
    drop(tx);
    put(&conn, object("dir/file", b"x", "t"));
    let tx = conn.unchecked_transaction().unwrap();
    assert_eq!(delete_object_tx(&tx, "dir/").unwrap_err().code(), ErrorCode::BucketNotEmpty);
    drop(tx);
    assert_eq!(count(&conn, "data"), 2);
    let tx = conn.unchecked_transaction().unwrap();
    delete_object_tx(&tx, "dir/file").unwrap();
    delete_object_tx(&tx, "dir/").unwrap();
    tx.commit().unwrap();
    assert_eq!(count(&conn, "data"), 0);
}

#[test]
fn delete_many_returns_existing_keys() {
    let conn = bucket();
    put(&conn, object("a", b"1", "t"));
    put(&conn, object("b", b"2", "t"));
    let tx = conn.unchecked_transaction().unwrap();
    let mut gone = delete_objects_tx(&tx, &vec!["a".into(), "b".into(), "zz".into()]).unwrap();
    gone.sort();
    assert_eq!(gone, vec!["a".to_string(), "b".to_string()]);
    assert!(delete_objects_tx(&tx, &vec![]).unwrap().is_empty());
}

#[test]
fn opening_a_bucket_drops_stale_uploads() {
    let conn = bucket();
    let tx = conn.unchecked_transaction().unwrap();
    create_multipart_tx(&tx, vec![1; 16], "b", "old", None, "2000-01-01T00:00:00Z".into()).unwrap();
    create_multipart_tx(&tx, vec![2; 16], "b", "new", None, "2999-01-01T00:00:00Z".into()).unwrap();
    open_bucket_tx(&tx, 1_700_000_000).unwrap();
    tx.commit().unwrap();
    assert_eq!(count(&conn, "multipart_upload"), 1);
}

#[test]
fn missing_buckets_are_named_in_the_error() {
    let err = s3ite::registry::missing_buckets_error(&vec!["a".to_string(), "c".to_string()]);
    assert_eq!(err.code(), ErrorCode::InternalError);
    match err {
        s3ite::S3ite::S3(f) => assert_eq!(
            f.message.as_deref(),
            Some("found configurations for buckets: [\"a\", \"c\"] that do not exist")
        ),
        other => panic!("{other:?}"),
    }
}

#[test]
fn bucket_path_under_filesystem_root() {
    assert_eq!(get_bucket_path("/", "b1").unwrap(), "/b1.sqlite3");
    assert_eq!(get_bucket_path("/data", "a\\b").unwrap_err().code(), ErrorCode::InvalidBucketName);
}

#[test]
fn directory_delete_is_an_exact_prefix() {
    let conn = bucket();
    put(&conn, directory_record("d_/".into(), None, "t".into()));
    put(&conn, object("dx/other", b"x", "t"));
    put(&conn, object("D_/upper", b"x", "t"));
    let tx = conn.unchecked_transaction().unwrap();
    delete_object_tx(&tx, "d_/").unwrap();
    tx.commit().unwrap();
    assert_eq!(list(&conn, None, None), vec!["D_/upper", "dx/other"]);
}
