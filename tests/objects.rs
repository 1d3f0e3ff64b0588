use s3ite::{
    check_content_md5, check_part_order, check_put_object, completed_record, delete_outcome,
    directory_record, gate_request, md5_digest, object_record, part_record, retarget,
    serve_object, validate_mutable_bucket, Config, ErrorCode, Multipart, PutKind, S3ite, Verb,
};

fn read_only_config() -> Config {
    let mut config = Config::default();
    config.read_only = true;
    config
}

fn message(e: &S3ite) -> String {
    match e {
        S3ite::S3(f) => f.message.clone().unwrap_or_default(),
        _ => String::new(),
    }
}

#[test]
fn test_read_only_object() {
    let config = read_only_config();
    let err = gate_request(&config, Verb::CreateBucket, "x").unwrap_err();
    assert_eq!(err.code(), ErrorCode::MethodNotAllowed);
    assert!(message(&err).contains("database is in read-only mode"));
}

#[test]
fn read_only_refuses_every_mutation() {
    let config = read_only_config();
    for verb in [
        Verb::CreateBucket,
        Verb::DeleteBucket,
        Verb::PutObject,
        Verb::DeleteObject,
        Verb::DeleteObjects,
        Verb::CopyObject,
        Verb::CreateMultipartUpload,
        Verb::UploadPart,
        Verb::CompleteMultipartUpload,
    ] {
        assert_eq!(gate_request(&config, verb, "b").unwrap_err().code(), ErrorCode::MethodNotAllowed);
    }
    for verb in [Verb::GetObject, Verb::ListObjectsV2, Verb::HeadBucket, Verb::ListParts] {
        assert!(gate_request(&config, verb, "b").is_ok());
    }
    assert!(validate_mutable_bucket(&Config::default(), "b").is_ok());
}

#[test]
fn put_checks_run_in_order() {
    let config = Config::default();
    let code = |r: Result<PutKind, S3ite>| r.unwrap_err().code();
    assert_eq!(
        code(check_put_object(&read_only_config(), "b", false, "k", None, false, None)),
        ErrorCode::MethodNotAllowed
    );
    assert_eq!(code(check_put_object(&config, "b", false, "k", None, true, None)), ErrorCode::NoSuchBucket);
    assert_eq!(
        code(check_put_object(&config, "b", true, "k", Some("GLACIER"), true, None)),
        ErrorCode::InvalidStorageClass
    );
    assert_eq!(code(check_put_object(&config, "b", true, "k", None, false, None)), ErrorCode::IncompleteBody);
    assert_eq!(
        code(check_put_object(&config, "b", true, "dir/", None, true, Some(3))),
        ErrorCode::UnexpectedContent
    );
    assert_eq!(
        check_put_object(&config, "b", true, "dir/", Some("STANDARD"), true, Some(0)).unwrap(),
        PutKind::Directory
    );
    assert_eq!(
        check_put_object(&config, "b", true, "k", Some("REDUCED_REDUNDANCY"), true, Some(3)).unwrap(),
        PutKind::Object
    );
}

#[test]
fn content_md5_must_match_the_body() {
    let body = "hello world\n你好世界\n".as_bytes().to_vec();
    let good = "SpRKmvVRaPLiBjkHxCGwYQ==";
    let kv = object_record("sample.txt".into(), body.clone(), None, "t".into(), Some(good)).unwrap();
    assert_eq!(kv.md5.as_deref(), Some("4a944a9af55168f2e2063907c421b061"));
    assert_eq!(kv.size, 25);
    let err = object_record("sample.txt".into(), body.clone(), None, "t".into(), Some("AAAA")).unwrap_err();
    assert_eq!(err.code(), ErrorCode::BadDigest);
    let digest = md5_digest(&body);
    assert!(check_content_md5(None, &digest).is_ok());
    assert_eq!(check_content_md5(Some(""), &digest).unwrap_err().code(), ErrorCode::BadDigest);
}

#[test]
fn directory_marker_has_no_payload() {
    let kv = directory_record("dir/".into(), None, "t".into());
    assert!(kv.value.is_none());
    assert_eq!(kv.size, 0);
    assert!(kv.md5.is_none());
    let served = serve_object(kv, None).unwrap();
    assert!(served.body.is_empty());
}

#[test]
fn copy_keeps_bytes_and_digest() {
    let kv = object_record("src".into(), b"payload".to_vec(), None, "t0".into(), None).unwrap();
    let copy = retarget(kv.clone(), "dst".into());
    assert_eq!(copy.key, "dst");
    assert_eq!(copy.value, kv.value);
    assert_eq!(copy.md5, kv.md5);
    assert_eq!(copy.last_modified, "t0");
    let served = serve_object(copy, None).unwrap();
    assert_eq!(served.body, b"payload");
}

#[test]
fn part_order_must_run_from_one() {
    assert!(check_part_order(&Some(vec![Some(1), Some(2), Some(3)])).is_ok());
    assert!(check_part_order(&Some(vec![])).is_ok());
    let err = check_part_order(&Some(vec![Some(1), Some(3)])).unwrap_err();
    assert_eq!(err.code(), ErrorCode::InvalidRequest);
    assert_eq!(message(&err), "invalid part order");
    assert_eq!(check_part_order(&Some(vec![None])).unwrap_err().code(), ErrorCode::InvalidRequest);
    assert_eq!(check_part_order(&Some(vec![Some(2)])).unwrap_err().code(), ErrorCode::InvalidRequest);
    assert_eq!(check_part_order(&None).unwrap_err().code(), ErrorCode::InvalidPart);
}

#[test]
fn completed_upload_concatenates_parts() {
    let part = |n: i32, bytes: &[u8]| Multipart {
        upload_id: vec![0; 16],
        part_number: n,
        last_modified: "t".into(),
        value: bytes.to_vec(),
        size: bytes.len() as i64,
        md5: None,
    };
    let kv = completed_record("k".into(), &vec![part(1, b"abc"), part(2, b"def")], "t".into());
    assert_eq!(kv.value.as_deref(), Some(&b"abcdef"[..]));
    assert_eq!(kv.size, 6);
    assert_eq!(kv.md5, Some(s3ite::hex(&md5_digest(b"abcdef"))));
    assert_ne!(kv.md5.as_deref(), Some("abcdef"));
}

#[test]
fn uploaded_part_is_checked_and_hashed() {
    let content = "abcdefghijklmnopqrstuvwxyz/0123456789/!@#$%^&*();\n";
    let part = part_record(vec![7; 16], 1, content.as_bytes().to_vec(), Some("H6dHQaYjxrasUfXrWk55IQ=="), "t".into())
        .unwrap();
    assert_eq!(part.size, 50);
    assert_eq!(part.md5.as_deref(), Some("1fa74741a623c6b6ac51f5eb5a4e7921"));
    let err = part_record(vec![7; 16], 1, b"x".to_vec(), Some("H6dHQaYjxrasUfXrWk55IQ=="), "t".into()).unwrap_err();
    assert_eq!(err.code(), ErrorCode::BadDigest);
}

#[test]
fn delete_outcomes() {
    assert!(delete_outcome(false, 1).is_ok());
    assert_eq!(delete_outcome(false, 0).unwrap_err().code(), ErrorCode::NoSuchKey);
    assert!(delete_outcome(true, 0).is_ok());
    assert!(delete_outcome(true, 1).is_ok());
    assert_eq!(delete_outcome(true, 2).unwrap_err().code(), ErrorCode::BucketNotEmpty);
}

#[test]
fn bucket_creation_checks() {
    let config = Config::default();
    assert!(s3ite::check_create_bucket(&config, "b", false, false).is_ok());
    assert_eq!(
        s3ite::check_create_bucket(&config, "b", true, false).unwrap_err().code(),
        ErrorCode::BucketAlreadyExists
    );
    assert_eq!(
        s3ite::check_create_bucket(&config, "b", false, true).unwrap_err().code(),
        ErrorCode::BucketAlreadyExists
    );
    assert_eq!(
        s3ite::check_create_bucket(&read_only_config(), "b", false, false).unwrap_err().code(),
        ErrorCode::MethodNotAllowed
    );
    assert!(s3ite::check_bucket_present(true, true).is_ok());
    assert_eq!(s3ite::check_bucket_present(true, false).unwrap_err().code(), ErrorCode::NoSuchBucket);
    assert_eq!(s3ite::check_bucket_present(false, false).unwrap_err().code(), ErrorCode::NoSuchBucket);
}

#[test]
fn upload_ids_must_parse() {
    assert_eq!(s3ite::upload_id_of("garbage").unwrap_err().code(), ErrorCode::InvalidRequest);
    let id = s3ite::upload_id_of("00112233-4455-6677-8899-aabbccddeeff").unwrap();
    assert_eq!(id.len(), 16);
    assert_eq!(id[15], 0xff);
}
