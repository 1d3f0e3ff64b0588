use vstd::prelude::*;

use crate::error::{s3_error, s3_error_with, ErrorCode, Result, S3ite};
use crate::ids::{rfc3339_of_unix, rfc3339_text, RFC3339_FIRST_SECOND, RFC3339_LAST_SECOND};
use crate::objects::{
    completed_record, delete_outcome, etag_of, joined, KeyMetadata, KeyValue, Multipart, MultipartMetadata,
};
use crate::query::{
    try_create_multipart_upload, try_create_tables, try_delete_multipart,
    try_delete_multipart_expired, try_delete_object, try_delete_objects, try_delete_objects_like,
    try_get_metadata, try_get_multiparts, try_get_object, try_list_multipart, try_put_multipart,
    try_put_object, try_verify_upload_id, parts_ascend, payload_parts_ascend,
};
use crate::registry::names;
use crate::text::ends_with_char;

verus! {

/// Seconds after which an unfinished multipart upload is dropped when its
/// bucket is opened.
pub const MULTIPART_EXPIRY_SECONDS: i64 = 3600;

/// Message of the error an instant that cannot be written as text gets.
pub const CLOCK_MESSAGE: &'static str = "time out of range";

/// Creates a new bucket's tables.
pub fn create_bucket_tx(tx: &rusqlite::Transaction) -> (r: Result<()>)
    ensures
        r matches Err(e) ==> e is Rusqlite,
{
    try_create_tables(tx)?;
    Ok(())
}

/// The instant `MULTIPART_EXPIRY_SECONDS` before `now`, clamped at the
/// smallest representable one.
pub open spec fn expiry_cutoff(now: int) -> int {
    if now - MULTIPART_EXPIRY_SECONDS < i64::MIN {
        i64::MIN as int
    } else {
        now - MULTIPART_EXPIRY_SECONDS
    }
}

pub fn expiry_cutoff_of(now: i64) -> (r: i64)
    ensures
        r == expiry_cutoff(now as int),
{
    if now < i64::MIN + MULTIPART_EXPIRY_SECONDS {
        i64::MIN
    } else {
        now - MULTIPART_EXPIRY_SECONDS
    }
}

/// The RFC-3339 text of the instant before which unfinished uploads are
/// dropped; an internal error where the instant cannot be written.
pub fn expiry_cutoff_text(now: i64) -> (r: Result<String>)
    ensures
        r matches Ok(s) ==> s@ == rfc3339_text(expiry_cutoff(now as int)),
        r matches Err(e) ==> e.is(ErrorCode::InternalError),
        RFC3339_FIRST_SECOND <= expiry_cutoff(now as int) <= RFC3339_LAST_SECOND ==> r is Ok,
{
    match rfc3339_of_unix(expiry_cutoff_of(now)) {
        Some(cutoff) => Ok(cutoff),
        None => Err(s3_error_with(ErrorCode::InternalError, CLOCK_MESSAGE)),
    }
}

/// The clean-up a bucket gets when it is opened: uploads left unfinished
/// for `MULTIPART_EXPIRY_SECONDS` are dropped.
pub fn open_bucket_tx(tx: &rusqlite::Transaction, now: i64) -> (r: Result<()>)
    ensures
        r matches Err(e) ==> e is Rusqlite || e.is(ErrorCode::InternalError),
{
    let cutoff = expiry_cutoff_text(now)?;
    try_delete_multipart_expired(tx, cutoff.as_str())
}

/// Stores `kv` under its key.
pub fn put_object_tx(tx: &rusqlite::Transaction, kv: KeyValue) -> (r: Result<()>)
    ensures
        kv.size > i64::MAX <==> r matches Err(S3ite::TryFromInt),
{
    try_put_object(tx, kv)?;
    Ok(())
}

/// The object a lookup found; `NoSuchKey` when it found none.
pub fn present_object(found: Option<KeyValue>) -> (r: Result<KeyValue>)
    ensures
        match found {
            Some(kv) => r matches Ok(x) && x == kv,
            None => r matches Err(e) && e.is(ErrorCode::NoSuchKey),
        },
{
    match found {
        Some(kv) => Ok(kv),
        None => Err(s3_error(ErrorCode::NoSuchKey)),
    }
}

/// The object stored under `key`; `NoSuchKey` when there is none.
pub fn get_object_tx(tx: &rusqlite::Transaction, key: &str) -> (r: Result<KeyValue>)
    ensures
        r matches Ok(kv) ==> kv.key@ == key@,
{
    present_object(try_get_object(tx, key)?)
}

/// The metadata of the object stored under `key`; `NoSuchKey` when there is
/// none.
pub fn head_object_tx(tx: &rusqlite::Transaction, key: &str) -> (r: Result<KeyMetadata>)
    ensures
        r matches Err(e) ==> e is Rusqlite || e.is(ErrorCode::NoSuchKey) || e.is(ErrorCode::InternalError),
{
    present_metadata(try_get_metadata(tx, key)?)
}

/// The metadata a lookup found; `NoSuchKey` when it found none.
pub fn present_metadata(found: Option<KeyMetadata>) -> (r: Result<KeyMetadata>)
    ensures
        match found {
            Some(m) => r matches Ok(x) && x == m,
            None => r matches Err(e) && e.is(ErrorCode::NoSuchKey),
        },
{
    match found {
        Some(m) => Ok(m),
        None => Err(s3_error(ErrorCode::NoSuchKey)),
    }
}

/// Deletes `key`. A directory key (ending in `/`) deletes every key it
/// prefixes, and fails with `BucketNotEmpty` when that is more than one; any
/// other key fails with `NoSuchKey` unless exactly one object went. On
/// failure the transaction must not be committed.
pub fn delete_object_tx(tx: &rusqlite::Transaction, key: &str) -> (r: Result<()>)
    ensures
        r matches Err(e) && e.is(ErrorCode::BucketNotEmpty) ==> key@.len() > 0 && key@.last() == '/',
        r matches Err(e) && e.is(ErrorCode::NoSuchKey) ==> !(key@.len() > 0 && key@.last() == '/'),
{
    if ends_with_char(key, '/') {
        let n = try_delete_objects_like(tx, key)?;
        delete_outcome(true, n)
    } else {
        let n = try_delete_object(tx, key)?;
        delete_outcome(false, n)
    }
}

/// Deletes the objects under `keys`; returns the keys that existed.
pub fn delete_objects_tx(tx: &rusqlite::Transaction, keys: &Vec<String>) -> (r: Result<Vec<String>>)
    ensures
        keys@.len() == 0 ==> (r matches Ok(v) && v@.len() == 0),
        r matches Ok(v) ==> forall|i: int| 0 <= i < v@.len() ==> names(keys@).contains(#[trigger] v@[i]@),
        r matches Err(e) ==> e is Rusqlite || e.is(ErrorCode::InternalError),
{
    try_delete_objects(tx, keys)
}

/// Records a new multipart upload owned by `access_key`.
pub fn create_multipart_tx(
    tx: &rusqlite::Transaction,
    upload_id: Vec<u8>,
    bucket: &str,
    key: &str,
    access_key: Option<String>,
    now: String,
) -> (r: Result<()>)
    ensures
        r matches Err(e) ==> e is Rusqlite,
{
    try_create_multipart_upload(tx, upload_id, bucket, key, access_key, now)?;
    Ok(())
}

/// Refuses, with `AccessDenied`, a caller that the ownership check found not
/// to own the upload; passes a failure of the check on.
pub fn require_owner(verdict: Result<bool>) -> (r: Result<()>)
    ensures
        match verdict {
            Ok(true) => r is Ok,
            Ok(false) => r matches Err(e) && e.is(ErrorCode::AccessDenied),
            Err(e) => r matches Err(x) && x == e,
        },
{
    match verdict {
        Ok(true) => Ok(()),
        Ok(false) => Err(s3_error(ErrorCode::AccessDenied)),
        Err(e) => Err(e),
    }
}

/// Stores `part` after checking that the caller owns its upload; nothing is
/// stored when the check fails.
pub fn upload_part_tx(
    tx: &rusqlite::Transaction,
    part: Multipart,
    bucket: &str,
    key: &str,
    access_key: &Option<String>,
) -> (r: Result<()>)
    ensures
        r matches Err(e) ==> e is Rusqlite || e.is(ErrorCode::AccessDenied) || e.is(
            ErrorCode::InternalError,
        ),
{
    require_owner(try_verify_upload_id(tx, &part.upload_id, bucket, key, access_key))?;
    try_put_multipart(tx, part)?;
    Ok(())
}

/// The parts of an upload the caller owns, by strictly ascending part
/// number.
pub fn list_parts_tx(
    tx: &rusqlite::Transaction,
    upload_id: &Vec<u8>,
    bucket: &str,
    key: &str,
    access_key: &Option<String>,
) -> (r: Result<Vec<MultipartMetadata>>)
    ensures
        r matches Ok(v) ==> parts_ascend(v@),
{
    require_owner(try_verify_upload_id(tx, upload_id, bucket, key, access_key))?;
    try_list_multipart(tx, upload_id)
}

/// Whether `m` is the ETag of an object assembled from `parts`, all of
/// upload `upload_id` and by strictly ascending part number.
pub open spec fn is_upload_etag(m: Seq<char>, parts: Seq<Multipart>, upload_id: Seq<u8>) -> bool {
    &&& payload_parts_ascend(parts)
    &&& forall|i: int| 0 <= i < parts.len() ==> (#[trigger] parts[i]).upload_id@ == upload_id
    &&& m == etag_of(joined(parts))
}

/// Whether `m` is the ETag of an object assembled from some parts of upload
/// `upload_id`, taken by strictly ascending part number.
pub open spec fn is_etag_of_upload(m: Seq<char>, upload_id: Seq<u8>) -> bool {
    exists|parts: Seq<Multipart>| #[trigger] is_upload_etag(m, parts, upload_id)
}

/// Completes an upload the caller owns: its parts, by part number, become
/// the object `key`, and the upload is dropped. Returns the object's ETag,
/// the hex MD5 of the concatenated parts.
#[verifier::rlimit(80)]
pub fn complete_multipart_tx(
    tx: &rusqlite::Transaction,
    upload_id: &Vec<u8>,
    bucket: &str,
    key: &str,
    access_key: &Option<String>,
    now: String,
) -> (r: Result<String>)
    ensures
        r matches Ok(m) ==> is_etag_of_upload(m@, upload_id@),
        r matches Err(e) ==> e is Rusqlite || e.is(ErrorCode::AccessDenied) || e.is(
            ErrorCode::InternalError,
        ) || e is TryFromInt,
{
    require_owner(try_verify_upload_id(tx, upload_id, bucket, key, access_key))?;
    let parts = try_get_multiparts(tx, upload_id)?;
    let record = completed_record(String::from_str(key), &parts, now);
    let md5 = match &record.md5 {
        Some(m) => m.clone(),
        None => String::new(),
    };
    try_put_object(tx, record)?;
    try_delete_multipart(tx, upload_id)?;
    proof {
        assert(is_upload_etag(md5@, parts@, upload_id@));
        assert(is_etag_of_upload(md5@, upload_id@));
    }
    Ok(md5)
}

} // verus!
