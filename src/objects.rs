use vstd::prelude::*;

use crate::config::{name_view, Config};
use crate::error::{s3_error, s3_error_with, ErrorCode, Result, S3ite};
use crate::ids::{parse_upload_id, parsed_uuid};
use crate::range::{copy_span, range_span, resolve_range, ByteRange};
use crate::text::{ends_with_char, same_text};
use crate::utils::{base64, base64_std, hex, hex_lower, md5_digest, md5_of};

verus! {

/// Message of the error a write to a read-only database gets.
pub const READ_ONLY_MESSAGE: &'static str = "database is in read-only mode";

/// Message of the error a multipart completion with misnumbered parts gets.
pub const PART_ORDER_MESSAGE: &'static str = "invalid part order";

/// Message of the error a directory put with a body gets.
pub const DIRECTORY_CONTENT_MESSAGE: &'static str = "Unexpected request body when creating a directory object.";

/// An object as stored: the payload and its metadata row.
#[derive(Clone, Debug)]
pub struct KeyValue {
    pub key: String,
    /// The payload; `None` for a directory marker.
    pub value: Option<Vec<u8>>,
    pub size: u64,
    /// User metadata as JSON text.
    pub metadata: Option<String>,
    /// RFC-3339 text of the last write.
    pub last_modified: String,
    /// Hex MD5 of the payload; `None` for a directory marker.
    pub md5: Option<String>,
}

/// The metadata row of an object.
#[derive(Clone, Debug)]
pub struct KeyMetadata {
    pub size: u64,
    pub metadata: Option<String>,
    pub last_modified: String,
}

/// One uploaded part of a multipart upload.
#[derive(Clone, Debug)]
pub struct Multipart {
    /// The sixteen bytes of the upload's identifier.
    pub upload_id: Vec<u8>,
    pub part_number: i32,
    pub last_modified: String,
    pub value: Vec<u8>,
    pub size: i64,
    pub md5: Option<String>,
}

/// The listing row of an uploaded part.
#[derive(Clone, Debug)]
pub struct MultipartMetadata {
    pub part_number: i32,
    pub last_modified: String,
    pub size: i64,
}

/// What a put request stores.
#[derive(Copy, Clone, Debug, PartialEq, Eq, Structural)]
pub enum PutKind {
    /// A directory marker: a key ending in `/`, no payload.
    Directory,
    /// An ordinary object.
    Object,
}

/// The payload bytes of a stored value; a directory marker has none.
pub open spec fn payload(value: Option<Vec<u8>>) -> Seq<u8> {
    match value {
        Some(v) => v@,
        None => Seq::empty(),
    }
}

/// The hex MD5 text of `b`: the ETag of an object with payload `b`.
pub open spec fn etag_of(b: Seq<u8>) -> Seq<char> {
    hex_lower(md5_of(b))
}

/// Whether `storage_class` is one this service stores.
pub open spec fn spec_valid_storage_class(storage_class: Seq<char>) -> bool {
    storage_class == "STANDARD"@ || storage_class == "REDUCED_REDUNDANCY"@
}

/// Whether a write to `bucket` is refused.
pub open spec fn refuses_writes(config: Config, bucket: Seq<char>) -> bool {
    config.spec_read_only(Some(bucket))
}

/// The error a write to a read-only database gets.
pub fn read_only_error() -> (r: S3ite)
    ensures
        r.is(ErrorCode::MethodNotAllowed),
        r->S3_0.message matches Some(m) && m@ == READ_ONLY_MESSAGE@,
{
    s3_error_with(ErrorCode::MethodNotAllowed, READ_ONLY_MESSAGE)
}

/// Refuses any write to `bucket` when it, or the whole service, is read-only.
pub fn validate_mutable_bucket(config: &Config, bucket: &str) -> (r: Result<()>)
    ensures
        refuses_writes(*config, bucket@) <==> r is Err,
        r matches Err(e) ==> e.is(ErrorCode::MethodNotAllowed) && (e->S3_0.message matches Some(m)
            && m@ == READ_ONLY_MESSAGE@),
{
    let ro = config.read_only(Some(bucket));
    assert(name_view(Some(bucket)) == Some(bucket@));
    if ro {
        Err(read_only_error())
    } else {
        Ok(())
    }
}

/// Whether `storage_class` is one this service stores.
pub fn is_valid_storage_class(storage_class: &str) -> (r: bool)
    ensures
        r == spec_valid_storage_class(storage_class@),
{
    same_text(storage_class, "STANDARD") || same_text(storage_class, "REDUCED_REDUNDANCY")
}

/// The outcome of the checks a put request passes before its body is read.
pub open spec fn spec_put_kind(
    config: Config,
    bucket: Seq<char>,
    bucket_exists: bool,
    key: Seq<char>,
    storage_class: Option<Seq<char>>,
    has_body: bool,
    content_length: Option<i64>,
) -> core::result::Result<PutKind, ErrorCode> {
    if refuses_writes(config, bucket) {
        Err(ErrorCode::MethodNotAllowed)
    } else if !bucket_exists {
        Err(ErrorCode::NoSuchBucket)
    } else if !has_body {
        Err(ErrorCode::IncompleteBody)
    } else if storage_class matches Some(c) && !spec_valid_storage_class(c) {
        Err(ErrorCode::InvalidStorageClass)
    } else if key.len() > 0 && key.last() == '/' {
        if content_length matches Some(n) && n > 0 {
            Err(ErrorCode::UnexpectedContent)
        } else {
            Ok(PutKind::Directory)
        }
    } else {
        Ok(PutKind::Object)
    }
}

/// The checks of a put request, in order: read-only, bucket, body, storage
/// class, and a directory key's content length.
pub fn check_put_object(
    config: &Config,
    bucket: &str,
    bucket_exists: bool,
    key: &str,
    storage_class: Option<&str>,
    has_body: bool,
    content_length: Option<i64>,
) -> (r: Result<PutKind>)
    ensures
        match spec_put_kind(
            *config,
            bucket@,
            bucket_exists,
            key@,
            name_view(storage_class),
            has_body,
            content_length,
        ) {
            Ok(k) => r == Ok::<PutKind, S3ite>(k),
            Err(c) => r matches Err(e) && e.is(c),
        },
        r matches Err(e) ==> (e.is(ErrorCode::MethodNotAllowed) ==> (e->S3_0.message matches Some(
            m,
        ) && m@ == READ_ONLY_MESSAGE@)),
{
    validate_mutable_bucket(config, bucket)?;
    if !bucket_exists {
        return Err(s3_error(ErrorCode::NoSuchBucket));
    }
    if !has_body {
        return Err(s3_error(ErrorCode::IncompleteBody));
    }
    if let Some(class) = storage_class {
        if !is_valid_storage_class(class) {
            return Err(s3_error(ErrorCode::InvalidStorageClass));
        }
    }
    if ends_with_char(key, '/') {
        if let Some(n) = content_length {
            if n > 0 {
                return Err(s3_error_with(ErrorCode::UnexpectedContent, DIRECTORY_CONTENT_MESSAGE));
            }
        }
        Ok(PutKind::Directory)
    } else {
        Ok(PutKind::Object)
    }
}

/// Whether a client's `Content-MD5` matches the digest of the body.
pub open spec fn digest_matches(content_md5: Option<Seq<char>>, body: Seq<u8>) -> bool {
    match content_md5 {
        None => true,
        Some(c) => c == base64_std(md5_of(body)),
    }
}

/// Checks a client's `Content-MD5` (base64 of the raw digest) against the
/// digest of the body.
pub fn check_content_md5(content_md5: Option<&str>, digest: &[u8]) -> (r: Result<()>)
    ensures
        match content_md5 {
            None => r is Ok,
            Some(c) => if c@ == base64_std(digest@) {
                r is Ok
            } else {
                r matches Err(e) && e.is(ErrorCode::BadDigest)
            },
        },
{
    match content_md5 {
        None => Ok(()),
        Some(c) => {
            let expected = base64(digest);
            if same_text(c, expected.as_str()) {
                Ok(())
            } else {
                Err(s3_error(ErrorCode::BadDigest))
            }
        },
    }
}

/// The record a put of `body` under `key` stores, after checking the
/// client's `Content-MD5`.
pub fn object_record(
    key: String,
    body: Vec<u8>,
    metadata: Option<String>,
    last_modified: String,
    content_md5: Option<&str>,
) -> (r: Result<KeyValue>)
    ensures
        digest_matches(name_view(content_md5), body@) <==> r is Ok,
        r matches Err(e) ==> e.is(ErrorCode::BadDigest),
        r matches Ok(kv) ==> {
            &&& kv.key == key
            &&& kv.value matches Some(v) && v@ == body@
            &&& kv.size == body@.len()
            &&& kv.metadata == metadata
            &&& kv.last_modified == last_modified
            &&& kv.md5 matches Some(m) && m@ == etag_of(body@)
        },
{
    let digest = md5_digest(body.as_slice());
    check_content_md5(content_md5, digest.as_slice())?;
    let md5 = hex(digest.as_slice());
    let size = body.len() as u64;
    Ok(KeyValue { key, value: Some(body), size, metadata, last_modified, md5: Some(md5) })
}

/// The record a directory marker stores: no payload, size 0, no digest.
pub fn directory_record(key: String, metadata: Option<String>, last_modified: String) -> (r:
    KeyValue)
    ensures
        r.key == key,
        r.value is None,
        r.size == 0,
        r.metadata == metadata,
        r.last_modified == last_modified,
        r.md5 is None,
{
    KeyValue { key, value: None, size: 0, metadata, last_modified, md5: None }
}

/// The record a copy writes: the source object under the target key.
pub fn retarget(object: KeyValue, key: String) -> (r: KeyValue)
    ensures
        r.key == key,
        r.value == object.value,
        r.size == object.size,
        r.metadata == object.metadata,
        r.last_modified == object.last_modified,
        r.md5 == object.md5,
{
    KeyValue { key, ..object }
}

/// What a GET returns.
#[derive(Debug)]
pub struct ServedObject {
    pub body: Vec<u8>,
    pub content_length: u64,
    pub e_tag: Option<String>,
    pub last_modified: String,
    pub metadata: Option<String>,
}

/// The part of `object` that `range` selects, with its length, the stored
/// digest as ETag, and the stored time of the last write.
pub fn serve_object(object: KeyValue, range: Option<ByteRange>) -> (r: Result<ServedObject>)
    ensures
        match range_span(range, payload(object.value).len()) {
            None => r matches Err(e) && e.is(ErrorCode::InvalidRange),
            Some((s, e)) => r matches Ok(o) && {
                &&& o.body@ == payload(object.value).subrange(s as int, e as int)
                &&& o.content_length == e - s
                &&& o.e_tag == object.md5
                &&& o.last_modified == object.last_modified
                &&& o.metadata == object.metadata
            },
        },
{
    let value = match object.value {
        Some(v) => v,
        None => Vec::new(),
    };
    let size = value.len() as u64;
    let (start, end) = resolve_range(range, size)?;
    let body = copy_span(value.as_slice(), start as usize, end as usize);
    Ok(ServedObject {
        body,
        content_length: end - start,
        e_tag: object.md5,
        last_modified: object.last_modified,
        metadata: object.metadata,
    })
}

/// Whether a multipart caller may use an upload: the stored access key equals
/// the caller's, an absent key matching only an absent one.
pub fn access_matches(stored: &Option<String>, caller: &Option<String>) -> (r: bool)
    ensures
        r == match (stored, caller) {
            (Some(a), Some(b)) => a@ == b@,
            (None, None) => true,
            _ => false,
        },
{
    match (stored, caller) {
        (Some(a), Some(b)) => *a == *b,
        (None, None) => true,
        _ => false,
    }
}

/// Whether the parts a completion names are numbered 1, 2, 3, ... in order.
pub open spec fn parts_in_order(parts: Seq<Option<i32>>) -> bool {
    forall|i: int| 0 <= i < parts.len() ==> parts[i] == Some((i + 1) as i32) && i + 1 <= i32::MAX
}

/// Checks the part list of a completion: it must be present, and its part
/// numbers must run 1, 2, 3, ... without gap.
pub fn check_part_order(parts: &Option<Vec<Option<i32>>>) -> (r: Result<()>)
    ensures
        match parts {
            None => r matches Err(e) && e.is(ErrorCode::InvalidPart),
            Some(p) => if parts_in_order(p@) {
                r is Ok
            } else {
                r matches Err(e) && e.is(ErrorCode::InvalidRequest) && (e->S3_0.message matches Some(
                    m,
                ) && m@ == PART_ORDER_MESSAGE@)
            },
        },
{
    match parts {
        None => Err(s3_error(ErrorCode::InvalidPart)),
        Some(p) => if numbered_in_order(p) {
            Ok(())
        } else {
            Err(s3_error_with(ErrorCode::InvalidRequest, PART_ORDER_MESSAGE))
        },
    }
}

fn numbered_in_order(p: &Vec<Option<i32>>) -> (r: bool)
    ensures
        r == parts_in_order(p@),
{
    let mut i: usize = 0;
    while i < p.len()
        invariant
            i <= p@.len(),
            forall|k: int| 0 <= k < i ==> p@[k] == Some((k + 1) as i32) && k + 1 <= i32::MAX,
        decreases p@.len() - i,
    {
        if i >= i32::MAX as usize {
            return false;
        }
        let expected = (i + 1) as i32;
        let fits = match p[i] {
            Some(n) => n == expected,
            None => false,
        };
        if !fits {
            return false;
        }
        i = i + 1;
    }
    true
}

/// The payloads of `parts` concatenated in order.
pub open spec fn joined(parts: Seq<Multipart>) -> Seq<u8>
    decreases parts.len(),
{
    if parts.len() == 0 {
        Seq::empty()
    } else {
        joined(parts.drop_last()) + parts.last().value@
    }
}

/// Concatenates the payloads of `parts`, in order.
pub fn assemble_parts(parts: &Vec<Multipart>) -> (r: Vec<u8>)
    ensures
        r@ == joined(parts@),
{
    let mut out: Vec<u8> = Vec::new();
    let mut i: usize = 0;
    assert(parts@.take(0) =~= Seq::<Multipart>::empty());
    while i < parts.len()
        invariant
            i <= parts@.len(),
            out@ == joined(parts@.take(i as int)),
        decreases parts@.len() - i,
    {
        out.extend_from_slice(parts[i].value.as_slice());
        assert(parts@.take(i + 1).drop_last() =~= parts@.take(i as int));
        i = i + 1;
    }
    assert(parts@.take(parts@.len() as int) =~= parts@);
    out
}

/// The object a completed multipart upload becomes: the parts' payloads in
/// order, with the digest of the whole.
pub fn completed_record(key: String, parts: &Vec<Multipart>, last_modified: String) -> (r: KeyValue)
    ensures
        r.key == key,
        r.value matches Some(v) && v@ == joined(parts@),
        r.size == joined(parts@).len(),
        r.metadata is None,
        r.last_modified == last_modified,
        r.md5 matches Some(m) && m@ == etag_of(joined(parts@)),
{
    let value = assemble_parts(parts);
    let digest = md5_digest(value.as_slice());
    let md5 = hex(digest.as_slice());
    let size = value.len() as u64;
    KeyValue { key, value: Some(value), size, metadata: None, last_modified, md5: Some(md5) }
}

/// The row an uploaded part stores, after checking the client's `Content-MD5`.
pub fn part_record(
    upload_id: Vec<u8>,
    part_number: i32,
    body: Vec<u8>,
    content_md5: Option<&str>,
    last_modified: String,
) -> (r: Result<Multipart>)
    ensures
        !digest_matches(name_view(content_md5), body@) ==> (r matches Err(e) && e.is(
            ErrorCode::BadDigest,
        )),
        digest_matches(name_view(content_md5), body@) && body@.len() <= i64::MAX ==> (r matches Ok(
            p,
        ) && {
            &&& p.upload_id == upload_id
            &&& p.part_number == part_number
            &&& p.value@ == body@
            &&& p.size == body@.len()
            &&& p.last_modified == last_modified
            &&& p.md5 matches Some(m) && m@ == etag_of(body@)
        }),
{
    let digest = md5_digest(body.as_slice());
    check_content_md5(content_md5, digest.as_slice())?;
    if body.len() as u64 > i64::MAX as u64 {
        return Err(S3ite::TryFromInt);
    }
    let md5 = hex(digest.as_slice());
    let size = body.len() as i64;
    Ok(Multipart { upload_id, part_number, last_modified, value: body, size, md5: Some(md5) })
}

/// What a single-object delete concludes from the rows it removed: a
/// directory key may take at most one object with it, any other key exactly
/// one.
pub fn delete_outcome(is_directory: bool, rows_affected: usize) -> (r: Result<()>)
    ensures
        is_directory ==> if rows_affected > 1 {
            r matches Err(e) && e.is(ErrorCode::BucketNotEmpty)
        } else {
            r is Ok
        },
        !is_directory ==> if rows_affected != 1 {
            r matches Err(e) && e.is(ErrorCode::NoSuchKey)
        } else {
            r is Ok
        },
{
    if is_directory {
        if rows_affected > 1 {
            Err(s3_error(ErrorCode::BucketNotEmpty))
        } else {
            Ok(())
        }
    } else if rows_affected != 1 {
        Err(s3_error(ErrorCode::NoSuchKey))
    } else {
        Ok(())
    }
}

/// The operations of the S3 interface this service answers.
#[derive(Copy, Clone, Debug, PartialEq, Eq, Structural)]
pub enum Verb {
    ListBuckets,
    CreateBucket,
    DeleteBucket,
    HeadBucket,
    GetBucketLocation,
    PutObject,
    GetObject,
    HeadObject,
    DeleteObject,
    DeleteObjects,
    CopyObject,
    ListObjects,
    ListObjectsV2,
    CreateMultipartUpload,
    UploadPart,
    ListParts,
    CompleteMultipartUpload,
}

impl Verb {
    /// Whether the operation writes to a bucket.
    pub open spec fn spec_is_mutating(self) -> bool {
        match self {
            Verb::CreateBucket | Verb::DeleteBucket | Verb::PutObject | Verb::DeleteObject
            | Verb::DeleteObjects | Verb::CopyObject | Verb::CreateMultipartUpload
            | Verb::UploadPart | Verb::CompleteMultipartUpload => true,
            _ => false,
        }
    }

    pub fn is_mutating(self) -> (r: bool)
        ensures
            r == self.spec_is_mutating(),
    {
        match self {
            Verb::CreateBucket | Verb::DeleteBucket | Verb::PutObject | Verb::DeleteObject
            | Verb::DeleteObjects | Verb::CopyObject | Verb::CreateMultipartUpload
            | Verb::UploadPart | Verb::CompleteMultipartUpload => true,
            _ => false,
        }
    }
}

/// Whether `verb` on `bucket` is let through the read-only gate.
pub open spec fn spec_admits(config: Config, verb: Verb, bucket: Seq<char>) -> bool {
    !(verb.spec_is_mutating() && refuses_writes(config, bucket))
}

/// The read-only gate every request passes first: a mutating operation on a
/// read-only bucket is refused with `MethodNotAllowed`.
pub fn gate_request(config: &Config, verb: Verb, bucket: &str) -> (r: Result<()>)
    ensures
        spec_admits(*config, verb, bucket@) <==> r is Ok,
        r matches Err(e) ==> e.is(ErrorCode::MethodNotAllowed) && (e->S3_0.message matches Some(m)
            && m@ == READ_ONLY_MESSAGE@),
{
    if verb.is_mutating() {
        validate_mutable_bucket(config, bucket)
    } else {
        Ok(())
    }
}

/// On a read-only bucket every mutating operation is refused, and every
/// other one is let through.
pub proof fn lemma_read_only_refuses_mutations(config: Config, bucket: Seq<char>, verb: Verb)
    requires
        refuses_writes(config, bucket),
    ensures
        spec_admits(config, verb, bucket) <==> !verb.spec_is_mutating(),
        spec_put_kind(config, bucket, true, bucket, None, true, None) == Err::<PutKind, ErrorCode>(
            ErrorCode::MethodNotAllowed,
        ),
{
}

/// A put of a key ending in `/` with an empty body stores a directory
/// marker, on any writable bucket that exists.
pub proof fn lemma_directory_marker_put(
    config: Config,
    bucket: Seq<char>,
    key: Seq<char>,
    storage_class: Option<Seq<char>>,
    content_length: Option<i64>,
)
    requires
        !refuses_writes(config, bucket),
        key.len() > 0 && key.last() == '/',
        storage_class matches Some(c) ==> spec_valid_storage_class(c),
        content_length matches Some(n) ==> n == 0,
    ensures
        spec_put_kind(config, bucket, true, key, storage_class, true, content_length) == Ok::<
            PutKind,
            ErrorCode,
        >(PutKind::Directory),
{
}

/// The record a put writes, and the record a copy writes from it, serve
/// back, without a range, exactly the bytes that were put, with the hex MD5
/// of those bytes as ETag.
pub proof fn lemma_put_record_serves_body(kv: KeyValue, body: Seq<u8>)
    requires
        kv.value matches Some(v) && v@ == body,
        kv.md5 matches Some(m) && m@ == etag_of(body),
    ensures
        range_span(None, payload(kv.value).len()) == Some((0nat, body.len())),
        payload(kv.value).subrange(0, body.len() as int) == body,
        kv.md5 matches Some(m) && m@ == hex_lower(md5_of(body)),
{
    assert(payload(kv.value).subrange(0, body.len() as int) =~= body);
}

/// The checks of a bucket creation: the read-only gate, then that neither a
/// registered bucket nor a file already has the name.
pub fn check_create_bucket(config: &Config, bucket: &str, registered: bool, file_exists: bool) -> (r:
    Result<()>)
    ensures
        refuses_writes(*config, bucket@) ==> (r matches Err(e) && e.is(ErrorCode::MethodNotAllowed)),
        !refuses_writes(*config, bucket@) && (registered || file_exists) ==> (r matches Err(e) && e.is(
            ErrorCode::BucketAlreadyExists,
        )),
        !refuses_writes(*config, bucket@) && !registered && !file_exists ==> r is Ok,
{
    validate_mutable_bucket(config, bucket)?;
    if registered || file_exists {
        Err(s3_error(ErrorCode::BucketAlreadyExists))
    } else {
        Ok(())
    }
}

/// A bucket is present when it is registered and its file exists.
pub fn check_bucket_present(registered: bool, file_exists: bool) -> (r: Result<()>)
    ensures
        registered && file_exists <==> r is Ok,
        r matches Err(e) ==> e.is(ErrorCode::NoSuchBucket),
{
    if registered && file_exists {
        Ok(())
    } else {
        Err(s3_error(ErrorCode::NoSuchBucket))
    }
}

/// The sixteen bytes of the upload identifier a client sent; `InvalidRequest`
/// when the text names none.
pub fn upload_id_of(text: &str) -> (r: Result<Vec<u8>>)
    ensures
        match parsed_uuid(text@) {
            Some(b) => r matches Ok(v) && v@ == b && v@.len() == 16,
            None => r matches Err(e) && e.is(ErrorCode::InvalidRequest),
        },
{
    match parse_upload_id(text) {
        Some(id) => Ok(id),
        None => Err(s3_error(ErrorCode::InvalidRequest)),
    }
}

} // verus!
