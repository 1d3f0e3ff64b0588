//! An S3-compatible object store whose buckets are embedded SQL database
//! files: the per-bucket pragma profile, the query layer, the listing
//! snapshots and the request rules, each with its contract.

pub mod config;
pub mod engine;
pub mod error;
pub mod handlers;
pub mod ids;
pub mod listing;
pub mod objects;
pub mod query;
pub mod range;
pub mod registry;
pub mod text;
pub mod utils;

pub use crate::config::{
    default_cache_size, default_concurrency_limit, default_host, default_journal_mode,
    default_permissive_cors, default_port, default_pragmas, default_read_only, default_root,
    default_synchronous, default_temp_store, Bucket, BucketPragmas, Config, JournalMode, Pragmas,
    Synchronous, TempStore,
};
pub use crate::error::{ErrorCode, Result, S3Failure, S3ite};
pub use crate::listing::{
    clamp_max_keys, next_marker, ContinuationToken, KeySize, ListPage, TokenStore,
};
pub use crate::objects::{
    check_bucket_present, check_content_md5, check_create_bucket, check_part_order, check_put_object, completed_record, delete_outcome,
    directory_record, gate_request, object_record, part_record, retarget, serve_object,
    upload_id_of, validate_mutable_bucket, KeyMetadata, KeyValue, Multipart, MultipartMetadata, PutKind,
    ServedObject, Verb,
};
pub use crate::range::{resolve_range, ByteRange};
pub use crate::registry::{bucket_file_name, bucket_of_file_name, get_bucket_path, missing_buckets};
pub use crate::utils::{base64, hex, md5_digest, repeat_vars};
