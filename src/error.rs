use vstd::prelude::*;

verus! {

#[verifier::external_type_specification]
#[verifier::external_body]
pub struct ExSqliteError(rusqlite::Error);

#[verifier::external_type_specification]
#[verifier::external_body]
pub struct ExIoError(std::io::Error);

/// The S3 error codes this service answers with.
#[derive(Copy, Clone, Debug, PartialEq, Eq, Structural)]
pub enum ErrorCode {
    AccessDenied,
    BadDigest,
    BucketAlreadyExists,
    BucketNotEmpty,
    IncompleteBody,
    InternalError,
    InvalidBucketName,
    InvalidPart,
    InvalidRange,
    InvalidRequest,
    InvalidStorageClass,
    InvalidToken,
    MethodNotAllowed,
    NoSuchBucket,
    NoSuchKey,
    NotImplemented,
    UnexpectedContent,
}

/// An S3 error: its code and, where there is one, a short message.
#[derive(Clone, Debug)]
pub struct S3Failure {
    pub code: ErrorCode,
    pub message: Option<String>,
}

/// Everything that can go wrong inside the service.
#[derive(Debug)]
pub enum S3ite {
    S3(S3Failure),
    Rusqlite(rusqlite::Error),
    Io(std::io::Error),
    Crossbeam,
    Tokio,
    TryFromInt,
    Copy,
    Hyper,
    Yaml,
}

pub type Result<T> = core::result::Result<T, S3ite>;

impl S3ite {
    /// The S3 error code this error is answered with.
    pub open spec fn spec_code(&self) -> ErrorCode {
        match self {
            S3ite::S3(f) => f.code,
            _ => ErrorCode::InternalError,
        }
    }

    pub fn code(&self) -> (r: ErrorCode)
        ensures
            r == self.spec_code(),
    {
        match self {
            S3ite::S3(f) => f.code,
            _ => ErrorCode::InternalError,
        }
    }

    /// Whether this is the S3 error `code`.
    pub open spec fn is(&self, code: ErrorCode) -> bool {
        self is S3 && self.spec_code() == code
    }
}

/// The S3 error `code` without a message.
pub fn s3_error(code: ErrorCode) -> (r: S3ite)
    ensures
        r.is(code),
        r->S3_0.message is None,
{
    S3ite::S3(S3Failure { code, message: None })
}

/// The S3 error `code` with `message`.
pub fn s3_error_with(code: ErrorCode, message: &str) -> (r: S3ite)
    ensures
        r.is(code),
        r->S3_0.message matches Some(m) && m@ == message@,
{
    S3ite::S3(S3Failure { code, message: Some(String::from_str(message)) })
}

/// An engine failure, answered as an internal error.
pub fn engine_error(e: rusqlite::Error) -> (r: S3ite)
    ensures
        r is Rusqlite,
        r.spec_code() == ErrorCode::InternalError,
{
    S3ite::Rusqlite(e)
}

} // verus!
