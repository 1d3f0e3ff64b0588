use vstd::prelude::*;

verus! {

/// RFC-3339 text, in UTC, of the instant `secs` seconds after the epoch.
pub uninterp spec fn rfc3339_text(secs: int) -> Seq<char>;

/// What `uuid::Uuid::parse_str` accepts for `s`: the sixteen bytes it names.
pub uninterp spec fn parsed_uuid(s: Seq<char>) -> Option<Seq<u8>>;

/// The hyphenated lowercase text of a sixteen-byte identifier: 8-4-4-4-12
/// hexadecimal digits.
pub open spec fn uuid_text(b: Seq<u8>) -> Seq<char> {
    crate::utils::hex_lower(b.subrange(0, 4)) + "-"@ + crate::utils::hex_lower(b.subrange(4, 6))
        + "-"@ + crate::utils::hex_lower(b.subrange(6, 8)) + "-"@ + crate::utils::hex_lower(
        b.subrange(8, 10),
    ) + "-"@ + crate::utils::hex_lower(b.subrange(10, 16))
}

/// Relies on uuid::Uuid::new_v4 and its `Display` form: a fresh random
/// identifier as text.
#[verifier::external_body]
pub fn fresh_token() -> (r: String) {
    uuid::Uuid::new_v4().to_string()
}

/// Relies on uuid::Uuid::new_v4 and as_bytes: the sixteen bytes of a fresh
/// random identifier.
#[verifier::external_body]
pub fn fresh_upload_id() -> (r: Vec<u8>)
    ensures
        r@.len() == 16,
{
    uuid::Uuid::new_v4().as_bytes().to_vec()
}

/// Relies on uuid::Uuid::from_slice and the hyphenated `Display` form, which
/// writes lowercase digits.
#[verifier::external_body]
pub fn upload_id_text(id: &[u8]) -> (r: String)
    requires
        id@.len() == 16,
    ensures
        r@ == uuid_text(id@),
{
    uuid::Uuid::from_slice(id).unwrap().hyphenated().to_string()
}

/// Relies on uuid::Uuid::parse_str: the identifier named by `s`, if it names one.
#[verifier::external_body]
pub fn parse_upload_id(s: &str) -> (r: Option<Vec<u8>>)
    ensures
        match r {
            Some(b) => parsed_uuid(s@) == Some(b@) && b@.len() == 16,
            None => parsed_uuid(s@) is None,
        },
{
    uuid::Uuid::parse_str(s).ok().map(|u| u.as_bytes().to_vec())
}

/// Relies on time::OffsetDateTime::now_utc and unix_timestamp: the present
/// instant in whole seconds since the epoch.
#[verifier::external_body]
pub fn now_unix_seconds() -> (r: i64) {
    time::OffsetDateTime::now_utc().unix_timestamp()
}

/// First second of year 0, the earliest instant RFC 3339 can write.
pub const RFC3339_FIRST_SECOND: i64 = -62_167_219_200;

/// Last second of year 9999, the latest instant RFC 3339 can write.
pub const RFC3339_LAST_SECOND: i64 = 253_402_300_799;

/// Relies on time::OffsetDateTime::from_unix_timestamp and format with
/// `Rfc3339`: both accept every instant of the years 0 to 9999 in UTC, and
/// writing into a `String` cannot fail.
#[verifier::external_body]
pub fn rfc3339_of_unix(secs: i64) -> (r: Option<String>)
    ensures
        r matches Some(s) ==> s@ == rfc3339_text(secs as int),
        RFC3339_FIRST_SECOND <= secs <= RFC3339_LAST_SECOND ==> r is Some,
{
    let t = time::OffsetDateTime::from_unix_timestamp(secs).ok()?;
    t.format(&time::format_description::well_known::Rfc3339).ok()
}

} // verus!
