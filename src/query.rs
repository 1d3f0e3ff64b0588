use vstd::prelude::*;

use crate::config::name_view;
use crate::engine::{execute, query, row_fits, ColumnKind, SqlValue};
use crate::error::{engine_error, s3_error_with, ErrorCode, Result, S3ite};
use crate::listing::KeySize;
use crate::objects::{KeyMetadata, KeyValue, Multipart, MultipartMetadata};
use crate::text::{seq_less, starts_with, text_less};
use crate::registry::{is_found, names};
use crate::utils::repeat_vars;

verus! {

/// Message of the error a row of an unexpected shape gets.
pub const MALFORMED_ROW_MESSAGE: &'static str = "malformed row";

fn malformed() -> (r: S3ite)
    ensures
        r.is(ErrorCode::InternalError),
{
    s3_error_with(ErrorCode::InternalError, MALFORMED_ROW_MESSAGE)
}

/// The text a value holds, if it is text.
pub open spec fn text_in(v: SqlValue) -> Option<Seq<char>> {
    match v {
        SqlValue::Text(s) => Some(s@),
        _ => None,
    }
}

/// The text a nullable text value holds: `Some(None)` for `NULL`, `None` when
/// it is neither.
pub open spec fn optional_text_in(v: SqlValue) -> Option<Option<Seq<char>>> {
    match v {
        SqlValue::Null => Some(None),
        SqlValue::Text(s) => Some(Some(s@)),
        _ => None,
    }
}

/// The size a value holds, if it is a non-negative integer.
pub open spec fn size_in(v: SqlValue) -> Option<u64> {
    match v {
        SqlValue::Integer(i) => if i >= 0 {
            Some(i as u64)
        } else {
            None
        },
        _ => None,
    }
}

pub open spec fn optional_text_view(v: Option<String>) -> Option<Seq<char>> {
    match v {
        Some(s) => Some(s@),
        None => None,
    }
}

fn text_of(v: SqlValue) -> (r: Result<String>)
    ensures
        r matches Err(e) ==> e.is(ErrorCode::InternalError),
        match text_in(v) {
            Some(t) => r matches Ok(s) && s@ == t,
            None => r is Err,
        },
{
    match v {
        SqlValue::Text(s) => Ok(s),
        _ => Err(malformed()),
    }
}

fn optional_text_of(v: SqlValue) -> (r: Result<Option<String>>)
    ensures
        r matches Err(e) ==> e.is(ErrorCode::InternalError),
        match optional_text_in(v) {
            Some(t) => r matches Ok(o) && optional_text_view(o) == t,
            None => r is Err,
        },
{
    match v {
        SqlValue::Null => Ok(None),
        SqlValue::Text(s) => Ok(Some(s)),
        _ => Err(malformed()),
    }
}


/// The bytes a nullable blob value holds: `Some(None)` for `NULL`, `None`
/// when it is neither.
pub open spec fn optional_blob_in(v: SqlValue) -> Option<Option<Seq<u8>>> {
    match v {
        SqlValue::Null => Some(None),
        SqlValue::Blob(b) => Some(Some(b@)),
        _ => None,
    }
}

pub open spec fn optional_bytes_view(v: Option<Vec<u8>>) -> Option<Seq<u8>> {
    match v {
        Some(b) => Some(b@),
        None => None,
    }
}

fn optional_blob_of(v: SqlValue) -> (r: Result<Option<Vec<u8>>>)
    ensures
        r matches Err(e) ==> e.is(ErrorCode::InternalError),
        match optional_blob_in(v) {
            Some(t) => r matches Ok(o) && optional_bytes_view(o) == t,
            None => r is Err,
        },
{
    match v {
        SqlValue::Null => Ok(None),
        SqlValue::Blob(b) => Ok(Some(b)),
        _ => Err(malformed()),
    }
}


fn size_of(v: SqlValue) -> (r: Result<u64>)
    ensures
        r matches Err(e) ==> e.is(ErrorCode::InternalError),
        match size_in(v) {
            Some(n) => r == Ok::<u64, S3ite>(n),
            None => r is Err,
        },
{
    match v {
        SqlValue::Integer(i) => if i >= 0 {
            Ok(i as u64)
        } else {
            Err(malformed())
        },
        _ => Err(malformed()),
    }
}

fn optional_text(v: Option<String>) -> (r: SqlValue)
    ensures
        is_optional_text_param(r, optional_text_view(v)),
{
    match v {
        Some(s) => SqlValue::Text(s),
        None => SqlValue::Null,
    }
}

fn optional_blob(v: Option<Vec<u8>>) -> (r: SqlValue)
    ensures
        is_optional_blob_param(r, optional_bytes_view(v)),
{
    match v {
        Some(b) => SqlValue::Blob(b),
        None => SqlValue::Null,
    }
}

fn integer_param(n: u64) -> (r: Result<SqlValue>)
    ensures
        n > i64::MAX <==> r matches Err(S3ite::TryFromInt),
        n <= i64::MAX ==> (r matches Ok(v) && v matches SqlValue::Integer(i) && i == n),
{
    if n > i64::MAX as u64 {
        Err(S3ite::TryFromInt)
    } else {
        Ok(SqlValue::Integer(n as i64))
    }
}

fn run(tx: &rusqlite::Transaction, sql: &str, params: &Vec<SqlValue>) -> (r: Result<usize>)
    ensures
        r matches Err(e) ==> e is Rusqlite,
{
    match execute(tx, sql, params) {
        Ok(n) => Ok(n),
        Err(e) => Err(engine_error(e)),
    }
}

fn rows(tx: &rusqlite::Transaction, sql: &str, params: &Vec<SqlValue>, kinds: &Vec<ColumnKind>) -> (r:
    Result<Vec<Vec<SqlValue>>>)
    ensures
        r matches Err(e) ==> e is Rusqlite,
        r matches Ok(rows) ==> forall|i: int|
            0 <= i < rows@.len() ==> row_fits(#[trigger] rows@[i]@, kinds@),
{
    match query(tx, sql, params, kinds) {
        Ok(r) => Ok(r),
        Err(e) => Err(engine_error(e)),
    }
}

/// Creates the four tables of a bucket, where they do not exist yet.
pub fn try_create_tables(tx: &rusqlite::Transaction) -> (r: Result<usize>)
    ensures
        r matches Err(e) ==> e is Rusqlite,
{
    let none: Vec<SqlValue> = Vec::new();
    run(
        tx,
        "CREATE TABLE IF NOT EXISTS data (
            key TEXT PRIMARY KEY,
            value BLOB
        );",
        &none,
    )?;
    run(
        tx,
        "CREATE TABLE IF NOT EXISTS metadata (
            key TEXT PRIMARY KEY,
            size INTEGER NOT NULL,
            metadata TEXT,
            last_modified TEXT NOT NULL,
            md5 TEXT,
            FOREIGN KEY (key) REFERENCES data (key) ON DELETE CASCADE
        ) WITHOUT ROWID;",
        &none,
    )?;
    run(
        tx,
        "CREATE TABLE IF NOT EXISTS multipart_upload (
            upload_id BLOB NOT NULL PRIMARY KEY,
            bucket TEXT NOT NULL,
            key TEXT NOT NULL,
            last_modified TEXT NOT NULL,
            access_key TEXT,
            UNIQUE(upload_id, bucket, key)
        );",
        &none,
    )?;
    run(
        tx,
        "CREATE TABLE IF NOT EXISTS multipart_upload_part (
            upload_id BLOB NOT NULL,
            last_modified TEXT NOT NULL,
            part_number INTEGER NOT NULL,
            value BLOB NOT NULL,
            size INTEGER NOT NULL,
            md5 TEXT,
            PRIMARY KEY (upload_id, part_number),
            FOREIGN KEY (upload_id) REFERENCES multipart_upload (upload_id) ON DELETE CASCADE
        );",
        &none,
    )
}

/// Whether `key` belongs in a listing under `prefix` after `start_after`.
pub open spec fn listable(key: Seq<char>, prefix: Option<Seq<char>>, start_after: Option<Seq<char>>) -> bool {
    &&& prefix matches Some(p) ==> p.len() <= key.len() && key.subrange(0, p.len() as int) == p
    &&& start_after matches Some(s) ==> seq_less(s, key)
}

/// Whether `rows` is a listing under `prefix` after `start_after`: every key
/// qualifies, and the keys strictly ascend.
pub open spec fn is_listing(rows: Seq<KeySize>, prefix: Option<Seq<char>>, start_after: Option<Seq<char>>) -> bool {
    &&& forall|i: int| 0 <= i < rows.len() ==> listable(#[trigger] rows[i].key@, prefix, start_after)
    &&& forall|i: int| 0 <= i < rows.len() - 1 ==> seq_less(#[trigger] rows[i].key@, rows[i + 1].key@)
}

/// Whether `row` is a listing row: text key, non-negative size, text time,
/// nullable text digest.
pub open spec fn is_key_size_row(row: Seq<SqlValue>) -> bool {
    &&& text_in(row[0]) is Some
    &&& size_in(row[1]) is Some
    &&& text_in(row[2]) is Some
    &&& optional_text_in(row[3]) is Some
}

/// The listing row that the engine's columns `key, size, last_modified, md5`
/// hold; an internal error when their shape is wrong.
pub fn key_size_of(row: Vec<SqlValue>) -> (r: Result<KeySize>)
    requires
        row@.len() == 4,
    ensures
        r matches Err(e) ==> e.is(ErrorCode::InternalError),
        is_key_size_row(row@) <==> r is Ok,
        r matches Ok(ks) ==> {
            &&& Some(ks.key@) == text_in(row@[0])
            &&& Some(ks.size) == size_in(row@[1])
            &&& Some(ks.last_modified@) == text_in(row@[2])
            &&& Some(optional_text_view(ks.md5)) == optional_text_in(row@[3])
        },
{
    let mut row = row;
    let key = text_of(row.remove(0))?;
    let size = size_of(row.remove(0))?;
    let last_modified = text_of(row.remove(0))?;
    let md5 = optional_text_of(row.remove(0))?;
    Ok(KeySize { key, size, last_modified, md5 })
}

/// Whether `ks` is the listing row that `row` holds.
pub open spec fn holds_key_size(ks: KeySize, row: Seq<SqlValue>) -> bool {
    &&& Some(ks.key@) == text_in(row[0])
    &&& Some(ks.size) == size_in(row[1])
    &&& Some(ks.last_modified@) == text_in(row[2])
    &&& Some(optional_text_view(ks.md5)) == optional_text_in(row[3])
}

/// The key text in column 0 of `row`, empty when there is none.
pub open spec fn row_key(row: Seq<SqlValue>) -> Seq<char> {
    match text_in(row[0]) {
        Some(k) => k,
        None => Seq::empty(),
    }
}

/// The rows of `rows` whose keys qualify for a listing under `prefix` after
/// `start_after`, in order.
pub open spec fn listed_rows(
    rows: Seq<Vec<SqlValue>>,
    prefix: Option<Seq<char>>,
    start_after: Option<Seq<char>>,
) -> Seq<Vec<SqlValue>>
    decreases rows.len(),
{
    if rows.len() == 0 {
        Seq::empty()
    } else {
        let r = listed_rows(rows.drop_last(), prefix, start_after);
        if listable(row_key(rows.last()@), prefix, start_after) {
            r.push(rows.last())
        } else {
            r
        }
    }
}

/// Whether the keys of `rows` strictly ascend.
pub open spec fn row_keys_ascend(rows: Seq<Vec<SqlValue>>) -> bool {
    forall|i: int| 0 <= i < rows.len() - 1 ==> #[trigger] seq_less(row_key(rows[i]@), row_key(rows[i + 1]@))
}

/// The qualifying rows of a prefix of `rows` are a prefix of those of `rows`.
pub proof fn lemma_listed_prefix(
    rows: Seq<Vec<SqlValue>>,
    prefix: Option<Seq<char>>,
    start_after: Option<Seq<char>>,
    j: int,
)
    requires
        0 <= j <= rows.len(),
    ensures
        listed_rows(rows.take(j), prefix, start_after).len() <= listed_rows(rows, prefix, start_after).len(),
        listed_rows(rows, prefix, start_after).take(listed_rows(rows.take(j), prefix, start_after).len() as int)
            == listed_rows(rows.take(j), prefix, start_after),
    decreases rows.len(),
{
    let whole = listed_rows(rows, prefix, start_after);
    if j == rows.len() {
        assert(rows.take(j) =~= rows);
        assert(whole.take(whole.len() as int) =~= whole);
    } else {
        let d = rows.drop_last();
        assert(d.take(j) =~= rows.take(j));
        lemma_listed_prefix(d, prefix, start_after, j);
        let part = listed_rows(rows.take(j), prefix, start_after);
        let ld = listed_rows(d, prefix, start_after);
        if listable(row_key(rows.last()@), prefix, start_after) {
            assert(whole == ld.push(rows.last()));
            assert(whole.take(part.len() as int) =~= ld.take(part.len() as int));
        } else {
            assert(whole == ld);
        }
    }
}

/// The parameters of the listing query: the prefix and the key to start
/// after, each `NULL` when absent.
pub fn listing_params(prefix: Option<&str>, start_after: Option<&str>) -> (r: Vec<SqlValue>)
    ensures
        r@.len() == 2,
        is_optional_text_param(r@[0], name_view(prefix)),
        is_optional_text_param(r@[1], name_view(start_after)),
{
    let p = match prefix {
        Some(t) => SqlValue::Text(String::from_str(t)),
        None => SqlValue::Null,
    };
    let s = match start_after {
        Some(t) => SqlValue::Text(String::from_str(t)),
        None => SqlValue::Null,
    };
    vec![p, s]
}

/// The listing that the engine's rows `key, size, last_modified, md5` hold:
/// the rows whose keys start with `prefix` and come after `start_after`,
/// one entry per such row and in order. An internal error unless every row
/// is a listing row and the qualifying keys strictly ascend.
#[verifier::rlimit(40)]
pub fn listing_of_rows(found: Vec<Vec<SqlValue>>, prefix: Option<&str>, start_after: Option<&str>) -> (r:
    Result<Vec<KeySize>>)
    requires
        forall|i: int| 0 <= i < found@.len() ==> #[trigger] found@[i]@.len() == 4,
    ensures
        r matches Err(e) ==> e.is(ErrorCode::InternalError),
        ((forall|i: int| 0 <= i < found@.len() ==> is_key_size_row(#[trigger] found@[i]@))
            && row_keys_ascend(listed_rows(found@, name_view(prefix), name_view(start_after))))
            <==> r is Ok,
        r matches Ok(v) ==> {
            &&& v@.len() == listed_rows(found@, name_view(prefix), name_view(start_after)).len()
            &&& forall|i: int| 0 <= i < v@.len() ==> holds_key_size(#[trigger] v@[i],
                listed_rows(found@, name_view(prefix), name_view(start_after))[i]@)
            &&& is_listing(v@, name_view(prefix), name_view(start_after))
        },
{
    let ghost p = name_view(prefix);
    let ghost s = name_view(start_after);
    let ghost all = found@;
    let mut rest = found;
    let n = rest.len();
    let mut out: Vec<KeySize> = Vec::new();
    let mut i: usize = 0;
    assert(all.take(0) =~= Seq::<Vec<SqlValue>>::empty());
    while i < n
        invariant
            n == all.len(),
            i <= n,
            all == found@,
            p == name_view(prefix),
            s == name_view(start_after),
            rest@ == all.skip(i as int),
            forall|k: int| 0 <= k < all.len() ==> #[trigger] all[k]@.len() == 4,
            forall|k: int| 0 <= k < i ==> is_key_size_row(#[trigger] all[k]@),
            out@.len() == listed_rows(all.take(i as int), p, s).len(),
            forall|k: int| 0 <= k < out@.len() ==> holds_key_size(#[trigger] out@[k],
                listed_rows(all.take(i as int), p, s)[k]@),
            row_keys_ascend(listed_rows(all.take(i as int), p, s)),
            is_listing(out@, p, s),
        decreases n - i,
    {
        proof {
            assert(all.skip(i as int)[0] == all[i as int]);
        }
        let row = rest.remove(0);
        let ghost cur = row;
        proof {
            assert(all.skip(i as int).drop_first() =~= all.skip(i + 1));
            assert(cur == all[i as int]);
            assert(all.take(i + 1).drop_last() =~= all.take(i as int));
            assert(all.take(i + 1).last() == all[i as int]);
        }
        let ghost before_rows = listed_rows(all.take(i as int), p, s);
        let ghost after_rows = listed_rows(all.take(i + 1), p, s);
        let entry = match key_size_of(row) {
            Ok(e) => e,
            Err(e) => {
                proof {
                    assert(!is_key_size_row(all[i as int]@));
                    assert(!(forall|k: int| 0 <= k < all.len() ==> is_key_size_row(#[trigger] all[k]@)));
                }
                return Err(e);
            },
        };
        proof {
            assert(row_key(cur@) == entry.key@);
        }
        let wanted = match prefix {
            Some(q) => starts_with(entry.key.as_str(), q),
            None => true,
        } && match start_after {
            Some(t) => text_less(t, entry.key.as_str()),
            None => true,
        };
        if wanted {
            proof {
                assert(after_rows == before_rows.push(cur));
            }
            let len = out.len();
            if len > 0 && !text_less(out[len - 1].key.as_str(), entry.key.as_str()) {
                proof {
                    assert(holds_key_size(out@[len - 1], before_rows[len - 1]@));
                    assert(after_rows[len - 1] == before_rows[len - 1]);
                    assert(after_rows[len as int] == cur);
                    assert(!seq_less(row_key(after_rows[len - 1]@), row_key(after_rows[len as int]@)));
                    assert(!row_keys_ascend(after_rows));
                    lemma_listed_prefix(all, p, s, i + 1);
                    let whole = listed_rows(all, p, s);
                    assert(whole.take(after_rows.len() as int) == after_rows);
                    assert(whole[len - 1] == after_rows[len - 1]);
                    assert(whole[len as int] == after_rows[len as int]);
                    assert(!row_keys_ascend(whole));
                    assert(all.take(n as int) =~= all);
                }
                return Err(malformed());
            }
            let ghost before = out@;
            let ghost e = entry;
            proof {
                assert(is_listing(before, p, s));
                assert(listable(e.key@, p, s));
                if before.len() > 0 {
                    assert(seq_less(before[before.len() - 1].key@, e.key@));
                    assert(holds_key_size(before[before.len() - 1], before_rows[before.len() - 1]@));
                }
            }
            out.push(entry);
            proof {
                assert(out@ == before.push(e));
                assert forall|k: int| 0 <= k < out@.len() implies holds_key_size(#[trigger] out@[k],
                    after_rows[k]@) by {
                    if k < before.len() {
                        assert(out@[k] == before[k]);
                        assert(after_rows[k] == before_rows[k]);
                    }
                }
                assert forall|k: int| 0 <= k < after_rows.len() - 1 implies #[trigger] seq_less(
                    row_key(after_rows[k]@),
                    row_key(after_rows[k + 1]@),
                ) by {
                    assert(after_rows[k] == before_rows[k]);
                    if k < before_rows.len() - 1 {
                        assert(after_rows[k + 1] == before_rows[k + 1]);
                    } else {
                        assert(after_rows[k + 1] == cur);
                        assert(holds_key_size(before[k], before_rows[k]@));
                    }
                }
                assert forall|k: int| 0 <= k < out@.len() - 1 implies seq_less(
                    #[trigger] out@[k].key@,
                    out@[k + 1].key@,
                ) by {
                    assert(out@[k] == before[k]);
                    if k < before.len() - 1 {
                        assert(out@[k + 1] == before[k + 1]);
                    } else {
                        assert(out@[k + 1] == e);
                    }
                }
                assert forall|k: int| 0 <= k < out@.len() implies listable(
                    #[trigger] out@[k].key@,
                    p,
                    s,
                ) by {
                    if k < before.len() {
                        assert(out@[k] == before[k]);
                        assert(listable(before[k].key@, p, s));
                    } else {
                        assert(out@[k] == e);
                    }
                }
            }
        } else {
            proof {
                assert(!listable(row_key(cur@), p, s));
                assert(after_rows == before_rows);
            }
        }
        i = i + 1;
    }
    assert(all.take(n as int) =~= all);
    Ok(out)
}

/// The objects of the bucket whose keys start with `prefix` and come after
/// `start_after`, by ascending key, read in one snapshot: those of the rows
/// the engine returned.
pub fn try_list_objects(tx: &rusqlite::Transaction, prefix: Option<&str>, start_after: Option<&str>) -> (r:
    Result<Vec<KeySize>>)
    ensures
        r matches Ok(v) ==> is_listing(v@, name_view(prefix), name_view(start_after)),
        r matches Err(e) ==> e is Rusqlite || e.is(ErrorCode::InternalError),
{
    let params = listing_params(prefix, start_after);
    let kinds = vec![ColumnKind::Text, ColumnKind::Integer, ColumnKind::Text, ColumnKind::Text];
    let found = rows(
        tx,
        "SELECT key, size, last_modified, md5 FROM metadata
        WHERE (?1 IS NULL OR substr(key, 1, length(?1)) = ?1) AND (?2 IS NULL OR key > ?2)
        ORDER BY key;",
        &params,
        &kinds,
    )?;
    proof {
        assert forall|i: int| 0 <= i < found@.len() implies #[trigger] found@[i]@.len() == 4 by {
            assert(row_fits(found@[i]@, kinds@));
        }
    }
    listing_of_rows(found, prefix, start_after)
}


/// Whether `row` is an object row: text key, nullable blob payload,
/// non-negative size, nullable text metadata, text time, nullable text digest.
pub open spec fn is_key_value_row(row: Seq<SqlValue>) -> bool {
    &&& text_in(row[0]) is Some
    &&& optional_blob_in(row[1]) is Some
    &&& size_in(row[2]) is Some
    &&& optional_text_in(row[3]) is Some
    &&& text_in(row[4]) is Some
    &&& optional_text_in(row[5]) is Some
}

/// Whether `kv` is the object that the object row `row` holds.
pub open spec fn holds_object(kv: KeyValue, row: Seq<SqlValue>) -> bool {
    &&& Some(kv.key@) == text_in(row[0])
    &&& Some(optional_bytes_view(kv.value)) == optional_blob_in(row[1])
    &&& Some(kv.size) == size_in(row[2])
    &&& Some(optional_text_view(kv.metadata)) == optional_text_in(row[3])
    &&& Some(kv.last_modified@) == text_in(row[4])
    &&& Some(optional_text_view(kv.md5)) == optional_text_in(row[5])
}

/// The object that the engine's columns `key, value, size, metadata,
/// last_modified, md5` hold; an internal error when their shape is wrong.
pub fn key_value_of(row: Vec<SqlValue>) -> (r: Result<KeyValue>)
    requires
        row@.len() == 6,
    ensures
        r matches Err(e) ==> e.is(ErrorCode::InternalError),
        is_key_value_row(row@) <==> r is Ok,
        r matches Ok(kv) ==> holds_object(kv, row@),
{
    let mut row = row;
    let key = text_of(row.remove(0))?;
    let value = optional_blob_of(row.remove(0))?;
    let size = size_of(row.remove(0))?;
    let metadata = optional_text_of(row.remove(0))?;
    let last_modified = text_of(row.remove(0))?;
    let md5 = optional_text_of(row.remove(0))?;
    Ok(KeyValue { key, value, size, metadata, last_modified, md5 })
}

/// The object a lookup of `key` found: none without rows, otherwise the
/// object of the first row, which must be an object row stored under `key`.
pub fn object_of_rows(found: Vec<Vec<SqlValue>>, key: &str) -> (r: Result<Option<KeyValue>>)
    requires
        forall|i: int| 0 <= i < found@.len() ==> #[trigger] found@[i]@.len() == 6,
    ensures
        r matches Err(e) ==> e.is(ErrorCode::InternalError),
        found@.len() == 0 ==> r matches Ok(None),
        found@.len() > 0 ==> (r is Ok <==> (is_key_value_row(found@[0]@) && text_in(found@[0]@[0])
            == Some(key@))),
        r matches Ok(Some(kv)) ==> kv.key@ == key@ && holds_object(kv, found@[0]@),
{
    let mut found = found;
    if found.len() == 0 {
        return Ok(None);
    }
    let row = found.remove(0);
    let kv = key_value_of(row)?;
    if kv.key == String::from_str(key) {
        Ok(Some(kv))
    } else {
        Err(malformed())
    }
}

/// The object stored under `key`, payload included, if there is one.
pub fn try_get_object(tx: &rusqlite::Transaction, key: &str) -> (r: Result<Option<KeyValue>>)
    ensures
        r matches Ok(Some(kv)) ==> kv.key@ == key@,
{
    let params = vec![SqlValue::Text(String::from_str(key))];
    let kinds = vec![
        ColumnKind::Text,
        ColumnKind::Blob,
        ColumnKind::Integer,
        ColumnKind::Text,
        ColumnKind::Text,
        ColumnKind::Text,
    ];
    let found = rows(
        tx,
        "SELECT metadata.key, data.value, metadata.size, metadata.metadata,
            metadata.last_modified, metadata.md5
        FROM metadata
        INNER JOIN data ON metadata.key = data.key
        WHERE metadata.key = ?1;",
        &params,
        &kinds,
    )?;
    object_of_rows(found, key)
}

/// Whether `row` is a metadata row: text key, non-negative size, nullable
/// text metadata, text time.
pub open spec fn is_metadata_row(row: Seq<SqlValue>) -> bool {
    &&& text_in(row[0]) is Some
    &&& size_in(row[1]) is Some
    &&& optional_text_in(row[2]) is Some
    &&& text_in(row[3]) is Some
}

/// The metadata a lookup of `key` found: none without rows, otherwise that
/// of the first row, which must be a metadata row stored under `key`.
pub fn metadata_of_rows(found: Vec<Vec<SqlValue>>, key: &str) -> (r: Result<Option<KeyMetadata>>)
    requires
        forall|i: int| 0 <= i < found@.len() ==> #[trigger] found@[i]@.len() == 4,
    ensures
        r matches Err(e) ==> e.is(ErrorCode::InternalError),
        found@.len() == 0 ==> r matches Ok(None),
        found@.len() > 0 ==> (r is Ok <==> (is_metadata_row(found@[0]@) && text_in(found@[0]@[0])
            == Some(key@))),
        r matches Ok(Some(m)) ==> {
            &&& Some(m.size) == size_in(found@[0]@[1])
            &&& Some(optional_text_view(m.metadata)) == optional_text_in(found@[0]@[2])
            &&& Some(m.last_modified@) == text_in(found@[0]@[3])
        },
{
    let mut found = found;
    if found.len() == 0 {
        return Ok(None);
    }
    let mut row = found.remove(0);
    let stored = text_of(row.remove(0))?;
    let size = size_of(row.remove(0))?;
    let metadata = optional_text_of(row.remove(0))?;
    let last_modified = text_of(row.remove(0))?;
    if stored == String::from_str(key) {
        Ok(Some(KeyMetadata { size, metadata, last_modified }))
    } else {
        Err(malformed())
    }
}

/// The metadata row of the object stored under `key`, if there is one.
pub fn try_get_metadata(tx: &rusqlite::Transaction, key: &str) -> (r: Result<Option<KeyMetadata>>)
    ensures
        r matches Err(e) ==> e is Rusqlite || e.is(ErrorCode::InternalError),
{
    let params = vec![SqlValue::Text(String::from_str(key))];
    let kinds = vec![ColumnKind::Text, ColumnKind::Integer, ColumnKind::Text, ColumnKind::Text];
    let found = rows(
        tx,
        "SELECT key, size, metadata, last_modified FROM metadata WHERE key = ?1;",
        &params,
        &kinds,
    )?;
    metadata_of_rows(found, key)
}

/// Whether `v` is the text `s`.
pub open spec fn is_text_param(v: SqlValue, s: Seq<char>) -> bool {
    v matches SqlValue::Text(t) && t@ == s
}

/// Whether `v` is the nullable text `o`.
pub open spec fn is_optional_text_param(v: SqlValue, o: Option<Seq<char>>) -> bool {
    match o {
        Some(s) => is_text_param(v, s),
        None => v is Null,
    }
}

/// Whether `v` is the nullable blob `o`.
pub open spec fn is_optional_blob_param(v: SqlValue, o: Option<Seq<u8>>) -> bool {
    match o {
        Some(b) => v matches SqlValue::Blob(x) && x@ == b,
        None => v is Null,
    }
}

/// The parameters of the payload upsert: key and nullable payload.
pub fn data_params(key: String, value: Option<Vec<u8>>) -> (r: Vec<SqlValue>)
    ensures
        r@.len() == 2,
        is_text_param(r@[0], key@),
        is_optional_blob_param(r@[1], optional_bytes_view(value)),
{
    vec![SqlValue::Text(key), optional_blob(value)]
}

/// The parameters of the metadata upsert: key, size, metadata, time and
/// digest; `TryFromInt` when the size does not fit the engine's integers.
pub fn metadata_params(
    key: String,
    size: u64,
    metadata: Option<String>,
    last_modified: String,
    md5: Option<String>,
) -> (r: Result<Vec<SqlValue>>)
    ensures
        size > i64::MAX <==> r matches Err(S3ite::TryFromInt),
        size <= i64::MAX ==> (r matches Ok(p) && {
            &&& p@.len() == 5
            &&& is_text_param(p@[0], key@)
            &&& p@[1] matches SqlValue::Integer(i) && i == size
            &&& is_optional_text_param(p@[2], optional_text_view(metadata))
            &&& is_text_param(p@[3], last_modified@)
            &&& is_optional_text_param(p@[4], optional_text_view(md5))
        }),
{
    let size = integer_param(size)?;
    Ok(vec![SqlValue::Text(key), size, optional_text(metadata), SqlValue::Text(last_modified), optional_text(md5)])
}

/// Writes `kv` under its key, replacing what was there: the payload row
/// first, then the metadata row that refers to it. A size beyond the
/// engine's integers is refused before anything is written.
pub fn try_put_object(tx: &rusqlite::Transaction, kv: KeyValue) -> (r: Result<usize>)
    ensures
        kv.size > i64::MAX <==> r matches Err(S3ite::TryFromInt),
        r matches Err(e) ==> e is Rusqlite || e is TryFromInt,
{
    let KeyValue { key, value, size, metadata, last_modified, md5 } = kv;
    let meta = metadata_params(key.clone(), size, metadata, last_modified, md5)?;
    let data = data_params(key, value);
    run(
        tx,
        "INSERT INTO data (key, value) VALUES (?1, ?2)
        ON CONFLICT(key) DO UPDATE SET value=excluded.value;",
        &data,
    )?;
    run(
        tx,
        "INSERT INTO metadata (key, size, metadata, last_modified, md5) VALUES (?1, ?2, ?3, ?4, ?5)
        ON CONFLICT(key) DO UPDATE SET size=excluded.size, metadata=excluded.metadata,
            last_modified=excluded.last_modified, md5=excluded.md5;",
        &meta,
    )
}

/// Deletes the object stored under `key`; returns how many were deleted.
pub fn try_delete_object(tx: &rusqlite::Transaction, key: &str) -> (r: Result<usize>)
    ensures
        r matches Err(e) ==> e is Rusqlite,
{
    let params = vec![SqlValue::Text(String::from_str(key))];
    run(tx, "DELETE FROM data WHERE key = ?1;", &params)
}

/// Deletes every object whose key starts with `prefix`, compared character
/// by character (no wildcards, case-sensitive); returns how many were
/// deleted.
pub fn try_delete_objects_like(tx: &rusqlite::Transaction, prefix: &str) -> (r: Result<usize>)
    ensures
        r matches Err(e) ==> e is Rusqlite,
{
    let params = vec![SqlValue::Text(String::from_str(prefix))];
    run(tx, "DELETE FROM data WHERE substr(key, 1, length(?1)) = ?1;", &params)
}

/// Deletes the objects stored under `keys`; returns the keys deleted, each
/// one of `keys`.
pub fn try_delete_objects(tx: &rusqlite::Transaction, keys: &Vec<String>) -> (r: Result<Vec<String>>)
    ensures
        r matches Err(e) ==> e is Rusqlite || e.is(ErrorCode::InternalError),
        keys@.len() == 0 ==> (r matches Ok(v) && v@.len() == 0),
        r matches Ok(v) ==> forall|i: int| 0 <= i < v@.len() ==> names(keys@).contains(#[trigger] v@[i]@),
{
    if keys.len() == 0 {
        return Ok(Vec::new());
    }
    let mut sql = String::from_str("DELETE FROM data WHERE key IN (");
    let vars = repeat_vars(keys.len());
    sql.append(vars.as_str());
    sql.append(") RETURNING key;");
    let mut params: Vec<SqlValue> = Vec::new();
    let mut i: usize = 0;
    while i < keys.len()
        invariant
            i <= keys@.len(),
        decreases keys@.len() - i,
    {
        params.push(SqlValue::Text(keys[i].clone()));
        i = i + 1;
    }
    let kinds = vec![ColumnKind::Text];
    let found = rows(tx, sql.as_str(), &params, &kinds)?;
    proof {
        assert forall|i: int| 0 <= i < found@.len() implies #[trigger] found@[i]@.len() == 1 by {
            assert(row_fits(found@[i]@, kinds@));
        }
    }
    deleted_keys_of_rows(found, keys)
}

/// Whether `row` reports a deleted key that is one of `keys`.
pub open spec fn is_deleted_key_row(row: Seq<SqlValue>, keys: Seq<String>) -> bool {
    text_in(row[0]) matches Some(k) && names(keys).contains(k)
}

/// The keys that the engine's `RETURNING key` rows report, one per row and
/// in order; an internal error unless each is text and one of `keys`.
pub fn deleted_keys_of_rows(found: Vec<Vec<SqlValue>>, keys: &Vec<String>) -> (r: Result<Vec<String>>)
    requires
        forall|i: int| 0 <= i < found@.len() ==> #[trigger] found@[i]@.len() == 1,
    ensures
        r matches Err(e) ==> e.is(ErrorCode::InternalError),
        (forall|i: int| 0 <= i < found@.len() ==> is_deleted_key_row(#[trigger] found@[i]@, keys@))
            <==> r is Ok,
        r matches Ok(v) ==> v@.len() == found@.len() && forall|i: int|
            0 <= i < v@.len() ==> Some((#[trigger] v@[i])@) == text_in(found@[i]@[0]),
{
    let ghost all = found@;
    let mut rest = found;
    let n = rest.len();
    let mut deleted: Vec<String> = Vec::new();
    let mut j: usize = 0;
    while j < n
        invariant
            n == all.len(),
            j <= n,
            all == found@,
            rest@ == all.skip(j as int),
            forall|k: int| 0 <= k < all.len() ==> #[trigger] all[k]@.len() == 1,
            forall|k: int| 0 <= k < j ==> is_deleted_key_row(#[trigger] all[k]@, keys@),
            deleted@.len() == j,
            forall|k: int| 0 <= k < j ==> Some((#[trigger] deleted@[k])@) == text_in(all[k]@[0]),
        decreases n - j,
    {
        proof {
            assert(all.skip(j as int)[0] == all[j as int]);
        }
        let mut row = rest.remove(0);
        let ghost cur = row@;
        proof {
            assert(all.skip(j as int).drop_first() =~= all.skip(j + 1));
            assert(cur == all[j as int]@);
        }
        let key = match text_of(row.remove(0)) {
            Ok(k) => k,
            Err(e) => {
                proof {
                    assert(!is_deleted_key_row(all[j as int]@, keys@));
                }
                return Err(e);
            },
        };
        if !is_found(&key, keys) {
            proof {
                assert(!is_deleted_key_row(all[j as int]@, keys@));
            }
            return Err(malformed());
        }
        let ghost before = deleted@;
        deleted.push(key);
        proof {
            assert forall|k: int| 0 <= k < j + 1 implies Some((#[trigger] deleted@[k])@) == text_in(all[k]@[0]) by {
                if k < j {
                    assert(deleted@[k] == before[k]);
                }
            }
        }
        j = j + 1;
    }
    Ok(deleted)
}

/// The parameters of a new upload: identifier, time, bucket, key and the
/// owner's access key, `NULL` when anonymous.
pub fn upload_params(
    upload_id: Vec<u8>,
    now: String,
    bucket: &str,
    key: &str,
    access_key: Option<String>,
) -> (r: Vec<SqlValue>)
    ensures
        r@.len() == 5,
        r@[0] matches SqlValue::Blob(b) && b@ == upload_id@,
        is_text_param(r@[1], now@),
        is_text_param(r@[2], bucket@),
        is_text_param(r@[3], key@),
        is_optional_text_param(r@[4], optional_text_view(access_key)),
{
    vec![
        SqlValue::Blob(upload_id),
        SqlValue::Text(now),
        SqlValue::Text(String::from_str(bucket)),
        SqlValue::Text(String::from_str(key)),
        optional_text(access_key),
    ]
}

/// Records a new multipart upload of `key` in `bucket`, owned by
/// `access_key`.
pub fn try_create_multipart_upload(
    tx: &rusqlite::Transaction,
    upload_id: Vec<u8>,
    bucket: &str,
    key: &str,
    access_key: Option<String>,
    now: String,
) -> (r: Result<usize>)
    ensures
        r matches Err(e) ==> e is Rusqlite,
{
    let params = upload_params(upload_id, now, bucket, key, access_key);
    run(
        tx,
        "INSERT INTO multipart_upload (upload_id, last_modified, bucket, key, access_key)
        VALUES (?1, ?2, ?3, ?4, ?5);",
        &params,
    )
}

/// Whether a caller with access key `caller` may use an upload whose stored
/// key is `stored`: the two are equal, an absent key matching only an
/// absent one.
pub open spec fn may_use(stored: Option<Seq<char>>, caller: Option<String>) -> bool {
    stored == optional_text_view(caller)
}

/// What the lookup of an upload's owner found, judged against `caller`: no
/// row means no upload, so `false`; otherwise the first row's access key
/// must equal the caller's.
pub fn access_verdict(found: Vec<Vec<SqlValue>>, caller: &Option<String>) -> (r: Result<bool>)
    ensures
        r matches Err(e) ==> e.is(ErrorCode::InternalError),
        found@.len() == 0 ==> r == Ok::<bool, S3ite>(false),
        found@.len() > 0 && found@[0]@.len() > 0 ==> match optional_text_in(found@[0]@[0]) {
            Some(stored) => r == Ok::<bool, S3ite>(may_use(stored, *caller)),
            None => r is Err,
        },
        found@.len() > 0 && found@[0]@.len() == 0 ==> r is Err,
{
    let mut found = found;
    if found.len() == 0 {
        return Ok(false);
    }
    let mut row = found.remove(0);
    if row.len() == 0 {
        return Err(malformed());
    }
    let stored = optional_text_of(row.remove(0))?;
    Ok(crate::objects::access_matches(&stored, caller))
}

/// Whether the upload `upload_id` of `key` in `bucket` exists and its stored
/// access key equals `access_key`, an absent key matching only an absent one.
pub fn try_verify_upload_id(
    tx: &rusqlite::Transaction,
    upload_id: &Vec<u8>,
    bucket: &str,
    key: &str,
    access_key: &Option<String>,
) -> (r: Result<bool>)
    ensures
        r matches Err(e) ==> e is Rusqlite || e.is(ErrorCode::InternalError),
{
    let params = vec![
        SqlValue::Blob(upload_id.clone()),
        SqlValue::Text(String::from_str(bucket)),
        SqlValue::Text(String::from_str(key)),
    ];
    let kinds = vec![ColumnKind::Text];
    let found = rows(
        tx,
        "SELECT access_key FROM multipart_upload WHERE upload_id = ?1 AND bucket = ?2 AND key = ?3;",
        &params,
        &kinds,
    )?;
    access_verdict(found, access_key)
}

/// The parameters of an uploaded part: upload, time, part number, payload,
/// size and digest.
pub fn part_params(part: Multipart) -> (r: Vec<SqlValue>)
    ensures
        r@.len() == 6,
        r@[0] matches SqlValue::Blob(b) && b@ == part.upload_id@,
        is_text_param(r@[1], part.last_modified@),
        r@[2] matches SqlValue::Integer(i) && i == part.part_number,
        r@[3] matches SqlValue::Blob(b) && b@ == part.value@,
        r@[4] matches SqlValue::Integer(i) && i == part.size,
        is_optional_text_param(r@[5], optional_text_view(part.md5)),
{
    vec![
        SqlValue::Blob(part.upload_id),
        SqlValue::Text(part.last_modified),
        SqlValue::Integer(part.part_number as i64),
        SqlValue::Blob(part.value),
        SqlValue::Integer(part.size),
        optional_text(part.md5),
    ]
}

/// Stores one uploaded part.
pub fn try_put_multipart(tx: &rusqlite::Transaction, part: Multipart) -> (r: Result<usize>)
    ensures
        r matches Err(e) ==> e is Rusqlite,
{
    let params = part_params(part);
    run(
        tx,
        "INSERT INTO multipart_upload_part (upload_id, last_modified, part_number, value, size, md5)
        VALUES (?1, ?2, ?3, ?4, ?5, ?6);",
        &params,
    )
}

/// The integer a value holds, if it is an integer.
pub open spec fn integer_in(v: SqlValue) -> Option<i64> {
    match v {
        SqlValue::Integer(i) => Some(i),
        _ => None,
    }
}

/// The part number a value holds, if it is an integer that fits `i32`.
pub open spec fn part_number_in(v: SqlValue) -> Option<i32> {
    match v {
        SqlValue::Integer(i) => if i32::MIN <= i <= i32::MAX {
            Some(i as i32)
        } else {
            None
        },
        _ => None,
    }
}

/// The bytes a value holds, if it is a blob.
pub open spec fn blob_in(v: SqlValue) -> Option<Seq<u8>> {
    match v {
        SqlValue::Blob(b) => Some(b@),
        _ => None,
    }
}

fn integer_of(v: SqlValue) -> (r: Result<i64>)
    ensures
        r matches Err(e) ==> e.is(ErrorCode::InternalError),
        match integer_in(v) {
            Some(i) => r == Ok::<i64, S3ite>(i),
            None => r is Err,
        },
{
    match v {
        SqlValue::Integer(i) => Ok(i),
        _ => Err(malformed()),
    }
}

fn blob_of(v: SqlValue) -> (r: Result<Vec<u8>>)
    ensures
        r matches Err(e) ==> e.is(ErrorCode::InternalError),
        match blob_in(v) {
            Some(b) => r matches Ok(x) && x@ == b,
            None => r is Err,
        },
{
    match v {
        SqlValue::Blob(b) => Ok(b),
        _ => Err(malformed()),
    }
}

fn part_number_of(v: SqlValue) -> (r: Result<i32>)
    ensures
        r matches Err(e) ==> e.is(ErrorCode::InternalError),
        match part_number_in(v) {
            Some(n) => r == Ok::<i32, S3ite>(n),
            None => r is Err,
        },
{
    let n = integer_of(v)?;
    if n < i32::MIN as i64 || n > i32::MAX as i64 {
        Err(malformed())
    } else {
        Ok(n as i32)
    }
}

/// Whether `row` is a part listing row: text time, part number, integer size.
pub open spec fn is_part_metadata_row(row: Seq<SqlValue>) -> bool {
    &&& text_in(row[0]) is Some
    &&& part_number_in(row[1]) is Some
    &&& integer_in(row[2]) is Some
}

/// The part listing row that the engine's columns `last_modified,
/// part_number, size` hold; an internal error when their shape is wrong.
pub fn part_metadata_of(row: Vec<SqlValue>) -> (r: Result<MultipartMetadata>)
    requires
        row@.len() == 3,
    ensures
        r matches Err(e) ==> e.is(ErrorCode::InternalError),
        is_part_metadata_row(row@) <==> r is Ok,
        r matches Ok(p) ==> {
            &&& Some(p.last_modified@) == text_in(row@[0])
            &&& Some(p.part_number) == part_number_in(row@[1])
            &&& Some(p.size) == integer_in(row@[2])
        },
{
    let mut row = row;
    let last_modified = text_of(row.remove(0))?;
    let part_number = part_number_of(row.remove(0))?;
    let size = integer_of(row.remove(0))?;
    Ok(MultipartMetadata { part_number, last_modified, size })
}

/// Whether `row` is a part row: text time, part number, blob payload,
/// integer size, nullable text digest.
pub open spec fn is_part_row(row: Seq<SqlValue>) -> bool {
    &&& text_in(row[0]) is Some
    &&& part_number_in(row[1]) is Some
    &&& blob_in(row[2]) is Some
    &&& integer_in(row[3]) is Some
    &&& optional_text_in(row[4]) is Some
}

/// The part of upload `upload_id` that the engine's columns `last_modified,
/// part_number, value, size, md5` hold; an internal error when their shape is
/// wrong.
pub fn part_of(row: Vec<SqlValue>, upload_id: &Vec<u8>) -> (r: Result<Multipart>)
    requires
        row@.len() == 5,
    ensures
        r matches Err(e) ==> e.is(ErrorCode::InternalError),
        is_part_row(row@) <==> r is Ok,
        r matches Ok(p) ==> {
            &&& p.upload_id@ == upload_id@
            &&& Some(p.last_modified@) == text_in(row@[0])
            &&& Some(p.part_number) == part_number_in(row@[1])
            &&& Some(p.value@) == blob_in(row@[2])
            &&& Some(p.size) == integer_in(row@[3])
            &&& Some(optional_text_view(p.md5)) == optional_text_in(row@[4])
        },
{
    let mut row = row;
    let last_modified = text_of(row.remove(0))?;
    let part_number = part_number_of(row.remove(0))?;
    let value = blob_of(row.remove(0))?;
    let size = integer_of(row.remove(0))?;
    let md5 = optional_text_of(row.remove(0))?;
    let id = clone_bytes(upload_id);
    Ok(Multipart { upload_id: id, part_number, last_modified, value, size, md5 })
}

fn clone_bytes(b: &Vec<u8>) -> (r: Vec<u8>)
    ensures
        r@ == b@,
{
    let mut out: Vec<u8> = Vec::new();
    let mut i: usize = 0;
    while i < b.len()
        invariant
            i <= b@.len(),
            out@ == b@.take(i as int),
        decreases b@.len() - i,
    {
        out.push(b[i]);
        assert(b@.take(i + 1) =~= b@.take(i as int).push(b@[i as int]));
        i = i + 1;
    }
    assert(b@.take(b@.len() as int) =~= b@);
    out
}

/// Whether the part numbers of `parts` strictly ascend.
pub open spec fn parts_ascend(parts: Seq<MultipartMetadata>) -> bool {
    forall|i: int| 0 <= i < parts.len() - 1 ==> (#[trigger] parts[i]).part_number < parts[i + 1].part_number
}

/// Whether the part numbers of `parts` strictly ascend.
pub open spec fn payload_parts_ascend(parts: Seq<Multipart>) -> bool {
    forall|i: int| 0 <= i < parts.len() - 1 ==> (#[trigger] parts[i]).part_number < parts[i + 1].part_number
}

/// Whether `p` is the part listing row that `row` holds.
pub open spec fn holds_part_metadata(p: MultipartMetadata, row: Seq<SqlValue>) -> bool {
    &&& Some(p.last_modified@) == text_in(row[0])
    &&& Some(p.part_number) == part_number_in(row[1])
    &&& Some(p.size) == integer_in(row[2])
}

/// Whether `p` is the part of upload `upload_id` that `row` holds.
pub open spec fn holds_part(p: Multipart, row: Seq<SqlValue>, upload_id: Seq<u8>) -> bool {
    &&& p.upload_id@ == upload_id
    &&& Some(p.last_modified@) == text_in(row[0])
    &&& Some(p.part_number) == part_number_in(row[1])
    &&& Some(p.value@) == blob_in(row[2])
    &&& Some(p.size) == integer_in(row[3])
    &&& Some(optional_text_view(p.md5)) == optional_text_in(row[4])
}

/// Whether the part number in column 1 of row `k` of `rows` is below that of
/// row `k + 1`.
pub open spec fn ascend_at(rows: Seq<Vec<SqlValue>>, k: int) -> bool {
    part_number_in(rows[k]@[1]) matches Some(a) && part_number_in(rows[k + 1]@[1]) matches Some(b)
        && a < b
}

/// Whether the part numbers in column 1 of `rows` strictly ascend.
pub open spec fn part_rows_ascend(rows: Seq<Vec<SqlValue>>) -> bool {
    forall|i: int| 0 <= i < rows.len() - 1 ==> #[trigger] ascend_at(rows, i)
}

/// The parts that the engine's rows `last_modified, part_number, size` hold,
/// one per row and in the same order; an internal error unless every row is
/// a part listing row and the part numbers strictly ascend.
#[verifier::rlimit(40)]
pub fn parts_metadata_of_rows(found: Vec<Vec<SqlValue>>) -> (r: Result<Vec<MultipartMetadata>>)
    requires
        forall|i: int| 0 <= i < found@.len() ==> #[trigger] found@[i]@.len() == 3,
    ensures
        r matches Err(e) ==> e.is(ErrorCode::InternalError),
        ((forall|i: int| 0 <= i < found@.len() ==> is_part_metadata_row(#[trigger] found@[i]@))
            && part_rows_ascend(found@)) <==> r is Ok,
        r matches Ok(v) ==> v@.len() == found@.len() && parts_ascend(v@) && forall|i: int|
            0 <= i < v@.len() ==> holds_part_metadata(#[trigger] v@[i], found@[i]@),
{
    let ghost all = found@;
    let mut rest = found;
    let n = rest.len();
    let mut out: Vec<MultipartMetadata> = Vec::new();
    let mut i: usize = 0;
    while i < n
        invariant
            n == all.len(),
            i <= n,
            rest@ == all.skip(i as int),
            all == found@,
            out@.len() == i,
            forall|k: int| 0 <= k < all.len() ==> #[trigger] all[k]@.len() == 3,
            forall|k: int| 0 <= k < i ==> is_part_metadata_row(#[trigger] all[k]@),
            forall|k: int| 0 <= k < i ==> holds_part_metadata(#[trigger] out@[k], all[k]@),
            forall|k: int| 0 <= k < i - 1 ==> #[trigger] ascend_at(all, k),
            parts_ascend(out@),
        decreases n - i,
    {
        proof {
            assert(all.skip(i as int)[0] == all[i as int]);
        }
        let row = rest.remove(0);
        proof {
            assert(all.skip(i as int).drop_first() =~= all.skip(i + 1));
        }
        let ghost cur = row@;
        proof {
            assert(cur == all[i as int]@);
        }
        let part = match part_metadata_of(row) {
            Ok(p) => p,
            Err(e) => {
                proof {
                    assert(!is_part_metadata_row(all[i as int]@));
                    assert(!(forall|k: int| 0 <= k < all.len() ==> is_part_metadata_row(#[trigger] all[k]@)));
                    assert(!((forall|k: int| 0 <= k < all.len() ==> is_part_metadata_row(#[trigger] all[k]@)) && part_rows_ascend(all)));
                }
                return Err(e);
            },
        };
        if i > 0 && out[i - 1].part_number >= part.part_number {
            proof {
                assert(holds_part_metadata(out@[i - 1], all[i - 1]@));
                assert(!ascend_at(all, i - 1));
                assert(!part_rows_ascend(all));
            }
            return Err(malformed());
        }
        let ghost before = out@;
        let ghost p = part;
        out.push(part);
        proof {
            assert forall|k: int| 0 <= k < i + 1 implies holds_part_metadata(#[trigger] out@[k], all[k]@) by {
                if k < i {
                    assert(out@[k] == before[k]);
                }
            }
            assert forall|k: int| 0 <= k < out@.len() - 1 implies (#[trigger] out@[k]).part_number
                < out@[k + 1].part_number by {
                assert(out@[k] == before[k]);
                if k < before.len() - 1 {
                    assert(out@[k + 1] == before[k + 1]);
                } else {
                    assert(out@[k + 1] == p);
                }
            }
            assert forall|k: int| 0 <= k < i + 1 - 1 implies #[trigger] ascend_at(all, k) by {
                if k == i - 1 {
                    assert(holds_part_metadata(out@[k], all[k]@));
                    assert(holds_part_metadata(out@[k + 1], all[k + 1]@));
                }
            }
        }
        i = i + 1;
    }
    proof {
        assert(all.skip(0) =~= all) by {}
    }
    Ok(out)
}

/// The parts of upload `upload_id` that the engine's rows `last_modified,
/// part_number, value, size, md5` hold, one per row and in the same order;
/// an internal error unless every row is a part row and the part numbers
/// strictly ascend.
#[verifier::rlimit(40)]
pub fn parts_of_rows(found: Vec<Vec<SqlValue>>, upload_id: &Vec<u8>) -> (r: Result<Vec<Multipart>>)
    requires
        forall|i: int| 0 <= i < found@.len() ==> #[trigger] found@[i]@.len() == 5,
    ensures
        r matches Err(e) ==> e.is(ErrorCode::InternalError),
        ((forall|i: int| 0 <= i < found@.len() ==> is_part_row(#[trigger] found@[i]@))
            && part_rows_ascend(found@)) <==> r is Ok,
        r matches Ok(v) ==> v@.len() == found@.len() && payload_parts_ascend(v@) && forall|i: int|
            0 <= i < v@.len() ==> holds_part(#[trigger] v@[i], found@[i]@, upload_id@),
{
    let ghost all = found@;
    let mut rest = found;
    let n = rest.len();
    let mut out: Vec<Multipart> = Vec::new();
    let mut i: usize = 0;
    while i < n
        invariant
            n == all.len(),
            i <= n,
            rest@ == all.skip(i as int),
            all == found@,
            out@.len() == i,
            forall|k: int| 0 <= k < all.len() ==> #[trigger] all[k]@.len() == 5,
            forall|k: int| 0 <= k < i ==> is_part_row(#[trigger] all[k]@),
            forall|k: int| 0 <= k < i ==> holds_part(#[trigger] out@[k], all[k]@, upload_id@),
            forall|k: int| 0 <= k < i - 1 ==> #[trigger] ascend_at(all, k),
            payload_parts_ascend(out@),
        decreases n - i,
    {
        proof {
            assert(all.skip(i as int)[0] == all[i as int]);
        }
        let row = rest.remove(0);
        proof {
            assert(all.skip(i as int).drop_first() =~= all.skip(i + 1));
        }
        let ghost cur = row@;
        proof {
            assert(cur == all[i as int]@);
        }
        let part = match part_of(row, upload_id) {
            Ok(p) => p,
            Err(e) => {
                proof {
                    assert(!is_part_row(all[i as int]@));
                    assert(!(forall|k: int| 0 <= k < all.len() ==> is_part_row(#[trigger] all[k]@)));
                }
                return Err(e);
            },
        };
        if i > 0 && out[i - 1].part_number >= part.part_number {
            proof {
                assert(holds_part(out@[i - 1], all[i - 1]@, upload_id@));
                assert(!ascend_at(all, i - 1));
                assert(!part_rows_ascend(all));
            }
            return Err(malformed());
        }
        let ghost before = out@;
        let ghost p = part;
        out.push(part);
        proof {
            assert forall|k: int| 0 <= k < i + 1 implies holds_part(#[trigger] out@[k], all[k]@, upload_id@) by {
                if k < i {
                    assert(out@[k] == before[k]);
                }
            }
            assert forall|k: int| 0 <= k < out@.len() - 1 implies (#[trigger] out@[k]).part_number
                < out@[k + 1].part_number by {
                assert(out@[k] == before[k]);
                if k < before.len() - 1 {
                    assert(out@[k + 1] == before[k + 1]);
                } else {
                    assert(out@[k + 1] == p);
                }
            }
            assert forall|k: int| 0 <= k < i + 1 - 1 implies #[trigger] ascend_at(all, k) by {
                if k == i - 1 {
                    assert(holds_part(out@[k], all[k]@, upload_id@));
                    assert(holds_part(out@[k + 1], all[k + 1]@, upload_id@));
                }
            }
        }
        i = i + 1;
    }
    Ok(out)
}

/// The parts of upload `upload_id`, by strictly ascending part number,
/// without their payloads: those of the rows the engine returned, one per
/// row and in its order.
pub fn try_list_multipart(tx: &rusqlite::Transaction, upload_id: &Vec<u8>) -> (r: Result<Vec<MultipartMetadata>>)
    ensures
        r matches Ok(v) ==> parts_ascend(v@),
        r matches Err(e) ==> e is Rusqlite || e.is(ErrorCode::InternalError),
{
    let params = vec![SqlValue::Blob(clone_bytes(upload_id))];
    let kinds = vec![ColumnKind::Text, ColumnKind::Integer, ColumnKind::Integer];
    let found = rows(
        tx,
        "SELECT last_modified, part_number, size FROM multipart_upload_part
        WHERE upload_id = ?1 ORDER BY part_number;",
        &params,
        &kinds,
    )?;
    proof {
        assert forall|i: int| 0 <= i < found@.len() implies #[trigger] found@[i]@.len() == 3 by {
            assert(row_fits(found@[i]@, kinds@));
        }
    }
    parts_metadata_of_rows(found)
}

/// The parts of upload `upload_id`, by strictly ascending part number, with
/// their payloads: those of the rows the engine returned, one per row and in
/// its order.
pub fn try_get_multiparts(tx: &rusqlite::Transaction, upload_id: &Vec<u8>) -> (r: Result<Vec<Multipart>>)
    ensures
        r matches Ok(v) ==> payload_parts_ascend(v@) && forall|i: int|
            0 <= i < v@.len() ==> (#[trigger] v@[i]).upload_id@ == upload_id@,
        r matches Err(e) ==> e is Rusqlite || e.is(ErrorCode::InternalError),
{
    let params = vec![SqlValue::Blob(clone_bytes(upload_id))];
    let kinds = vec![
        ColumnKind::Text,
        ColumnKind::Integer,
        ColumnKind::Blob,
        ColumnKind::Integer,
        ColumnKind::Text,
    ];
    let found = rows(
        tx,
        "SELECT last_modified, part_number, value, size, md5 FROM multipart_upload_part
        WHERE upload_id = ?1 ORDER BY part_number;",
        &params,
        &kinds,
    )?;
    proof {
        assert forall|i: int| 0 <= i < found@.len() implies #[trigger] found@[i]@.len() == 5 by {
            assert(row_fits(found@[i]@, kinds@));
        }
    }
    let v = parts_of_rows(found, upload_id)?;
    assert forall|i: int| 0 <= i < v@.len() implies (#[trigger] v@[i]).upload_id@ == upload_id@ by {}
    Ok(v)
}

/// Deletes upload `upload_id` and, by cascade, its parts.
pub fn try_delete_multipart(tx: &rusqlite::Transaction, upload_id: &Vec<u8>) -> (r: Result<()>)
    ensures
        r matches Err(e) ==> e is Rusqlite,
{
    let params = vec![SqlValue::Blob(upload_id.clone())];
    run(tx, "DELETE FROM multipart_upload WHERE upload_id = ?1;", &params)?;
    Ok(())
}

/// Deletes every upload last touched before the RFC-3339 instant
/// `expire_before`.
pub fn try_delete_multipart_expired(tx: &rusqlite::Transaction, expire_before: &str) -> (r: Result<()>)
    ensures
        r matches Err(e) ==> e is Rusqlite,
{
    let params = vec![SqlValue::Text(String::from_str(expire_before))];
    run(tx, "DELETE FROM multipart_upload WHERE DATETIME(last_modified) < DATETIME(?1);", &params)?;
    Ok(())
}

/// Pages cut from a listing are listings too: every key of a page, and of
/// the rows stored for later pages, qualifies, and the keys strictly ascend.
pub proof fn lemma_pages_stay_listings(
    rows: Seq<KeySize>,
    prefix: Option<Seq<char>>,
    start_after: Option<Seq<char>>,
    m: nat,
)
    requires
        is_listing(rows, prefix, start_after),
    ensures
        is_listing(crate::listing::page_of(rows, m), prefix, start_after),
        is_listing(crate::listing::rest_of(rows, m), prefix, start_after),
{
    if rows.len() > m {
        let p = rows.take(m as int);
        let q = rows.skip(m as int);
        assert forall|i: int| 0 <= i < p.len() - 1 implies seq_less(#[trigger] p[i].key@, p[i + 1].key@) by {
            assert(p[i] == rows[i] && p[i + 1] == rows[i + 1]);
            assert(seq_less(rows[i].key@, rows[i + 1].key@));
        }
        assert forall|i: int| 0 <= i < q.len() - 1 implies seq_less(#[trigger] q[i].key@, q[i + 1].key@) by {
            assert(q[i] == rows[i + m] && q[i + 1] == rows[i + 1 + m]);
            assert(seq_less(rows[i + m].key@, rows[i + m + 1].key@));
        }
        assert forall|i: int| 0 <= i < p.len() implies listable(#[trigger] p[i].key@, prefix, start_after) by {
            assert(p[i] == rows[i]);
            assert(listable(rows[i].key@, prefix, start_after));
        }
        assert forall|i: int| 0 <= i < q.len() implies listable(#[trigger] q[i].key@, prefix, start_after) by {
            assert(q[i] == rows[i + m]);
            assert(listable(rows[i + m].key@, prefix, start_after));
        }
    }
}

} // verus!
