use vstd::prelude::*;

verus! {

#[verifier::external_type_specification]
#[verifier::external_body]
pub struct ExTransaction<'conn>(rusqlite::Transaction<'conn>);

#[verifier::external_type_specification]
#[verifier::external_body]
pub struct ExEngineValue(rusqlite::types::Value);

#[verifier::external_type_specification]
#[verifier::external_body]
pub struct ExRow<'stmt>(rusqlite::Row<'stmt>);

/// A value bound to, or read from, a statement.
#[derive(Clone, Debug)]
pub enum SqlValue {
    Null,
    Integer(i64),
    Text(String),
    Blob(Vec<u8>),
}

/// The storage class a column is read as; `NULL` is accepted for each.
#[derive(Copy, Clone, Debug, PartialEq, Eq, Structural)]
pub enum ColumnKind {
    Integer,
    Text,
    Blob,
}

/// Whether `v` is `NULL` or a value of storage class `kind`.
pub open spec fn fits(v: SqlValue, kind: ColumnKind) -> bool {
    match v {
        SqlValue::Null => true,
        SqlValue::Integer(_) => kind == ColumnKind::Integer,
        SqlValue::Text(_) => kind == ColumnKind::Text,
        SqlValue::Blob(_) => kind == ColumnKind::Blob,
    }
}

/// Whether `row` has one value per entry of `kinds`, each fitting its kind.
pub open spec fn row_fits(row: Seq<SqlValue>, kinds: Seq<ColumnKind>) -> bool {
    row.len() == kinds.len() && forall|i: int| 0 <= i < row.len() ==> fits(#[trigger] row[i], kinds[i])
}

/// Converts bound values to rusqlite's owned value type, one for one.
#[verifier::external_body]
fn engine_params(params: &Vec<SqlValue>) -> Vec<rusqlite::types::Value> {
    params.iter().map(|v| match v {
        SqlValue::Null => rusqlite::types::Value::Null,
        SqlValue::Integer(i) => rusqlite::types::Value::Integer(*i),
        SqlValue::Text(s) => rusqlite::types::Value::Text(s.clone()),
        SqlValue::Blob(b) => rusqlite::types::Value::Blob(b.clone()),
    }).collect()
}

/// Relies on rusqlite's Connection::execute, reached through the
/// transaction: runs one statement with positional parameters and returns
/// how many rows it changed.
#[verifier::external_body]
pub fn execute(tx: &rusqlite::Transaction, sql: &str, params: &Vec<SqlValue>) -> (r:
    core::result::Result<usize, rusqlite::Error>) {
    tx.execute(sql, rusqlite::params_from_iter(engine_params(params)))
}

/// Relies on rusqlite's Row::get with `Option<i64>`, `Option<String>` and
/// `Option<Vec<u8>>`: the row's first columns, one per kind, each `NULL` or a
/// value of its kind.
#[verifier::external_body]
fn read_row(row: &rusqlite::Row, kinds: &Vec<ColumnKind>) -> (r: core::result::Result<
    Vec<SqlValue>,
    rusqlite::Error,
>)
    ensures
        r matches Ok(v) ==> row_fits(v@, kinds@),
{
    let mut out = Vec::with_capacity(kinds.len());
    for (i, kind) in kinds.iter().enumerate() {
        out.push(match kind {
            ColumnKind::Integer => row.get::<_, Option<i64>>(i)?.map_or(SqlValue::Null, SqlValue::Integer),
            ColumnKind::Text => row.get::<_, Option<String>>(i)?.map_or(SqlValue::Null, SqlValue::Text),
            ColumnKind::Blob => row.get::<_, Option<Vec<u8>>>(i)?.map_or(SqlValue::Null, SqlValue::Blob),
        });
    }
    Ok(out)
}

/// Relies on rusqlite's prepare_cached, Statement::query and Rows::next: the
/// rows a query returns, in the order the engine returns them.
#[verifier::external_body]
pub fn query(
    tx: &rusqlite::Transaction,
    sql: &str,
    params: &Vec<SqlValue>,
    kinds: &Vec<ColumnKind>,
) -> (r: core::result::Result<Vec<Vec<SqlValue>>, rusqlite::Error>)
    ensures
        r matches Ok(rows) ==> forall|i: int|
            0 <= i < rows@.len() ==> row_fits(#[trigger] rows@[i]@, kinds@),
{
    let mut stmt = tx.prepare_cached(sql)?;
    let mut rows = stmt.query(rusqlite::params_from_iter(engine_params(params)))?;
    let mut out = Vec::new();
    while let Some(row) = rows.next()? {
        out.push(read_row(row, kinds)?);
    }
    Ok(out)
}

} // verus!
