//! The trusted boundary to the storage engine and to two small pieces of the
//! standard library. Every function here is `external_body`: its body makes
//! one outside call (plus argument/result conversion) and its contract is
//! what the rest of the crate relies on.

use vstd::prelude::*;

use crate::models::CellValue;
use crate::sqltext::dec_int;

verus! {

#[verifier::external_type_specification]
#[verifier::external_body]
pub struct ExConnection(rusqlite::Connection);

#[verifier::external_type_specification]
#[verifier::external_body]
pub struct ExSqlError(rusqlite::Error);

#[verifier::external_type_specification]
#[verifier::external_body]
pub struct ExSqlValue(rusqlite::types::Value);

/// Relies on rusqlite's `Connection::open`: opens the file (creating it when
/// absent) and returns a handle, or the engine's error.
#[verifier::external_body]
pub(crate) fn open_db(path: &str) -> Result<rusqlite::Connection, rusqlite::Error> {
    rusqlite::Connection::open(path)
}

/// Relies on rusqlite's `Connection::execute_batch`: runs the given
/// statements and reports the engine's verdict.
#[verifier::external_body]
pub(crate) fn exec_batch(conn: &rusqlite::Connection, sql: &str) -> Result<(), rusqlite::Error> {
    conn.execute_batch(sql)
}

/// Relies on rusqlite's `Connection::query_row`: runs a query expected to
/// return exactly one row holding one 32-bit integer.
#[verifier::external_body]
pub(crate) fn query_count_i32(conn: &rusqlite::Connection, sql: &str) -> Result<
    i32,
    rusqlite::Error,
> {
    conn.query_row(sql, [], |row| row.get::<_, i32>(0))
}

/// Relies on rusqlite's `Connection::query_row`: runs a query expected to
/// return exactly one row holding one 64-bit integer.
#[verifier::external_body]
pub(crate) fn query_count_i64(conn: &rusqlite::Connection, sql: &str) -> Result<
    i64,
    rusqlite::Error,
> {
    conn.query_row(sql, [], |row| row.get::<_, i64>(0))
}

/// Relies on rusqlite's `Statement::query_map`: runs a query and collects the
/// first column of every returned row as text, in the order the engine
/// returns the rows.
#[verifier::external_body]
pub(crate) fn query_string_column(conn: &rusqlite::Connection, sql: &str) -> Result<
    Vec<String>,
    rusqlite::Error,
> {
    let mut stmt = conn.prepare(sql)?;
    let mapped = stmt.query_map([], |row| row.get::<_, String>(0))?;
    mapped.collect()
}

/// Relies on rusqlite's `Statement::query_map`: runs a column-introspection
/// query and collects, for every returned row, the fields at positions one
/// through five (name, declared type, not-null flag, default value,
/// primary-key flag), in the order the engine returns the rows.
#[verifier::external_body]
pub(crate) fn query_column_rows(conn: &rusqlite::Connection, sql: &str) -> Result<
    Vec<(String, String, i32, Option<String>, i32)>,
    rusqlite::Error,
> {
    let mut stmt = conn.prepare(sql)?;
    let mapped = stmt.query_map(
        [],
        |row| Ok((row.get(1)?, row.get(2)?, row.get(3)?, row.get(4)?, row.get(5)?)),
    )?;
    mapped.collect()
}

/// Relies on rusqlite's `Statement::query_map`: runs a query and collects the
/// first `ncols` cells of every returned row, untouched. Every returned row
/// therefore holds exactly `ncols` cells.
#[verifier::external_body]
pub(crate) fn query_value_rows(conn: &rusqlite::Connection, sql: &str, ncols: usize) -> (r: Result<
    Vec<Vec<rusqlite::types::Value>>,
    rusqlite::Error,
>)
    ensures
        r is Ok ==> forall|i: int|
            0 <= i < r.unwrap()@.len() ==> (#[trigger] r.unwrap()@[i])@.len() == ncols,
{
    let mut stmt = conn.prepare(sql)?;
    let mapped = stmt.query_map(
        [],
        |row| {
            let mut cells = Vec::with_capacity(ncols);
            for i in 0..ncols {
                cells.push(row.get(i)?);
            }
            Ok(cells)
        },
    )?;
    mapped.collect()
}

/// Relies on rusqlite's `types::Value`: converts one engine value to this
/// crate's cell model, one arm per variant. A floating-point value is carried
/// as its raw bit pattern and a blob only as its byte length.
#[verifier::external_body]
pub(crate) fn cell_from_sql(v: &rusqlite::types::Value) -> CellValue {
    match v {
        rusqlite::types::Value::Null => CellValue::Null,
        rusqlite::types::Value::Integer(x) => CellValue::Integer(*x),
        rusqlite::types::Value::Real(x) => CellValue::Real(x.to_bits()),
        rusqlite::types::Value::Text(s) => CellValue::Text(s.clone()),
        rusqlite::types::Value::Blob(b) => CellValue::Blob(b.len()),
    }
}

/// Relies on the `Display` impl of rusqlite's `Error`: renders the engine's
/// error for contextual messages.
#[verifier::external_body]
pub(crate) fn error_message(e: &rusqlite::Error) -> String {
    format!("{}", e)
}

/// Relies on `str`'s `PartialEq`: two string slices are equal exactly when
/// their character sequences are.
#[verifier::external_body]
pub(crate) fn str_eq(a: &str, b: &str) -> (r: bool)
    ensures
        r == (a@ == b@),
{
    a == b
}

/// Relies on `i64`'s `Display`: the decimal rendering of the value, with a
/// leading minus sign when negative.
#[verifier::external_body]
pub(crate) fn int64_text(n: i64) -> (r: String)
    ensures
        r@ == dec_int(n as int),
{
    n.to_string()
}

/// What `str::to_lowercase` returns: a function of the characters alone.
pub uninterp spec fn lower_of(s: Seq<char>) -> Seq<char>;

/// Relies on `str::to_lowercase`: the result depends on the characters alone.
#[verifier::external_body]
pub(crate) fn lowercase(s: &str) -> (r: String)
    ensures
        r@ == lower_of(s@),
{
    s.to_lowercase()
}

} // verus!
