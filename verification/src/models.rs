//! Data model: snapshots of a connected database, its tables and columns,
//! materialized row data, structural diffs, and the error taxonomy.

use vstd::prelude::*;

verus! {

/// Whether a database file was detected as a plain SQLite container or an
/// encrypted SQLCipher container.
#[derive(Debug, Clone, Copy, PartialEq, Eq, Structural)]
pub enum DatabaseType {
    SQLite,
    SQLCipher,
}

/// Why a database operation failed. One variant per failure class; the
/// carried string is a contextual message for display.
#[derive(Debug, Clone)]
pub enum DbError {
    /// The file could not be opened at all (missing, not a database
    /// container, permission denied).
    OpenError(String),
    /// The file is encrypted and every supported key encoding was rejected.
    AuthenticationFailed(String),
    /// An operation referenced a path with no live connection.
    NotConnected,
    /// The engine rejected a query against a valid connection.
    QueryError(String),
    /// A caller-side time budget was exceeded.
    Timeout,
}

/// Snapshot returned to the caller after a successful connect.
#[derive(Debug, Clone)]
pub struct DatabaseInfo {
    pub path: String,
    pub name: String,
    pub table_count: i32,
    pub is_connected: bool,
    pub alias: Option<String>,
}

/// One column of a table: name, declared type (raw text, not normalized),
/// nullability, optional default value, and primary-key flag.
#[derive(Debug, Clone, PartialEq)]
pub struct ColumnInfo {
    pub name: String,
    pub data_type: String,
    pub is_nullable: bool,
    pub default_value: Option<String>,
    pub is_primary_key: bool,
}

/// One user table: name, row count, and columns in declared order.
#[derive(Debug, Clone)]
pub struct TableInfo {
    pub name: String,
    pub row_count: i64,
    pub columns: Vec<ColumnInfo>,
}

/// One cell of a materialized row. Binary payloads are never carried
/// verbatim: only their byte length is kept. A floating-point value is
/// carried as its raw IEEE 754 bit pattern, so that this crate itself holds
/// only plain integers.
#[derive(Debug, Clone, PartialEq)]
pub enum CellValue {
    Null,
    Integer(i64),
    Real(u64),
    Text(String),
    Blob(usize),
}

/// Materialized table contents: column names, positionally ordered rows
/// aligned with the column list, and the full row count independent of any
/// applied limit.
#[derive(Debug, Clone)]
pub struct TableData {
    pub columns: Vec<String>,
    pub rows: Vec<Vec<CellValue>>,
    pub total_count: i64,
}

/// Object-shaped table contents: each row pairs every column name with its
/// value.
#[derive(Debug, Clone)]
pub struct TableDataObject {
    pub columns: Vec<String>,
    pub rows: Vec<Vec<(String, CellValue)>>,
    pub total_count: i64,
}

/// Structural comparison of two databases' schemas.
#[derive(Debug, Clone)]
pub struct SchemaComparison {
    pub database1: String,
    pub database2: String,
    pub added_tables: Vec<String>,
    pub removed_tables: Vec<String>,
    pub modified_tables: Vec<TableDiff>,
    pub identical_tables: Vec<String>,
}

/// Diff of one table present in both databases but structurally different.
#[derive(Debug, Clone)]
pub struct TableDiff {
    pub table_name: String,
    pub added_columns: Vec<ColumnInfo>,
    pub removed_columns: Vec<String>,
    pub modified_columns: Vec<ColumnDiff>,
}

/// Diff of one column present in both tables but altered.
#[derive(Debug, Clone)]
pub struct ColumnDiff {
    pub column_name: String,
    pub old_type: String,
    pub new_type: String,
    pub changes: Vec<String>,
}

impl ColumnInfo {
    /// An exact copy, field for field.
    pub fn duplicate(&self) -> (r: ColumnInfo)
        ensures
            r == *self,
    {
        ColumnInfo {
            name: self.name.clone(),
            data_type: self.data_type.clone(),
            is_nullable: self.is_nullable,
            default_value: match &self.default_value {
                Some(s) => Some(s.clone()),
                None => None,
            },
            is_primary_key: self.is_primary_key,
        }
    }
}

/// The positional identity test on a column pair: name, declared type
/// (case-sensitive), nullability and primary-key flag must all agree; the
/// default value is deliberately not part of this test.
pub open spec fn col_matches(a: ColumnInfo, b: ColumnInfo) -> bool {
    &&& a.name@ == b.name@
    &&& a.data_type@ == b.data_type@
    &&& a.is_nullable == b.is_nullable
    &&& a.is_primary_key == b.is_primary_key
}

/// Two tables are identical iff they have the same column count and every
/// column pair at the same position passes the identity test.
pub open spec fn tables_identical(a: TableInfo, b: TableInfo) -> bool {
    &&& a.columns@.len() == b.columns@.len()
    &&& forall|i: int|
        0 <= i < a.columns@.len() ==> col_matches(#[trigger] a.columns@[i], b.columns@[i])
}

/// The names of a column list, in order.
pub open spec fn column_names(cols: Seq<ColumnInfo>) -> Seq<Seq<char>> {
    cols.map_values(|c: ColumnInfo| c.name@)
}

/// Whether some column in the list carries the given name.
pub open spec fn has_column_named(cols: Seq<ColumnInfo>, n: Seq<char>) -> bool {
    exists|i: int| 0 <= i < cols.len() && (#[trigger] cols[i]).name@ == n
}

/// The first column in the list carrying the given name.
pub open spec fn find_column(cols: Seq<ColumnInfo>, n: Seq<char>) -> ColumnInfo
    decreases cols.len(),
{
    if cols.len() == 0 {
        arbitrary()
    } else if cols[0].name@ == n {
        cols[0]
    } else {
        find_column(cols.drop_first(), n)
    }
}

/// The names of a table list, in order.
pub open spec fn table_names(ts: Seq<TableInfo>) -> Seq<Seq<char>> {
    ts.map_values(|t: TableInfo| t.name@)
}

/// Whether some table in the list carries the given name.
pub open spec fn has_table_named(ts: Seq<TableInfo>, n: Seq<char>) -> bool {
    exists|i: int| 0 <= i < ts.len() && (#[trigger] ts[i]).name@ == n
}

/// The first table in the list carrying the given name.
pub open spec fn find_table(ts: Seq<TableInfo>, n: Seq<char>) -> TableInfo
    decreases ts.len(),
{
    if ts.len() == 0 {
        arbitrary()
    } else if ts[0].name@ == n {
        ts[0]
    } else {
        find_table(ts.drop_first(), n)
    }
}

} // verus!
