//! The connection registry and the operations over it: connect with
//! automatic plain-vs-encrypted detection, schema listing, row reading, and
//! schema comparison.

use vstd::prelude::*;
use vstd::pervasive::VecAdditionalExecFns;
use vstd::string::*;

use crate::diff::{compare_table_lists, comparison_matches};
use crate::models::{
    column_names, CellValue, ColumnInfo, DatabaseInfo, DatabaseType, DbError, SchemaComparison,
    TableData, TableInfo,
};
use crate::sqlext::{
    cell_from_sql, error_message, exec_batch, open_db, query_column_rows, query_count_i32,
    query_count_i64, query_string_column, query_value_rows, str_eq,
};
use crate::sqltext::{count_query, key_pragma, select_query, table_info_query, KEY_STYLE_COUNT};

verus! {

/// Whether a character separates path components.
pub open spec fn is_sep(c: char) -> bool {
    c == '/' || c == '\\'
}

/// The base name of a path: the suffix after the last component separator.
pub open spec fn base_name_of(s: Seq<char>) -> Seq<char>
    decreases s.len(),
{
    if s.len() == 0 {
        s
    } else if is_sep(s.last()) {
        Seq::empty()
    } else {
        base_name_of(s.drop_last()).push(s.last())
    }
}

proof fn lemma_base_name_suffix(s: Seq<char>, cut: int)
    requires
        0 <= cut <= s.len(),
        forall|k: int| cut <= k < s.len() ==> !is_sep(s[k]),
        cut > 0 ==> is_sep(s[cut - 1]),
    ensures
        base_name_of(s) == s.subrange(cut, s.len() as int),
    decreases s.len(),
{
    if cut == s.len() {
        if s.len() > 0 {
            assert(base_name_of(s) =~= s.subrange(cut, s.len() as int));
        }
    } else {
        assert(!is_sep(s.last()));
        lemma_base_name_suffix(s.drop_last(), cut);
        assert(s.drop_last().subrange(cut, s.drop_last().len() as int).push(s.last()) =~= s
            .subrange(cut, s.len() as int));
    }
}

/// Extracts the base name of a file path: everything after the last `/` or
/// `\` separator.
pub fn base_name(path: &str) -> (r: String)
    ensures
        r@ == base_name_of(path@),
{
    let n = path.unicode_len();
    let mut cut: usize = 0;
    let mut i: usize = 0;
    while i < n
        invariant
            0 <= cut <= i <= n,
            n == path@.len(),
            cut > 0 ==> is_sep(path@[cut - 1]),
            forall|k: int| cut <= k < i ==> !is_sep(path@[k]),
        decreases n - i,
    {
        let c = path.get_char(i);
        if c == '/' || c == '\\' {
            cut = i + 1;
        }
        i = i + 1;
    }
    proof {
        lemma_base_name_suffix(path@, cut as int);
    }
    let tail = path.substring_char(cut, n);
    tail.to_owned()
}

struct ConnEntry {
    path: String,
    conn: rusqlite::Connection,
}

/// Owns the open database handles, keyed by file path; at most one
/// connection per path, last write wins.
pub struct DatabaseManager {
    connections: Vec<ConnEntry>,
}

impl DatabaseManager {
    /// No two registry entries share a path.
    pub closed spec fn wf(self) -> bool {
        forall|i: int, j: int|
            0 <= i < j < self.connections@.len() ==> (#[trigger] self.connections@[i]).path@ != (
            #[trigger] self.connections@[j]).path@
    }

    /// Whether a live handle is registered under the given path.
    pub closed spec fn connected(self, p: Seq<char>) -> bool {
        exists|i: int|
            0 <= i < self.connections@.len() && (#[trigger] self.connections@[i]).path@ == p
    }

    /// A fresh registry with no open connections.
    pub fn new() -> (r: DatabaseManager)
        ensures
            r.wf(),
            forall|q: Seq<char>| !r.connected(q),
    {
        DatabaseManager { connections: Vec::new() }
    }

    /// Index of the entry registered under the path, if any.
    fn find_entry(&self, path: &str) -> (r: Option<usize>)
        ensures
            match r {
                Option::Some(i) => i < self.connections@.len() && self.connections@[
                    i as int
                ].path@ == path@,
                Option::None => !self.connected(path@),
            },
    {
        let mut i: usize = 0;
        while i < self.connections.len()
            invariant
                0 <= i <= self.connections@.len(),
                forall|k: int| 0 <= k < i ==> (#[trigger] self.connections@[k]).path@ != path@,
            decreases self.connections@.len() - i,
        {
            if str_eq(self.connections[i].path.as_str(), path) {
                return Some(i);
            }
            i = i + 1;
        }
        None
    }

    /// Registers a handle under the path, replacing any previous one.
    fn store(&mut self, path: &str, conn: rusqlite::Connection)
        requires
            old(self).wf(),
        ensures
            final(self).wf(),
            final(self).connected(path@),
            forall|q: Seq<char>|
                #[trigger] final(self).connected(q) <==> (old(self).connected(q) || q == path@),
    {
        let entry = ConnEntry { path: String::from_str(path), conn };
        match self.find_entry(path) {
            Some(i) => {
                self.connections.set(i, entry);
                proof {
                    let pre = old(self).connections@;
                    let post = self.connections@;
                    assert(post[i as int].path@ == path@);
                    assert(pre[i as int].path@ == path@);
                    assert forall|q: Seq<char>| #[trigger] self.connected(q) implies (old(self).connected(q) || q == path@) by {
                        let w = choose|w: int| 0 <= w < post.len() && (#[trigger] post[w]).path@ == q;
                        if w != i {
                            assert(pre[w].path@ == q);
                        }
                    }
                    assert forall|q: Seq<char>| (old(self).connected(q) || q == path@) implies #[trigger] self.connected(q) by {
                        if q == path@ {
                            assert(post[i as int].path@ == q);
                        } else {
                            let w = choose|w: int| 0 <= w < pre.len() && (#[trigger] pre[w]).path@ == q;
                            assert(pre[w].path@ != path@);
                            assert(post[w].path@ == q);
                        }
                    }
                    assert(forall|q: Seq<char>|
                        #[trigger] self.connected(q) <==> (old(self).connected(q) || q == path@));
                }
            },
            None => {
                proof {
                    assert(!old(self).connected(path@));
                }
                self.connections.push(entry);
                proof {
                    let pre = old(self).connections@;
                    let post = self.connections@;
                    assert(post[post.len() - 1].path@ == path@);
                    assert forall|q: Seq<char>| #[trigger] self.connected(q) implies (old(self).connected(q) || q == path@) by {
                        let w = choose|w: int| 0 <= w < post.len() && (#[trigger] post[w]).path@ == q;
                        if w < post.len() - 1 {
                            assert(pre[w].path@ == q);
                        }
                    }
                    assert forall|q: Seq<char>| (old(self).connected(q) || q == path@) implies #[trigger] self.connected(q) by {
                        if q == path@ {
                            assert(post[post.len() - 1].path@ == q);
                        } else {
                            let w = choose|w: int| 0 <= w < pre.len() && (#[trigger] pre[w]).path@ == q;
                            assert(post[w].path@ == q);
                        }
                    }
                    assert forall|a: int, b: int| 0 <= a < b < post.len() implies (#[trigger] post[a]).path@ != (#[trigger] post[b]).path@ by {
                        if b == post.len() - 1 {
                            if pre[a].path@ == path@ {
                                assert(old(self).connected(path@));
                            }
                        }
                    }
                    assert(forall|q: Seq<char>|
                        #[trigger] self.connected(q) <==> (old(self).connected(q) || q == path@));
                }
            },
        }
    }

    /// Determines whether the file is a plain database or an encrypted one:
    /// open without a key, then attempt a trivial metadata read. Success
    /// means plain; any read failure on an openable file is taken as
    /// encrypted (a corrupted plain file is indistinguishable from an
    /// encrypted one here, a known limitation of the probe).
    fn detect_database_type(&self, path: &str) -> (r: Result<DatabaseType, DbError>)
        ensures
            r is Err ==> r.get_Err_0() is OpenError,
    {
        match open_db(path) {
            Ok(conn) => {
                match query_count_i32(&conn, "SELECT COUNT(*) FROM sqlite_master;") {
                    Ok(_) => Ok(DatabaseType::SQLite),
                    Err(_) => Ok(DatabaseType::SQLCipher),
                }
            },
            Err(e) => {
                let msg = String::from_str("Failed to open database file: ").concat(
                    error_message(&e).as_str(),
                );
                Err(DbError::OpenError(msg))
            },
        }
    }

    /// Connects to the database at the path, detecting its type first. A
    /// plain file is opened directly; an encrypted one is unlocked by trying
    /// the supported key-pragma encodings in order, stopping at the first
    /// whose application and verification read both succeed. The reported
    /// table count is the one returned by the verification read. The handle
    /// is stored under the path, replacing any previous one; on any error
    /// the registry is left unchanged.
    pub fn connect_database(&mut self, path: &str, password: &str) -> (r: Result<
        DatabaseInfo,
        DbError,
    >)
        requires
            old(self).wf(),
        ensures
            final(self).wf(),
            r is Ok ==> {
                &&& r.get_Ok_0().path@ == path@
                &&& r.get_Ok_0().name@ == base_name_of(path@)
                &&& r.get_Ok_0().is_connected
                &&& r.get_Ok_0().alias is None
                &&& final(self).connected(path@)
                &&& forall|q: Seq<char>|
                    #[trigger] final(self).connected(q) <==> (old(self).connected(q) || q
                        == path@)
            },
            r is Err ==> *final(self) == *old(self),
            r is Err ==> match r.get_Err_0() {
                DbError::OpenError(_) => true,
                DbError::AuthenticationFailed(_) => true,
                DbError::QueryError(_) => true,
                _ => false,
            },
    {
        let db_type = match self.detect_database_type(path) {
            Ok(t) => t,
            Err(e) => {
                return Err(e);
            },
        };
        match db_type {
            DatabaseType::SQLite => {
                let conn = match open_db(path) {
                    Ok(c) => c,
                    Err(e) => {
                        let msg = String::from_str("Failed to open database file: ").concat(
                            error_message(&e).as_str(),
                        );
                        return Err(DbError::OpenError(msg));
                    },
                };
                let table_count = match query_count_i32(
                    &conn,
                    "SELECT COUNT(*) FROM sqlite_master WHERE type='table';",
                ) {
                    Ok(c) => c,
                    Err(e) => {
                        return Err(DbError::QueryError(error_message(&e)));
                    },
                };
                let info = DatabaseInfo {
                    path: String::from_str(path),
                    name: base_name(path),
                    table_count,
                    is_connected: true,
                    alias: None,
                };
                self.store(path, conn);
                Ok(info)
            },
            DatabaseType::SQLCipher => {
                let conn = match open_db(path) {
                    Ok(c) => c,
                    Err(e) => {
                        let msg = String::from_str("Failed to open database file: ").concat(
                            error_message(&e).as_str(),
                        );
                        return Err(DbError::OpenError(msg));
                    },
                };
                let mut success = false;
                let mut table_count: i32 = 0;
                let mut last_error = String::new();
                let mut style: usize = 0;
                while style < KEY_STYLE_COUNT && !success
                    invariant
                        0 <= style <= 4,
                        *self == *old(self),
                    decreases 4 - style,
                {
                    let stmt = key_pragma(style, password);
                    match exec_batch(&conn, stmt.as_str()) {
                        Err(e) => {
                            last_error = String::from_str("Key format failed: ").concat(
                                error_message(&e).as_str(),
                            );
                        },
                        Ok(_) => {
                            match query_count_i32(
                                &conn,
                                "SELECT COUNT(*) FROM sqlite_master WHERE type='table';",
                            ) {
                                Ok(c) => {
                                    success = true;
                                    table_count = c;
                                },
                                Err(e) => {
                                    last_error = String::from_str(
                                        "Key verification failed: ",
                                    ).concat(error_message(&e).as_str());
                                },
                            }
                        },
                    }
                    style = style + 1;
                }
                if !success {
                    let msg = String::from_str(
                        "Failed to connect to SQLCipher database. Last error: ",
                    ).concat(last_error.as_str());
                    return Err(DbError::AuthenticationFailed(msg));
                }
                let info = DatabaseInfo {
                    path: String::from_str(path),
                    name: base_name(path),
                    table_count,
                    is_connected: true,
                    alias: None,
                };
                self.store(path, conn);
                Ok(info)
            },
        }
    }

    /// Reads the column metadata of one table through the engine's
    /// introspection facility. Nullability is the inversion of the engine's
    /// not-null flag; the primary-key flag is set exactly when the engine
    /// reports one.
    fn get_table_columns(&self, conn: &rusqlite::Connection, table_name: &str) -> (r: Result<
        Vec<ColumnInfo>,
        DbError,
    >)
        ensures
            r is Err ==> r.get_Err_0() is QueryError,
    {
        let sql = table_info_query(table_name);
        match query_column_rows(conn, sql.as_str()) {
            Ok(rows) => Ok(columns_from_rows(&rows)),
            Err(e) => Err(DbError::QueryError(error_message(&e))),
        }
    }

    /// Lists the user tables of a connected database, ordered by name by the
    /// engine, excluding its reserved system tables. The row count of each
    /// table fails soft to zero; column introspection failures abort the
    /// listing.
    pub fn get_tables(&self, db_path: &str) -> (r: Result<Vec<TableInfo>, DbError>)
        ensures
            (r matches Err(e) && e is NotConnected) <==> !self.connected(db_path@),
            r is Err ==> (r.get_Err_0() is NotConnected || r.get_Err_0() is QueryError),
    {
        let entry = match self.find_entry(db_path) {
            Some(i) => i,
            None => {
                return Err(DbError::NotConnected);
            },
        };
        proof {
            assert(self.connected(db_path@));
        }
        let conn = &self.connections[entry].conn;
        let table_names = match query_string_column(
            conn,
            "SELECT name FROM sqlite_master WHERE type='table' AND name NOT LIKE 'sqlite_%' ORDER BY name",
        ) {
            Ok(names) => names,
            Err(e) => {
                return Err(DbError::QueryError(error_message(&e)));
            },
        };
        let mut tables: Vec<TableInfo> = Vec::new();
        let mut i: usize = 0;
        while i < table_names.len()
            invariant
                self.connected(db_path@),
                entry < self.connections@.len(),
            decreases table_names@.len() - i,
        {
            let name = &table_names[i];
            let csql = count_query(name.as_str());
            let row_count = match query_count_i64(conn, csql.as_str()) {
                Ok(c) => c,
                Err(_) => 0,
            };
            let columns = match self.get_table_columns(conn, name.as_str()) {
                Ok(cols) => cols,
                Err(e) => {
                    return Err(e);
                },
            };
            tables.push(TableInfo { name: name.clone(), row_count, columns });
            i = i + 1;
        }
        Ok(tables)
    }

    /// Materializes the contents of one table: columns in introspection
    /// order, rows projected in that same order, the limit applied to the
    /// returned rows only, and the total count taken from an unlimited count
    /// query.
    pub fn get_table_data(&self, db_path: &str, table_name: &str, limit: Option<i64>) -> (r:
        Result<TableData, DbError>)
        ensures
            (r matches Err(e) && e is NotConnected) <==> !self.connected(db_path@),
            r is Err ==> (r.get_Err_0() is NotConnected || r.get_Err_0() is QueryError),
            r is Ok ==> {
                let td = r.get_Ok_0();
                &&& forall|i: int|
                    0 <= i < td.rows@.len() ==> (#[trigger] td.rows@[i])@.len()
                        == td.columns@.len()
                &&& match limit {
                    Option::Some(n) => n >= 0 ==> td.rows@.len() <= n,
                    Option::None => true,
                }
            },
    {
        let entry = match self.find_entry(db_path) {
            Some(i) => i,
            None => {
                return Err(DbError::NotConnected);
            },
        };
        proof {
            assert(self.connected(db_path@));
        }
        let conn = &self.connections[entry].conn;
        let columns = match self.get_table_columns(conn, table_name) {
            Ok(cols) => cols,
            Err(e) => {
                return Err(e);
            },
        };
        let column_list = column_name_list(&columns);
        let csql = count_query(table_name);
        let total_count = match query_count_i64(conn, csql.as_str()) {
            Ok(c) => c,
            Err(e) => {
                return Err(DbError::QueryError(error_message(&e)));
            },
        };
        let sql = select_query(&column_list, table_name, limit);
        let raw_rows = match query_value_rows(conn, sql.as_str(), column_list.len()) {
            Ok(rs) => rs,
            Err(e) => {
                return Err(DbError::QueryError(error_message(&e)));
            },
        };
        let mut rows = cells_from_values(&raw_rows);
        let ghost pre_rows = rows@;
        if let Some(n) = limit {
            if n >= 0 {
                bound_rows(&mut rows, n);
                proof {
                    assert forall|i: int|
                        0 <= i < rows@.len() implies (#[trigger] rows@[i])@.len()
                        == column_list@.len() by {
                        assert(rows@[i] == pre_rows[i]);
                    }
                }
            }
        }
        Ok(TableData { columns: column_list, rows, total_count })
    }

    /// Compares the schemas of two connected databases: lists each side's
    /// tables independently, then computes the structural diff. If either
    /// listing fails the whole comparison fails with that error.
    pub fn compare_schemas(&self, db1_path: &str, db2_path: &str) -> (r: Result<
        SchemaComparison,
        DbError,
    >)
        ensures
            !self.connected(db1_path@) ==> (r matches Err(e) && e is NotConnected),
            r is Err ==> (r.get_Err_0() is NotConnected || r.get_Err_0() is QueryError),
            r is Ok ==> {
                let sc = r.get_Ok_0();
                &&& sc.database1@ == db1_path@
                &&& sc.database2@ == db2_path@
                &&& self.connected(db1_path@)
                &&& self.connected(db2_path@)
                &&& exists|ts1: Seq<TableInfo>, ts2: Seq<TableInfo>|
                    comparison_matches(sc, ts1, ts2)
            },
    {
        let tables1 = match self.get_tables(db1_path) {
            Ok(ts) => ts,
            Err(e) => {
                return Err(e);
            },
        };
        let tables2 = match self.get_tables(db2_path) {
            Ok(ts) => ts,
            Err(e) => {
                return Err(e);
            },
        };
        let r = compare_table_lists(db1_path, db2_path, &tables1, &tables2);
        proof {
            assert(comparison_matches(r, tables1@, tables2@));
        }
        Ok(r)
    }
}

/// Converts the engine's introspection rows into column metadata: field
/// order (name, declared type, not-null flag, default value, primary-key
/// flag), with nullability the inversion of the not-null flag.
pub fn columns_from_rows(rows: &Vec<(String, String, i32, Option<String>, i32)>) -> (r: Vec<
    ColumnInfo,
>)
    ensures
        r@.len() == rows@.len(),
        forall|i: int|
            0 <= i < rows@.len() ==> {
                let c = #[trigger] r@[i];
                &&& c.name@ == rows@[i].0@
                &&& c.data_type@ == rows@[i].1@
                &&& c.is_nullable == (rows@[i].2 == 0)
                &&& c.default_value == rows@[i].3
                &&& c.is_primary_key == (rows@[i].4 == 1)
            },
{
    let mut out: Vec<ColumnInfo> = Vec::new();
    let mut i: usize = 0;
    while i < rows.len()
        invariant
            0 <= i <= rows@.len(),
            out@.len() == i,
            forall|k: int|
                0 <= k < i ==> {
                    let c = #[trigger] out@[k];
                    &&& c.name@ == rows@[k].0@
                    &&& c.data_type@ == rows@[k].1@
                    &&& c.is_nullable == (rows@[k].2 == 0)
                    &&& c.default_value == rows@[k].3
                    &&& c.is_primary_key == (rows@[k].4 == 1)
                },
        decreases rows@.len() - i,
    {
        let row = &rows[i];
        let default_value = match &row.3 {
            Some(s) => Some(s.clone()),
            None => None,
        };
        out.push(
            ColumnInfo {
                name: row.0.clone(),
                data_type: row.1.clone(),
                is_nullable: row.2 == 0,
                default_value,
                is_primary_key: row.4 == 1,
            },
        );
        i = i + 1;
    }
    out
}

/// Projects the names out of a column list, keeping the order.
pub fn column_name_list(cols: &Vec<ColumnInfo>) -> (r: Vec<String>)
    ensures
        r.deep_view() == column_names(cols@),
{
    let mut out: Vec<String> = Vec::new();
    let mut i: usize = 0;
    while i < cols.len()
        invariant
            0 <= i <= cols@.len(),
            out@.len() == i,
            forall|k: int| 0 <= k < i ==> (#[trigger] out@[k])@ == cols@[k].name@,
        decreases cols@.len() - i,
    {
        out.push(cols[i].name.clone());
        i = i + 1;
    }
    proof {
        assert(out.deep_view() =~= column_names(cols@));
    }
    out
}

/// Converts the engine's raw row values into the crate's cell model, row by
/// row and cell by cell, keeping the shape of the result.
fn cells_from_values(rows: &Vec<Vec<rusqlite::types::Value>>) -> (r: Vec<Vec<CellValue>>)
    ensures
        r@.len() == rows@.len(),
        forall|i: int| 0 <= i < rows@.len() ==> (#[trigger] r@[i])@.len() == rows@[i]@.len(),
{
    let mut out: Vec<Vec<CellValue>> = Vec::new();
    let mut i: usize = 0;
    while i < rows.len()
        invariant
            0 <= i <= rows@.len(),
            out@.len() == i,
            forall|k: int| 0 <= k < i ==> (#[trigger] out@[k])@.len() == rows@[k]@.len(),
        decreases rows@.len() - i,
    {
        let row = &rows[i];
        let mut cells: Vec<CellValue> = Vec::new();
        let mut j: usize = 0;
        while j < row.len()
            invariant
                0 <= j <= row@.len(),
                cells@.len() == j,
            decreases row@.len() - j,
        {
            cells.push(cell_from_sql(&row[j]));
            j = j + 1;
        }
        out.push(cells);
        i = i + 1;
    }
    out
}

/// Drops rows from the end until at most `n` remain; rows before the bound
/// are untouched.
fn bound_rows(rows: &mut Vec<Vec<CellValue>>, n: i64)
    requires
        n >= 0,
    ensures
        final(rows)@.len() <= n,
        final(rows)@.len() <= old(rows)@.len(),
        final(rows)@ == old(rows)@.take(final(rows)@.len() as int),
{
    let ghost orig = rows@;
    proof {
        assert(orig.take(orig.len() as int) =~= orig);
    }
    while rows.len() as u64 > n as u64
        invariant
            n >= 0,
            rows@.len() <= orig.len(),
            rows@ == orig.take(rows@.len() as int),
        decreases rows@.len(),
    {
        let _popped = rows.pop();
        proof {
            assert(orig.take(rows@.len() as int + 1).drop_last() =~= orig.take(rows@.len() as int));
        }
    }
}

} // verus!
