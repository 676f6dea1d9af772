//! Integration tests against real database files, plain and encrypted.

use dbinspect::manager::DatabaseManager;
use dbinspect::models::{CellValue, DbError};

fn temp_path(dir: &tempfile::TempDir, name: &str) -> String {
    dir.path().join(name).to_str().unwrap().to_string()
}

fn make_db(path: &str, schema: &str) {
    let conn = rusqlite::Connection::open(path).unwrap();
    conn.execute_batch(schema).unwrap();
}

fn make_encrypted_db(path: &str, password: &str, schema: &str) {
    let conn = rusqlite::Connection::open(path).unwrap();
    conn.execute_batch(&format!("PRAGMA key = \"{}\";", password)).unwrap();
    conn.execute_batch(schema).unwrap();
}

#[test]
fn connect_plain_reports_table_count_and_name() {
    let dir = tempfile::tempdir().unwrap();
    let path = temp_path(&dir, "plain.db");
    make_db(&path, "CREATE TABLE one(a INTEGER); CREATE TABLE two(b TEXT);");
    let mut m = DatabaseManager::new();
    let info = m.connect_database(&path, "").unwrap();
    assert_eq!(info.table_count, 2);
    assert_eq!(info.path, path);
    assert_eq!(info.name, "plain.db");
    assert!(info.is_connected);
    assert!(info.alias.is_none());
}

#[test]
fn list_tables_on_empty_database_is_empty() {
    let dir = tempfile::tempdir().unwrap();
    let path = temp_path(&dir, "empty.db");
    make_db(&path, "PRAGMA user_version = 1;");
    let mut m = DatabaseManager::new();
    m.connect_database(&path, "").unwrap();
    let tables = m.get_tables(&path).unwrap();
    assert!(tables.is_empty());
}

#[test]
fn list_tables_is_sorted_with_counts_and_columns() {
    let dir = tempfile::tempdir().unwrap();
    let path = temp_path(&dir, "lists.db");
    make_db(
        &path,
        "CREATE TABLE zeta(x INTEGER); CREATE TABLE alpha(id INTEGER PRIMARY KEY, name TEXT NOT NULL); \
         INSERT INTO zeta VALUES (1), (2), (3);",
    );
    let mut m = DatabaseManager::new();
    m.connect_database(&path, "").unwrap();
    let tables = m.get_tables(&path).unwrap();
    assert_eq!(tables.len(), 2);
    assert_eq!(tables[0].name, "alpha");
    assert_eq!(tables[1].name, "zeta");
    assert_eq!(tables[1].row_count, 3);
    assert_eq!(tables[0].columns.len(), 2);
    assert_eq!(tables[0].columns[0].name, "id");
    assert!(tables[0].columns[0].is_primary_key);
    assert!(tables[0].columns[0].is_nullable);
    assert!(!tables[0].columns[1].is_nullable);
}

#[test]
fn read_rows_respects_limit_but_counts_everything() {
    let dir = tempfile::tempdir().unwrap();
    let path = temp_path(&dir, "rows.db");
    make_db(
        &path,
        "CREATE TABLE t(n INTEGER); INSERT INTO t VALUES (1), (2), (3), (4), (5);",
    );
    let mut m = DatabaseManager::new();
    m.connect_database(&path, "").unwrap();
    let limited = m.get_table_data(&path, "t", Some(2)).unwrap();
    assert_eq!(limited.rows.len(), 2);
    assert_eq!(limited.total_count, 5);
    let full = m.get_table_data(&path, "t", None).unwrap();
    assert_eq!(full.rows.len(), 5);
    assert_eq!(full.total_count, 5);
}

#[test]
fn read_rows_column_order_matches_listing() {
    let dir = tempfile::tempdir().unwrap();
    let path = temp_path(&dir, "order.db");
    make_db(&path, "CREATE TABLE t(zed TEXT, alpha INTEGER, mid TEXT);");
    let mut m = DatabaseManager::new();
    m.connect_database(&path, "").unwrap();
    let tables = m.get_tables(&path).unwrap();
    let listed: Vec<String> = tables[0].columns.iter().map(|c| c.name.clone()).collect();
    let data = m.get_table_data(&path, "t", None).unwrap();
    assert_eq!(data.columns, listed);
    assert_eq!(data.columns, vec!["zed".to_string(), "alpha".to_string(), "mid".to_string()]);
}

#[test]
fn read_rows_converts_each_storage_class() {
    let dir = tempfile::tempdir().unwrap();
    let path = temp_path(&dir, "cells.db");
    make_db(
        &path,
        "CREATE TABLE t(a, b, c, d, e); INSERT INTO t VALUES (NULL, 42, 1.5, 'txt', x'010203');",
    );
    let mut m = DatabaseManager::new();
    m.connect_database(&path, "").unwrap();
    let data = m.get_table_data(&path, "t", None).unwrap();
    assert_eq!(data.rows.len(), 1);
    let row = &data.rows[0];
    assert_eq!(row[0], CellValue::Null);
    assert_eq!(row[1], CellValue::Integer(42));
    assert_eq!(row[2], CellValue::Real(1.5f64.to_bits()));
    assert_eq!(row[3], CellValue::Text("txt".to_string()));
    assert_eq!(row[4], CellValue::Blob(3));
}

#[test]
fn negative_limit_passes_through_as_unlimited() {
    let dir = tempfile::tempdir().unwrap();
    let path = temp_path(&dir, "neg.db");
    make_db(&path, "CREATE TABLE t(n INTEGER); INSERT INTO t VALUES (1), (2), (3);");
    let mut m = DatabaseManager::new();
    m.connect_database(&path, "").unwrap();
    let data = m.get_table_data(&path, "t", Some(-1)).unwrap();
    assert_eq!(data.rows.len(), 3);
    assert_eq!(data.total_count, 3);
}

#[test]
fn declared_defaults_are_listed() {
    let dir = tempfile::tempdir().unwrap();
    let path = temp_path(&dir, "defaults.db");
    make_db(&path, "CREATE TABLE t(a INTEGER DEFAULT 7, b TEXT);");
    let mut m = DatabaseManager::new();
    m.connect_database(&path, "").unwrap();
    let tables = m.get_tables(&path).unwrap();
    assert_eq!(tables[0].columns[0].default_value, Some("7".to_string()));
    assert_eq!(tables[0].columns[1].default_value, None);
}

#[test]
fn reading_missing_table_is_a_query_error() {
    let dir = tempfile::tempdir().unwrap();
    let path = temp_path(&dir, "missing.db");
    make_db(&path, "CREATE TABLE t(a INTEGER);");
    let mut m = DatabaseManager::new();
    m.connect_database(&path, "").unwrap();
    assert!(matches!(m.get_table_data(&path, "no_such_table", None), Err(DbError::QueryError(_))));
}

#[test]
fn compare_database_with_itself_is_all_identical() {
    let dir = tempfile::tempdir().unwrap();
    let path = temp_path(&dir, "self.db");
    make_db(&path, "CREATE TABLE a(x INTEGER); CREATE TABLE b(y TEXT);");
    let mut m = DatabaseManager::new();
    m.connect_database(&path, "").unwrap();
    let r = m.compare_schemas(&path, &path).unwrap();
    assert!(r.added_tables.is_empty());
    assert!(r.removed_tables.is_empty());
    assert!(r.modified_tables.is_empty());
    assert_eq!(r.identical_tables, vec!["a".to_string(), "b".to_string()]);
}

#[test]
fn compare_reports_structural_differences_between_files() {
    let dir = tempfile::tempdir().unwrap();
    let path1 = temp_path(&dir, "one.db");
    let path2 = temp_path(&dir, "two.db");
    make_db(
        &path1,
        "CREATE TABLE t(id INTEGER PRIMARY KEY, name TEXT); CREATE TABLE only_here(x INTEGER);",
    );
    make_db(
        &path2,
        "CREATE TABLE t(id INTEGER PRIMARY KEY, name TEXT, age INTEGER); CREATE TABLE only_there(x INTEGER);",
    );
    let mut m = DatabaseManager::new();
    m.connect_database(&path1, "").unwrap();
    m.connect_database(&path2, "").unwrap();
    let r = m.compare_schemas(&path1, &path2).unwrap();
    assert_eq!(r.added_tables, vec!["only_there".to_string()]);
    assert_eq!(r.removed_tables, vec!["only_here".to_string()]);
    assert_eq!(r.modified_tables.len(), 1);
    let d = &r.modified_tables[0];
    assert_eq!(d.table_name, "t");
    assert_eq!(d.added_columns.len(), 1);
    assert_eq!(d.added_columns[0].name, "age");
    assert!(d.removed_columns.is_empty());
    assert!(d.modified_columns.is_empty());
    assert!(r.identical_tables.is_empty());
}

#[test]
fn encrypted_connect_succeeds_with_correct_password() {
    let dir = tempfile::tempdir().unwrap();
    let path = temp_path(&dir, "enc.db");
    make_encrypted_db(&path, "topsecret", "CREATE TABLE hidden(v TEXT);");
    let mut m = DatabaseManager::new();
    let info = m.connect_database(&path, "topsecret").unwrap();
    assert_eq!(info.table_count, 1);
    let tables = m.get_tables(&path).unwrap();
    assert_eq!(tables[0].name, "hidden");
}

#[test]
fn encrypted_connect_handles_quote_in_password() {
    let dir = tempfile::tempdir().unwrap();
    let path = temp_path(&dir, "encq.db");
    make_encrypted_db(&path, "pa'ss", "CREATE TABLE q(v TEXT);");
    let mut m = DatabaseManager::new();
    let info = m.connect_database(&path, "pa'ss").unwrap();
    assert_eq!(info.table_count, 1);
}

#[test]
fn wrong_password_fails_without_leaking_it() {
    let dir = tempfile::tempdir().unwrap();
    let path = temp_path(&dir, "encw.db");
    make_encrypted_db(&path, "rightpw", "CREATE TABLE s(v TEXT);");
    let mut m = DatabaseManager::new();
    match m.connect_database(&path, "wrongpw") {
        Err(DbError::AuthenticationFailed(msg)) => {
            assert!(!msg.contains("wrongpw"));
            assert!(!msg.contains("rightpw"));
        },
        other => panic!("expected authentication failure, got {:?}", other),
    }
    assert!(matches!(m.get_tables(&path), Err(DbError::NotConnected)));
}

#[test]
fn reconnecting_replaces_the_stored_handle() {
    let dir = tempfile::tempdir().unwrap();
    let path = temp_path(&dir, "re.db");
    make_db(&path, "CREATE TABLE t(a INTEGER);");
    let mut m = DatabaseManager::new();
    m.connect_database(&path, "").unwrap();
    let info = m.connect_database(&path, "").unwrap();
    assert_eq!(info.table_count, 1);
    assert_eq!(m.get_tables(&path).unwrap().len(), 1);
}

#[test]
fn quoted_table_names_survive_round_trip() {
    let dir = tempfile::tempdir().unwrap();
    let path = temp_path(&dir, "quoted.db");
    make_db(&path, "CREATE TABLE \"odd name\"(v INTEGER); INSERT INTO \"odd name\" VALUES (9);");
    let mut m = DatabaseManager::new();
    m.connect_database(&path, "").unwrap();
    let tables = m.get_tables(&path).unwrap();
    assert_eq!(tables[0].name, "odd name");
    assert_eq!(tables[0].row_count, 1);
    let data = m.get_table_data(&path, "odd name", None).unwrap();
    assert_eq!(data.rows[0][0], CellValue::Integer(9));
}
