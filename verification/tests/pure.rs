//! Tests of the pure logic: the schema differ, column conversion, query
//! text construction, and the registry's error behaviour.

use dbinspect::diff::{compare_table_lists, compare_tables, column_changes, tables_are_identical};
use dbinspect::manager::{base_name, column_name_list, columns_from_rows, DatabaseManager};
use dbinspect::models::{ColumnInfo, DbError, TableInfo};
use dbinspect::sqltext::{count_query, key_pragma, quoted_name_list, select_query, table_info_query};

fn col(name: &str, data_type: &str, nullable: bool, default: Option<&str>, pk: bool) -> ColumnInfo {
    ColumnInfo {
        name: name.to_string(),
        data_type: data_type.to_string(),
        is_nullable: nullable,
        default_value: default.map(|s| s.to_string()),
        is_primary_key: pk,
    }
}

fn table(name: &str, cols: Vec<ColumnInfo>) -> TableInfo {
    TableInfo { name: name.to_string(), row_count: 0, columns: cols }
}

#[test]
fn added_column_is_reported_with_full_metadata() {
    let t1 = table("t", vec![col("id", "INTEGER", false, None, true), col("name", "TEXT", true, None, false)]);
    let t2 = table(
        "t",
        vec![
            col("id", "INTEGER", false, None, true),
            col("name", "TEXT", true, None, false),
            col("age", "INTEGER", true, None, false),
        ],
    );
    assert!(!tables_are_identical(&t1, &t2));
    let d = compare_tables(&t1, &t2);
    assert_eq!(d.table_name, "t");
    assert_eq!(d.added_columns.len(), 1);
    assert_eq!(d.added_columns[0].name, "age");
    assert_eq!(d.added_columns[0].data_type, "INTEGER");
    assert!(d.removed_columns.is_empty());
    assert!(d.modified_columns.is_empty());
}

#[test]
fn nullability_change_is_reported_as_modification() {
    let t1 = table("t", vec![col("id", "INTEGER", false, None, true), col("name", "TEXT", true, None, false)]);
    let t2 = table("t", vec![col("id", "INTEGER", false, None, true), col("name", "TEXT", false, None, false)]);
    let d = compare_tables(&t1, &t2);
    assert!(d.added_columns.is_empty());
    assert!(d.removed_columns.is_empty());
    assert_eq!(d.modified_columns.len(), 1);
    let m = &d.modified_columns[0];
    assert_eq!(m.column_name, "name");
    assert_eq!(m.changes, vec!["nullability: true -> false".to_string()]);
}

#[test]
fn removed_column_is_reported_by_name() {
    let t1 = table("t", vec![col("id", "INTEGER", false, None, true), col("extra", "TEXT", true, None, false)]);
    let t2 = table("t", vec![col("id", "INTEGER", false, None, true)]);
    let d = compare_tables(&t1, &t2);
    assert!(d.added_columns.is_empty());
    assert_eq!(d.removed_columns, vec!["extra".to_string()]);
    assert!(d.modified_columns.is_empty());
}

#[test]
fn reordered_columns_fail_identity_but_show_empty_diff() {
    let t1 = table("t", vec![col("a", "INTEGER", true, None, false), col("b", "TEXT", true, None, false)]);
    let t2 = table("t", vec![col("b", "TEXT", true, None, false), col("a", "INTEGER", true, None, false)]);
    assert!(!tables_are_identical(&t1, &t2));
    let d = compare_tables(&t1, &t2);
    assert!(d.added_columns.is_empty());
    assert!(d.removed_columns.is_empty());
    assert!(d.modified_columns.is_empty());
}

#[test]
fn type_case_differs_identity_but_not_diff() {
    let t1 = table("t", vec![col("a", "TEXT", true, None, false)]);
    let t2 = table("t", vec![col("a", "text", true, None, false)]);
    assert!(!tables_are_identical(&t1, &t2));
    let d = compare_tables(&t1, &t2);
    assert!(d.modified_columns.is_empty());
}

#[test]
fn change_descriptors_are_rendered_exactly() {
    let c1 = col("v", "INTEGER", true, None, false);
    let c2 = col("v", "TEXT", false, Some("7"), true);
    let changes = column_changes(&c1, &c2);
    assert_eq!(
        changes,
        vec![
            "type: INTEGER -> TEXT".to_string(),
            "nullability: true -> false".to_string(),
            "primary key: false -> true".to_string(),
            "default changed".to_string(),
        ]
    );
}

#[test]
fn default_only_change_passes_identity_test() {
    let t1 = table("t", vec![col("a", "TEXT", true, Some("x"), false)]);
    let t2 = table("t", vec![col("a", "TEXT", true, Some("y"), false)]);
    assert!(tables_are_identical(&t1, &t2));
    let d = compare_tables(&t1, &t2);
    assert_eq!(d.modified_columns.len(), 1);
    assert_eq!(d.modified_columns[0].changes, vec!["default changed".to_string()]);
}

#[test]
fn comparing_inventory_with_itself_is_all_identical() {
    let ts = vec![
        table("alpha", vec![col("id", "INTEGER", false, None, true)]),
        table("beta", vec![col("x", "TEXT", true, None, false)]),
    ];
    let r = compare_table_lists("a.db", "a.db", &ts, &ts);
    assert_eq!(r.database1, "a.db");
    assert_eq!(r.database2, "a.db");
    assert!(r.added_tables.is_empty());
    assert!(r.removed_tables.is_empty());
    assert!(r.modified_tables.is_empty());
    assert_eq!(r.identical_tables, vec!["alpha".to_string(), "beta".to_string()]);
}

#[test]
fn table_level_additions_and_removals() {
    let ts1 = vec![table("gone", vec![col("a", "TEXT", true, None, false)])];
    let ts2 = vec![table("fresh", vec![col("a", "TEXT", true, None, false)])];
    let r = compare_table_lists("1.db", "2.db", &ts1, &ts2);
    assert_eq!(r.added_tables, vec!["fresh".to_string()]);
    assert_eq!(r.removed_tables, vec!["gone".to_string()]);
    assert!(r.identical_tables.is_empty());
    assert!(r.modified_tables.is_empty());
}

#[test]
fn columns_from_rows_inverts_not_null_flag() {
    let rows = vec![
        ("id".to_string(), "INTEGER".to_string(), 1, None, 1),
        ("name".to_string(), "TEXT".to_string(), 0, Some("''".to_string()), 0),
        ("pair".to_string(), "TEXT".to_string(), 1, None, 2),
    ];
    let cols = columns_from_rows(&rows);
    assert_eq!(cols.len(), 3);
    assert!(!cols[0].is_nullable);
    assert!(cols[0].is_primary_key);
    assert!(cols[1].is_nullable);
    assert!(!cols[1].is_primary_key);
    assert_eq!(cols[1].default_value, Some("''".to_string()));
    // the engine numbers composite primary-key members 1, 2, ...; only the
    // first is flagged here, as the flag tests for exactly 1
    assert!(!cols[2].is_primary_key);
}

#[test]
fn column_name_list_keeps_order() {
    let cols = vec![
        col("zeta", "TEXT", true, None, false),
        col("alpha", "INTEGER", true, None, false),
    ];
    let names = column_name_list(&cols);
    assert_eq!(names, vec!["zeta".to_string(), "alpha".to_string()]);
}

#[test]
fn query_text_is_quoted_and_exact() {
    assert_eq!(count_query("my table"), "SELECT COUNT(*) FROM \"my table\"");
    assert_eq!(table_info_query("t"), "PRAGMA table_info(\"t\")");
    let names = vec!["a".to_string(), "b".to_string()];
    assert_eq!(quoted_name_list(&names), "\"a\", \"b\"");
    assert_eq!(select_query(&names, "t", None), "SELECT \"a\", \"b\" FROM \"t\"");
    assert_eq!(select_query(&names, "t", Some(10)), "SELECT \"a\", \"b\" FROM \"t\" LIMIT 10");
    assert_eq!(select_query(&names, "t", Some(-5)), "SELECT \"a\", \"b\" FROM \"t\" LIMIT -5");
    let empty: Vec<String> = Vec::new();
    assert_eq!(select_query(&empty, "t", None), "SELECT  FROM \"t\"");
}

#[test]
fn key_pragma_styles_are_exact() {
    assert_eq!(key_pragma(0, "pw"), "PRAGMA key = 'pw';");
    assert_eq!(key_pragma(1, "pw"), "PRAGMA key = \"pw\";");
    assert_eq!(key_pragma(2, "pw"), "PRAGMA key = pw;");
    assert_eq!(key_pragma(3, "pw"), "PRAGMA key='pw';");
}

#[test]
fn base_name_takes_suffix_after_last_separator() {
    assert_eq!(base_name("/tmp/data/main.db"), "main.db");
    assert_eq!(base_name("main.db"), "main.db");
    assert_eq!(base_name("/tmp/data/"), "");
    assert_eq!(base_name("C:\\data\\main.db"), "main.db");
    assert_eq!(base_name(""), "");
}

#[test]
fn operations_on_unconnected_path_fail_with_not_connected() {
    let m = DatabaseManager::new();
    assert!(matches!(m.get_tables("nowhere.db"), Err(DbError::NotConnected)));
    assert!(matches!(m.get_table_data("nowhere.db", "t", None), Err(DbError::NotConnected)));
    assert!(matches!(m.compare_schemas("nowhere.db", "elsewhere.db"), Err(DbError::NotConnected)));
}
