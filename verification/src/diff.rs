//! Pure structural comparison of two table inventories.
//!
//! Two comparisons are deliberately asymmetric: the identity test on a common
//! table compares columns pairwise *by position* (case-sensitive on the
//! declared type), while the diff computation on a non-identical table
//! matches columns *by name* (case-insensitive on the declared type). A table
//! with reordered but otherwise unchanged columns is therefore reported as
//! modified yet shows an empty diff.

use vstd::prelude::*;
use vstd::string::*;

use crate::models::{
    col_matches, find_column, find_table, has_column_named, has_table_named, table_names,
    tables_identical, ColumnDiff, ColumnInfo, SchemaComparison, TableDiff, TableInfo,
};
use crate::sqlext::{lower_of, lowercase, str_eq};

verus! {

/// The rendering of a boolean inside a change descriptor.
pub open spec fn bool_text(b: bool) -> Seq<char> {
    if b {
        "true"@
    } else {
        "false"@
    }
}

/// The descriptor of a declared-type change.
pub open spec fn type_change_text(old_type: Seq<char>, new_type: Seq<char>) -> Seq<char> {
    "type: "@ + old_type + " -> "@ + new_type
}

/// The descriptor of a nullability change.
pub open spec fn nullability_change_text(was: bool, now: bool) -> Seq<char> {
    "nullability: "@ + bool_text(was) + " -> "@ + bool_text(now)
}

/// The descriptor of a primary-key change.
pub open spec fn pk_change_text(was: bool, now: bool) -> Seq<char> {
    "primary key: "@ + bool_text(was) + " -> "@ + bool_text(now)
}

/// Equality of two optional default values, by contents.
pub open spec fn options_equal(a: Option<String>, b: Option<String>) -> bool {
    match (a, b) {
        (Option::None, Option::None) => true,
        (Option::Some(x), Option::Some(y)) => x@ == y@,
        _ => false,
    }
}

/// The change descriptors for one column present in both tables, in fixed
/// order: declared type (compared case-insensitively), nullability,
/// primary-key flag, default value — each detected independently, all
/// applicable ones included.
pub open spec fn change_list(c1: ColumnInfo, c2: ColumnInfo) -> Seq<Seq<char>> {
    (if lower_of(c1.data_type@) != lower_of(c2.data_type@) {
        seq![type_change_text(c1.data_type@, c2.data_type@)]
    } else {
        Seq::<Seq<char>>::empty()
    }) + (if c1.is_nullable != c2.is_nullable {
        seq![nullability_change_text(c1.is_nullable, c2.is_nullable)]
    } else {
        Seq::<Seq<char>>::empty()
    }) + (if c1.is_primary_key != c2.is_primary_key {
        seq![pk_change_text(c1.is_primary_key, c2.is_primary_key)]
    } else {
        Seq::<Seq<char>>::empty()
    }) + (if !options_equal(c1.default_value, c2.default_value) {
        seq!["default changed"@]
    } else {
        Seq::<Seq<char>>::empty()
    })
}

/// The columns of the second table whose name appears nowhere in the first,
/// in the second table's order, with full metadata.
pub open spec fn added_columns_spec(cols1: Seq<ColumnInfo>, cols2: Seq<ColumnInfo>) -> Seq<
    ColumnInfo,
> {
    cols2.filter(|c: ColumnInfo| !has_column_named(cols1, c.name@))
}

/// The names of the columns of the first table that appear nowhere in the
/// second, in the first table's order.
pub open spec fn removed_columns_spec(cols1: Seq<ColumnInfo>, cols2: Seq<ColumnInfo>) -> Seq<
    Seq<char>,
> {
    cols1.filter(|c: ColumnInfo| !has_column_named(cols2, c.name@)).map_values(
        |c: ColumnInfo| c.name@,
    )
}

/// The columns of the first table that are matched by name in the second and
/// carry at least one change, in the first table's order.
pub open spec fn modified_columns_src(cols1: Seq<ColumnInfo>, cols2: Seq<ColumnInfo>) -> Seq<
    ColumnInfo,
> {
    cols1.filter(
        |c: ColumnInfo|
            has_column_named(cols2, c.name@) && change_list(
                c,
                find_column(cols2, c.name@),
            ).len() > 0,
    )
}

/// How one entry of a diff's modified-column list relates to the matched
/// column pair it was computed from.
pub open spec fn col_diff_matches(d: ColumnDiff, c1: ColumnInfo, c2: ColumnInfo) -> bool {
    &&& d.column_name@ == c1.name@
    &&& d.old_type@ == c1.data_type@
    &&& d.new_type@ == c2.data_type@
    &&& d.changes.deep_view() == change_list(c1, c2)
}

/// How a whole table diff relates to the two tables it was computed from.
pub open spec fn table_diff_matches(d: TableDiff, t1: TableInfo, t2: TableInfo) -> bool {
    &&& d.table_name@ == t1.name@
    &&& d.added_columns@ == added_columns_spec(t1.columns@, t2.columns@)
    &&& d.removed_columns.deep_view() == removed_columns_spec(t1.columns@, t2.columns@)
    &&& d.modified_columns@.len() == modified_columns_src(t1.columns@, t2.columns@).len()
    &&& forall|i: int|
        0 <= i < d.modified_columns@.len() ==> col_diff_matches(
            #[trigger] d.modified_columns@[i],
            modified_columns_src(t1.columns@, t2.columns@)[i],
            find_column(t2.columns@, modified_columns_src(t1.columns@, t2.columns@)[i].name@),
        )
}

/// The names of the tables of the second inventory that appear nowhere in the
/// first, in the second inventory's order.
pub open spec fn added_tables_spec(ts1: Seq<TableInfo>, ts2: Seq<TableInfo>) -> Seq<Seq<char>> {
    ts2.filter(|t: TableInfo| !has_table_named(ts1, t.name@)).map_values(|t: TableInfo| t.name@)
}

/// The names of the tables of the first inventory that appear nowhere in the
/// second, in the first inventory's order.
pub open spec fn removed_tables_spec(ts1: Seq<TableInfo>, ts2: Seq<TableInfo>) -> Seq<Seq<char>> {
    ts1.filter(|t: TableInfo| !has_table_named(ts2, t.name@)).map_values(|t: TableInfo| t.name@)
}

/// The common tables that pass the positional identity test, in the first
/// inventory's order.
pub open spec fn identical_tables_spec(ts1: Seq<TableInfo>, ts2: Seq<TableInfo>) -> Seq<Seq<char>> {
    ts1.filter(
        |t: TableInfo|
            has_table_named(ts2, t.name@) && tables_identical(t, find_table(ts2, t.name@)),
    ).map_values(|t: TableInfo| t.name@)
}

/// The common tables that fail the positional identity test, in the first
/// inventory's order.
pub open spec fn modified_tables_src(ts1: Seq<TableInfo>, ts2: Seq<TableInfo>) -> Seq<TableInfo> {
    ts1.filter(
        |t: TableInfo|
            has_table_named(ts2, t.name@) && !tables_identical(t, find_table(ts2, t.name@)),
    )
}

/// How a whole comparison relates to the two inventories it was computed
/// from.
pub open spec fn comparison_matches(
    r: SchemaComparison,
    ts1: Seq<TableInfo>,
    ts2: Seq<TableInfo>,
) -> bool {
    &&& r.added_tables.deep_view() == added_tables_spec(ts1, ts2)
    &&& r.removed_tables.deep_view() == removed_tables_spec(ts1, ts2)
    &&& r.identical_tables.deep_view() == identical_tables_spec(ts1, ts2)
    &&& r.modified_tables@.len() == modified_tables_src(ts1, ts2).len()
    &&& forall|i: int|
        0 <= i < r.modified_tables@.len() ==> table_diff_matches(
            #[trigger] r.modified_tables@[i],
            modified_tables_src(ts1, ts2)[i],
            find_table(ts2, modified_tables_src(ts1, ts2)[i].name@),
        )
}

/// No two tables of the inventory share a name (always true of a listing
/// produced by one database).
pub open spec fn distinct_table_names(ts: Seq<TableInfo>) -> bool {
    forall|i: int, j: int|
        0 <= i < j < ts.len() ==> (#[trigger] ts[i]).name@ != (#[trigger] ts[j]).name@
}

/// One unfolding step of `filter` at the pushed end.
proof fn lemma_filter_push<A>(s: Seq<A>, x: A, pred: spec_fn(A) -> bool)
    ensures
        s.push(x).filter(pred) == (if pred(x) {
            s.filter(pred).push(x)
        } else {
            s.filter(pred)
        }),
{
    reveal(Seq::filter);
    assert(s.push(x).drop_last() =~= s);
    assert(s.push(x).last() == x);
}

/// `map_values` distributes over `push`.
proof fn lemma_map_values_push<A, B>(s: Seq<A>, x: A, f: spec_fn(A) -> B)
    ensures
        (s.push(x)).map_values(f) == s.map_values(f).push(f(x)),
{
    assert((s.push(x)).map_values(f) =~= s.map_values(f).push(f(x)));
}

/// A filter whose predicate rejects every element yields the empty sequence.
proof fn lemma_filter_none<A>(s: Seq<A>, pred: spec_fn(A) -> bool)
    requires
        forall|i: int| 0 <= i < s.len() ==> !pred(#[trigger] s[i]),
    ensures
        s.filter(pred).len() == 0,
    decreases s.len(),
{
    reveal(Seq::filter);
    if s.len() > 0 {
        lemma_filter_none(s.drop_last(), pred);
    }
}

/// A filter whose predicate accepts every element yields the sequence itself.
proof fn lemma_filter_all<A>(s: Seq<A>, pred: spec_fn(A) -> bool)
    requires
        forall|i: int| 0 <= i < s.len() ==> pred(#[trigger] s[i]),
    ensures
        s.filter(pred) == s,
    decreases s.len(),
{
    reveal(Seq::filter);
    if s.len() > 0 {
        lemma_filter_all(s.drop_last(), pred);
        assert(s.filter(pred) =~= s);
    }
}

/// The first column carrying a name is the one `find_column` denotes.
proof fn lemma_find_column_first(cols: Seq<ColumnInfo>, n: Seq<char>, j: int)
    requires
        0 <= j < cols.len(),
        cols[j].name@ == n,
        forall|k: int| 0 <= k < j ==> (#[trigger] cols[k]).name@ != n,
    ensures
        find_column(cols, n) == cols[j],
    decreases j,
{
    if j > 0 {
        lemma_find_column_first(cols.drop_first(), n, j - 1);
    }
}

/// The first table carrying a name is the one `find_table` denotes.
proof fn lemma_find_table_first(ts: Seq<TableInfo>, n: Seq<char>, j: int)
    requires
        0 <= j < ts.len(),
        ts[j].name@ == n,
        forall|k: int| 0 <= k < j ==> (#[trigger] ts[k]).name@ != n,
    ensures
        find_table(ts, n) == ts[j],
    decreases j,
{
    if j > 0 {
        lemma_find_table_first(ts.drop_first(), n, j - 1);
    }
}

/// Renders a boolean for a change descriptor.
fn bool_str(b: bool) -> (r: &'static str)
    ensures
        r@ == bool_text(b),
{
    if b {
        "true"
    } else {
        "false"
    }
}

/// Compares two optional default values by contents.
fn defaults_equal(a: &Option<String>, b: &Option<String>) -> (r: bool)
    ensures
        r == options_equal(*a, *b),
{
    match (a, b) {
        (Option::None, Option::None) => true,
        (Option::Some(x), Option::Some(y)) => str_eq(x.as_str(), y.as_str()),
        _ => false,
    }
}

/// Computes the change descriptors for one column present in both tables.
pub fn column_changes(c1: &ColumnInfo, c2: &ColumnInfo) -> (r: Vec<String>)
    ensures
        r.deep_view() == change_list(*c1, *c2),
{
    let mut out: Vec<String> = Vec::new();
    let lt1 = lowercase(c1.data_type.as_str());
    let lt2 = lowercase(c2.data_type.as_str());
    if !(lt1 == lt2) {
        out.push(
            String::from_str("type: ").concat(c1.data_type.as_str()).concat(" -> ").concat(
                c2.data_type.as_str(),
            ),
        );
    }
    if c1.is_nullable != c2.is_nullable {
        out.push(
            String::from_str("nullability: ").concat(bool_str(c1.is_nullable)).concat(
                " -> ",
            ).concat(bool_str(c2.is_nullable)),
        );
    }
    if c1.is_primary_key != c2.is_primary_key {
        out.push(
            String::from_str("primary key: ").concat(bool_str(c1.is_primary_key)).concat(
                " -> ",
            ).concat(bool_str(c2.is_primary_key)),
        );
    }
    if !defaults_equal(&c1.default_value, &c2.default_value) {
        out.push(String::from_str("default changed"));
    }
    proof {
        assert(out.deep_view() =~= change_list(*c1, *c2));
    }
    out
}

/// Finds the first column carrying the given name, if any.
fn find_named_column(cols: &Vec<ColumnInfo>, n: &str) -> (r: Option<usize>)
    ensures
        match r {
            Option::Some(j) => {
                &&& j < cols@.len()
                &&& cols@[j as int].name@ == n@
                &&& cols@[j as int] == find_column(cols@, n@)
                &&& has_column_named(cols@, n@)
            },
            Option::None => !has_column_named(cols@, n@),
        },
{
    let mut i: usize = 0;
    while i < cols.len()
        invariant
            0 <= i <= cols@.len(),
            forall|k: int| 0 <= k < i ==> (#[trigger] cols@[k]).name@ != n@,
        decreases cols@.len() - i,
    {
        if str_eq(cols[i].name.as_str(), n) {
            proof {
                lemma_find_column_first(cols@, n@, i as int);
            }
            return Some(i);
        }
        i = i + 1;
    }
    None
}

/// Whether some table of the inventory carries the given name.
fn has_named_table(ts: &Vec<TableInfo>, n: &str) -> (r: bool)
    ensures
        r == has_table_named(ts@, n@),
{
    let mut i: usize = 0;
    while i < ts.len()
        invariant
            0 <= i <= ts@.len(),
            forall|k: int| 0 <= k < i ==> (#[trigger] ts@[k]).name@ != n@,
        decreases ts@.len() - i,
    {
        if str_eq(ts[i].name.as_str(), n) {
            return true;
        }
        i = i + 1;
    }
    false
}

/// Finds the first table carrying the given name, if any.
fn find_named_table(ts: &Vec<TableInfo>, n: &str) -> (r: Option<usize>)
    ensures
        match r {
            Option::Some(j) => {
                &&& j < ts@.len()
                &&& ts@[j as int].name@ == n@
                &&& ts@[j as int] == find_table(ts@, n@)
                &&& has_table_named(ts@, n@)
            },
            Option::None => !has_table_named(ts@, n@),
        },
{
    let mut i: usize = 0;
    while i < ts.len()
        invariant
            0 <= i <= ts@.len(),
            forall|k: int| 0 <= k < i ==> (#[trigger] ts@[k]).name@ != n@,
        decreases ts@.len() - i,
    {
        if str_eq(ts[i].name.as_str(), n) {
            proof {
                lemma_find_table_first(ts@, n@, i as int);
            }
            return Some(i);
        }
        i = i + 1;
    }
    None
}

/// The positional identity test on two tables: equal column count, and every
/// column pair at the same position equal on name, declared type
/// (case-sensitive), nullability and primary-key flag.
pub fn tables_are_identical(t1: &TableInfo, t2: &TableInfo) -> (r: bool)
    ensures
        r == tables_identical(*t1, *t2),
{
    if t1.columns.len() != t2.columns.len() {
        return false;
    }
    let mut i: usize = 0;
    while i < t1.columns.len()
        invariant
            0 <= i <= t1.columns@.len(),
            t1.columns@.len() == t2.columns@.len(),
            forall|k: int|
                0 <= k < i ==> col_matches(#[trigger] t1.columns@[k], t2.columns@[k]),
        decreases t1.columns@.len() - i,
    {
        let c1 = &t1.columns[i];
        let c2 = &t2.columns[i];
        if !str_eq(c1.name.as_str(), c2.name.as_str()) || !str_eq(
            c1.data_type.as_str(),
            c2.data_type.as_str(),
        ) || c1.is_nullable != c2.is_nullable || c1.is_primary_key != c2.is_primary_key {
            return false;
        }
        i = i + 1;
    }
    true
}

/// The name-matched diff of one table present in both databases: added
/// columns (full metadata, second database's order), removed column names
/// (first database's order), and the change descriptors of every name-matched
/// column that was altered.
pub fn compare_tables(t1: &TableInfo, t2: &TableInfo) -> (r: TableDiff)
    ensures
        table_diff_matches(r, *t1, *t2),
{
    let ghost cols1 = t1.columns@;
    let ghost cols2 = t2.columns@;

    let mut added: Vec<ColumnInfo> = Vec::new();
    let mut i: usize = 0;
    proof {
        assert(cols2.take(0) =~= Seq::<ColumnInfo>::empty());
        lemma_filter_none(
            cols2.take(0),
            |c: ColumnInfo| !has_column_named(cols1, c.name@),
        );
    }
    while i < t2.columns.len()
        invariant
            0 <= i <= cols2.len(),
            cols1 == t1.columns@,
            cols2 == t2.columns@,
            added@ == added_columns_spec(cols1, cols2.take(i as int)),
        decreases cols2.len() - i,
    {
        let c = &t2.columns[i];
        let present = find_named_column(&t1.columns, c.name.as_str());
        if present.is_none() {
            added.push(c.duplicate());
        }
        proof {
            lemma_filter_push(
                cols2.take(i as int),
                cols2[i as int],
                |c: ColumnInfo| !has_column_named(cols1, c.name@),
            );
            assert(cols2.take(i as int).push(cols2[i as int]) =~= cols2.take(i as int + 1));
        }
        i = i + 1;
    }
    proof {
        assert(cols2.take(cols2.len() as int) =~= cols2);
    }

    let mut removed: Vec<String> = Vec::new();
    let mut j: usize = 0;
    proof {
        assert(cols1.take(0) =~= Seq::<ColumnInfo>::empty());
        lemma_filter_none(
            cols1.take(0),
            |c: ColumnInfo| !has_column_named(cols2, c.name@),
        );
        assert(removed.deep_view() =~= removed_columns_spec(cols1.take(0), cols2));
    }
    while j < t1.columns.len()
        invariant
            0 <= j <= cols1.len(),
            cols1 == t1.columns@,
            cols2 == t2.columns@,
            removed.deep_view() == removed_columns_spec(cols1.take(j as int), cols2),
        decreases cols1.len() - j,
    {
        let c = &t1.columns[j];
        let present = find_named_column(&t2.columns, c.name.as_str());
        if present.is_none() {
            removed.push(c.name.clone());
        }
        proof {
            lemma_filter_push(
                cols1.take(j as int),
                cols1[j as int],
                |c: ColumnInfo| !has_column_named(cols2, c.name@),
            );
            lemma_map_values_push(
                cols1.take(j as int).filter(|c: ColumnInfo| !has_column_named(cols2, c.name@)),
                cols1[j as int],
                |c: ColumnInfo| c.name@,
            );
            assert(cols1.take(j as int).push(cols1[j as int]) =~= cols1.take(j as int + 1));
            assert(removed.deep_view() =~= removed_columns_spec(cols1.take(j as int + 1), cols2));
        }
        j = j + 1;
    }
    proof {
        assert(cols1.take(cols1.len() as int) =~= cols1);
    }

    let mut modified: Vec<ColumnDiff> = Vec::new();
    let mut k: usize = 0;
    proof {
        assert(cols1.take(0) =~= Seq::<ColumnInfo>::empty());
        lemma_filter_none(
            cols1.take(0),
            |c: ColumnInfo|
                has_column_named(cols2, c.name@) && change_list(
                    c,
                    find_column(cols2, c.name@),
                ).len() > 0,
        );
    }
    while k < t1.columns.len()
        invariant
            0 <= k <= cols1.len(),
            cols1 == t1.columns@,
            cols2 == t2.columns@,
            modified@.len() == modified_columns_src(cols1.take(k as int), cols2).len(),
            forall|m: int|
                0 <= m < modified@.len() ==> col_diff_matches(
                    #[trigger] modified@[m],
                    modified_columns_src(cols1.take(k as int), cols2)[m],
                    find_column(
                        cols2,
                        modified_columns_src(cols1.take(k as int), cols2)[m].name@,
                    ),
                ),
        decreases cols1.len() - k,
    {
        let c1 = &t1.columns[k];
        match find_named_column(&t2.columns, c1.name.as_str()) {
            Some(jdx) => {
                let c2 = &t2.columns[jdx];
                let changes = column_changes(c1, c2);
                if changes.len() > 0 {
                    proof {
                        assert(changes.deep_view().len() == changes@.len());
                    }
                    modified.push(
                        ColumnDiff {
                            column_name: c1.name.clone(),
                            old_type: c1.data_type.clone(),
                            new_type: c2.data_type.clone(),
                            changes,
                        },
                    );
                } else {
                    proof {
                        assert(change_list(cols1[k as int], find_column(cols2, cols1[k as int].name@)).len()
                            == 0);
                    }
                }
            },
            None => {},
        }
        proof {
            lemma_filter_push(
                cols1.take(k as int),
                cols1[k as int],
                |c: ColumnInfo|
                    has_column_named(cols2, c.name@) && change_list(
                        c,
                        find_column(cols2, c.name@),
                    ).len() > 0,
            );
            assert(cols1.take(k as int).push(cols1[k as int]) =~= cols1.take(k as int + 1));
        }
        k = k + 1;
    }
    proof {
        assert(cols1.take(cols1.len() as int) =~= cols1);
    }

    TableDiff { table_name: t1.name.clone(), added_columns: added, removed_columns: removed, modified_columns: modified }
}

/// Compares two table inventories: table-name differences, then for each
/// common table the positional identity test, and a name-matched diff where
/// that test fails.
pub fn compare_table_lists(
    db1: &str,
    db2: &str,
    ts1: &Vec<TableInfo>,
    ts2: &Vec<TableInfo>,
) -> (r: SchemaComparison)
    ensures
        r.database1@ == db1@,
        r.database2@ == db2@,
        comparison_matches(r, ts1@, ts2@),
{
    let ghost s1 = ts1@;
    let ghost s2 = ts2@;

    let mut added: Vec<String> = Vec::new();
    let mut i: usize = 0;
    proof {
        assert(s2.take(0) =~= Seq::<TableInfo>::empty());
        lemma_filter_none(s2.take(0), |t: TableInfo| !has_table_named(s1, t.name@));
        assert(added.deep_view() =~= added_tables_spec(s1, s2.take(0)));
    }
    while i < ts2.len()
        invariant
            0 <= i <= s2.len(),
            s1 == ts1@,
            s2 == ts2@,
            added.deep_view() == added_tables_spec(s1, s2.take(i as int)),
        decreases s2.len() - i,
    {
        let t = &ts2[i];
        if !has_named_table(ts1, t.name.as_str()) {
            added.push(t.name.clone());
        }
        proof {
            lemma_filter_push(
                s2.take(i as int),
                s2[i as int],
                |t: TableInfo| !has_table_named(s1, t.name@),
            );
            lemma_map_values_push(
                s2.take(i as int).filter(|t: TableInfo| !has_table_named(s1, t.name@)),
                s2[i as int],
                |t: TableInfo| t.name@,
            );
            assert(s2.take(i as int).push(s2[i as int]) =~= s2.take(i as int + 1));
            assert(added.deep_view() =~= added_tables_spec(s1, s2.take(i as int + 1)));
        }
        i = i + 1;
    }
    proof {
        assert(s2.take(s2.len() as int) =~= s2);
    }

    let mut removed: Vec<String> = Vec::new();
    let mut j: usize = 0;
    proof {
        assert(s1.take(0) =~= Seq::<TableInfo>::empty());
        lemma_filter_none(s1.take(0), |t: TableInfo| !has_table_named(s2, t.name@));
        assert(removed.deep_view() =~= removed_tables_spec(s1.take(0), s2));
    }
    while j < ts1.len()
        invariant
            0 <= j <= s1.len(),
            s1 == ts1@,
            s2 == ts2@,
            removed.deep_view() == removed_tables_spec(s1.take(j as int), s2),
        decreases s1.len() - j,
    {
        let t = &ts1[j];
        if !has_named_table(ts2, t.name.as_str()) {
            removed.push(t.name.clone());
        }
        proof {
            lemma_filter_push(
                s1.take(j as int),
                s1[j as int],
                |t: TableInfo| !has_table_named(s2, t.name@),
            );
            lemma_map_values_push(
                s1.take(j as int).filter(|t: TableInfo| !has_table_named(s2, t.name@)),
                s1[j as int],
                |t: TableInfo| t.name@,
            );
            assert(s1.take(j as int).push(s1[j as int]) =~= s1.take(j as int + 1));
            assert(removed.deep_view() =~= removed_tables_spec(s1.take(j as int + 1), s2));
        }
        j = j + 1;
    }
    proof {
        assert(s1.take(s1.len() as int) =~= s1);
    }

    let mut identical: Vec<String> = Vec::new();
    let mut modified: Vec<TableDiff> = Vec::new();
    let mut k: usize = 0;
    proof {
        assert(s1.take(0) =~= Seq::<TableInfo>::empty());
        lemma_filter_none(
            s1.take(0),
            |t: TableInfo|
                has_table_named(s2, t.name@) && tables_identical(t, find_table(s2, t.name@)),
        );
        lemma_filter_none(
            s1.take(0),
            |t: TableInfo|
                has_table_named(s2, t.name@) && !tables_identical(t, find_table(s2, t.name@)),
        );
        assert(identical.deep_view() =~= identical_tables_spec(s1.take(0), s2));
    }
    while k < ts1.len()
        invariant
            0 <= k <= s1.len(),
            s1 == ts1@,
            s2 == ts2@,
            identical.deep_view() == identical_tables_spec(s1.take(k as int), s2),
            modified@.len() == modified_tables_src(s1.take(k as int), s2).len(),
            forall|m: int|
                0 <= m < modified@.len() ==> table_diff_matches(
                    #[trigger] modified@[m],
                    modified_tables_src(s1.take(k as int), s2)[m],
                    find_table(s2, modified_tables_src(s1.take(k as int), s2)[m].name@),
                ),
        decreases s1.len() - k,
    {
        let t1 = &ts1[k];
        match find_named_table(ts2, t1.name.as_str()) {
            Some(jdx) => {
                let t2 = &ts2[jdx];
                if tables_are_identical(t1, t2) {
                    identical.push(t1.name.clone());
                } else {
                    let d = compare_tables(t1, t2);
                    modified.push(d);
                }
            },
            None => {},
        }
        proof {
            lemma_filter_push(
                s1.take(k as int),
                s1[k as int],
                |t: TableInfo|
                    has_table_named(s2, t.name@) && tables_identical(t, find_table(s2, t.name@)),
            );
            lemma_filter_push(
                s1.take(k as int),
                s1[k as int],
                |t: TableInfo|
                    has_table_named(s2, t.name@) && !tables_identical(t, find_table(s2, t.name@)),
            );
            lemma_map_values_push(
                s1.take(k as int).filter(
                    |t: TableInfo|
                        has_table_named(s2, t.name@) && tables_identical(
                            t,
                            find_table(s2, t.name@),
                        ),
                ),
                s1[k as int],
                |t: TableInfo| t.name@,
            );
            assert(s1.take(k as int).push(s1[k as int]) =~= s1.take(k as int + 1));
            assert(identical.deep_view() =~= identical_tables_spec(s1.take(k as int + 1), s2));
        }
        k = k + 1;
    }
    proof {
        assert(s1.take(s1.len() as int) =~= s1);
    }

    SchemaComparison {
        database1: String::from_str(db1),
        database2: String::from_str(db2),
        added_tables: added,
        removed_tables: removed,
        modified_tables: modified,
        identical_tables: identical,
    }
}

/// Comparing an inventory with distinct table names against itself yields no
/// added, removed or modified tables, and every table is reported identical.
pub proof fn lemma_compare_with_self(ts: Seq<TableInfo>)
    requires
        distinct_table_names(ts),
    ensures
        added_tables_spec(ts, ts).len() == 0,
        removed_tables_spec(ts, ts).len() == 0,
        modified_tables_src(ts, ts).len() == 0,
        identical_tables_spec(ts, ts) == table_names(ts),
{
    assert forall|i: int| 0 <= i < ts.len() implies has_table_named(ts, (#[trigger] ts[i]).name@) by {
        assert(ts[i].name@ == ts[i].name@);
    }
    assert forall|i: int| 0 <= i < ts.len() implies find_table(ts, (#[trigger] ts[i]).name@)
        == ts[i] by {
        lemma_find_table_first(ts, ts[i].name@, i);
    }
    lemma_filter_none(ts, |t: TableInfo| !has_table_named(ts, t.name@));
    lemma_filter_none(
        ts,
        |t: TableInfo|
            has_table_named(ts, t.name@) && !tables_identical(t, find_table(ts, t.name@)),
    );
    lemma_filter_all(
        ts,
        |t: TableInfo|
            has_table_named(ts, t.name@) && tables_identical(t, find_table(ts, t.name@)),
    );
}

/// A comparison of an inventory with distinct table names against itself
/// reports no added, removed or modified tables, and lists every table as
/// identical.
pub proof fn lemma_self_comparison_empty(r: SchemaComparison, ts: Seq<TableInfo>)
    requires
        comparison_matches(r, ts, ts),
        distinct_table_names(ts),
    ensures
        r.added_tables@.len() == 0,
        r.removed_tables@.len() == 0,
        r.modified_tables@.len() == 0,
        r.identical_tables.deep_view() == table_names(ts),
{
    lemma_compare_with_self(ts);
    assert(r.added_tables.deep_view().len() == r.added_tables@.len());
    assert(r.removed_tables.deep_view().len() == r.removed_tables@.len());
}

} // verus!
