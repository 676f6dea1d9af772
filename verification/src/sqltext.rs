//! Construction of the query text handed to the storage engine. Table and
//! column names are defensively wrapped in double quotes when embedded in
//! generated text (wrapped only, not escaped further). Every builder's result
//! is pinned character for character.

use vstd::prelude::*;
use vstd::string::*;

verus! {

/// The decimal digit character for one digit value.
pub open spec fn dec_digit(d: int) -> char {
    if d == 0 {
        '0'
    } else if d == 1 {
        '1'
    } else if d == 2 {
        '2'
    } else if d == 3 {
        '3'
    } else if d == 4 {
        '4'
    } else if d == 5 {
        '5'
    } else if d == 6 {
        '6'
    } else if d == 7 {
        '7'
    } else if d == 8 {
        '8'
    } else {
        '9'
    }
}

/// The decimal rendering of a nonnegative integer, most significant digit
/// first, without leading zeros (a single zero for zero itself).
pub open spec fn dec_nat(n: nat) -> Seq<char>
    decreases n,
{
    if n < 10 {
        seq![dec_digit(n as int)]
    } else {
        dec_nat(n / 10) + seq![dec_digit((n % 10) as int)]
    }
}

/// The decimal rendering of a signed integer: a leading minus sign for
/// negative values, then the digits of the magnitude.
pub open spec fn dec_int(n: int) -> Seq<char> {
    if n < 0 {
        seq!['-'] + dec_nat((-n) as nat)
    } else {
        dec_nat(n as nat)
    }
}

/// A name wrapped in double quotes.
pub open spec fn quoted(n: Seq<char>) -> Seq<char> {
    "\""@ + n + "\""@
}

/// The quoted names joined with a comma and a space.
pub open spec fn quoted_join(names: Seq<Seq<char>>) -> Seq<char>
    decreases names.len(),
{
    if names.len() == 0 {
        Seq::empty()
    } else if names.len() == 1 {
        quoted(names[0])
    } else {
        quoted(names[0]) + ", "@ + quoted_join(names.drop_first())
    }
}

/// The text of the row-count query for one table.
pub open spec fn count_query_text(table: Seq<char>) -> Seq<char> {
    "SELECT COUNT(*) FROM "@ + quoted(table)
}

/// The text of the column-introspection query for one table.
pub open spec fn table_info_query_text(table: Seq<char>) -> Seq<char> {
    "PRAGMA table_info("@ + quoted(table) + ")"@
}

/// The text of the column-ordered projection over one table, with an
/// optional row limit applied to the returned rows only.
pub open spec fn select_query_text(
    names: Seq<Seq<char>>,
    table: Seq<char>,
    limit: Option<i64>,
) -> Seq<char> {
    let base = "SELECT "@ + quoted_join(names) + " FROM "@ + quoted(table);
    match limit {
        Some(n) => base + " LIMIT "@ + dec_int(n as int),
        None => base,
    }
}

/// The text of one key-derivation pragma, in one of the four supported
/// encodings of the same statement (single-quoted, double-quoted, bare, and
/// single-quoted without spaces around the equals sign).
pub open spec fn key_pragma_text(style: int, password: Seq<char>) -> Seq<char> {
    if style == 0 {
        "PRAGMA key = '"@ + password + "';"@
    } else if style == 1 {
        "PRAGMA key = \""@ + password + "\";"@
    } else if style == 2 {
        "PRAGMA key = "@ + password + ";"@
    } else {
        "PRAGMA key='"@ + password + "';"@
    }
}

/// Number of supported key-pragma encodings.
pub const KEY_STYLE_COUNT: usize = 4;

/// Builds the row-count query for one table.
pub fn count_query(table: &str) -> (r: String)
    ensures
        r@ == count_query_text(table@),
{
    let r = String::from_str("SELECT COUNT(*) FROM ").concat("\"").concat(table).concat("\"");
    proof {
        assert(r@ =~= count_query_text(table@));
    }
    r
}

/// Builds the column-introspection query for one table.
pub fn table_info_query(table: &str) -> (r: String)
    ensures
        r@ == table_info_query_text(table@),
{
    let r = String::from_str("PRAGMA table_info(").concat("\"").concat(table).concat("\"").concat(
        ")",
    );
    proof {
        assert(r@ =~= table_info_query_text(table@));
    }
    r
}

/// Builds one key-derivation pragma for the given encoding style.
pub fn key_pragma(style: usize, password: &str) -> (r: String)
    requires
        style < 4,
    ensures
        r@ == key_pragma_text(style as int, password@),
{
    let r = if style == 0 {
        String::from_str("PRAGMA key = '").concat(password).concat("';")
    } else if style == 1 {
        String::from_str("PRAGMA key = \"").concat(password).concat("\";")
    } else if style == 2 {
        String::from_str("PRAGMA key = ").concat(password).concat(";")
    } else {
        String::from_str("PRAGMA key='").concat(password).concat("';")
    };
    proof {
        assert(r@ =~= key_pragma_text(style as int, password@));
    }
    r
}

/// Builds the comma-separated list of quoted column names.
pub fn quoted_name_list(names: &Vec<String>) -> (r: String)
    ensures
        r@ == quoted_join(names.deep_view()),
{
    let ghost all: Seq<Seq<char>> = names.deep_view();
    let mut r = String::new();
    let mut i: usize = 0;
    proof {
        assert(all.skip(0) =~= all);
        assert(r@ + quoted_join(all) =~= quoted_join(all));
    }
    while i < names.len()
        invariant
            0 <= i <= names.len(),
            all == names.deep_view(),
            all.len() == names@.len(),
            forall|k: int| 0 <= k < all.len() ==> all[k] == names@[k]@,
            quoted_join(all) =~= r@ + quoted_join(all.skip(i as int)),
        decreases names.len() - i,
    {
        let ghost before = r@;
        r.append("\"");
        r.append(names[i].as_str());
        r.append("\"");
        if i + 1 < names.len() {
            r.append(", ");
        }
        proof {
            let rest = all.skip(i as int);
            assert(rest.len() == all.len() - i);
            assert(rest[0] == all[i as int]);
            assert(rest.drop_first() =~= all.skip(i as int + 1));
            if i + 1 < names.len() {
                assert(quoted_join(rest) == quoted(rest[0]) + ", "@ + quoted_join(
                    rest.drop_first(),
                ));
                assert(r@ =~= before + quoted(all[i as int]) + ", "@);
            } else {
                assert(rest.len() == 1);
                assert(quoted_join(rest) == quoted(rest[0]));
                assert(quoted_join(rest.drop_first()) == Seq::<char>::empty());
                assert(r@ =~= before + quoted(all[i as int]));
            }
            assert(quoted_join(all) =~= r@ + quoted_join(all.skip(i as int + 1)));
        }
        i = i + 1;
    }
    proof {
        assert(all.skip(i as int) =~= Seq::<Seq<char>>::empty());
        assert(quoted_join(all.skip(i as int)) == Seq::<char>::empty());
        assert(r@ =~= quoted_join(all));
    }
    r
}

/// Builds the column-ordered projection query for one table, with the limit
/// rendered into the text when one is given.
pub fn select_query(names: &Vec<String>, table: &str, limit: Option<i64>) -> (r: String)
    ensures
        r@ == select_query_text(names.deep_view(), table@, limit),
{
    let cols = quoted_name_list(names);
    let mut r = String::from_str("SELECT ").concat(cols.as_str()).concat(" FROM ").concat(
        "\"",
    ).concat(table).concat("\"");
    match limit {
        Some(n) => {
            r.append(" LIMIT ");
            let rendered = crate::sqlext::int64_text(n);
            r.append(rendered.as_str());
            proof {
                assert(r@ =~= select_query_text(names.deep_view(), table@, limit));
            }
        },
        None => {
            proof {
                assert(r@ =~= select_query_text(names.deep_view(), table@, limit));
            }
        },
    }
    r
}

} // verus!
