//! What the SQL texts promise, stated on the characters of what they hold.
use crate::sql::{
    cleaned, identifier_chars, parquet_files, quoted, scanned_from, table_view_sql,
};
use crate::text::{run_of, without_trailing};
use crate::text_laws::{
    other_texts_are_not_replaced, runs_are_taken_away, stands_at, the_first_occurrence_is_replaced,
};
use vstd::prelude::*;

verus! {

/// A text without a quote is quoted as it is; at its first quote, the quote is doubled and the rest is
/// quoted as if it stood alone.
pub proof fn quotes_are_doubled(before: Seq<char>, rest: Seq<char>, quote: char)
    requires
        !before.contains(quote),
    ensures
        quoted(before, quote) == seq![quote] + before + seq![quote],
        quoted(before + seq![quote] + rest, quote) == seq![quote] + before + seq![quote] + quoted(
            rest,
            quote,
        ),
{
    let mark = seq![quote];
    let double = seq![quote, quote];
    assert forall|i: int| !stands_at(mark, before, i) by {
        if stands_at(mark, before, i) {
            assert(before.subrange(i, i + 1)[0] == quote);
            assert(before[i] == quote);
        }
    }
    other_texts_are_not_replaced(before, mark, double);
    let whole = before + mark + rest;
    assert forall|i: int| 0 <= i < before.len() implies !stands_at(mark, whole, i) by {
        if stands_at(mark, whole, i) {
            assert(whole.subrange(i, i + 1)[0] == quote);
            assert(before[i] == quote);
        }
    }
    the_first_occurrence_is_replaced(before, mark, rest, double);
    assert(quoted(whole, quote) =~= mark + before + mark + quoted(rest, quote));
}

/// A view name has the letters, digits and underscores of ASCII of the text that it is made of, and
/// underscores in place of its other characters; one more stands in front of a digit.
pub proof fn view_names_keep_their_characters(value: Seq<char>, i: int)
    requires
        0 <= i < value.len(),
    ensures
        ({
            let digit = 48 <= value[0] as int <= 57;
            let name = cleaned(value);
            let at = if digit {
                i + 1
            } else {
                i
            };
            &&& name.len() == value.len() + if digit {
                1int
            } else {
                0int
            }
            &&& digit ==> name[0] == '_'
            &&& (48 <= value[i] as int <= 57 || 65 <= value[i] as int <= 90 || 97 <= value[i] as int
                <= 122) ==> name[at] == value[i]
            &&& !(48 <= value[i] as int <= 57 || 65 <= value[i] as int <= 90 || 97 <= value[i] as int
                <= 122) ==> name[at] == '_'
        }),
{
    assert(identifier_chars(value)[0] == if crate::sql::identifier_char(value[0]) {
        value[0]
    } else {
        '_'
    });
}

/// The view name made of nothing.
pub proof fn nothing_makes_a_view_name(value: Seq<char>)
    requires
        value.len() == 0,
    ensures
        cleaned(value) == "lakehouse_table"@,
{
    reveal_strlit("lakehouse_table");
}

/// A path that is a pattern, or names a Parquet file, is scanned as it is; of any other path, all
/// Parquet files below it are, whatever slashes it ends in.
pub proof fn paths_are_scanned_for_parquet(path: Seq<char>, slashes: Seq<char>)
    requires
        run_of(slashes, '/'),
    ensures
        path.contains('*') ==> parquet_files(path) == path,
        ".parquet"@.is_suffix_of(path) ==> parquet_files(path) == path,
        (path.len() > 0 ==> path.last() != '/') && !(path + slashes).contains('*')
            && !".parquet"@.is_suffix_of(path + slashes) ==> parquet_files(path + slashes) == path
            + "/**/*.parquet"@,
{
    runs_are_taken_away(path, '/', slashes);
    if path.len() == 0 {
        assert(path + slashes =~= slashes);
        assert(without_trailing(slashes, '/') =~= path);
    }
}

/// A location is scanned without its `file://` or `file:`, and any other location as it is.
pub proof fn file_schemes_are_stripped(path: Seq<char>)
    ensures
        scanned_from("file://"@ + path) == path,
        !"//"@.is_prefix_of(path) ==> scanned_from("file:"@ + path) == path,
        !"file:"@.is_prefix_of(path) ==> scanned_from(path) == path,
{
    reveal_strlit("file://");
    reveal_strlit("file:");
    reveal_strlit("//");
    let long = "file://"@ + path;
    assert(long.subrange(0, 7) =~= "file://"@);
    assert(long.skip(7) =~= path);
    let short = "file:"@ + path;
    assert(short.subrange(0, 5) =~= "file:"@);
    assert(short.skip(5) =~= path);
    if !"//"@.is_prefix_of(path) {
        assert(!"file://"@.is_prefix_of(short)) by {
            if "file://"@.is_prefix_of(short) {
                assert(path.subrange(0, 2) =~= "//"@) by {
                    assert(short.subrange(0, 7) =~= "file://"@);
                    assert(path[0] == short.subrange(0, 7)[5]);
                    assert(path[1] == short.subrange(0, 7)[6]);
                }
            }
        }
    }
    if !"file:"@.is_prefix_of(path) {
        assert(!"file://"@.is_prefix_of(path)) by {
            if "file://"@.is_prefix_of(path) {
                assert(path.subrange(0, 5) =~= "file:"@) by {
                    assert(path.subrange(0, 7) =~= "file://"@);
                    assert forall|i: int| 0 <= i < 5 implies path.subrange(0, 5)[i]
                        == "file:"@[i] by {
                        assert(path[i] == path.subrange(0, 7)[i]);
                    }
                }
            }
        }
    }
}

/// The view of a table of a catalog stands in the schema of its namespace under its own name, and scans
/// its metadata location; each of the three is quoted.
pub proof fn views_scan_their_tables(schema: Seq<char>, table: Seq<char>, location: Seq<char>)
    ensures
        table_view_sql(schema, table, location) == "create schema if not exists "@ + quoted(
            schema,
            '"',
        ) + "; create or replace view "@ + quoted(schema, '"') + "."@ + quoted(table, '"')
            + " as select * from iceberg_scan("@ + quoted(scanned_from(location), '\'') + ")"@,
{
}

} // verus!
