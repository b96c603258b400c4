//! SQL text: quoting, identifiers, and the locations that tables are scanned from.
use crate::text;
use crate::text::{replaced, without_trailing};
use vstd::prelude::*;

verus! {

/// A text between quotes, with every quote in it doubled.
pub open spec fn quoted(content: Seq<char>, quote: char) -> Seq<char> {
    seq![quote] + replaced(content, seq![quote], seq![quote, quote]) + seq![quote]
}

/// What follows an opening quote, read as SQL reads it: the content up to the closing quote, where
/// a doubled quote stands for one, and the text after it.
pub open spec fn read_quoted(s: Seq<char>, quote: char) -> Option<(Seq<char>, Seq<char>)>
    decreases s.len(),
{
    if s.len() == 0 {
        None
    } else if s[0] != quote {
        match read_quoted(s.skip(1), quote) {
            Some((content, rest)) => Some((seq![s[0]] + content, rest)),
            None => None,
        }
    } else if s.len() > 1 && s[1] == quote {
        match read_quoted(s.skip(2), quote) {
            Some((content, rest)) => Some((seq![quote] + content, rest)),
            None => None,
        }
    } else {
        Some((seq![], s.skip(1)))
    }
}

/// Whether a character may stand in a view name.
pub open spec fn identifier_char(c: char) -> bool {
    ||| 'a' <= c && c <= 'z'
    ||| 'A' <= c && c <= 'Z'
    ||| '0' <= c && c <= '9'
    ||| c == '_'
}

/// A text with every character that may not stand in a view name replaced by an underscore.
pub open spec fn identifier_chars(value: Seq<char>) -> Seq<char> {
    Seq::new(
        value.len(),
        |i: int|
            if identifier_char(value[i]) {
                value[i]
            } else {
                '_'
            },
    )
}

/// The view name made of a text.
pub open spec fn cleaned(value: Seq<char>) -> Seq<char> {
    let name = if value.len() == 0 {
        "lakehouse_table"@
    } else {
        identifier_chars(value)
    };
    if '0' <= name[0] && name[0] <= '9' {
        seq!['_'] + name
    } else {
        name
    }
}

/// The pattern of the Parquet files of a table path: the path itself where it is a pattern or names
/// one file.
pub open spec fn parquet_files(path: Seq<char>) -> Seq<char> {
    if path.contains('*') || ".parquet"@.is_suffix_of(path) {
        path
    } else {
        without_trailing(path, '/') + "/**/*.parquet"@
    }
}

/// The location that a table is scanned from: the path of a `file:` address.
pub open spec fn scanned_from(location: Seq<char>) -> Seq<char> {
    if "file://"@.is_prefix_of(location) {
        location.skip("file://"@.len() as int)
    } else if "file:"@.is_prefix_of(location) {
        location.skip("file:"@.len() as int)
    } else {
        location
    }
}

/// The SQL string literal of a text.
pub fn sql_string(value: &str) -> (out: String)
    ensures
        out@ == quoted(value@, '\''),
{
    proof {
        reveal_strlit("'");
        reveal_strlit("''");
        assert("'"@ =~= seq!['\'']);
        assert("''"@ =~= seq!['\'', '\'']);
    }
    "'".to_string().concat(text::replace(value, "'", "''").as_str()).concat("'")
}

/// The quoted SQL identifier of a text.
pub fn quote_identifier(identifier: &str) -> (out: String)
    ensures
        out@ == quoted(identifier@, '"'),
{
    proof {
        reveal_strlit("\"");
        reveal_strlit("\"\"");
        assert("\""@ =~= seq!['"']);
        assert("\"\""@ =~= seq!['"', '"']);
    }
    "\"".to_string().concat(text::replace(identifier, "\"", "\"\"").as_str()).concat("\"")
}

/// Whether a character may stand in a view name.
fn is_identifier_char(c: char) -> (found: bool)
    ensures
        found == identifier_char(c),
{
    ('a' <= c && c <= 'z') || ('A' <= c && c <= 'Z') || ('0' <= c && c <= '9') || c == '_'
}

/// The view name made of a text.
pub fn clean_identifier(value: &str) -> (out: String)
    ensures
        out@ == cleaned(value@),
{
    let chars = text::chars_of(value);
    if chars.len() == 0 {
        proof {
            reveal_strlit("lakehouse_table");
        }
        return "lakehouse_table".to_string();
    }
    let mut out = String::new();
    let first = chars[0];
    if '0' <= first && first <= '9' {
        out.push('_');
    }
    let ghost start = out@;
    let mut i: usize = 0;
    while i < chars.len()
        invariant
            i <= chars.len(),
            chars@ == value@,
            out@ == start + identifier_chars(value@).take(i as int),
        decreases chars.len() - i,
    {
        if is_identifier_char(chars[i]) {
            out.push(chars[i]);
        } else {
            out.push('_');
        }
        i += 1;
        assert(out@ =~= start + identifier_chars(value@).take(i as int));
    }
    assert(identifier_chars(value@).take(i as int) =~= identifier_chars(value@));
    out
}

/// The pattern of the Parquet files of a table path.
pub fn parquet_pattern(path: &str) -> (out: String)
    ensures
        out@ == parquet_files(path@),
{
    if text::contains_char(path, '*') || text::ends_with(path, ".parquet") {
        path.to_string()
    } else {
        text::trim_trailing(path, '/').concat("/**/*.parquet")
    }
}

/// The location that a table is scanned from.
pub fn scan_location(location: &str) -> (out: String)
    ensures
        out@ == scanned_from(location@),
{
    match text::strip_prefix(location, "file://") {
        Some(path) => path,
        None => match text::strip_prefix(location, "file:") {
            Some(path) => path,
            None => location.to_string(),
        },
    }
}

/// The statements that expose a table of a catalog as a view over its current metadata.
pub open spec fn table_view_sql(
    schema: Seq<char>,
    table: Seq<char>,
    location: Seq<char>,
) -> Seq<char> {
    "create schema if not exists "@ + quoted(schema, '"') + "; create or replace view "@ + quoted(
        schema,
        '"',
    ) + "."@ + quoted(table, '"') + " as select * from iceberg_scan("@ + quoted(
        scanned_from(location),
        '\'',
    ) + ")"@
}

/// The statements that expose a table of a catalog as a view.
pub fn create_table_view(schema: &str, table: &str, metadata_location: &str) -> (sql: String)
    ensures
        sql@ == table_view_sql(schema@, table@, metadata_location@),
{
    let schema_ident = quote_identifier(schema);
    "create schema if not exists ".to_string().concat(schema_ident.as_str()).concat(
        "; create or replace view ",
    ).concat(schema_ident.as_str()).concat(".").concat(quote_identifier(table).as_str()).concat(
        " as select * from iceberg_scan(",
    ).concat(sql_string(scan_location(metadata_location).as_str()).as_str()).concat(")")
}

proof fn lemma_read_quoted(content: Seq<char>, quote: char, rest: Seq<char>)
    requires
        rest.len() == 0 || rest[0] != quote,
    ensures
        read_quoted(
            replaced(content, seq![quote], seq![quote, quote]) + seq![quote] + rest,
            quote,
        ) == Some((content, rest)),
    decreases content.len(),
{
    let inner = replaced(content, seq![quote], seq![quote, quote]);
    let s = inner + seq![quote] + rest;
    if content.len() == 0 {
        assert(s =~= seq![quote] + rest);
        assert(s.skip(1) =~= rest);
        assert(content =~= seq![]);
    } else {
        let tail = content.skip(1);
        let below = replaced(tail, seq![quote], seq![quote, quote]);
        lemma_read_quoted(tail, quote, rest);
        assert(content =~= seq![content[0]] + tail);
        if content[0] == quote {
            assert(seq![quote] =~= content.subrange(0, 1));
            assert(seq![quote].is_prefix_of(content));
            assert(inner == seq![quote, quote] + below);
            assert(s.skip(2) =~= below + seq![quote] + rest);
            assert(s[0] == quote && s[1] == quote);
        } else {
            assert(!seq![quote].is_prefix_of(content)) by {
                if seq![quote].is_prefix_of(content) {
                    assert(content.subrange(0, 1)[0] == seq![quote][0]);
                }
            }
            assert(inner == seq![content[0]] + below);
            assert(s.skip(1) =~= below + seq![quote] + rest);
            assert(s[0] == content[0]);
        }
    }
}

/// A quoted text is read back as it was, and ends where it was meant to end, whatever follows it
/// but another quote.
pub proof fn quoting_is_read_back(content: Seq<char>, quote: char, rest: Seq<char>)
    requires
        rest.len() == 0 || rest[0] != quote,
    ensures
        (quoted(content, quote) + rest)[0] == quote,
        read_quoted((quoted(content, quote) + rest).skip(1), quote) == Some((content, rest)),
{
    lemma_read_quoted(content, quote, rest);
    assert((quoted(content, quote) + rest).skip(1) =~= replaced(
        content,
        seq![quote],
        seq![quote, quote],
    ) + seq![quote] + rest);
}

/// A view name is not empty, holds only letters, digits and underscores of ASCII, and does not begin
/// with a digit.
pub proof fn view_names_are_identifiers(value: Seq<char>)
    ensures
        cleaned(value).len() > 0,
        forall|i: int|
            0 <= i < cleaned(value).len() ==> identifier_char(#[trigger] cleaned(value)[i]),
        !('0' <= cleaned(value)[0] && cleaned(value)[0] <= '9'),
{
    reveal_strlit("lakehouse_table");
}

/// A view name is its own view name.
pub proof fn cleaning_is_idempotent(value: Seq<char>)
    ensures
        cleaned(cleaned(value)) == cleaned(value),
{
    view_names_are_identifiers(value);
    assert(identifier_chars(cleaned(value)) =~= cleaned(value));
}

} // verus!
