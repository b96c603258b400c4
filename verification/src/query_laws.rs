//! What running a statement promises, stated on the statement, its rows and the reply.
use crate::connections::LakehouseConnection;
use crate::json::{JsonView, NumberView};
use crate::query::{
    has_rows, query_answer, query_refusal, query_words, run_step, shown, shown_row, CellView,
    OutputView, RunActionView, RunEventView, Statement,
};
use crate::redaction::masked_all;
use crate::reply::ReplyView;
use crate::text::{blank, lowered, optional, trimmed_start, white_space};
use crate::text_laws::{leading_white_space_is_taken_away, lowering_goes_by_characters};
use crate::url::hex_of;
use vstd::prelude::*;

verus! {

proof fn lemma_words()
    ensures
        query_words().len() == 9,
        query_words()[0] == seq!['s', 'e', 'l', 'e', 'c', 't'],
        query_words()[1] == seq!['w', 'i', 't', 'h'],
        query_words()[2] == seq!['s', 'h', 'o', 'w'],
        query_words()[3] == seq!['p', 'r', 'a', 'g', 'm', 'a'],
        query_words()[4] == seq!['e', 'x', 'p', 'l', 'a', 'i', 'n'],
        query_words()[5] == seq!['d', 'e', 's', 'c', 'r', 'i', 'b', 'e'],
        query_words()[6] == seq!['v', 'a', 'l', 'u', 'e', 's'],
        query_words()[7] == seq!['t', 'a', 'b', 'l', 'e'],
        query_words()[8] == seq!['c', 'a', 'l', 'l'],
{
    reveal_strlit("select");
    reveal_strlit("with");
    reveal_strlit("show");
    reveal_strlit("pragma");
    reveal_strlit("explain");
    reveal_strlit("describe");
    reveal_strlit("values");
    reveal_strlit("table");
    reveal_strlit("call");
    assert(query_words()[0] =~= seq!['s', 'e', 'l', 'e', 'c', 't']);
    assert(query_words()[1] =~= seq!['w', 'i', 't', 'h']);
    assert(query_words()[2] =~= seq!['s', 'h', 'o', 'w']);
    assert(query_words()[3] =~= seq!['p', 'r', 'a', 'g', 'm', 'a']);
    assert(query_words()[4] =~= seq!['e', 'x', 'p', 'l', 'a', 'i', 'n']);
    assert(query_words()[5] =~= seq!['d', 'e', 's', 'c', 'r', 'i', 'b', 'e']);
    assert(query_words()[6] =~= seq!['v', 'a', 'l', 'u', 'e', 's']);
    assert(query_words()[7] =~= seq!['t', 'a', 'b', 'l', 'e']);
    assert(query_words()[8] =~= seq!['c', 'a', 'l', 'l']);
}

/// A statement that begins, after white space, with one of the nine words in any case has rows that are
/// asked for, whatever follows the word.
pub proof fn nine_words_begin_statements_with_rows(
    before: Seq<char>,
    word: Seq<char>,
    rest: Seq<char>,
    cap: int,
)
    requires
        blank(before),
        ({
            ||| lowered(word) == seq!['s', 'e', 'l', 'e', 'c', 't']
            ||| lowered(word) == seq!['w', 'i', 't', 'h']
            ||| lowered(word) == seq!['s', 'h', 'o', 'w']
            ||| lowered(word) == seq!['p', 'r', 'a', 'g', 'm', 'a']
            ||| lowered(word) == seq!['e', 'x', 'p', 'l', 'a', 'i', 'n']
            ||| lowered(word) == seq!['d', 'e', 's', 'c', 'r', 'i', 'b', 'e']
            ||| lowered(word) == seq!['v', 'a', 'l', 'u', 'e', 's']
            ||| lowered(word) == seq!['t', 'a', 'b', 'l', 'e']
            ||| lowered(word) == seq!['c', 'a', 'l', 'l']
        }),
    ensures
        has_rows(before + (word + rest)),
        run_step(before + (word + rest), cap, RunEventView::Start) is Query,
{
    lemma_words();
    let s = word + rest;
    assert(lowered(word).len() == word.len());
    assert(lowered(word)[0] == crate::text::lowered_char(word[0]));
    assert(!white_space(s[0])) by {
        assert(s[0] == word[0]);
    }
    leading_white_space_is_taken_away(before, s);
    lowering_goes_by_characters(word, rest);
    let lead = lowered(trimmed_start(before + s));
    assert(lead == lowered(word) + lowered(rest));
    let found = lowered(word);
    assert(lead.subrange(0, found.len() as int) =~= found);
    let i: int = if found == query_words()[0] {
        0
    } else if found == query_words()[1] {
        1
    } else if found == query_words()[2] {
        2
    } else if found == query_words()[3] {
        3
    } else if found == query_words()[4] {
        4
    } else if found == query_words()[5] {
        5
    } else if found == query_words()[6] {
        6
    } else if found == query_words()[7] {
        7
    } else {
        8
    };
    assert(query_words()[i].is_prefix_of(lead));
    assert(has_rows(before + s));
}

/// A statement that begins, after white space, with none of the nine words is only executed.
pub proof fn other_statements_are_executed(before: Seq<char>, s: Seq<char>, cap: int)
    requires
        blank(before),
        s.len() > 0 ==> !white_space(s[0]),
        !seq!['s', 'e', 'l', 'e', 'c', 't'].is_prefix_of(lowered(s)),
        !seq!['w', 'i', 't', 'h'].is_prefix_of(lowered(s)),
        !seq!['s', 'h', 'o', 'w'].is_prefix_of(lowered(s)),
        !seq!['p', 'r', 'a', 'g', 'm', 'a'].is_prefix_of(lowered(s)),
        !seq!['e', 'x', 'p', 'l', 'a', 'i', 'n'].is_prefix_of(lowered(s)),
        !seq!['d', 'e', 's', 'c', 'r', 'i', 'b', 'e'].is_prefix_of(lowered(s)),
        !seq!['v', 'a', 'l', 'u', 'e', 's'].is_prefix_of(lowered(s)),
        !seq!['t', 'a', 'b', 'l', 'e'].is_prefix_of(lowered(s)),
        !seq!['c', 'a', 'l', 'l'].is_prefix_of(lowered(s)),
    ensures
        !has_rows(before + s),
        run_step(before + s, cap, RunEventView::Start) is Execute,
{
    lemma_words();
    leading_white_space_is_taken_away(before, s);
    if has_rows(before + s) {
        let i = choose|i: int|
            0 <= i < query_words().len() && (#[trigger] query_words()[i]).is_prefix_of(
                lowered(trimmed_start(before + s)),
            );
        assert(0 <= i < 9);
    }
}

/// A statement without rows gives no columns and no rows; one with rows gives its columns, and each
/// row that is fetched goes to the end of those shown.
pub proof fn rows_are_collected(
    sql: Seq<char>,
    cap: int,
    columns: Seq<Seq<char>>,
    output: OutputView,
    cells: Seq<CellView>,
)
    ensures
        run_step(sql, cap, RunEventView::Executed(Ok(()))) matches RunActionView::Done(Ok(none))
            && none.columns.len() == 0 && none.rows.len() == 0 && !none.truncated,
        run_step(sql, cap, RunEventView::Queried(Ok(columns))) matches RunActionView::Fetch(first)
            && first.columns == columns && first.rows.len() == 0 && !first.truncated,
        run_step(sql, cap, RunEventView::Row(output, Ok(None))) == RunActionView::Done(Ok(output)),
        output.rows.len() < cap ==> (run_step(
            sql,
            cap,
            RunEventView::Row(output, Ok(Some(cells))),
        ) matches RunActionView::Fetch(next) && next.columns == output.columns && next.truncated
            == output.truncated && next.rows.len() == output.rows.len() + 1 && next.rows.drop_last()
            == output.rows && next.rows.last() == shown_row(cells)),
        output.rows.len() >= cap ==> (run_step(
            sql,
            cap,
            RunEventView::Row(output, Ok(Some(cells))),
        ) matches RunActionView::Done(Ok(full)) && full.truncated && full.rows == output.rows
            && full.columns == output.columns),
{
    if output.rows.len() < cap {
        assert(output.rows.push(shown_row(cells)).drop_last() =~= output.rows);
    }
}

/// A failure while a statement is run is its outcome, told as such.
pub proof fn failed_statements_are_told(
    sql: Seq<char>,
    cap: int,
    output: OutputView,
    error: Seq<char>,
)
    ensures
        run_step(sql, cap, RunEventView::Executed(Err(error))) == RunActionView::Done(
            Err("query failed: "@ + error),
        ),
        run_step(sql, cap, RunEventView::Queried(Err(error))) == RunActionView::Done(
            Err("query failed: "@ + error),
        ),
        run_step(sql, cap, RunEventView::Row(output, Err(error))) == RunActionView::Done(
            Err("query failed: "@ + error),
        ),
{
}

/// A row is shown cell by cell: integers as the same integers, flags and texts as they are, bytes in
/// hexadecimal after a mark, and null where there is nothing to show.
pub proof fn cells_are_shown_as_they_are(cells: Seq<CellView>, i: int)
    requires
        0 <= i < cells.len(),
    ensures
        shown_row(cells) matches JsonView::Array(items) && items.len() == cells.len() && match cells[i] {
            CellView::Null => items[i] == JsonView::Null,
            CellView::Unreadable => items[i] == JsonView::Null,
            CellView::Boolean(flag) => items[i] == JsonView::Bool(flag),
            CellView::Signed(n) => items[i] == JsonView::Number(
                if n < 0 {
                    NumberView::Negative(n)
                } else {
                    NumberView::Unsigned(n as u64)
                },
            ),
            CellView::Unsigned(n) => items[i] == JsonView::Number(NumberView::Unsigned(n)),
            CellView::Float(Some(written)) => items[i] == JsonView::Number(
                NumberView::Float(written),
            ),
            CellView::Float(None) => items[i] == JsonView::Null,
            CellView::Text(content) => items[i] == JsonView::Text(content),
            CellView::Other(content) => items[i] == JsonView::Text(content),
            CellView::Blob(bytes) => items[i] == JsonView::Text(seq!['\\', 'x'] + hex_of(bytes)),
        },
{
    reveal_strlit("\\x");
    assert("\\x"@ =~= seq!['\\', 'x']);
}

/// The statement of a request is its `sql`, else its `query`, else its `statement`.
pub proof fn the_first_statement_counts(statement: Statement)
    ensures
        statement.sql matches Some(sql) ==> statement@ == Some(sql@),
        statement.sql is None ==> (statement.query matches Some(query) ==> statement@ == Some(
            query@,
        )),
        statement.sql is None && statement.query is None ==> statement@ == optional(
            statement.statement,
        ),
{
}

/// A statement is refused without a statement, in a poisoned state and without its connection, in this
/// order, and otherwise not.
pub proof fn statements_are_refused_in_order<C>(
    connections: Map<Seq<char>, LakehouseConnection<C>>,
    connection_id: Seq<char>,
    sql: Seq<char>,
    poisoned: bool,
)
    ensures
        query_refusal(connections, poisoned, connection_id, None) == Some(
            ReplyView::Failure(
                "connector.invalidRequest"@,
                "query requires a string sql, query, or statement field."@,
            ),
        ),
        query_refusal(connections, true, connection_id, Some(sql)) == Some(
            ReplyView::Failure(
                "connector.statePoisoned"@,
                "Connector connection state is poisoned."@,
            ),
        ),
        !connections.dom().contains(connection_id) ==> query_refusal(
            connections,
            false,
            connection_id,
            Some(sql),
        ) == Some(
            ReplyView::Failure(
                "connector.connectionNotFound"@,
                "no open connection: "@ + connection_id,
            ),
        ),
        connections.dom().contains(connection_id) ==> query_refusal(
            connections,
            false,
            connection_id,
            Some(sql),
        ) is None,
{
}

/// The reply to a statement tells the connection, the names of the columns, the rows and whether there
/// were more, and nothing else.
pub proof fn replies_hold_columns_and_rows(
    secrets: Seq<Seq<char>>,
    connection_id: Seq<char>,
    output: OutputView,
    error: Seq<char>,
)
    ensures
        query_answer(secrets, connection_id, Ok(output)) matches ReplyView::Success(members)
            && members.dom() == set!["connectionId"@, "columns"@, "rows"@, "truncated"@]
            && members["connectionId"@] == JsonView::Text(connection_id) && members["rows"@]
            == JsonView::Array(output.rows) && members["truncated"@] == JsonView::Bool(
            output.truncated,
        ) && (members["columns"@] matches JsonView::Array(columns) && columns.len()
            == output.columns.len() && forall|i: int|
            0 <= i < columns.len() ==> #[trigger] columns[i] == JsonView::Text(output.columns[i])),
        query_answer(secrets, connection_id, Err(error)) == ReplyView::Failure(
            "connector.queryFailed"@,
            masked_all(error, secrets),
        ),
{
    reveal_strlit("connectionId");
    reveal_strlit("columns");
    reveal_strlit("rows");
    reveal_strlit("truncated");
    assert("connectionId"@.len() == 12 && "columns"@.len() == 7 && "rows"@.len() == 4
        && "truncated"@.len() == 9);
    if let ReplyView::Success(members) = query_answer(secrets, connection_id, Ok(output)) {
        assert(members.dom() =~= set!["connectionId"@, "columns"@, "rows"@, "truncated"@]);
    }
}

} // verus!
