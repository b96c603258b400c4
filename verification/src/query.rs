//! Running a statement of a client, and what of its rows is shown.
//!
//! Statements are executed and rows are fetched outside of this library. A function here says what
//! comes next, and takes what came of it.
use crate::connections::{Connections, LakehouseConnection};
use crate::json::{
    items_model, no_members, signed_view, Json, JsonNumber, JsonView, Members, NumberView,
};
use crate::listing::names_result;
use crate::redaction::{masked_all, redact};
use crate::reply::{not_found_view, poisoned_view, Reply, ReplyView};
use crate::sync::done_result;
use crate::text;
use crate::text::{lowered, optional, texts, trimmed_start};
use crate::url::{hex_encode, hex_of};
use vstd::prelude::*;

verus! {

/// A cell of a row.
pub enum Cell {
    Null,
    Boolean(bool),
    Signed(i64),
    Unsigned(u64),
    /// The text of a floating-point number; nothing where the number is not finite.
    Float(Option<String>),
    Text(String),
    Blob(Vec<u8>),
    /// The text of a value of another type.
    Other(String),
    /// The cell could not be read.
    Unreadable,
}

/// What a cell stands for.
pub enum CellView {
    Null,
    Boolean(bool),
    Signed(i64),
    Unsigned(u64),
    Float(Option<Seq<char>>),
    Text(Seq<char>),
    Blob(Seq<u8>),
    Other(Seq<char>),
    Unreadable,
}

impl View for Cell {
    type V = CellView;

    open spec fn view(&self) -> CellView {
        match self {
            Cell::Null => CellView::Null,
            Cell::Boolean(flag) => CellView::Boolean(*flag),
            Cell::Signed(n) => CellView::Signed(*n),
            Cell::Unsigned(n) => CellView::Unsigned(*n),
            Cell::Float(written) => CellView::Float(optional(*written)),
            Cell::Text(content) => CellView::Text(content@),
            Cell::Blob(bytes) => CellView::Blob(bytes@),
            Cell::Other(content) => CellView::Other(content@),
            Cell::Unreadable => CellView::Unreadable,
        }
    }
}

/// How a cell is shown.
pub open spec fn shown(cell: CellView) -> JsonView {
    match cell {
        CellView::Null => JsonView::Null,
        CellView::Boolean(flag) => JsonView::Bool(flag),
        CellView::Signed(n) => JsonView::Number(signed_view(n)),
        CellView::Unsigned(n) => JsonView::Number(NumberView::Unsigned(n)),
        CellView::Float(Some(written)) => JsonView::Number(NumberView::Float(written)),
        CellView::Float(None) => JsonView::Null,
        CellView::Text(content) => JsonView::Text(content),
        CellView::Blob(bytes) => JsonView::Text("\\x"@ + hex_of(bytes)),
        CellView::Other(content) => JsonView::Text(content),
        CellView::Unreadable => JsonView::Null,
    }
}

/// How a cell is shown.
pub fn cell_to_json(cell: Cell) -> (json: Json)
    ensures
        json@ == shown(cell@),
{
    match cell {
        Cell::Null => Json::Null,
        Cell::Boolean(flag) => Json::Bool(flag),
        Cell::Signed(n) => Json::Number(JsonNumber::from_signed(n)),
        Cell::Unsigned(n) => Json::Number(JsonNumber::from_unsigned(n)),
        Cell::Float(Some(written)) => Json::Number(JsonNumber::Float(written)),
        Cell::Float(None) => Json::Null,
        Cell::Text(content) => Json::Text(content),
        Cell::Blob(bytes) => Json::Text(
            "\\x".to_string().concat(hex_encode(bytes.as_slice()).as_str()),
        ),
        Cell::Other(content) => Json::Text(content),
        Cell::Unreadable => Json::Null,
    }
}

/// What the cells of a row stand for.
pub open spec fn cells_view(cells: Seq<Cell>) -> Seq<CellView> {
    Seq::new(cells.len(), |i: int| cells[i]@)
}

/// How a row is shown.
pub open spec fn shown_row(cells: Seq<CellView>) -> JsonView {
    JsonView::Array(Seq::new(cells.len(), |i: int| shown(cells[i])))
}

/// How a row is shown.
fn row_to_json(cells: Vec<Cell>) -> (json: Json)
    ensures
        json@ == shown_row(cells_view(cells@)),
{
    let ghost all = cells_view(cells@);
    let mut items: Vec<Json> = Vec::new();
    for cell in it: cells
        invariant
            it.seq() == cells@,
            all == cells_view(cells@),
            items.len() == it.index(),
            forall|k: int| 0 <= k < items.len() ==> (#[trigger] items@[k])@ == shown(all[k]),
    {
        assert(cell == cells@[it.index() as int]);
        items.push(cell_to_json(cell));
    }
    assert(items_model(items@) =~= Seq::new(all.len(), |i: int| shown(all[i])));
    Json::Array(items)
}

/// The words that a statement with rows begins with.
pub open spec fn query_words() -> Seq<Seq<char>> {
    seq![
        "select"@,
        "with"@,
        "show"@,
        "pragma"@,
        "explain"@,
        "describe"@,
        "values"@,
        "table"@,
        "call"@,
    ]
}

/// Whether a statement has rows: it begins with one of the words, in upper or lower case, after white
/// space.
pub open spec fn has_rows(sql: Seq<char>) -> bool {
    exists|i: int|
        0 <= i < query_words().len() && (#[trigger] query_words()[i]).is_prefix_of(
            lowered(trimmed_start(sql)),
        )
}

/// Whether a statement has rows.
pub fn is_query(sql: &str) -> (found: bool)
    ensures
        found == has_rows(sql@),
{
    let lead = text::lower(text::trim_start(sql).as_str());
    let words: [&str; 9] = [
        "select",
        "with",
        "show",
        "pragma",
        "explain",
        "describe",
        "values",
        "table",
        "call",
    ];
    let mut i: usize = 0;
    while i < 9
        invariant
            words@.len() == 9,
            i <= 9,
            lead@ == lowered(trimmed_start(sql@)),
            query_words().len() == 9,
            forall|k: int| 0 <= k < 9 ==> (#[trigger] words@[k])@ == query_words()[k],
            forall|k: int| 0 <= k < i ==> !(#[trigger] query_words()[k]).is_prefix_of(lead@),
        decreases 9 - i,
    {
        assert(words@[i as int]@ == query_words()[i as int]);
        if text::starts_with(lead.as_str(), words[i]) {
            return true;
        }
        i += 1;
    }
    false
}

/// What a statement gives: the names of its columns, its rows, and whether there were more rows.
pub struct QueryOutput {
    pub columns: Vec<String>,
    pub rows: Vec<Json>,
    pub truncated: bool,
}

/// What the output of a statement stands for.
#[verifier::ext_equal]
pub struct OutputView {
    pub columns: Seq<Seq<char>>,
    pub rows: Seq<JsonView>,
    pub truncated: bool,
}

impl View for QueryOutput {
    type V = OutputView;

    open spec fn view(&self) -> OutputView {
        OutputView {
            columns: texts(self.columns@),
            rows: items_model(self.rows@),
            truncated: self.truncated,
        }
    }
}

/// What came back while a statement is run.
pub enum RunEvent {
    /// Nothing: it begins.
    Start,
    /// Whether the statement could be executed.
    Executed(Result<(), String>),
    /// The names of the columns, where the rows of the statement could be asked for.
    Queried(Result<Vec<String>, String>),
    /// The next row, if there is one.
    Row(QueryOutput, Result<Option<Vec<Cell>>, String>),
}

/// What is to be done next to run a statement.
pub enum RunAction {
    /// Execute the statement.
    Execute,
    /// Ask for the rows of the statement.
    Query,
    /// Fetch the next row.
    Fetch(QueryOutput),
    /// Nothing: this is what the statement gives.
    Done(Result<QueryOutput, String>),
}

/// What an event stands for.
pub enum RunEventView {
    Start,
    Executed(Result<(), Seq<char>>),
    Queried(Result<Seq<Seq<char>>, Seq<char>>),
    Row(OutputView, Result<Option<Seq<CellView>>, Seq<char>>),
}

/// What an action stands for.
pub enum RunActionView {
    Execute,
    Query,
    Fetch(OutputView),
    Done(Result<OutputView, Seq<char>>),
}

/// What a fetched row stands for.
pub open spec fn row_result(row: Result<Option<Vec<Cell>>, String>) -> Result<
    Option<Seq<CellView>>,
    Seq<char>,
> {
    match row {
        Ok(Some(cells)) => Ok(Some(cells_view(cells@))),
        Ok(None) => Ok(None),
        Err(error) => Err(error@),
    }
}

/// What an outcome stands for.
pub open spec fn output_result(output: Result<QueryOutput, String>) -> Result<
    OutputView,
    Seq<char>,
> {
    match output {
        Ok(output) => Ok(output@),
        Err(error) => Err(error@),
    }
}

impl View for RunEvent {
    type V = RunEventView;

    open spec fn view(&self) -> RunEventView {
        match self {
            RunEvent::Start => RunEventView::Start,
            RunEvent::Executed(result) => RunEventView::Executed(done_result(*result)),
            RunEvent::Queried(columns) => RunEventView::Queried(
                names_result(*columns),
            ),
            RunEvent::Row(output, row) => RunEventView::Row(output@, row_result(*row)),
        }
    }
}

impl View for RunAction {
    type V = RunActionView;

    open spec fn view(&self) -> RunActionView {
        match self {
            RunAction::Execute => RunActionView::Execute,
            RunAction::Query => RunActionView::Query,
            RunAction::Fetch(output) => RunActionView::Fetch(output@),
            RunAction::Done(output) => RunActionView::Done(output_result(*output)),
        }
    }
}

/// The message of a statement that failed.
pub open spec fn query_failed(error: Seq<char>) -> Seq<char> {
    "query failed: "@ + error
}

/// The output before any row was fetched.
pub open spec fn no_rows(columns: Seq<Seq<char>>) -> OutputView {
    OutputView { columns, rows: seq![], truncated: false }
}

/// What follows an event while a statement is run, of which at most `cap` rows are shown.
pub open spec fn run_step(sql: Seq<char>, cap: int, event: RunEventView) -> RunActionView {
    match event {
        RunEventView::Start => if has_rows(sql) {
            RunActionView::Query
        } else {
            RunActionView::Execute
        },
        RunEventView::Executed(Err(error)) => RunActionView::Done(Err(query_failed(error))),
        RunEventView::Executed(Ok(_)) => RunActionView::Done(Ok(no_rows(seq![]))),
        RunEventView::Queried(Err(error)) => RunActionView::Done(Err(query_failed(error))),
        RunEventView::Queried(Ok(columns)) => RunActionView::Fetch(no_rows(columns)),
        RunEventView::Row(_, Err(error)) => RunActionView::Done(Err(query_failed(error))),
        RunEventView::Row(output, Ok(None)) => RunActionView::Done(Ok(output)),
        RunEventView::Row(output, Ok(Some(cells))) => if output.rows.len() >= cap {
            RunActionView::Done(Ok(OutputView { truncated: true, ..output }))
        } else {
            RunActionView::Fetch(
                OutputView { rows: output.rows.push(shown_row(cells)), ..output },
            )
        },
    }
}

/// The message of a statement that failed.
fn failed_message(error: &str) -> (message: String)
    ensures
        message@ == query_failed(error@),
{
    "query failed: ".to_string().concat(error)
}

/// The output before any row was fetched.
fn empty_output(columns: Vec<String>) -> (output: QueryOutput)
    ensures
        output@ == no_rows(texts(columns@)),
{
    let output = QueryOutput { columns, rows: Vec::new(), truncated: false };
    assert(output@ =~= no_rows(texts(columns@)));
    output
}

/// What follows an event while a statement is run, of which at most `cap` rows are shown.
pub fn run_query(sql: &str, cap: usize, event: RunEvent) -> (action: RunAction)
    ensures
        action@ == run_step(sql@, cap as int, event@),
{
    match event {
        RunEvent::Start => if is_query(sql) {
            RunAction::Query
        } else {
            RunAction::Execute
        },
        RunEvent::Executed(Err(error)) => RunAction::Done(Err(failed_message(error.as_str()))),
        RunEvent::Executed(Ok(_)) => {
            let columns: Vec<String> = Vec::new();
            assert(texts(columns@) =~= seq![]);
            RunAction::Done(Ok(empty_output(columns)))
        },
        RunEvent::Queried(Err(error)) => RunAction::Done(Err(failed_message(error.as_str()))),
        RunEvent::Queried(Ok(columns)) => RunAction::Fetch(empty_output(columns)),
        RunEvent::Row(_, Err(error)) => RunAction::Done(Err(failed_message(error.as_str()))),
        RunEvent::Row(output, Ok(None)) => RunAction::Done(Ok(output)),
        RunEvent::Row(output, Ok(Some(cells))) => {
            let mut output = output;
            if output.rows.len() >= cap {
                output.truncated = true;
                RunAction::Done(Ok(output))
            } else {
                let ghost before = output@;
                let row = row_to_json(cells);
                let ghost added = row@;
                output.rows.push(row);
                assert(items_model(output.rows@) =~= before.rows.push(added));
                RunAction::Fetch(output)
            }
        },
    }
}

/// What comes of running a statement when so many rows are there to be fetched, none of them failing.
pub open spec fn run_all(
    sql: Seq<char>,
    cap: int,
    output: OutputView,
    rows: Seq<Seq<CellView>>,
) -> Result<OutputView, Seq<char>>
    decreases rows.len(),
{
    let row = if rows.len() > 0 {
        Some(rows[0])
    } else {
        None
    };
    match run_step(sql, cap, RunEventView::Row(output, Ok(row))) {
        RunActionView::Fetch(next) if rows.len() > 0 => run_all(sql, cap, next, rows.drop_first()),
        RunActionView::Done(result) => result,
        _ => Ok(output),
    }
}

proof fn lemma_rows_shown(
    sql: Seq<char>,
    cap: int,
    output: OutputView,
    rows: Seq<Seq<CellView>>,
)
    requires
        0 <= output.rows.len() <= cap,
        !output.truncated,
    ensures
        ({
            let room = cap - output.rows.len();
            let count = if rows.len() <= room {
                rows.len() as int
            } else {
                room
            };
            run_all(sql, cap, output, rows) == Ok::<OutputView, Seq<char>>(
                OutputView {
                    columns: output.columns,
                    rows: output.rows + Seq::new(count as nat, |i: int| shown_row(rows[i])),
                    truncated: rows.len() > room,
                },
            )
        }),
    decreases rows.len(),
{
    let room = cap - output.rows.len();
    if rows.len() == 0 {
        assert(output.rows + Seq::new(0nat, |i: int| shown_row(rows[i])) =~= output.rows);
    } else if room == 0 {
        assert(output.rows + Seq::new(0nat, |i: int| shown_row(rows[i])) =~= output.rows);
    } else {
        let next = OutputView { rows: output.rows.push(shown_row(rows[0])), ..output };
        let rest = rows.drop_first();
        lemma_rows_shown(sql, cap, next, rest);
        let count = if rows.len() <= room {
            rows.len() as int
        } else {
            room
        };
        assert(next.rows + Seq::new((count - 1) as nat, |i: int| shown_row(rest[i]))
            =~= output.rows + Seq::new(count as nat, |i: int| shown_row(rows[i])));
    }
}

/// A statement shows the first of its rows, in order, and no more than `cap` of them; it tells that
/// there were more exactly when there were.
pub proof fn the_first_rows_are_shown(
    sql: Seq<char>,
    cap: nat,
    columns: Seq<Seq<char>>,
    rows: Seq<Seq<CellView>>,
)
    ensures
        ({
            let count = if rows.len() <= cap {
                rows.len()
            } else {
                cap
            };
            run_all(sql, cap as int, no_rows(columns), rows) == Ok::<OutputView, Seq<char>>(
                OutputView {
                    columns,
                    rows: Seq::new(count, |i: int| shown_row(rows[i])),
                    truncated: rows.len() > cap,
                },
            )
        }),
{
    lemma_rows_shown(sql, cap as int, no_rows(columns), rows);
    let count = if rows.len() <= cap {
        rows.len()
    } else {
        cap
    };
    assert(no_rows(columns).rows + Seq::new(count, |i: int| shown_row(rows[i])) =~= Seq::new(
        count,
        |i: int| shown_row(rows[i]),
    ));
}

/// The statement of a request: the first that is there of the fields that may hold it.
pub struct Statement {
    pub sql: Option<String>,
    pub query: Option<String>,
    pub statement: Option<String>,
}

impl View for Statement {
    type V = Option<Seq<char>>;

    open spec fn view(&self) -> Option<Seq<char>> {
        match (self.sql, self.query, self.statement) {
            (Some(sql), _, _) => Some(sql@),
            (None, Some(query), _) => Some(query@),
            (None, None, statement) => optional(statement),
        }
    }
}

/// What is to be done about a request to run a statement.
pub enum QueryStep<'a, C> {
    /// Run the statement in the session of a connection.
    Run(&'a LakehouseConnection<C>, String),
    /// Give this reply.
    Answer(Reply),
}

/// The reply to a request whose statement cannot be run, if it cannot.
pub open spec fn query_refusal<C>(
    connections: Map<Seq<char>, LakehouseConnection<C>>,
    poisoned: bool,
    connection_id: Seq<char>,
    statement: Option<Seq<char>>,
) -> Option<ReplyView> {
    if statement is None {
        Some(
            ReplyView::Failure(
                "connector.invalidRequest"@,
                "query requires a string sql, query, or statement field."@,
            ),
        )
    } else if poisoned {
        Some(poisoned_view())
    } else if !connections.dom().contains(connection_id) {
        Some(not_found_view(connection_id))
    } else {
        None
    }
}

/// What is to be done about a request to run a statement.
pub fn query<'a, C>(
    connections: &'a Connections<C>,
    poisoned: bool,
    connection_id: &str,
    statement: Statement,
) -> (step: QueryStep<'a, C>)
    ensures
        match step {
            QueryStep::Run(connection, sql) => {
                &&& query_refusal(connections@, poisoned, connection_id@, statement@) is None
                &&& connections@.contains_pair(connection_id@, *connection)
                &&& statement@ == Some(sql@)
            },
            QueryStep::Answer(reply) => query_refusal(
                connections@,
                poisoned,
                connection_id@,
                statement@,
            ) == Some(reply@),
        },
{
    let sql = match (statement.sql, statement.query, statement.statement) {
        (Some(sql), _, _) => sql,
        (None, Some(query), _) => query,
        (None, None, Some(statement)) => statement,
        (None, None, None) => {
            return QueryStep::Answer(
                Reply::failure(
                    "connector.invalidRequest",
                    "query requires a string sql, query, or statement field.".to_string(),
                ),
            );
        },
    };
    if poisoned {
        return QueryStep::Answer(Reply::poisoned());
    }
    match connections.get(connection_id) {
        Some(connection) => QueryStep::Run(connection, sql),
        None => QueryStep::Answer(Reply::not_found(connection_id)),
    }
}

/// The strings of a list.
pub open spec fn text_items(list: Seq<Seq<char>>) -> Seq<JsonView> {
    Seq::new(list.len(), |i: int| JsonView::Text(list[i]))
}

/// The strings of a list.
pub fn json_texts(list: Vec<String>) -> (items: Vec<Json>)
    ensures
        items_model(items@) == text_items(texts(list@)),
{
    let mut items: Vec<Json> = Vec::new();
    for content in it: list
        invariant
            it.seq() == list@,
            items.len() == it.index(),
            forall|k: int|
                0 <= k < items.len() ==> (#[trigger] items@[k])@ == JsonView::Text(list@[k]@),
    {
        items.push(Json::Text(content));
    }
    assert(items_model(items@) =~= text_items(texts(list@)));
    items
}

/// The reply to a request whose statement was run: in the message of a failure, what the connection
/// keeps secret is masked.
pub open spec fn query_answer(
    secrets: Seq<Seq<char>>,
    connection_id: Seq<char>,
    outcome: Result<OutputView, Seq<char>>,
) -> ReplyView {
    match outcome {
        Ok(output) => ReplyView::Success(
            no_members().insert("connectionId"@, JsonView::Text(connection_id)).insert(
                "columns"@,
                JsonView::Array(text_items(output.columns)),
            ).insert("rows"@, JsonView::Array(output.rows)).insert(
                "truncated"@,
                JsonView::Bool(output.truncated),
            ),
        ),
        Err(error) => ReplyView::Failure("connector.queryFailed"@, masked_all(error, secrets)),
    }
}

/// The reply to a request whose statement was run in the session of a connection.
pub fn answer_query<C>(
    connection: &LakehouseConnection<C>,
    connection_id: &str,
    outcome: Result<QueryOutput, String>,
) -> (reply: Reply)
    ensures
        reply@ == query_answer(
            texts(connection.redaction_values@),
            connection_id@,
            output_result(outcome),
        ),
{
    match outcome {
        Ok(output) => {
            let columns = json_texts(output.columns);
            Reply::Success(
                Members::new().with_text("connectionId", connection_id).with(
                    "columns",
                    Json::Array(columns),
                ).with("rows", Json::Array(output.rows)).with(
                    "truncated",
                    Json::Bool(output.truncated),
                ),
            )
        },
        Err(error) => Reply::failure(
            "connector.queryFailed",
            redact(connection.redaction_values.as_slice(), error.as_str()),
        ),
    }
}

} // verus!
