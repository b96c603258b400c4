//! The metadata of a session: its tables and views, with their columns.
//!
//! The session is asked outside of this library. A function here says what it is asked next, and
//! takes what it answered.
use crate::catalog_http::answered;
use crate::connections::{Connections, LakehouseConnection};
use crate::document::{
    document, document_view, lemma_placed_at, object, object_view, objects_in, place, placed,
    placing_adds_to_one_schema, schemas_view,
};
use crate::json::{items_model, no_members, signed_view, Json, JsonNumber, JsonView, Members};
use crate::query::{json_texts, text_items};
use crate::redaction::{masked_all, redact};
use crate::reply::{not_found_view, poisoned_view, Reply, ReplyView};
use crate::schema::{column, column_view};
use crate::sync::document_result;
use crate::text;
use crate::text::{lowered, precedes, texts};
use vstd::prelude::*;

verus! {

/// A row about a table or view.
pub struct TableRow {
    pub schema: String,
    pub name: String,
    pub table_type: String,
}

/// A row about a column.
pub struct ColumnRow {
    pub schema: String,
    pub table: String,
    pub name: String,
    pub data_type: String,
    pub nullable: String,
    pub ordinal: i32,
}

/// A table or view, with the columns that have been found.
pub struct ObjectMeta {
    pub schema: String,
    pub name: String,
    pub kind: String,
    pub columns: Vec<Json>,
}

/// What a row about a table stands for.
pub struct TableRowView {
    pub schema: Seq<char>,
    pub name: Seq<char>,
    pub table_type: Seq<char>,
}

/// What a row about a column stands for.
pub struct ColumnRowView {
    pub schema: Seq<char>,
    pub table: Seq<char>,
    pub name: Seq<char>,
    pub data_type: Seq<char>,
    pub nullable: Seq<char>,
    pub ordinal: i32,
}

/// What a table or view stands for.
#[verifier::ext_equal]
pub struct ObjectView {
    pub schema: Seq<char>,
    pub name: Seq<char>,
    pub kind: Seq<char>,
    pub columns: Seq<JsonView>,
}

impl View for TableRow {
    type V = TableRowView;

    open spec fn view(&self) -> TableRowView {
        TableRowView { schema: self.schema@, name: self.name@, table_type: self.table_type@ }
    }
}

impl View for ColumnRow {
    type V = ColumnRowView;

    open spec fn view(&self) -> ColumnRowView {
        ColumnRowView {
            schema: self.schema@,
            table: self.table@,
            name: self.name@,
            data_type: self.data_type@,
            nullable: self.nullable@,
            ordinal: self.ordinal,
        }
    }
}

impl View for ObjectMeta {
    type V = ObjectView;

    open spec fn view(&self) -> ObjectView {
        ObjectView {
            schema: self.schema@,
            name: self.name@,
            kind: self.kind@,
            columns: items_model(self.columns@),
        }
    }
}

/// What rows about tables stand for.
pub open spec fn table_rows(rows: Seq<TableRow>) -> Seq<TableRowView> {
    Seq::new(rows.len(), |i: int| rows[i]@)
}

/// What rows about columns stand for.
pub open spec fn column_rows(rows: Seq<ColumnRow>) -> Seq<ColumnRowView> {
    Seq::new(rows.len(), |i: int| rows[i]@)
}

/// What tables and views stand for.
pub open spec fn objects_view(objects: Seq<ObjectMeta>) -> Seq<ObjectView> {
    Seq::new(objects.len(), |i: int| objects[i]@)
}

/// Whether a name comes before another: by its schema, and in a schema by itself.
pub open spec fn key_precedes(
    schema: Seq<char>,
    name: Seq<char>,
    other_schema: Seq<char>,
    other_name: Seq<char>,
) -> bool {
    precedes(schema, other_schema) || (schema == other_schema && precedes(name, other_name))
}

/// Whether an object has a name.
pub open spec fn named(object: ObjectView, schema: Seq<char>, name: Seq<char>) -> bool {
    object.schema == schema && object.name == name
}

/// The kind of object that a type of table is.
pub open spec fn kind_of(table_type: Seq<char>) -> Seq<char> {
    if lowered(table_type) == lowered("VIEW"@) {
        "view"@
    } else {
        "table"@
    }
}

/// The object of a row about a table, before any column was found.
pub open spec fn object_of(row: TableRowView) -> ObjectView {
    ObjectView {
        schema: row.schema,
        name: row.name,
        kind: kind_of(row.table_type),
        columns: seq![],
    }
}

/// The objects with one more, which goes before the first that it precedes; an object of the same
/// name is replaced.
pub open spec fn put(objects: Seq<ObjectView>, object: ObjectView) -> Seq<ObjectView>
    decreases objects.len(),
{
    if objects.len() == 0 {
        seq![object]
    } else if named(objects[0], object.schema, object.name) {
        seq![object] + objects.drop_first()
    } else if key_precedes(object.schema, object.name, objects[0].schema, objects[0].name) {
        seq![object] + objects
    } else {
        seq![objects[0]] + put(objects.drop_first(), object)
    }
}

/// The objects of rows about tables.
pub open spec fn objects_of(rows: Seq<TableRowView>) -> Seq<ObjectView>
    decreases rows.len(),
{
    if rows.len() == 0 {
        seq![]
    } else {
        put(objects_of(rows.drop_last()), object_of(rows.last()))
    }
}

/// The column of a row.
pub open spec fn column_of(row: ColumnRowView) -> JsonView {
    column_view(
        row.name,
        row.data_type,
        lowered(row.nullable) == lowered("YES"@),
        signed_view(row.ordinal as i64),
    )
}

/// The objects with one more column, which goes to the end of the columns of the first object of that
/// name.
pub open spec fn put_column(
    objects: Seq<ObjectView>,
    schema: Seq<char>,
    table: Seq<char>,
    column: JsonView,
) -> Seq<ObjectView>
    decreases objects.len(),
{
    if objects.len() == 0 {
        objects
    } else if named(objects[0], schema, table) {
        seq![ObjectView { columns: objects[0].columns.push(column), ..objects[0] }]
            + objects.drop_first()
    } else {
        seq![objects[0]] + put_column(objects.drop_first(), schema, table, column)
    }
}

/// The objects with the columns of rows.
pub open spec fn with_columns(objects: Seq<ObjectView>, rows: Seq<ColumnRowView>) -> Seq<ObjectView>
    decreases rows.len(),
{
    if rows.len() == 0 {
        objects
    } else {
        put_column(
            with_columns(objects, rows.drop_last()),
            rows.last().schema,
            rows.last().table,
            column_of(rows.last()),
        )
    }
}

/// The schemas of objects, in the order in which they come.
pub open spec fn grouped(objects: Seq<ObjectView>) -> Seq<(Seq<char>, Seq<JsonView>)>
    decreases objects.len(),
{
    if objects.len() == 0 {
        seq![]
    } else {
        let last = objects.last();
        placed(
            grouped(objects.drop_last()),
            last.schema,
            object_view(last.schema, last.name, last.kind, last.columns),
        )
    }
}

proof fn lemma_put_at(objects: Seq<ObjectView>, object: ObjectView, at: int)
    requires
        0 <= at <= objects.len(),
        forall|k: int|
            0 <= k < at ==> !named(#[trigger] objects[k], object.schema, object.name)
                && !key_precedes(object.schema, object.name, objects[k].schema, objects[k].name),
        at < objects.len() ==> named(objects[at], object.schema, object.name) || key_precedes(
            object.schema,
            object.name,
            objects[at].schema,
            objects[at].name,
        ),
    ensures
        put(objects, object) == (if at < objects.len() && named(
            objects[at],
            object.schema,
            object.name,
        ) {
            objects.update(at, object)
        } else {
            objects.insert(at, object)
        }),
    decreases objects.len(),
{
    if objects.len() > 0 && at > 0 {
        let rest = objects.drop_first();
        assert forall|k: int| 0 <= k < at - 1 implies !named(
            #[trigger] rest[k],
            object.schema,
            object.name,
        ) && !key_precedes(object.schema, object.name, rest[k].schema, rest[k].name) by {
            assert(rest[k] == objects[k + 1]);
        }
        lemma_put_at(rest, object, at - 1);
    }
    if at < objects.len() && named(objects[at], object.schema, object.name) {
        assert(put(objects, object) =~= objects.update(at, object));
    } else {
        assert(put(objects, object) =~= objects.insert(at, object));
    }
}

proof fn lemma_put_column_at(
    objects: Seq<ObjectView>,
    schema: Seq<char>,
    table: Seq<char>,
    column: JsonView,
    at: int,
)
    requires
        0 <= at <= objects.len(),
        forall|k: int| 0 <= k < at ==> !named(#[trigger] objects[k], schema, table),
        at < objects.len() ==> named(objects[at], schema, table),
    ensures
        put_column(objects, schema, table, column) == (if at < objects.len() {
            objects.update(
                at,
                ObjectView { columns: objects[at].columns.push(column), ..objects[at] },
            )
        } else {
            objects
        }),
    decreases objects.len(),
{
    if objects.len() > 0 && at > 0 {
        let rest = objects.drop_first();
        assert forall|k: int| 0 <= k < at - 1 implies !named(
            #[trigger] rest[k],
            schema,
            table,
        ) by {
            assert(rest[k] == objects[k + 1]);
        }
        lemma_put_column_at(rest, schema, table, column, at - 1);
    }
    if at < objects.len() {
        assert(put_column(objects, schema, table, column) =~= objects.update(
            at,
            ObjectView { columns: objects[at].columns.push(column), ..objects[at] },
        ));
    } else {
        assert(put_column(objects, schema, table, column) =~= objects);
    }
}

/// Whether two texts are equal but for the case of their ASCII letters.
fn same_word(a: &str, b: &str) -> (equal: bool)
    ensures
        equal == (lowered(a@) == lowered(b@)),
{
    text::same(text::lower(a).as_str(), text::lower(b).as_str())
}

/// Whether a name comes before another.
fn key_before(schema: &str, name: &str, other_schema: &str, other_name: &str) -> (found: bool)
    ensures
        found == key_precedes(schema@, name@, other_schema@, other_name@),
{
    text::comes_before(schema, other_schema) || (text::same(schema, other_schema)
        && text::comes_before(name, other_name))
}

/// Adds an object.
fn put_object(objects: &mut Vec<ObjectMeta>, object: ObjectMeta)
    ensures
        objects_view(final(objects)@) == put(objects_view(old(objects)@), object@),
{
    let ghost before = objects_view(objects@);
    let ghost added = object@;
    let mut i: usize = 0;
    while i < objects.len()
        invariant
            i <= objects.len(),
            objects@ == old(objects)@,
            before == objects_view(objects@),
            added == object@,
            forall|k: int|
                0 <= k < i ==> !named(#[trigger] before[k], added.schema, added.name)
                    && !key_precedes(added.schema, added.name, before[k].schema, before[k].name),
        decreases objects.len() - i,
    {
        if text::same(objects[i].schema.as_str(), object.schema.as_str()) && text::same(
            objects[i].name.as_str(),
            object.name.as_str(),
        ) {
            proof {
                lemma_put_at(before, added, i as int);
            }
            objects.set(i, object);
            assert(objects_view(objects@) =~= before.update(i as int, added));
            return ;
        }
        if key_before(
            object.schema.as_str(),
            object.name.as_str(),
            objects[i].schema.as_str(),
            objects[i].name.as_str(),
        ) {
            proof {
                lemma_put_at(before, added, i as int);
            }
            objects.insert(i, object);
            assert(objects_view(objects@) =~= before.insert(i as int, added));
            return ;
        }
        i += 1;
    }
    proof {
        lemma_put_at(before, added, i as int);
    }
    objects.push(object);
    assert(objects_view(objects@) =~= before.insert(i as int, added));
}

/// Adds a column to the object of its table.
fn put_column_row(objects: &mut Vec<ObjectMeta>, row: ColumnRow)
    ensures
        objects_view(final(objects)@) == put_column(
            objects_view(old(objects)@),
            row@.schema,
            row@.table,
            column_of(row@),
        ),
{
    let ghost before = objects_view(objects@);
    let mut i: usize = 0;
    while i < objects.len()
        invariant
            i <= objects.len(),
            objects@ == old(objects)@,
            before == objects_view(objects@),
            forall|k: int| 0 <= k < i ==> !named(#[trigger] before[k], row@.schema, row@.table),
        decreases objects.len() - i,
    {
        if text::same(objects[i].schema.as_str(), row.schema.as_str()) && text::same(
            objects[i].name.as_str(),
            row.table.as_str(),
        ) {
            let added = column(
                row.name.as_str(),
                row.data_type.as_str(),
                same_word(row.nullable.as_str(), "YES"),
                JsonNumber::from_signed(row.ordinal as i64),
            );
            proof {
                lemma_put_column_at(before, row@.schema, row@.table, added@, i as int);
            }
            let ghost columns = objects@[i as int].columns@;
            let ghost entry = added@;
            objects[i].columns.push(added);
            proof {
                assert(items_model(columns.push(added)) =~= items_model(columns).push(entry));
                assert(objects_view(objects@) =~= before.update(
                    i as int,
                    ObjectView {
                        columns: before[i as int].columns.push(entry),
                        ..before[i as int]
                    },
                ));
            }
            return ;
        }
        i += 1;
    }
    proof {
        lemma_put_column_at(before, row@.schema, row@.table, column_of(row@), i as int);
    }
}

/// The objects of rows about tables.
fn table_objects(rows: Vec<TableRow>) -> (objects: Vec<ObjectMeta>)
    ensures
        objects_view(objects@) == objects_of(table_rows(rows@)),
{
    let ghost all = table_rows(rows@);
    let mut objects: Vec<ObjectMeta> = Vec::new();
    assert(objects_view(objects@) =~= seq![]);
    assert(all.take(0) =~= seq![]);
    for row in it: rows
        invariant
            it.seq() == rows@,
            all == table_rows(rows@),
            objects_view(objects@) == objects_of(all.take(it.index() as int)),
    {
        let ghost i = it.index() as int;
        assert(row == rows@[i]);
        let kind = if same_word(row.table_type.as_str(), "VIEW") {
            "view".to_string()
        } else {
            "table".to_string()
        };
        let added = ObjectMeta { schema: row.schema, name: row.name, kind, columns: Vec::new() };
        assert(added@ =~= object_of(all[i]));
        assert(all.take(i + 1).drop_last() =~= all.take(i));
        put_object(&mut objects, added);
    }
    assert(all.take(rows@.len() as int) =~= all);
    objects
}

/// The objects with the columns of rows.
fn table_columns(objects: Vec<ObjectMeta>, rows: Vec<ColumnRow>) -> (out: Vec<ObjectMeta>)
    ensures
        objects_view(out@) == with_columns(objects_view(objects@), column_rows(rows@)),
{
    let ghost start = objects_view(objects@);
    let ghost all = column_rows(rows@);
    let mut out = objects;
    assert(all.take(0) =~= seq![]);
    for row in it: rows
        invariant
            it.seq() == rows@,
            all == column_rows(rows@),
            objects_view(out@) == with_columns(start, all.take(it.index() as int)),
    {
        let ghost i = it.index() as int;
        assert(row == rows@[i]);
        assert(all.take(i + 1).drop_last() =~= all.take(i));
        put_column_row(&mut out, row);
    }
    assert(all.take(rows@.len() as int) =~= all);
    out
}

/// The metadata document of objects.
fn describe_objects(objects: Vec<ObjectMeta>) -> (json: Json)
    ensures
        json@ == document_view(grouped(objects_view(objects@))),
{
    let ghost all = objects_view(objects@);
    let mut schemas: Vec<(String, Vec<Json>)> = Vec::new();
    assert(schemas_view(schemas@) =~= seq![]);
    assert(all.take(0) =~= seq![]);
    for item in it: objects
        invariant
            it.seq() == objects@,
            all == objects_view(objects@),
            schemas_view(schemas@) == grouped(all.take(it.index() as int)),
    {
        let ghost i = it.index() as int;
        assert(item == objects@[i]);
        assert(all.take(i + 1).drop_last() =~= all.take(i));
        let ObjectMeta { schema, name, kind, columns } = item;
        let entry = object(schema.as_str(), name.as_str(), kind.as_str(), columns);
        place(&mut schemas, schema, entry);
    }
    assert(all.take(objects@.len() as int) =~= all);
    document(schemas)
}

/// What came back while the metadata of a session is loaded.
pub enum LoadEvent {
    /// Nothing: it begins.
    Start,
    /// The rows about tables.
    Tables(Result<Vec<TableRow>, String>),
    /// The rows about columns.
    Columns(Vec<ObjectMeta>, Result<Vec<ColumnRow>, String>),
}

/// What is to be done next to load the metadata of a session.
pub enum LoadAction {
    /// Ask for the rows about tables with a statement.
    QueryTables(String),
    /// Ask for the rows about columns with a statement.
    QueryColumns(Vec<ObjectMeta>, String),
    /// Nothing: this is the metadata document.
    Done(Result<Json, String>),
}

/// What an event stands for.
pub enum LoadEventView {
    Start,
    Tables(Result<Seq<TableRowView>, Seq<char>>),
    Columns(Seq<ObjectView>, Result<Seq<ColumnRowView>, Seq<char>>),
}

/// What an action stands for.
pub enum LoadActionView {
    QueryTables(Seq<char>),
    QueryColumns(Seq<ObjectView>, Seq<char>),
    Done(Result<JsonView, Seq<char>>),
}

impl View for LoadEvent {
    type V = LoadEventView;

    open spec fn view(&self) -> LoadEventView {
        match self {
            LoadEvent::Start => LoadEventView::Start,
            LoadEvent::Tables(Ok(rows)) => LoadEventView::Tables(Ok(table_rows(rows@))),
            LoadEvent::Tables(Err(error)) => LoadEventView::Tables(Err(error@)),
            LoadEvent::Columns(objects, Ok(rows)) => LoadEventView::Columns(
                objects_view(objects@),
                Ok(column_rows(rows@)),
            ),
            LoadEvent::Columns(objects, Err(error)) => LoadEventView::Columns(
                objects_view(objects@),
                Err(error@),
            ),
        }
    }
}

impl View for LoadAction {
    type V = LoadActionView;

    open spec fn view(&self) -> LoadActionView {
        match self {
            LoadAction::QueryTables(sql) => LoadActionView::QueryTables(sql@),
            LoadAction::QueryColumns(objects, sql) => LoadActionView::QueryColumns(
                objects_view(objects@),
                sql@,
            ),
            LoadAction::Done(result) => LoadActionView::Done(answered(*result)),
        }
    }
}

/// The statement that gives the rows about tables.
pub open spec fn tables_sql() -> Seq<char> {
    "select table_schema, table_name, table_type from information_schema.tables where table_schema not in ('information_schema', 'pg_catalog') order by table_schema, table_name"@
}

/// The statement that gives the rows about columns.
pub open spec fn columns_sql() -> Seq<char> {
    "select table_schema, table_name, column_name, data_type, is_nullable, ordinal_position from information_schema.columns where table_schema not in ('information_schema', 'pg_catalog') order by table_schema, table_name, ordinal_position"@
}

/// What follows an event while the metadata of a session is loaded.
pub open spec fn load_step(event: LoadEventView) -> LoadActionView {
    match event {
        LoadEventView::Start => LoadActionView::QueryTables(tables_sql()),
        LoadEventView::Tables(Err(error)) => LoadActionView::Done(
            Err("metadata objects failed: "@ + error),
        ),
        LoadEventView::Tables(Ok(rows)) => LoadActionView::QueryColumns(
            objects_of(rows),
            columns_sql(),
        ),
        LoadEventView::Columns(_, Err(error)) => LoadActionView::Done(
            Err("metadata columns failed: "@ + error),
        ),
        LoadEventView::Columns(objects, Ok(rows)) => LoadActionView::Done(
            Ok(document_view(grouped(with_columns(objects, rows)))),
        ),
    }
}

/// What follows an event while the metadata of a session is loaded.
pub fn load_metadata(event: LoadEvent) -> (action: LoadAction)
    ensures
        action@ == load_step(event@),
{
    match event {
        LoadEvent::Start => LoadAction::QueryTables(
            "select table_schema, table_name, table_type from information_schema.tables where table_schema not in ('information_schema', 'pg_catalog') order by table_schema, table_name".to_string(),
        ),
        LoadEvent::Tables(Err(error)) => LoadAction::Done(
            Err("metadata objects failed: ".to_string().concat(error.as_str())),
        ),
        LoadEvent::Tables(Ok(rows)) => LoadAction::QueryColumns(
            table_objects(rows),
            "select table_schema, table_name, column_name, data_type, is_nullable, ordinal_position from information_schema.columns where table_schema not in ('information_schema', 'pg_catalog') order by table_schema, table_name, ordinal_position".to_string(),
        ),
        LoadEvent::Columns(_, Err(error)) => LoadAction::Done(
            Err("metadata columns failed: ".to_string().concat(error.as_str())),
        ),
        LoadEvent::Columns(objects, Ok(rows)) => LoadAction::Done(
            Ok(describe_objects(table_columns(objects, rows))),
        ),
    }
}

/// What is to be done about a request for the metadata of a connection.
pub enum MetadataStep<'a, C> {
    /// Bring the session of the connection in line with its catalog, which describes the connection.
    Sync(&'a mut LakehouseConnection<C>),
    /// Load the metadata of the session, which describes a connection without a catalog.
    Load(&'a mut LakehouseConnection<C>),
    /// Give this reply.
    Answer(Reply),
}

/// The reply to a request for metadata that cannot be given, if it cannot.
pub open spec fn metadata_refusal<C>(
    connections: Map<Seq<char>, LakehouseConnection<C>>,
    poisoned: bool,
    connection_id: Seq<char>,
) -> Option<ReplyView> {
    if poisoned {
        Some(poisoned_view())
    } else if !connections.dom().contains(connection_id) {
        Some(not_found_view(connection_id))
    } else {
        None
    }
}

/// What is to be done about a request for the metadata of a connection: one with a catalog is described
/// by its catalog, any other by its session. A token that is refreshed on the way stays in it.
pub fn metadata<'a, C>(
    connections: &'a mut Connections<C>,
    poisoned: bool,
    connection_id: &str,
) -> (step: MetadataStep<'a, C>)
    ensures
        match step {
            MetadataStep::Sync(connection) => {
                &&& connection.catalog is Some
                &&& metadata_refusal(old(connections)@, poisoned, connection_id@) is None
                &&& old(connections)@.contains_pair(connection_id@, *connection)
                &&& final(connections)@ == old(connections)@.insert(
                    connection_id@,
                    *final(connection),
                )
            },
            MetadataStep::Load(connection) => {
                &&& connection.catalog is None
                &&& metadata_refusal(old(connections)@, poisoned, connection_id@) is None
                &&& old(connections)@.contains_pair(connection_id@, *connection)
                &&& final(connections)@ == old(connections)@.insert(
                    connection_id@,
                    *final(connection),
                )
            },
            MetadataStep::Answer(reply) => {
                &&& metadata_refusal(old(connections)@, poisoned, connection_id@) == Some(reply@)
                &&& final(connections)@ == old(connections)@
            },
        },
{
    if poisoned {
        return MetadataStep::Answer(Reply::poisoned());
    }
    match connections.get_mut(connection_id) {
        Some(connection) => {
            if connection.catalog.is_some() {
                MetadataStep::Sync(connection)
            } else {
                MetadataStep::Load(connection)
            }
        },
        None => MetadataStep::Answer(Reply::not_found(connection_id)),
    }
}

/// The reply to a request for metadata that could not be had: what the connection keeps secret is
/// masked.
pub open spec fn metadata_failure(secrets: Seq<Seq<char>>, error: Seq<char>) -> ReplyView {
    ReplyView::Failure("connector.metadataFailed"@, masked_all(error, secrets))
}

/// The reply with a metadata document.
pub open spec fn metadata_members(connection_id: Seq<char>, metadata: JsonView) -> Map<
    Seq<char>,
    JsonView,
> {
    no_members().insert("connectionId"@, JsonView::Text(connection_id)).insert(
        "metadata"@,
        metadata,
    )
}

/// The warnings, with what the connection keeps secret masked in each.
pub open spec fn masked_each(warnings: Seq<Seq<char>>, secrets: Seq<Seq<char>>) -> Seq<Seq<char>> {
    Seq::new(warnings.len(), |i: int| masked_all(warnings[i], secrets))
}

/// The reply to a request for the metadata of a catalog.
pub open spec fn catalog_answer(
    secrets: Seq<Seq<char>>,
    connection_id: Seq<char>,
    outcome: Result<(JsonView, Seq<Seq<char>>), Seq<char>>,
) -> ReplyView {
    match outcome {
        Ok((metadata, warnings)) => ReplyView::Success(
            metadata_members(connection_id, metadata).insert(
                "warnings"@,
                JsonView::Array(text_items(masked_each(warnings, secrets))),
            ),
        ),
        Err(error) => metadata_failure(secrets, error),
    }
}

/// The reply to a request for the metadata of a session.
pub open spec fn session_answer(
    secrets: Seq<Seq<char>>,
    connection_id: Seq<char>,
    outcome: Result<JsonView, Seq<char>>,
) -> ReplyView {
    match outcome {
        Ok(metadata) => ReplyView::Success(metadata_members(connection_id, metadata)),
        Err(error) => metadata_failure(secrets, error),
    }
}

/// Each of the messages, with every occurrence of each value masked.
fn redact_each(values: &[String], messages: Vec<String>) -> (out: Vec<String>)
    ensures
        texts(out@) == masked_each(texts(messages@), texts(values@)),
{
    let mut out: Vec<String> = Vec::new();
    for message in it: messages
        invariant
            it.seq() == messages@,
            out.len() == it.index(),
            forall|k: int|
                0 <= k < out.len() ==> (#[trigger] out@[k])@ == masked_all(
                    messages@[k]@,
                    texts(values@),
                ),
    {
        out.push(redact(values, message.as_str()));
    }
    assert(texts(out@) =~= masked_each(texts(messages@), texts(values@)));
    out
}

/// Tells that the metadata of a connection could not be had.
fn fail_metadata<C>(connection: &LakehouseConnection<C>, error: &str) -> (reply: Reply)
    ensures
        reply@ == metadata_failure(texts(connection.redaction_values@), error@),
{
    Reply::failure(
        "connector.metadataFailed",
        redact(connection.redaction_values.as_slice(), error),
    )
}

/// The reply to a request for the metadata of a connection whose catalog was asked.
pub fn answer_catalog<C>(
    connection: &LakehouseConnection<C>,
    connection_id: &str,
    outcome: Result<(Json, Vec<String>), String>,
) -> (reply: Reply)
    ensures
        reply@ == catalog_answer(
            texts(connection.redaction_values@),
            connection_id@,
            document_result(outcome),
        ),
{
    match outcome {
        Ok((json, warnings)) => {
            let told = redact_each(connection.redaction_values.as_slice(), warnings);
            Reply::Success(
                Members::new().with_text("connectionId", connection_id).with("metadata", json).with(
                    "warnings",
                    Json::Array(json_texts(told)),
                ),
            )
        },
        Err(error) => fail_metadata(connection, error.as_str()),
    }
}

/// The reply to a request for the metadata of a connection whose session was asked.
pub fn answer_session<C>(
    connection: &LakehouseConnection<C>,
    connection_id: &str,
    outcome: Result<Json, String>,
) -> (reply: Reply)
    ensures
        reply@ == session_answer(
            texts(connection.redaction_values@),
            connection_id@,
            answered(outcome),
        ),
{
    match outcome {
        Ok(json) => Reply::Success(
            Members::new().with_text("connectionId", connection_id).with("metadata", json),
        ),
        Err(error) => fail_metadata(connection, error.as_str()),
    }
}

/// Whether objects stand in the order of their names, no two having the same.
pub open spec fn in_order(objects: Seq<ObjectView>) -> bool {
    forall|i: int, j: int|
        0 <= i < j < objects.len() ==> key_precedes(
            (#[trigger] objects[i]).schema,
            objects[i].name,
            (#[trigger] objects[j]).schema,
            objects[j].name,
        )
}

/// The first object of a name.
pub open spec fn lookup(objects: Seq<ObjectView>, schema: Seq<char>, name: Seq<char>) -> Option<
    ObjectView,
>
    decreases objects.len(),
{
    if objects.len() == 0 {
        None
    } else if named(objects[0], schema, name) {
        Some(objects[0])
    } else {
        lookup(objects.drop_first(), schema, name)
    }
}

/// The kind of the table of a name, by the last row about it.
pub open spec fn kind_in(rows: Seq<TableRowView>, schema: Seq<char>, name: Seq<char>) -> Option<
    Seq<char>,
>
    decreases rows.len(),
{
    if rows.len() == 0 {
        None
    } else if rows.last().schema == schema && rows.last().name == name {
        Some(kind_of(rows.last().table_type))
    } else {
        kind_in(rows.drop_last(), schema, name)
    }
}

/// The columns of the table of a name, in the order of their rows.
pub open spec fn columns_in(rows: Seq<ColumnRowView>, schema: Seq<char>, name: Seq<char>) -> Seq<
    JsonView,
>
    decreases rows.len(),
{
    if rows.len() == 0 {
        seq![]
    } else {
        let front = columns_in(rows.drop_last(), schema, name);
        if rows.last().schema == schema && rows.last().table == name {
            front.push(column_of(rows.last()))
        } else {
            front
        }
    }
}

proof fn lemma_key_transitive(a: ObjectView, b: ObjectView, c: ObjectView)
    requires
        key_precedes(a.schema, a.name, b.schema, b.name),
        key_precedes(b.schema, b.name, c.schema, c.name),
    ensures
        key_precedes(a.schema, a.name, c.schema, c.name),
{
    if precedes(a.schema, b.schema) && precedes(b.schema, c.schema) {
        text::order_is_transitive(a.schema, b.schema, c.schema);
    }
    if a.schema == b.schema && b.schema == c.schema {
        text::order_is_irreflexive(a.schema);
        text::order_is_transitive(a.name, b.name, c.name);
    }
}

proof fn lemma_put_in_order(objects: Seq<ObjectView>, object: ObjectView)
    requires
        in_order(objects),
    ensures
        in_order(put(objects, object)),
        put(objects, object).len() > 0,
        put(objects, object)[0] == object || (objects.len() > 0 && put(objects, object)[0]
            == objects[0] && key_precedes(
            objects[0].schema,
            objects[0].name,
            object.schema,
            object.name,
        )),
    decreases objects.len(),
{
    let out = put(objects, object);
    if objects.len() > 0 {
        let first = objects[0];
        let rest = objects.drop_first();
        assert forall|i: int, j: int| 0 <= i < j < rest.len() implies key_precedes(
            (#[trigger] rest[i]).schema,
            rest[i].name,
            (#[trigger] rest[j]).schema,
            rest[j].name,
        ) by {
            assert(rest[i] == objects[i + 1] && rest[j] == objects[j + 1]);
        }
        if named(first, object.schema, object.name) {
            assert forall|i: int, j: int| 0 <= i < j < out.len() implies key_precedes(
                (#[trigger] out[i]).schema,
                out[i].name,
                (#[trigger] out[j]).schema,
                out[j].name,
            ) by {
                assert(out[j] == objects[j]);
                assert(objects[i].schema == out[i].schema && objects[i].name == out[i].name);
            }
        } else if key_precedes(object.schema, object.name, first.schema, first.name) {
            assert forall|i: int, j: int| 0 <= i < j < out.len() implies key_precedes(
                (#[trigger] out[i]).schema,
                out[i].name,
                (#[trigger] out[j]).schema,
                out[j].name,
            ) by {
                assert(out[j] == objects[j - 1]);
                if i == 0 {
                    if j > 1 {
                        assert(key_precedes(
                            objects[0].schema,
                            objects[0].name,
                            objects[j - 1].schema,
                            objects[j - 1].name,
                        ));
                        lemma_key_transitive(object, first, out[j]);
                    }
                } else {
                    assert(out[i] == objects[i - 1]);
                }
            }
        } else {
            text::order_is_total(object.schema, first.schema);
            text::order_is_total(object.name, first.name);
            lemma_put_in_order(rest, object);
            let tail = put(rest, object);
            assert(out == seq![first] + tail);
            assert forall|j: int| 0 < j < out.len() implies key_precedes(
                first.schema,
                first.name,
                (#[trigger] out[j]).schema,
                out[j].name,
            ) by {
                let head = tail[0];
                if rest.len() > 0 && head == rest[0] {
                    assert(rest[0] == objects[1]);
                }
                assert(key_precedes(first.schema, first.name, head.schema, head.name));
                assert(out[j] == tail[j - 1]);
                if j > 1 {
                    assert(key_precedes(
                        tail[0].schema,
                        tail[0].name,
                        tail[j - 1].schema,
                        tail[j - 1].name,
                    ));
                    lemma_key_transitive(first, head, out[j]);
                }
            }
            assert forall|i: int, j: int| 0 <= i < j < out.len() implies key_precedes(
                (#[trigger] out[i]).schema,
                out[i].name,
                (#[trigger] out[j]).schema,
                out[j].name,
            ) by {
                if i > 0 {
                    assert(out[i] == tail[i - 1] && out[j] == tail[j - 1]);
                }
            }
        }
    }
}

proof fn lemma_put_lookup(
    objects: Seq<ObjectView>,
    object: ObjectView,
    schema: Seq<char>,
    name: Seq<char>,
)
    requires
        in_order(objects),
    ensures
        lookup(put(objects, object), schema, name) == if named(object, schema, name) {
            Some(object)
        } else {
            lookup(objects, schema, name)
        },
    decreases objects.len(),
{
    let out = put(objects, object);
    if objects.len() > 0 {
        let rest = objects.drop_first();
        assert forall|i: int, j: int| 0 <= i < j < rest.len() implies key_precedes(
            (#[trigger] rest[i]).schema,
            rest[i].name,
            (#[trigger] rest[j]).schema,
            rest[j].name,
        ) by {
            assert(rest[i] == objects[i + 1] && rest[j] == objects[j + 1]);
        }
        if named(objects[0], object.schema, object.name) {
            assert(out.drop_first() =~= rest);
        } else if key_precedes(object.schema, object.name, objects[0].schema, objects[0].name) {
            assert(out.drop_first() =~= objects);
        } else {
            lemma_put_lookup(rest, object, schema, name);
            assert(out.drop_first() =~= put(rest, object));
        }
    } else {
        assert(out.drop_first() =~= objects);
    }
}

proof fn lemma_put_column(
    objects: Seq<ObjectView>,
    of_schema: Seq<char>,
    of_table: Seq<char>,
    column: JsonView,
    schema: Seq<char>,
    name: Seq<char>,
)
    ensures
        put_column(objects, of_schema, of_table, column).len() == objects.len(),
        forall|i: int|
            0 <= i < objects.len() ==> {
                let after = #[trigger] put_column(objects, of_schema, of_table, column)[i];
                after.schema == objects[i].schema && after.name == objects[i].name
            },
        lookup(put_column(objects, of_schema, of_table, column), schema, name) == match lookup(
            objects,
            schema,
            name,
        ) {
            Some(object) => if of_schema == schema && of_table == name {
                Some(ObjectView { columns: object.columns.push(column), ..object })
            } else {
                Some(object)
            },
            None => None,
        },
    decreases objects.len(),
{
    let out = put_column(objects, of_schema, of_table, column);
    if objects.len() > 0 {
        let rest = objects.drop_first();
        lemma_put_column(rest, of_schema, of_table, column, schema, name);
        if named(objects[0], of_schema, of_table) {
            assert(out.drop_first() =~= rest);
        } else {
            let tail = put_column(rest, of_schema, of_table, column);
            assert(out.drop_first() =~= tail);
            assert forall|i: int| 0 <= i < objects.len() implies {
                let after = #[trigger] out[i];
                after.schema == objects[i].schema && after.name == objects[i].name
            } by {
                if i > 0 {
                    assert(out[i] == tail[i - 1]);
                    assert(rest[i - 1] == objects[i]);
                }
            }
        }
    }
}

/// The tables and views of a session stand in the order of their names, no two having the same.
pub proof fn tables_are_in_order(tables: Seq<TableRowView>, columns: Seq<ColumnRowView>)
    ensures
        in_order(with_columns(objects_of(tables), columns)),
    decreases tables.len(), columns.len(),
{
    if columns.len() > 0 {
        let front = with_columns(objects_of(tables), columns.drop_last());
        let row = columns.last();
        tables_are_in_order(tables, columns.drop_last());
        lemma_put_column(front, row.schema, row.table, column_of(row), row.schema, row.table);
        let out = put_column(front, row.schema, row.table, column_of(row));
        assert forall|i: int, j: int| 0 <= i < j < out.len() implies key_precedes(
            (#[trigger] out[i]).schema,
            out[i].name,
            (#[trigger] out[j]).schema,
            out[j].name,
        ) by {
            assert(front[i].schema == out[i].schema && front[j].schema == out[j].schema);
        }
    } else if tables.len() > 0 {
        tables_are_in_order(tables.drop_last(), columns);
        lemma_put_in_order(objects_of(tables.drop_last()), object_of(tables.last()));
    }
}

/// A table or view is described exactly when there is a row about it: as the last such row tells, and
/// with the columns of the rows about its columns, in their order.
pub proof fn each_table_is_described(
    tables: Seq<TableRowView>,
    columns: Seq<ColumnRowView>,
    schema: Seq<char>,
    name: Seq<char>,
)
    ensures
        lookup(with_columns(objects_of(tables), columns), schema, name) == match kind_in(
            tables,
            schema,
            name,
        ) {
            Some(kind) => Some(
                ObjectView { schema, name, kind, columns: columns_in(columns, schema, name) },
            ),
            None => None,
        },
    decreases tables.len(), columns.len(),
{
    if columns.len() > 0 {
        let front = with_columns(objects_of(tables), columns.drop_last());
        let row = columns.last();
        each_table_is_described(tables, columns.drop_last(), schema, name);
        lemma_put_column(front, row.schema, row.table, column_of(row), schema, name);
    } else if tables.len() > 0 {
        let front = objects_of(tables.drop_last());
        tables_are_in_order(tables.drop_last(), columns);
        each_table_is_described(tables.drop_last(), columns, schema, name);
        lemma_put_lookup(front, object_of(tables.last()), schema, name);
    }
}

proof fn lemma_grouped_in_order(objects: Seq<ObjectView>)
    requires
        in_order(objects),
    ensures
        ({
            let schemas = grouped(objects);
            &&& forall|i: int, j: int|
                0 <= i < j < schemas.len() ==> precedes(
                    (#[trigger] schemas[i]).0,
                    (#[trigger] schemas[j]).0,
                )
            &&& objects.len() > 0 ==> schemas.len() > 0 && schemas.last().0 == objects.last().schema
            &&& objects.len() == 0 ==> schemas.len() == 0
        }),
    decreases objects.len(),
{
    if objects.len() > 0 {
        let front = objects.drop_last();
        let last = objects.last();
        assert forall|i: int, j: int| 0 <= i < j < front.len() implies key_precedes(
            (#[trigger] front[i]).schema,
            front[i].name,
            (#[trigger] front[j]).schema,
            front[j].name,
        ) by {
            assert(front[i] == objects[i] && front[j] == objects[j]);
        }
        lemma_grouped_in_order(front);
        let before = grouped(front);
        let entry = object_view(last.schema, last.name, last.kind, last.columns);
        if front.len() == 0 {
            lemma_placed_at(before, last.schema, entry, 0);
        } else {
            let previous = front.last();
            assert(previous == objects[objects.len() - 2]);
            let at = if previous.schema == last.schema {
                before.len() - 1
            } else {
                before.len() as int
            };
            assert forall|k: int| 0 <= k < at implies (#[trigger] before[k]).0 != last.schema by {
                text::order_is_irreflexive(last.schema);
                if k < before.len() - 1 {
                    assert(precedes(before[k].0, before[before.len() - 1].0));
                    if previous.schema != last.schema {
                        text::order_is_transitive(before[k].0, previous.schema, last.schema);
                    }
                }
            }
            lemma_placed_at(before, last.schema, entry, at);
            let out = grouped(objects);
            assert forall|i: int, j: int| 0 <= i < j < out.len() implies precedes(
                (#[trigger] out[i]).0,
                (#[trigger] out[j]).0,
            ) by {
                assert(out[i].0 == before[i].0);
                if j < before.len() {
                    assert(out[j].0 == before[j].0);
                } else if i < before.len() - 1 {
                    assert(precedes(before[i].0, before[before.len() - 1].0));
                    text::order_is_transitive(before[i].0, previous.schema, last.schema);
                }
            }
        }
    }
}

/// The schemas of a session's metadata stand in the order of their names, no two having the same.
pub proof fn schemas_are_in_order(tables: Seq<TableRowView>, columns: Seq<ColumnRowView>)
    ensures
        ({
            let schemas = grouped(with_columns(objects_of(tables), columns));
            forall|i: int, j: int|
                0 <= i < j < schemas.len() ==> precedes(
                    (#[trigger] schemas[i]).0,
                    (#[trigger] schemas[j]).0,
                )
        }),
{
    tables_are_in_order(tables, columns);
    lemma_grouped_in_order(with_columns(objects_of(tables), columns));
}

/// The descriptions of the objects of a schema, in order.
pub open spec fn descriptions(objects: Seq<ObjectView>, schema: Seq<char>) -> Seq<JsonView>
    decreases objects.len(),
{
    if objects.len() == 0 {
        seq![]
    } else {
        let front = descriptions(objects.drop_last(), schema);
        let last = objects.last();
        if last.schema == schema {
            front.push(object_view(last.schema, last.name, last.kind, last.columns))
        } else {
            front
        }
    }
}

/// Each schema of the metadata holds the descriptions of its own objects, all of them, in order.
pub proof fn each_schema_holds_its_objects(objects: Seq<ObjectView>, schema: Seq<char>)
    ensures
        objects_in(grouped(objects), schema) == descriptions(objects, schema),
    decreases objects.len(),
{
    if objects.len() > 0 {
        let front = objects.drop_last();
        let last = objects.last();
        each_schema_holds_its_objects(front, schema);
        placing_adds_to_one_schema(
            grouped(front),
            last.schema,
            object_view(last.schema, last.name, last.kind, last.columns),
            schema,
        );
    }
}

} // verus!
