//! What the metadata of a session promises, stated on the rows about its tables and columns.
use crate::connections::LakehouseConnection;
use crate::document::{document_view, lemma_placed_at, object_view, placed, schema_entry};
use crate::json::{JsonView, NumberView};
use crate::metadata::{
    catalog_answer, each_table_is_described, grouped, kind_in, load_step, lookup,
    metadata_refusal, objects_of, session_answer, tables_are_in_order, with_columns, ColumnRowView,
    LoadActionView, LoadEventView, ObjectView, TableRowView,
};
use crate::redaction::masked_all;
use crate::reply::ReplyView;
use crate::schema::column_view;
use crate::text::{lowered, precedes};
use vstd::prelude::*;

verus! {

/// The names of the members of an object and of a column are no two the same.
proof fn lemma_member_names()
    ensures
        "schema"@ != "name"@ && "schema"@ != "kind"@ && "schema"@ != "columns"@ && "schema"@
            != "indexes"@ && "schema"@ != "primaryKey"@ && "schema"@ != "foreignKeys"@,
        "name"@ != "kind"@ && "name"@ != "columns"@ && "name"@ != "indexes"@ && "name"@
            != "primaryKey"@ && "name"@ != "foreignKeys"@ && "name"@ != "objects"@,
        "kind"@ != "columns"@ && "kind"@ != "indexes"@ && "kind"@ != "primaryKey"@ && "kind"@
            != "foreignKeys"@,
        "columns"@ != "indexes"@ && "columns"@ != "primaryKey"@ && "columns"@ != "foreignKeys"@,
        "indexes"@ != "primaryKey"@ && "indexes"@ != "foreignKeys"@ && "primaryKey"@
            != "foreignKeys"@,
        "name"@ != "dataType"@ && "name"@ != "nullable"@ && "name"@ != "ordinal"@ && "dataType"@
            != "nullable"@ && "dataType"@ != "ordinal"@ && "nullable"@ != "ordinal"@,
        "connectionId"@ != "metadata"@ && "connectionId"@ != "warnings"@ && "metadata"@
            != "warnings"@,
        "view"@ != "table"@,
{
    reveal_strlit("schema");
    reveal_strlit("name");
    reveal_strlit("kind");
    reveal_strlit("columns");
    reveal_strlit("indexes");
    reveal_strlit("primaryKey");
    reveal_strlit("foreignKeys");
    reveal_strlit("objects");
    reveal_strlit("dataType");
    reveal_strlit("nullable");
    reveal_strlit("ordinal");
    reveal_strlit("connectionId");
    reveal_strlit("metadata");
    reveal_strlit("warnings");
    reveal_strlit("view");
    reveal_strlit("table");
    assert("schema"@[0] == 's' && "name"@[0] == 'n' && "kind"@[0] == 'k' && "columns"@[0] == 'c'
        && "indexes"@[0] == 'i' && "primaryKey"@[0] == 'p' && "foreignKeys"@[0] == 'f'
        && "objects"@[0] == 'o');
    assert("dataType"@[0] == 'd' && "nullable"@[0] == 'n' && "nullable"@[1] == 'u' && "name"@[1]
        == 'a' && "ordinal"@[0] == 'o');
    assert("connectionId"@[0] == 'c' && "metadata"@[0] == 'm' && "warnings"@[0] == 'w');
    assert("view"@[0] == 'v' && "table"@[0] == 't');
}

/// Whether a row is the last about a table.
pub open spec fn last_row_about(
    rows: Seq<TableRowView>,
    schema: Seq<char>,
    name: Seq<char>,
    k: int,
) -> bool {
    &&& 0 <= k < rows.len()
    &&& rows[k].schema == schema && rows[k].name == name
    &&& forall|j: int|
        k < j < rows.len() ==> !((#[trigger] rows[j]).schema == schema && rows[j].name == name)
}

proof fn lemma_kind_in(rows: Seq<TableRowView>, schema: Seq<char>, name: Seq<char>, k: int)
    requires
        last_row_about(rows, schema, name, k),
    ensures
        kind_in(rows, schema, name) == kind_in(rows.take(k + 1), schema, name),
        rows.take(k + 1).last() == rows[k],
    decreases rows.len(),
{
    if k == rows.len() - 1 {
        assert(rows.take(k + 1) =~= rows);
    } else {
        let front = rows.drop_last();
        assert(!(rows[rows.len() - 1].schema == schema && rows[rows.len() - 1].name == name));
        assert forall|j: int| k < j < front.len() implies !((#[trigger] front[j]).schema == schema
            && front[j].name == name) by {
            assert(front[j] == rows[j]);
        }
        lemma_kind_in(front, schema, name, k);
        assert(front.take(k + 1) =~= rows.take(k + 1));
    }
}

/// A table is described as a view exactly when the type in the last row about it is VIEW in any case,
/// and as a table for every other type.
pub proof fn the_type_of_a_row_decides_the_kind(
    tables: Seq<TableRowView>,
    columns: Seq<ColumnRowView>,
    schema: Seq<char>,
    name: Seq<char>,
    k: int,
)
    requires
        last_row_about(tables, schema, name, k),
    ensures
        lookup(with_columns(objects_of(tables), columns), schema, name) matches Some(object)
            && object.schema == schema && object.name == name && (object.kind == "view"@
            <==> lowered(tables[k].table_type) == seq!['v', 'i', 'e', 'w']) && (object.kind
            == "table"@ <==> lowered(tables[k].table_type) != seq!['v', 'i', 'e', 'w']),
{
    each_table_is_described(tables, columns, schema, name);
    lemma_kind_in(tables, schema, name, k);
    lemma_member_names();
    reveal_strlit("VIEW");
    assert(lowered("VIEW"@) =~= seq!['v', 'i', 'e', 'w']);
}

/// What no row is about is not described.
pub proof fn no_row_no_table(
    tables: Seq<TableRowView>,
    columns: Seq<ColumnRowView>,
    schema: Seq<char>,
    name: Seq<char>,
)
    requires
        forall|j: int|
            0 <= j < tables.len() ==> !((#[trigger] tables[j]).schema == schema && tables[j].name
                == name),
    ensures
        lookup(with_columns(objects_of(tables), columns), schema, name) is None,
{
    each_table_is_described(tables, columns, schema, name);
    lemma_no_kind(tables, schema, name);
}

proof fn lemma_no_kind(rows: Seq<TableRowView>, schema: Seq<char>, name: Seq<char>)
    requires
        forall|j: int|
            0 <= j < rows.len() ==> !((#[trigger] rows[j]).schema == schema && rows[j].name
                == name),
    ensures
        kind_in(rows, schema, name) is None,
    decreases rows.len(),
{
    if rows.len() > 0 {
        let front = rows.drop_last();
        assert(!(rows[rows.len() - 1].schema == schema && rows[rows.len() - 1].name == name));
        assert forall|j: int| 0 <= j < front.len() implies !((#[trigger] front[j]).schema == schema
            && front[j].name == name) by {
            assert(front[j] == rows[j]);
        }
        lemma_no_kind(front, schema, name);
    }
}

/// Whether a value describes a column by its name, its type, whether it may be null and its place.
pub open spec fn describes_column(
    value: JsonView,
    name: Seq<char>,
    data_type: Seq<char>,
    nullable: bool,
    ordinal: NumberView,
) -> bool {
    value matches JsonView::Object(members) && members.dom() == set![
        "name"@,
        "dataType"@,
        "nullable"@,
        "ordinal"@,
    ] && members["name"@] == JsonView::Text(name) && members["dataType"@] == JsonView::Text(
        data_type,
    ) && members["nullable"@] == JsonView::Bool(nullable) && members["ordinal"@]
        == JsonView::Number(ordinal)
}

/// A column is described by its own name, type, nullability and place.
pub proof fn columns_are_described(
    name: Seq<char>,
    data_type: Seq<char>,
    nullable: bool,
    ordinal: NumberView,
)
    ensures
        describes_column(
            column_view(name, data_type, nullable, ordinal),
            name,
            data_type,
            nullable,
            ordinal,
        ),
{
    lemma_member_names();
    if let JsonView::Object(members) = column_view(name, data_type, nullable, ordinal) {
        assert(members.dom() =~= set!["name"@, "dataType"@, "nullable"@, "ordinal"@]);
    }
}

/// A table without a row about its columns has none; one more such row adds one column to the end of
/// the columns of its own table, and changes no other.
pub proof fn a_row_adds_a_column_to_its_table(
    tables: Seq<TableRowView>,
    columns: Seq<ColumnRowView>,
    row: ColumnRowView,
    schema: Seq<char>,
    name: Seq<char>,
)
    ensures
        lookup(with_columns(objects_of(tables), seq![]), schema, name) matches Some(bare)
            ==> bare.columns.len() == 0,
        lookup(with_columns(objects_of(tables), columns), schema, name) matches Some(before) ==> (
        lookup(with_columns(objects_of(tables), columns.push(row)), schema, name) matches Some(after)
            && if row.schema == schema && row.table == name {
            after.columns.len() == before.columns.len() + 1 && after.columns.drop_last()
                == before.columns && describes_column(
                after.columns.last(),
                row.name,
                row.data_type,
                lowered(row.nullable) == seq!['y', 'e', 's'],
                if row.ordinal < 0 {
                    NumberView::Negative(row.ordinal as i64)
                } else {
                    NumberView::Unsigned(row.ordinal as u64)
                },
            )
        } else {
            after.columns == before.columns
        }),
{
    each_table_is_described(tables, seq![], schema, name);
    each_table_is_described(tables, columns, schema, name);
    each_table_is_described(tables, columns.push(row), schema, name);
    assert(columns.push(row).drop_last() =~= columns);
    reveal_strlit("YES");
    assert(lowered("YES"@) =~= seq!['y', 'e', 's']);
    columns_are_described(
        row.name,
        row.data_type,
        lowered(row.nullable) == lowered("YES"@),
        crate::json::signed_view(row.ordinal as i64),
    );
    if let Some(before) = lookup(with_columns(objects_of(tables), columns), schema, name) {
        if row.schema == schema && row.table == name {
            let column = crate::metadata::column_of(row);
            assert(before.columns.push(column).drop_last() =~= before.columns);
        }
    }
}

/// Of two tables that are described one after the other, the first has the schema that comes first, or
/// the same schema and the name that comes first.
pub proof fn tables_stand_by_schema_and_name(
    tables: Seq<TableRowView>,
    columns: Seq<ColumnRowView>,
    i: int,
    j: int,
)
    requires
        0 <= i < j < with_columns(objects_of(tables), columns).len(),
    ensures
        ({
            let objects = with_columns(objects_of(tables), columns);
            precedes(objects[i].schema, objects[j].schema) || (objects[i].schema
                == objects[j].schema && precedes(objects[i].name, objects[j].name))
        }),
{
    tables_are_in_order(tables, columns);
}

/// An object is described by its schema, its name, its kind and its columns, and by indexes and keys
/// of which none are known.
pub proof fn objects_are_described(
    schema: Seq<char>,
    name: Seq<char>,
    kind: Seq<char>,
    columns: Seq<JsonView>,
)
    ensures
        object_view(schema, name, kind, columns) matches JsonView::Object(members)
            && members.dom() == set![
            "schema"@,
            "name"@,
            "kind"@,
            "columns"@,
            "indexes"@,
            "primaryKey"@,
            "foreignKeys"@,
        ] && members["schema"@] == JsonView::Text(schema) && members["name"@] == JsonView::Text(name)
            && members["kind"@] == JsonView::Text(kind) && members["columns"@] == JsonView::Array(
            columns,
        ) && members["indexes"@] == JsonView::Array(seq![]) && members["primaryKey"@]
            == JsonView::Array(seq![]) && members["foreignKeys"@] == JsonView::Array(seq![]),
{
    lemma_member_names();
    if let JsonView::Object(members) = object_view(schema, name, kind, columns) {
        assert(members.dom() =~= set![
            "schema"@,
            "name"@,
            "kind"@,
            "columns"@,
            "indexes"@,
            "primaryKey"@,
            "foreignKeys"@,
        ]);
    }
}

/// Objects are put under their schemas one after the other, each with its own description.
pub proof fn objects_are_grouped_by_schema(objects: Seq<ObjectView>, object: ObjectView)
    ensures
        grouped(seq![]).len() == 0,
        grouped(objects.push(object)) == placed(
            grouped(objects),
            object.schema,
            object_view(object.schema, object.name, object.kind, object.columns),
        ),
{
    assert(objects.push(object).drop_last() =~= objects);
}

/// An object that is put goes to the end of the first schema of its name; a schema that is not there
/// yet goes to the end.
pub proof fn objects_go_to_the_end_of_their_schema(
    schemas: Seq<(Seq<char>, Seq<JsonView>)>,
    schema: Seq<char>,
    object: JsonView,
    at: int,
)
    requires
        0 <= at <= schemas.len(),
        forall|k: int| 0 <= k < at ==> (#[trigger] schemas[k]).0 != schema,
        at < schemas.len() ==> schemas[at].0 == schema,
    ensures
        at < schemas.len() ==> placed(schemas, schema, object) == schemas.update(
            at,
            (schema, schemas[at].1.push(object)),
        ),
        at == schemas.len() ==> placed(schemas, schema, object) == schemas.push(
            (schema, seq![object]),
        ),
{
    lemma_placed_at(schemas, schema, object, at);
}

/// The metadata document lists the schemas in their order, each with its name and its objects, and
/// holds nothing else.
pub proof fn documents_list_their_schemas(
    schemas: Seq<(Seq<char>, Seq<JsonView>)>,
    i: int,
)
    requires
        0 <= i < schemas.len(),
    ensures
        document_view(schemas) matches JsonView::Object(members) && members.dom() == set![
            "schemas"@,
        ] && (members["schemas"@] matches JsonView::Array(list) && list.len() == schemas.len() && (
        list[i] matches JsonView::Object(entry) && entry.dom() == set!["name"@, "objects"@]
            && entry["name"@] == JsonView::Text(schemas[i].0) && entry["objects"@]
            == JsonView::Array(schemas[i].1))),
{
    lemma_member_names();
    if let JsonView::Object(members) = document_view(schemas) {
        assert(members.dom() =~= set!["schemas"@]);
        if let JsonView::Object(entry) = schema_entry(schemas[i]) {
            assert(entry.dom() =~= set!["name"@, "objects"@]);
        }
    }
}

/// A document without schemas lists none.
pub proof fn empty_documents_list_nothing(schemas: Seq<(Seq<char>, Seq<JsonView>)>)
    requires
        schemas.len() == 0,
    ensures
        document_view(schemas) matches JsonView::Object(members) && members.dom() == set![
            "schemas"@,
        ] && (members["schemas"@] matches JsonView::Array(list) && list.len() == 0),
{
    if let JsonView::Object(members) = document_view(schemas) {
        assert(members.dom() =~= set!["schemas"@]);
    }
}

/// The metadata of a session is asked for in two statements, first for its tables and then for its
/// columns, and described by what both gave; a failure of either ends it.
pub proof fn tables_and_columns_are_asked_for(
    tables: Seq<TableRowView>,
    objects: Seq<ObjectView>,
    columns: Seq<ColumnRowView>,
    error: Seq<char>,
)
    ensures
        load_step(LoadEventView::Start) == LoadActionView::QueryTables(
            "select table_schema, table_name, table_type from information_schema.tables where table_schema not in ('information_schema', 'pg_catalog') order by table_schema, table_name"@,
        ),
        load_step(LoadEventView::Tables(Ok(tables))) == LoadActionView::QueryColumns(
            objects_of(tables),
            "select table_schema, table_name, column_name, data_type, is_nullable, ordinal_position from information_schema.columns where table_schema not in ('information_schema', 'pg_catalog') order by table_schema, table_name, ordinal_position"@,
        ),
        load_step(LoadEventView::Columns(objects, Ok(columns))) == LoadActionView::Done(
            Ok(document_view(grouped(with_columns(objects, columns)))),
        ),
        load_step(LoadEventView::Tables(Err(error))) == LoadActionView::Done(
            Err("metadata objects failed: "@ + error),
        ),
        load_step(LoadEventView::Columns(objects, Err(error))) == LoadActionView::Done(
            Err("metadata columns failed: "@ + error),
        ),
{
}

/// Metadata is refused in a poisoned state and without its connection, in this order, and otherwise
/// not.
pub proof fn metadata_is_refused_in_order<C>(
    connections: Map<Seq<char>, LakehouseConnection<C>>,
    connection_id: Seq<char>,
)
    ensures
        metadata_refusal(connections, true, connection_id) == Some(
            ReplyView::Failure(
                "connector.statePoisoned"@,
                "Connector connection state is poisoned."@,
            ),
        ),
        !connections.dom().contains(connection_id) ==> metadata_refusal(
            connections,
            false,
            connection_id,
        ) == Some(
            ReplyView::Failure(
                "connector.connectionNotFound"@,
                "no open connection: "@ + connection_id,
            ),
        ),
        connections.dom().contains(connection_id) ==> metadata_refusal(
            connections,
            false,
            connection_id,
        ) is None,
{
}

/// The reply with metadata tells the connection and the document, and for a catalog the warnings, each
/// with the secrets of the connection masked; a failure tells its message in the same way.
pub proof fn replies_hold_the_document(
    secrets: Seq<Seq<char>>,
    connection_id: Seq<char>,
    document: JsonView,
    warnings: Seq<Seq<char>>,
    error: Seq<char>,
)
    ensures
        session_answer(secrets, connection_id, Ok(document)) matches ReplyView::Success(members)
            && members.dom() == set!["connectionId"@, "metadata"@] && members["connectionId"@]
            == JsonView::Text(connection_id) && members["metadata"@] == document,
        catalog_answer(secrets, connection_id, Ok((document, warnings)))
            matches ReplyView::Success(members) && members.dom() == set![
            "connectionId"@,
            "metadata"@,
            "warnings"@,
        ] && members["connectionId"@] == JsonView::Text(connection_id) && members["metadata"@]
            == document && (members["warnings"@] matches JsonView::Array(told) && told.len()
            == warnings.len() && forall|i: int|
            0 <= i < told.len() ==> #[trigger] told[i] == JsonView::Text(
                masked_all(warnings[i], secrets),
            )),
        session_answer(secrets, connection_id, Err(error)) == ReplyView::Failure(
            "connector.metadataFailed"@,
            masked_all(error, secrets),
        ),
        catalog_answer(secrets, connection_id, Err(error)) == ReplyView::Failure(
            "connector.metadataFailed"@,
            masked_all(error, secrets),
        ),
{
    lemma_member_names();
    if let ReplyView::Success(members) = session_answer(secrets, connection_id, Ok(document)) {
        assert(members.dom() =~= set!["connectionId"@, "metadata"@]);
    }
    if let ReplyView::Success(members) = catalog_answer(
        secrets,
        connection_id,
        Ok((document, warnings)),
    ) {
        assert(members.dom() =~= set!["connectionId"@, "metadata"@, "warnings"@]);
    }
}

} // verus!
