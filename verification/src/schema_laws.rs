//! What reading a table's metadata promises, stated on the members of the document.
use crate::json::{member, same_value, JsonView, NumberView};
use crate::json_text::{rendered, settled};
use crate::metadata_laws::{columns_are_described, describes_column};
use crate::schema::{columns_of, field_columns, name_of_type, schema_of, schema_with_id};
use vstd::prelude::*;

verus! {

/// Whether a schema has an id.
pub open spec fn has_id(schema: JsonView, id: JsonView) -> bool {
    member(schema, "schema-id"@) matches Some(found) && same_value(found, id)
}

proof fn lemma_first_with_id(schemas: Seq<JsonView>, id: JsonView, at: int)
    requires
        0 <= at < schemas.len(),
        has_id(schemas[at], id),
        forall|i: int| 0 <= i < at ==> !has_id(#[trigger] schemas[i], id),
    ensures
        schema_with_id(schemas, id) == Some(schemas[at]),
    decreases schemas.len(),
{
    if at > 0 {
        let rest = schemas.drop_first();
        assert(!has_id(schemas[0], id));
        assert forall|i: int| 0 <= i < at - 1 implies !has_id(#[trigger] rest[i], id) by {
            assert(rest[i] == schemas[i + 1]);
        }
        lemma_first_with_id(rest, id, at - 1);
    }
}

proof fn lemma_none_with_id(schemas: Seq<JsonView>, id: JsonView)
    requires
        forall|i: int| 0 <= i < schemas.len() ==> !has_id(#[trigger] schemas[i], id),
    ensures
        schema_with_id(schemas, id) is None,
    decreases schemas.len(),
{
    if schemas.len() > 0 {
        let rest = schemas.drop_first();
        assert(!has_id(schemas[0], id));
        assert forall|i: int| 0 <= i < rest.len() implies !has_id(#[trigger] rest[i], id) by {
            assert(rest[i] == schemas[i + 1]);
        }
        lemma_none_with_id(rest, id);
    }
}

/// The current schema of a document with a list of schemas is the first that has the current id.
pub proof fn the_first_schema_with_the_id_is_current(
    metadata: JsonView,
    schemas: Seq<JsonView>,
    id: JsonView,
    at: int,
)
    requires
        member(metadata, "schemas"@) == Some(JsonView::Array(schemas)),
        member(metadata, "current-schema-id"@) == Some(id),
        0 <= at < schemas.len(),
        has_id(schemas[at], id),
        forall|i: int| 0 <= i < at ==> !has_id(#[trigger] schemas[i], id),
    ensures
        schema_of(metadata) == Some(schemas[at]),
{
    lemma_first_with_id(schemas, id, at);
}

/// Where no schema of the list has the current id, or the document names none, the last of the list is
/// current.
pub proof fn the_last_schema_stands_in(metadata: JsonView, schemas: Seq<JsonView>)
    requires
        member(metadata, "schemas"@) == Some(JsonView::Array(schemas)),
        schemas.len() > 0,
        match member(metadata, "current-schema-id"@) {
            Some(id) => forall|i: int| 0 <= i < schemas.len() ==> !has_id(#[trigger] schemas[i], id),
            None => true,
        },
    ensures
        schema_of(metadata) == Some(schemas[schemas.len() - 1]),
{
    if let Some(id) = member(metadata, "current-schema-id"@) {
        lemma_none_with_id(schemas, id);
    }
}

/// A document without a list of schemas, or with an empty one, holds its only schema, if it has one.
pub proof fn older_documents_hold_one_schema(metadata: JsonView)
    requires
        !(member(metadata, "schemas"@) matches Some(JsonView::Array(schemas)) && schemas.len() > 0),
    ensures
        schema_of(metadata) == member(metadata, "schema"@),
{
}

/// The name of the type under a name of a value, or the empty text where there is none.
pub open spec fn type_under(value: JsonView, name: Seq<char>) -> Seq<char> {
    match member(value, name) {
        Some(inner) => name_of_type(inner),
        None => seq![],
    }
}

/// A type that is a text is named by it; a structure, a list and a map are named by their kind and by
/// the names of what they hold; anything else is named by its JSON text.
pub proof fn types_have_names(
    value: JsonView,
    name: Seq<char>,
    members: Map<Seq<char>, JsonView>,
    kind: Seq<char>,
)
    requires
        value == JsonView::Object(members),
    ensures
        name_of_type(JsonView::Text(name)) == name,
        member(value, "type"@) == Some(JsonView::Text("struct"@)) ==> name_of_type(value)
            == "struct"@,
        member(value, "type"@) == Some(JsonView::Text("list"@)) ==> name_of_type(value) == "list<"@
            + type_under(value, "element"@) + ">"@,
        member(value, "type"@) == Some(JsonView::Text("map"@)) ==> name_of_type(value) == "map<"@
            + type_under(value, "key"@) + ", "@ + type_under(value, "value"@) + ">"@,
        member(value, "type"@) == Some(JsonView::Text(kind)) && kind != "struct"@ && kind
            != "list"@ && kind != "map"@ ==> name_of_type(value) == rendered(settled(value)),
        !(member(value, "type"@) matches Some(JsonView::Text(_))) ==> name_of_type(value)
            == rendered(settled(value)),
{
    reveal_strlit("struct");
    reveal_strlit("list");
    reveal_strlit("map");
    assert("struct"@.len() == 6);
    assert("list"@.len() == 4);
    assert("map"@.len() == 3);
}

/// A value that is neither a text nor an object is named by its JSON text.
pub proof fn other_types_are_named_by_their_text(value: JsonView)
    requires
        !(value is Text),
        !(value is Object),
    ensures
        name_of_type(value) == rendered(settled(value)),
{
}

/// Whether a value describes the field of a schema at a place: by its name, the name of its type, as
/// nullable unless the field says that it is required, and by its place.
pub open spec fn describes_field(value: JsonView, field: JsonView, place: int) -> bool {
    member(field, "name"@) matches Some(JsonView::Text(name)) && describes_column(
        value,
        name,
        type_under(field, "type"@),
        member(field, "required"@) != Some(JsonView::Bool(true)),
        NumberView::Unsigned(place as u64),
    )
}

/// The columns of a table are the fields of its current schema with a name, in order. One more field
/// with a name is one more column at the end, with its place among all fields counted from one; one
/// without is none.
pub proof fn fields_are_columns(fields: Seq<JsonView>, field: JsonView)
    ensures
        field_columns(seq![]).len() == 0,
        member(field, "name"@) matches Some(JsonView::Text(_)) ==> {
            &&& field_columns(fields.push(field)).len() == field_columns(fields).len() + 1
            &&& field_columns(fields.push(field)).drop_last() == field_columns(fields)
            &&& describes_field(
                field_columns(fields.push(field)).last(),
                field,
                fields.len() as int + 1,
            )
        },
        !(member(field, "name"@) matches Some(JsonView::Text(_))) ==> field_columns(
            fields.push(field),
        ) == field_columns(fields),
{
    assert(fields.push(field).drop_last() =~= fields);
    if let Some(JsonView::Text(name)) = member(field, "name"@) {
        assert(field_columns(fields.push(field)).drop_last() =~= field_columns(fields));
        columns_are_described(
            name,
            type_under(field, "type"@),
            member(field, "required"@) != Some(JsonView::Bool(true)),
            NumberView::Unsigned((fields.len() + 1) as u64),
        );
    }
}

/// The columns of a document are those of the fields of its current schema; without a list of fields
/// there are none.
pub proof fn columns_are_those_of_the_current_schema(metadata: JsonView, fields: Seq<JsonView>)
    ensures
        schema_of(metadata) is None ==> columns_of(metadata).len() == 0,
        schema_of(metadata) matches Some(schema) ==> match member(schema, "fields"@) {
            Some(JsonView::Array(fields)) => columns_of(metadata) == field_columns(fields),
            _ => columns_of(metadata).len() == 0,
        },
{
}

} // verus!
