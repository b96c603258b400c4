//! Namespaces and columns as the catalog describes them.
use crate::json::{
    flag_of, items_model, items_of, member, member_of, no_members, same_value, seen, string_of,
    Json, JsonNumber, JsonView, Members, NumberView,
};
use crate::json_text::{rendered, settled};
use crate::request::get_in;
use crate::text;
use crate::text::texts;
use vstd::prelude::*;

verus! {

/// The strings among the values of a list.
pub open spec fn strings_in(items: Seq<JsonView>) -> Seq<Seq<char>>
    decreases items.len(),
{
    if items.len() == 0 {
        seq![]
    } else {
        let front = strings_in(items.drop_last());
        match string_of(Some(items.last())) {
            Some(content) => front.push(content),
            None => front,
        }
    }
}

/// The levels of a namespace that a catalog lists; nothing where it has none.
pub open spec fn levels_of(value: JsonView) -> Option<Seq<Seq<char>>> {
    match items_of(Some(value)) {
        Some(items) => if strings_in(items).len() > 0 {
            Some(strings_in(items))
        } else {
            None
        },
        None => None,
    }
}

/// The levels of a namespace that a catalog lists.
pub fn namespace_levels(value: &Json) -> (levels: Option<Vec<String>>)
    ensures
        match levels {
            Some(found) => levels_of(value@) == Some(texts(found@)),
            None => levels_of(value@) is None,
        },
{
    let items = match value.as_array() {
        Some(items) => items,
        None => {
            return None;
        },
    };
    let ghost all = items_model(items@);
    let mut levels: Vec<String> = Vec::new();
    let mut i: usize = 0;
    assert(all.take(0) =~= seq![]);
    assert(texts(levels@) =~= seq![]);
    while i < items.len()
        invariant
            i <= items.len(),
            all == items_model(items@),
            texts(levels@) == strings_in(all.take(i as int)),
        decreases items.len() - i,
    {
        let ghost before = texts(levels@);
        assert(all.take(i + 1).drop_last() =~= all.take(i as int));
        if let Some(level) = items[i].as_str() {
            levels.push(level.to_string());
            assert(texts(levels@) =~= before.push(level@));
        }
        i += 1;
    }
    assert(all.take(i as int) =~= all);
    if levels.len() == 0 {
        None
    } else {
        Some(levels)
    }
}

/// The first schema of a list with the given id.
pub open spec fn schema_with_id(schemas: Seq<JsonView>, id: JsonView) -> Option<JsonView>
    decreases schemas.len(),
{
    if schemas.len() == 0 {
        None
    } else {
        match member(schemas[0], "schema-id"@) {
            Some(found) if same_value(found, id) => Some(schemas[0]),
            _ => schema_with_id(schemas.drop_first(), id),
        }
    }
}

/// The current schema of a table: of a list of schemas the one with the current id, or the last
/// where none has it; else the single schema of an older document.
pub open spec fn schema_of(metadata: JsonView) -> Option<JsonView> {
    match items_of(member(metadata, "schemas"@)) {
        Some(schemas) if schemas.len() > 0 => {
            let selected = match member(metadata, "current-schema-id"@) {
                Some(id) => schema_with_id(schemas, id),
                None => None,
            };
            match selected {
                Some(schema) => Some(schema),
                None => Some(schemas.last()),
            }
        },
        _ => member(metadata, "schema"@),
    }
}

/// The first schema of a list with the given id.
fn find_schema<'a>(schemas: &'a Vec<Json>, id: &Json) -> (found: Option<&'a Json>)
    ensures
        seen(found) == schema_with_id(items_model(schemas@), id@),
{
    let ghost all = items_model(schemas@);
    let mut i: usize = 0;
    assert(all.skip(0) =~= all);
    while i < schemas.len()
        invariant
            i <= schemas.len(),
            all == items_model(schemas@),
            schema_with_id(all, id@) == schema_with_id(all.skip(i as int), id@),
        decreases schemas.len() - i,
    {
        assert(all.skip(i as int).drop_first() =~= all.skip(i + 1));
        if let Some(found) = schemas[i].get("schema-id") {
            if found.same(id) {
                return Some(&schemas[i]);
            }
        }
        i += 1;
    }
    None
}

/// The current schema of a table.
pub fn current_schema(metadata: &Json) -> (schema: Option<&Json>)
    ensures
        seen(schema) == schema_of(metadata@),
{
    if let Some(value) = metadata.get("schemas") {
        if let Some(schemas) = value.as_array() {
            if schemas.len() > 0 {
                let selected = match metadata.get("current-schema-id") {
                    Some(id) => find_schema(schemas, id),
                    None => None,
                };
                return match selected {
                    Some(schema) => Some(schema),
                    None => Some(&schemas[schemas.len() - 1]),
                };
            }
        }
    }
    metadata.get("schema")
}

/// The name of an Iceberg type: its own, that of a list or a map with the names of what it holds, or
/// its JSON text.
pub open spec fn name_of_type(value: JsonView) -> Seq<char>
    decreases value,
{
    match value {
        JsonView::Text(name) => name,
        JsonView::Object(members) => match string_of(member(value, "type"@)) {
            Some(kind) => if kind == "struct"@ {
                "struct"@
            } else if kind == "list"@ {
                let element = if members.dom().contains("element"@) {
                    name_of_type(members["element"@])
                } else {
                    seq![]
                };
                "list<"@ + element + ">"@
            } else if kind == "map"@ {
                let key = if members.dom().contains("key"@) {
                    name_of_type(members["key"@])
                } else {
                    seq![]
                };
                let item = if members.dom().contains("value"@) {
                    name_of_type(members["value"@])
                } else {
                    seq![]
                };
                "map<"@ + key + ", "@ + item + ">"@
            } else {
                rendered(settled(value))
            },
            None => rendered(settled(value)),
        },
        _ => rendered(settled(value)),
    }
}

/// The name of the type that a type holds under a key, or the empty text.
pub open spec fn name_of_inner_type(value: JsonView, key: Seq<char>) -> Seq<char> {
    match member(value, key) {
        Some(inner) => name_of_type(inner),
        None => seq![],
    }
}

/// The name of the type that a type holds under a key, or the empty text.
fn inner_type_to_string(value: &Json, key: &str) -> (name: String)
    requires
        value@ is Object,
    ensures
        name@ == name_of_inner_type(value@, key@),
    decreases value@, 0int,
{
    match value.get(key) {
        Some(inner) => {
            assert(decreases_to!(value@ => value@->Object_0[key@]));
            type_to_string(inner)
        },
        None => String::new(),
    }
}

/// The name of an Iceberg type.
pub fn type_to_string(iceberg_type: &Json) -> (name: String)
    ensures
        name@ == name_of_type(iceberg_type@),
    decreases iceberg_type@, 1int,
{
    match iceberg_type {
        Json::Text(name) => name.clone(),
        Json::Object(_) => match iceberg_type.text_at("type") {
            Some(kind) => if text::same(kind, "struct") {
                "struct".to_string()
            } else if text::same(kind, "list") {
                "list<".to_string().concat(
                    inner_type_to_string(iceberg_type, "element").as_str(),
                ).concat(">")
            } else if text::same(kind, "map") {
                "map<".to_string().concat(
                    inner_type_to_string(iceberg_type, "key").as_str(),
                ).concat(", ").concat(
                    inner_type_to_string(iceberg_type, "value").as_str(),
                ).concat(">")
            } else {
                iceberg_type.to_text()
            },
            None => iceberg_type.to_text(),
        },
        _ => iceberg_type.to_text(),
    }
}

/// The description of a column.
pub open spec fn column_view(
    name: Seq<char>,
    data_type: Seq<char>,
    nullable: bool,
    ordinal: NumberView,
) -> JsonView {
    JsonView::Object(
        no_members().insert("name"@, JsonView::Text(name)).insert(
            "dataType"@,
            JsonView::Text(data_type),
        ).insert("nullable"@, JsonView::Bool(nullable)).insert(
            "ordinal"@,
            JsonView::Number(ordinal),
        ),
    )
}

/// The description of a column.
pub fn column(name: &str, data_type: &str, nullable: bool, ordinal: JsonNumber) -> (json: Json)
    ensures
        json@ == column_view(name@, data_type@, nullable, ordinal@),
{
    Members::new().with_text("name", name).with_text("dataType", data_type).with(
        "nullable",
        Json::Bool(nullable),
    ).with("ordinal", Json::Number(ordinal)).object()
}

/// Whether a field of a schema may be null: unless it is required.
pub open spec fn field_nullable(field: JsonView) -> bool {
    flag_of(member(field, "required"@)) != Some(true)
}

/// The columns of the fields of a schema: those with a name, each with its place among all fields.
pub open spec fn field_columns(fields: Seq<JsonView>) -> Seq<JsonView>
    decreases fields.len(),
{
    if fields.len() == 0 {
        seq![]
    } else {
        let front = field_columns(fields.drop_last());
        let field = fields.last();
        match string_of(member(field, "name"@)) {
            Some(name) => front.push(
                column_view(
                    name,
                    name_of_inner_type(field, "type"@),
                    field_nullable(field),
                    NumberView::Unsigned(fields.len() as u64),
                ),
            ),
            None => front,
        }
    }
}

/// The columns of a table.
pub open spec fn columns_of(metadata: JsonView) -> Seq<JsonView> {
    match items_of(member_of(schema_of(metadata), "fields"@)) {
        Some(fields) => field_columns(fields),
        None => seq![],
    }
}

/// The columns of a table, out of its metadata document.
pub fn table_columns(metadata: &Json) -> (columns: Vec<Json>)
    ensures
        items_model(columns@) == columns_of(metadata@),
{
    let fields = match get_in(current_schema(metadata), "fields") {
        Some(value) => match value.as_array() {
            Some(fields) => fields,
            None => {
                let none: Vec<Json> = Vec::new();
                assert(items_model(none@) =~= seq![]);
                return none;
            },
        },
        None => {
            let none: Vec<Json> = Vec::new();
            assert(items_model(none@) =~= seq![]);
            return none;
        },
    };
    let ghost all = items_model(fields@);
    let mut columns: Vec<Json> = Vec::new();
    let mut i: usize = 0;
    assert(all.take(0) =~= seq![]);
    assert(items_model(columns@) =~= seq![]);
    while i < fields.len()
        invariant
            i <= fields.len(),
            all == items_model(fields@),
            items_model(columns@) == field_columns(all.take(i as int)),
        decreases fields.len() - i,
    {
        let ghost before = items_model(columns@);
        assert(all.take(i + 1).drop_last() =~= all.take(i as int));
        let field = &fields[i];
        if let Some(name) = field.text_at("name") {
            let data_type = match field.get("type") {
                Some(value) => type_to_string(value),
                None => String::new(),
            };
            let nullable = match field.get("required") {
                Some(value) => match value.as_bool() {
                    Some(required) => !required,
                    None => true,
                },
                None => true,
            };
            let described = column(
                name,
                data_type.as_str(),
                nullable,
                JsonNumber::from_unsigned((i + 1) as u64),
            );
            let ghost view = described@;
            columns.push(described);
            assert(items_model(columns@) =~= before.push(view));
        }
        i += 1;
    }
    assert(all.take(i as int) =~= all);
    columns
}

/// The places of the fields with a name among all fields, counted from one.
pub open spec fn named_places(fields: Seq<JsonView>) -> Seq<int>
    decreases fields.len(),
{
    if fields.len() == 0 {
        seq![]
    } else {
        let front = named_places(fields.drop_last());
        if string_of(member(fields.last(), "name"@)) is Some {
            front.push(fields.len() as int)
        } else {
            front
        }
    }
}

/// The columns of a schema are its fields with a name, in their order, each numbered by its place
/// among all fields.
pub proof fn columns_keep_their_places(fields: Seq<JsonView>)
    ensures
        ({
            let columns = field_columns(fields);
            let places = named_places(fields);
            &&& columns.len() == places.len()
            &&& forall|i: int, j: int|
                0 <= i < j < places.len() ==> #[trigger] places[i] < #[trigger] places[j]
            &&& forall|i: int|
                0 <= i < places.len() ==> 1 <= #[trigger] places[i] <= fields.len() && {
                    let field = fields[places[i] - 1];
                    string_of(member(field, "name"@)) matches Some(name) && columns[i]
                        == column_view(
                        name,
                        name_of_inner_type(field, "type"@),
                        field_nullable(field),
                        NumberView::Unsigned(places[i] as u64),
                    )
                }
        }),
    decreases fields.len(),
{
    if fields.len() > 0 {
        let front = fields.drop_last();
        columns_keep_their_places(front);
        let before = named_places(front);
        let places = named_places(fields);
        let columns = field_columns(fields);
        assert forall|i: int| 0 <= i < places.len() implies 1 <= #[trigger] places[i]
            <= fields.len() && {
            let field = fields[places[i] - 1];
            string_of(member(field, "name"@)) matches Some(name) && columns[i] == column_view(
                name,
                name_of_inner_type(field, "type"@),
                field_nullable(field),
                NumberView::Unsigned(places[i] as u64),
            )
        } by {
            if i < before.len() {
                assert(places[i] == before[i]);
                assert(front[places[i] - 1] == fields[places[i] - 1]);
            }
        }
        assert forall|i: int, j: int| 0 <= i < j < places.len() implies #[trigger] places[i]
            < #[trigger] places[j] by {
            assert(places[i] == before[i]);
            if j < before.len() {
                assert(places[j] == before[j]);
            }
        }
    }
}

/// Of several schemas, the current one has the current id wherever one of them has.
pub proof fn the_current_schema_has_the_current_id(schemas: Seq<JsonView>, id: JsonView)
    ensures
        match schema_with_id(schemas, id) {
            Some(schema) => schemas.contains(schema) && (member(schema, "schema-id"@)
                matches Some(found) && same_value(found, id)),
            None => forall|i: int|
                0 <= i < schemas.len() ==> !(member(#[trigger] schemas[i], "schema-id"@)
                    matches Some(found) && same_value(found, id)),
        },
    decreases schemas.len(),
{
    if schemas.len() > 0 {
        let rest = schemas.drop_first();
        the_current_schema_has_the_current_id(rest, id);
        match schema_with_id(schemas, id) {
            Some(schema) => {
                if schema == schemas[0] {
                    assert(schemas[0] == schema);
                } else {
                    let i = choose|i: int| 0 <= i < rest.len() && rest[i] == schema;
                    assert(schemas[i + 1] == schema);
                }
            },
            None => {
                assert forall|i: int| 0 <= i < schemas.len() implies !(member(
                    #[trigger] schemas[i],
                    "schema-id"@,
                ) matches Some(found) && same_value(found, id)) by {
                    if i > 0 {
                        assert(rest[i - 1] == schemas[i]);
                    }
                }
            },
        }
    }
}

} // verus!
