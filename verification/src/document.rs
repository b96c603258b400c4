//! The metadata document: schemas, and the objects in them.
use crate::json::{items_model, no_members, Json, JsonView, Members};
use vstd::prelude::*;

verus! {

/// The description of an object.
pub open spec fn object_view(
    schema: Seq<char>,
    name: Seq<char>,
    kind: Seq<char>,
    columns: Seq<JsonView>,
) -> JsonView {
    JsonView::Object(
        no_members().insert("schema"@, JsonView::Text(schema)).insert(
            "name"@,
            JsonView::Text(name),
        ).insert("kind"@, JsonView::Text(kind)).insert(
            "columns"@,
            JsonView::Array(columns),
        ).insert("indexes"@, JsonView::Array(seq![])).insert(
            "primaryKey"@,
            JsonView::Array(seq![]),
        ).insert("foreignKeys"@, JsonView::Array(seq![])),
    )
}

/// An array without items.
fn empty_array() -> (json: Json)
    ensures
        json@ == JsonView::Array(seq![]),
{
    let none: Vec<Json> = Vec::new();
    assert(items_model(none@) =~= seq![]);
    Json::Array(none)
}

/// The description of an object.
pub fn object(schema: &str, name: &str, kind: &str, columns: Vec<Json>) -> (json: Json)
    ensures
        json@ == object_view(schema@, name@, kind@, items_model(columns@)),
{
    Members::new().with_text("schema", schema).with_text("name", name).with_text(
        "kind",
        kind,
    ).with("columns", Json::Array(columns)).with("indexes", empty_array()).with(
        "primaryKey",
        empty_array(),
    ).with("foreignKeys", empty_array()).object()
}

/// What schemas with their objects stand for.
pub open spec fn schemas_view(schemas: Seq<(String, Vec<Json>)>) -> Seq<
    (Seq<char>, Seq<JsonView>),
> {
    Seq::new(schemas.len(), |i: int| (schemas[i].0@, items_model(schemas[i].1@)))
}

/// The schemas with one more object, which goes to the end of its schema; a schema that is not there
/// yet goes to the end.
pub open spec fn placed(
    schemas: Seq<(Seq<char>, Seq<JsonView>)>,
    schema: Seq<char>,
    object: JsonView,
) -> Seq<(Seq<char>, Seq<JsonView>)>
    decreases schemas.len(),
{
    if schemas.len() == 0 {
        seq![(schema, seq![object])]
    } else if schemas[0].0 == schema {
        seq![(schema, schemas[0].1.push(object))] + schemas.drop_first()
    } else {
        seq![schemas[0]] + placed(schemas.drop_first(), schema, object)
    }
}

/// Where the schema of an object decides where the object goes.
pub proof fn lemma_placed_at(
    schemas: Seq<(Seq<char>, Seq<JsonView>)>,
    schema: Seq<char>,
    object: JsonView,
    at: int,
)
    requires
        0 <= at <= schemas.len(),
        forall|k: int| 0 <= k < at ==> (#[trigger] schemas[k]).0 != schema,
        at < schemas.len() ==> schemas[at].0 == schema,
    ensures
        placed(schemas, schema, object) == (if at < schemas.len() {
            schemas.update(at, (schema, schemas[at].1.push(object)))
        } else {
            schemas.push((schema, seq![object]))
        }),
    decreases schemas.len(),
{
    if schemas.len() > 0 && at > 0 {
        let rest = schemas.drop_first();
        assert forall|k: int| 0 <= k < at - 1 implies (#[trigger] rest[k]).0 != schema by {
            assert(rest[k] == schemas[k + 1]);
        }
        lemma_placed_at(rest, schema, object, at - 1);
    }
    if at < schemas.len() {
        assert(placed(schemas, schema, object) =~= schemas.update(
            at,
            (schema, schemas[at].1.push(object)),
        ));
    } else {
        assert(placed(schemas, schema, object) =~= schemas.push((schema, seq![object])));
    }
}

/// Adds an object to its schema.
pub fn place(schemas: &mut Vec<(String, Vec<Json>)>, schema: String, object: Json)
    ensures
        schemas_view(final(schemas)@) == placed(schemas_view(old(schemas)@), schema@, object@),
{
    let ghost before = schemas_view(schemas@);
    let mut i: usize = 0;
    while i < schemas.len()
        invariant
            i <= schemas.len(),
            schemas@ == old(schemas)@,
            before == schemas_view(schemas@),
            forall|k: int| 0 <= k < i ==> (#[trigger] before[k]).0 != schema@,
        decreases schemas.len() - i,
    {
        if schemas[i].0 == schema {
            proof {
                lemma_placed_at(before, schema@, object@, i as int);
            }
            let ghost objects = schemas@[i as int].1@;
            let ghost added = object@;
            schemas[i].1.push(object);
            proof {
                assert(items_model(objects.push(object)) =~= items_model(objects).push(added));
                assert(schemas_view(schemas@) =~= before.update(
                    i as int,
                    (schema@, before[i as int].1.push(added)),
                ));
            }
            return ;
        }
        i += 1;
    }
    proof {
        lemma_placed_at(before, schema@, object@, i as int);
    }
    let ghost added = object@;
    let mut objects: Vec<Json> = Vec::new();
    objects.push(object);
    assert(items_model(objects@) =~= seq![added]);
    let ghost name = schema@;
    schemas.push((schema, objects));
    assert(schemas_view(schemas@) =~= before.push((name, seq![added])));
}

/// The entry of a schema in the document.
pub open spec fn schema_entry(schema: (Seq<char>, Seq<JsonView>)) -> JsonView {
    JsonView::Object(
        no_members().insert("name"@, JsonView::Text(schema.0)).insert(
            "objects"@,
            JsonView::Array(schema.1),
        ),
    )
}

/// The metadata document of schemas with their objects.
pub open spec fn document_view(schemas: Seq<(Seq<char>, Seq<JsonView>)>) -> JsonView {
    JsonView::Object(
        no_members().insert(
            "schemas"@,
            JsonView::Array(Seq::new(schemas.len(), |i: int| schema_entry(schemas[i]))),
        ),
    )
}

/// The metadata document of schemas with their objects.
pub fn document(schemas: Vec<(String, Vec<Json>)>) -> (json: Json)
    ensures
        json@ == document_view(schemas_view(schemas@)),
{
    let ghost all = schemas_view(schemas@);
    let mut list: Vec<Json> = Vec::new();
    for entry in it: schemas
        invariant
            it.seq() == schemas@,
            all == schemas_view(schemas@),
            list.len() == it.index(),
            forall|k: int| 0 <= k < list.len() ==> (#[trigger] list@[k])@ == schema_entry(all[k]),
    {
        let (name, objects) = entry;
        assert(entry == schemas@[it.index() as int]);
        list.push(
            Members::new().with_text("name", name.as_str()).with(
                "objects",
                Json::Array(objects),
            ).object(),
        );
    }
    assert(items_model(list@) =~= Seq::new(all.len(), |i: int| schema_entry(all[i])));
    Members::new().with("schemas", Json::Array(list)).object()
}

/// Whether no two schemas have the same name.
pub open spec fn apart(schemas: Seq<(Seq<char>, Seq<JsonView>)>) -> bool {
    forall|i: int, j: int|
        0 <= i < j < schemas.len() ==> (#[trigger] schemas[i]).0 != (#[trigger] schemas[j]).0
}

/// The objects of the first schema of a name; none where there is no such schema.
pub open spec fn objects_in(
    schemas: Seq<(Seq<char>, Seq<JsonView>)>,
    schema: Seq<char>,
) -> Seq<JsonView>
    decreases schemas.len(),
{
    if schemas.len() == 0 {
        seq![]
    } else if schemas[0].0 == schema {
        schemas[0].1
    } else {
        objects_in(schemas.drop_first(), schema)
    }
}

proof fn lemma_placed_names(
    schemas: Seq<(Seq<char>, Seq<JsonView>)>,
    schema: Seq<char>,
    object: JsonView,
    k: int,
)
    requires
        0 <= k < placed(schemas, schema, object).len(),
    ensures
        placed(schemas, schema, object)[k].0 == schema || exists|i: int|
            0 <= i < schemas.len() && (#[trigger] schemas[i]).0 == placed(
                schemas,
                schema,
                object,
            )[k].0,
    decreases schemas.len(),
{
    let out = placed(schemas, schema, object);
    if schemas.len() > 0 {
        if schemas[0].0 == schema {
            if k > 0 {
                assert(out[k] == schemas[k]);
            }
        } else if k == 0 {
            assert(out[0] == schemas[0]);
        } else {
            let rest = schemas.drop_first();
            lemma_placed_names(rest, schema, object, k - 1);
            assert(out[k] == placed(rest, schema, object)[k - 1]);
            if out[k].0 != schema {
                let i = choose|i: int| 0 <= i < rest.len() && (#[trigger] rest[i]).0 == out[k].0;
                assert(schemas[i + 1].0 == out[k].0);
            }
        }
    }
}

/// Adding an object never gives two schemas the same name.
pub proof fn placing_keeps_schemas_apart(
    schemas: Seq<(Seq<char>, Seq<JsonView>)>,
    schema: Seq<char>,
    object: JsonView,
)
    requires
        apart(schemas),
    ensures
        apart(placed(schemas, schema, object)),
    decreases schemas.len(),
{
    let out = placed(schemas, schema, object);
    if schemas.len() > 0 {
        let rest = schemas.drop_first();
        assert forall|i: int, j: int| 0 <= i < j < rest.len() implies (#[trigger] rest[i]).0 != (
        #[trigger] rest[j]).0 by {
            assert(rest[i] == schemas[i + 1] && rest[j] == schemas[j + 1]);
        }
        placing_keeps_schemas_apart(rest, schema, object);
        assert forall|i: int, j: int| 0 <= i < j < out.len() implies (#[trigger] out[i]).0 != (
        #[trigger] out[j]).0 by {
            if schemas[0].0 == schema {
                assert(out[j] == schemas[j]);
                assert(out[i].0 == schemas[i].0);
            } else {
                let tail = placed(rest, schema, object);
                assert(out[j] == tail[j - 1]);
                if i > 0 {
                    assert(out[i] == tail[i - 1]);
                } else {
                    lemma_placed_names(rest, schema, object, j - 1);
                    if out[j].0 != schema {
                        let k = choose|k: int|
                            0 <= k < rest.len() && (#[trigger] rest[k]).0 == out[j].0;
                        assert(schemas[0].0 != schemas[k + 1].0);
                    }
                }
            }
        }
    }
}

/// An object that is added goes to the end of its schema, and no other schema changes.
pub proof fn placing_adds_to_one_schema(
    schemas: Seq<(Seq<char>, Seq<JsonView>)>,
    schema: Seq<char>,
    object: JsonView,
    any: Seq<char>,
)
    ensures
        objects_in(placed(schemas, schema, object), any) == if any == schema {
            objects_in(schemas, any).push(object)
        } else {
            objects_in(schemas, any)
        },
    decreases schemas.len(),
{
    let out = placed(schemas, schema, object);
    if schemas.len() > 0 {
        let rest = schemas.drop_first();
        if schemas[0].0 == schema {
            assert(out.drop_first() =~= rest);
        } else {
            placing_adds_to_one_schema(rest, schema, object, any);
            assert(out.drop_first() =~= placed(rest, schema, object));
        }
    } else {
        assert(out.drop_first().len() == 0);
        assert(objects_in(out.drop_first(), any) =~= objects_in(schemas, any));
        assert(out[0].1 =~= objects_in(schemas, any).push(object));
    }
}

} // verus!
