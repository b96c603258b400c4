//! The exchange between JSON text and JSON values, which `serde_json` does.
//!
//! What `serde_json` computes is trusted and named here; turning its values into the values of
//! this library, and back, is verified.
use crate::json::{entries_model, items_model, signed_view, Json, JsonNumber, JsonView, NumberView};
use crate::text;
use vstd::prelude::*;

verus! {

/// A JSON value of `serde_json`, only carried through.
#[verifier::external_type_specification]
#[verifier::external_body]
pub struct ExValue(serde_json::Value);

/// What a value of `serde_json` holds. The members of an object are told by their keys alone:
/// `serde_json::Map` keeps them sorted by key.
pub uninterp spec fn value_view(value: serde_json::Value) -> JsonView;

/// What `serde_json::from_str` makes of a text: the value that it reads, or the message of the
/// error that it reports.
pub uninterp spec fn parsed(text: Seq<char>) -> Result<JsonView, Seq<char>>;

/// The compact text that a `serde_json::Value` is displayed as.
pub uninterp spec fn rendered(value: JsonView) -> Seq<char>;

/// What two calls give, made one after the other: `str::parse` reads the float that a text stands
/// for, and `serde_json::Number::from_f64` makes a number of it. Null where either gives nothing: the
/// text stands for no float, or the float is not finite. One name stands for both, as no float is
/// held in between.
pub uninterp spec fn float_value(written: Seq<char>) -> JsonView;

/// One layer of a value of `serde_json`.
pub enum Layer {
    Null,
    Bool(bool),
    Number(JsonNumber),
    Text(String),
    Array(Vec<serde_json::Value>),
    Object(Vec<(String, serde_json::Value)>),
}

/// What the items of an array hold.
pub open spec fn values_view(items: Seq<serde_json::Value>) -> Seq<JsonView> {
    Seq::new(items.len(), |i: int| value_view(items[i]))
}

/// What the members of an object hold, the later of two with the same key.
pub open spec fn members_view(entries: Seq<(String, serde_json::Value)>) -> Map<
    Seq<char>,
    JsonView,
>
    decreases entries.len(),
{
    if entries.len() == 0 {
        Map::empty()
    } else {
        members_view(entries.drop_last()).insert(entries.last().0@, value_view(entries.last().1))
    }
}

impl Layer {
    /// What a value with this layer holds.
    pub open spec fn model(self) -> JsonView {
        match self {
            Layer::Null => JsonView::Null,
            Layer::Bool(flag) => JsonView::Bool(flag),
            Layer::Number(number) => JsonView::Number(number@),
            Layer::Text(content) => JsonView::Text(content@),
            Layer::Array(items) => JsonView::Array(values_view(items@)),
            Layer::Object(entries) => JsonView::Object(members_view(entries@)),
        }
    }
}

/// Calls `serde_json::from_str` for a `serde_json::Value`. The result is what `parsed` names.
#[verifier::external_body]
fn read_value(content: &str) -> (value: Result<serde_json::Value, String>)
    ensures
        match value {
            Ok(read) => parsed(content@) == Ok::<JsonView, Seq<char>>(value_view(read)),
            Err(message) => parsed(content@) == Err::<JsonView, Seq<char>>(message@),
        },
{
    serde_json::from_str(content).map_err(|error| error.to_string())
}

/// Tells the variants of a `serde_json::Value` apart and moves their fields. A number is an
/// unsigned integer where `Number::as_u64` gives one, else a negative one where `Number::as_i64`
/// gives one, else a float, held as the text that `serde_json` writes for it. Reading that text
/// again gives the same float. No two members of an object have the same key.
#[verifier::external_body]
fn open_value(value: serde_json::Value) -> (layer: Layer)
    ensures
        layer.model() == value_view(value),
        layer matches Layer::Number(JsonNumber::Negative(n)) ==> n < 0,
        layer matches Layer::Number(JsonNumber::Float(written)) ==> float_value(written@)
            == layer.model(),
        layer matches Layer::Object(entries) ==> distinct_keys(entries@),
{
    match value {
        serde_json::Value::Null => Layer::Null,
        serde_json::Value::Bool(flag) => Layer::Bool(flag),
        serde_json::Value::Number(number) => match (number.as_u64(), number.as_i64()) {
            (Some(n), _) => Layer::Number(JsonNumber::Unsigned(n)),
            (None, Some(n)) => Layer::Number(JsonNumber::Negative(n)),
            (None, None) => Layer::Number(JsonNumber::Float(number.to_string())),
        },
        serde_json::Value::String(content) => Layer::Text(content),
        serde_json::Value::Array(items) => Layer::Array(items),
        serde_json::Value::Object(members) => Layer::Object(members.into_iter().collect()),
    }
}

/// Builds a `serde_json::Value` of one layer: its variants around the given fields, a number by
/// `Value::from` for an integer and by `Number::from_f64` for a float, an object by collecting its
/// members, no two of which have the same key.
#[verifier::external_body]
fn build_value(layer: Layer) -> (value: serde_json::Value)
    requires
        layer matches Layer::Object(entries) ==> distinct_keys(entries@),
    ensures
        value_view(value) == (match layer {
            Layer::Number(JsonNumber::Negative(n)) => JsonView::Number(signed_view(n)),
            Layer::Number(JsonNumber::Float(written)) => float_value(written@),
            _ => layer.model(),
        }),
{
    match layer {
        Layer::Null => serde_json::Value::Null,
        Layer::Bool(flag) => serde_json::Value::Bool(flag),
        Layer::Number(JsonNumber::Unsigned(n)) => serde_json::Value::from(n),
        Layer::Number(JsonNumber::Negative(n)) => serde_json::Value::from(n),
        Layer::Number(JsonNumber::Float(written)) => written.parse().ok().and_then(
            serde_json::Number::from_f64,
        ).map_or(serde_json::Value::Null, serde_json::Value::Number),
        Layer::Text(content) => serde_json::Value::String(content),
        Layer::Array(items) => serde_json::Value::Array(items),
        Layer::Object(members) => serde_json::Value::Object(members.into_iter().collect()),
    }
}

/// Calls `to_string` of a `serde_json::Value`. The result is what `rendered` names.
#[verifier::external_body]
fn write_value(value: &serde_json::Value) -> (content: String)
    ensures
        content@ == rendered(value_view(*value)),
{
    value.to_string()
}

/// The value that stands for a number once it is handed to `serde_json`.
pub open spec fn settled_number(number: NumberView) -> JsonView {
    match number {
        NumberView::Negative(n) => JsonView::Number(signed_view(n)),
        NumberView::Float(written) => float_value(written),
        _ => JsonView::Number(number),
    }
}

/// The value that stands for a JSON value once it is handed to `serde_json`.
pub open spec fn settled(value: JsonView) -> JsonView
    decreases value,
{
    match value {
        JsonView::Number(number) => settled_number(number),
        JsonView::Array(items) => JsonView::Array(
            Seq::new(
                items.len(),
                |i: int|
                    if 0 <= i < items.len() {
                        settled(items[i])
                    } else {
                        JsonView::Null
                    },
            ),
        ),
        JsonView::Object(members) => JsonView::Object(
            Map::new(
                |key: Seq<char>| members.dom().contains(key),
                |key: Seq<char>|
                    if members.dom().contains(key) {
                        settled(members[key])
                    } else {
                        JsonView::Null
                    },
            ),
        ),
        _ => value,
    }
}

/// Whether no two members have the same key.
pub open spec fn distinct_keys(entries: Seq<(String, serde_json::Value)>) -> bool {
    forall|i: int, j: int|
        0 <= i < j < entries.len() ==> (#[trigger] entries[i]).0@ != (#[trigger] entries[j]).0@
}

proof fn lemma_settled_items(items: Seq<JsonView>)
    requires
        forall|i: int| 0 <= i < items.len() ==> settled(#[trigger] items[i]) == items[i],
    ensures
        settled(JsonView::Array(items)) == JsonView::Array(items),
{
    assert(settled(JsonView::Array(items))->Array_0 =~= items);
}

proof fn lemma_settled_members(members: Map<Seq<char>, JsonView>)
    requires
        forall|key: Seq<char>| #[trigger]
            members.dom().contains(key) ==> settled(members[key]) == members[key],
    ensures
        settled(JsonView::Object(members)) == JsonView::Object(members),
{
    assert(settled(JsonView::Object(members))->Object_0 =~= members);
}

proof fn lemma_member_view(entries: Seq<(String, serde_json::Value)>, i: int)
    requires
        distinct_keys(entries),
        0 <= i < entries.len(),
    ensures
        members_view(entries).dom().contains(entries[i].0@),
        members_view(entries)[entries[i].0@] == value_view(entries[i].1),
    decreases entries.len(),
{
    if i < entries.len() - 1 {
        let front = entries.drop_last();
        assert(distinct_keys(front)) by {
            assert forall|a: int, b: int| 0 <= a < b < front.len() implies (#[trigger] front[a]).0@
                != (#[trigger] front[b]).0@ by {
                assert(front[a] == entries[a]);
                assert(front[b] == entries[b]);
            }
        }
        lemma_member_view(front, i);
        assert(front[i] == entries[i]);
        assert(entries[entries.len() - 1] == entries.last());
    }
}

/// The library's value of what a value of `serde_json` holds.
fn taken(value: serde_json::Value) -> (json: Json)
    ensures
        json@ == value_view(value),
        settled(json@) == json@,
    decreases value_view(value),
{
    match open_value(value) {
        Layer::Null => Json::Null,
        Layer::Bool(flag) => Json::Bool(flag),
        Layer::Number(number) => Json::Number(number),
        Layer::Text(content) => Json::Text(content),
        Layer::Array(items) => {
            let ghost all = items@;
            let mut list: Vec<Json> = Vec::new();
            for item in it: items
                invariant
                    it.seq() == all,
                    value_view(value) == JsonView::Array(values_view(all)),
                    list.len() == it.index(),
                    forall|k: int|
                        0 <= k < list.len() ==> {
                            &&& (#[trigger] list@[k])@ == value_view(all[k])
                            &&& settled(list@[k]@) == list@[k]@
                        },
            {
                proof {
                    assert(item == all[it.index() as int]);
                    assert(decreases_to!(value_view(value) => value_view(
                        value,
                    )->Array_0[it.index() as int]));
                }
                list.push(taken(item));
            }
            proof {
                assert(items_model(list@) =~= values_view(all));
                lemma_settled_items(items_model(list@));
            }
            Json::Array(list)
        },
        Layer::Object(members) => {
            let ghost all = members@;
            let mut list: Vec<(String, Json)> = Vec::new();
            assert(all.take(0) =~= seq![]);
            for entry in it: members
                invariant
                    it.seq() == all,
                    distinct_keys(all),
                    value_view(value) == JsonView::Object(members_view(all)),
                    entries_model(list@) == members_view(all.take(it.index() as int)),
                    forall|key: Seq<char>| #[trigger]
                        entries_model(list@).dom().contains(key) ==> settled(
                            entries_model(list@)[key],
                        ) == entries_model(list@)[key],
            {
                let (key, inner) = entry;
                let ghost before = list@;
                proof {
                    assert(entry == all[it.index() as int]);
                    lemma_member_view(all, it.index() as int);
                    assert(decreases_to!(value_view(value) => value_view(value)->Object_0[key@]));
                }
                list.push((key, taken(inner)));
                proof {
                    assert(list@.drop_last() == before);
                    assert(all.take(it.index() + 1).drop_last() == all.take(it.index() as int));
                }
            }
            proof {
                assert(all.take(all.len() as int) == all);
                lemma_settled_members(entries_model(list@));
            }
            Json::Object(list)
        },
    }
}

proof fn lemma_settled_insert(members: Map<Seq<char>, JsonView>, key: Seq<char>, value: JsonView)
    ensures
        settled(JsonView::Object(members.insert(key, value)))->Object_0 == settled(
            JsonView::Object(members),
        )->Object_0.insert(key, settled(value)),
{
    assert(settled(JsonView::Object(members.insert(key, value)))->Object_0 =~= settled(
        JsonView::Object(members),
    )->Object_0.insert(key, settled(value)));
}

/// The value of `serde_json` that a value of the library stands for.
fn given(json: &Json) -> (value: serde_json::Value)
    ensures
        value_view(value) == settled(json@),
    decreases json,
{
    match json {
        Json::Null => build_value(Layer::Null),
        Json::Bool(flag) => build_value(Layer::Bool(*flag)),
        Json::Number(number) => build_value(Layer::Number(number.clone())),
        Json::Text(content) => build_value(Layer::Text(content.clone())),
        Json::Array(items) => build_value(Layer::Array(given_items(items))),
        Json::Object(entries) => build_value(Layer::Object(given_entries(entries))),
    }
}

fn given_items(items: &Vec<Json>) -> (list: Vec<serde_json::Value>)
    ensures
        JsonView::Array(values_view(list@)) == settled(JsonView::Array(items_model(items@))),
    decreases items,
{
    let mut list: Vec<serde_json::Value> = Vec::new();
    let mut i: usize = 0;
    while i < items.len()
        invariant
            i <= items.len(),
            list.len() == i,
            forall|k: int|
                0 <= k < i ==> value_view(#[trigger] list@[k]) == settled(items@[k]@),
        decreases items.len() - i,
    {
        assert(decreases_to!(items => items@[i as int]));
        list.push(given(&items[i]));
        i += 1;
    }
    assert(values_view(list@) =~= settled(JsonView::Array(items_model(items@)))->Array_0);
    list
}

proof fn lemma_first_entry(entries: Seq<(String, Json)>)
    requires
        entries.len() > 0,
    ensures
        ({
            let rest = entries_model(entries.drop_first());
            let (key, value) = (entries[0].0@, entries[0].1@);
            entries_model(entries) == if rest.dom().contains(key) {
                rest
            } else {
                rest.insert(key, value)
            }
        }),
    decreases entries.len(),
{
    let rest = entries.drop_first();
    if rest.len() == 0 {
        assert(entries.drop_last() =~= rest);
    } else {
        let front = entries.drop_last();
        lemma_first_entry(front);
        assert(front.drop_first() =~= rest.drop_last());
        assert(rest.last() == entries.last());
        let middle = entries_model(rest.drop_last());
        let (key, value) = (entries[0].0@, entries[0].1@);
        let (last_key, last_value) = (entries.last().0@, entries.last().1@);
        assert(entries_model(rest) == middle.insert(last_key, last_value));
        assert(entries_model(entries) =~= if entries_model(rest).dom().contains(key) {
            entries_model(rest)
        } else {
            entries_model(rest).insert(key, value)
        });
    }
}

/// Whether there is a member with a key.
fn has_key(entries: &Vec<(String, serde_json::Value)>, key: &str) -> (found: bool)
    ensures
        found == members_view(entries@).dom().contains(key@),
        found == exists|k: int| 0 <= k < entries.len() && (#[trigger] entries@[k]).0@ == key@,
{
    let mut i: usize = 0;
    assert(entries@.take(0) =~= seq![]);
    while i < entries.len()
        invariant
            i <= entries.len(),
            !members_view(entries@.take(i as int)).dom().contains(key@),
            forall|k: int| 0 <= k < i ==> (#[trigger] entries@[k]).0@ != key@,
        decreases entries.len() - i,
    {
        if text::same(entries[i].0.as_str(), key) {
            proof {
                lemma_members_keys(entries@, i as int);
            }
            return true;
        }
        assert(entries@.take(i + 1).drop_last() =~= entries@.take(i as int));
        i += 1;
    }
    assert(entries@.take(i as int) =~= entries@);
    false
}

proof fn lemma_members_keys(entries: Seq<(String, serde_json::Value)>, i: int)
    requires
        0 <= i < entries.len(),
    ensures
        members_view(entries).dom().contains(entries[i].0@),
    decreases entries.len(),
{
    if i < entries.len() - 1 {
        lemma_members_keys(entries.drop_last(), i);
    }
}

/// The members that count, the later of two with the same key.
fn given_entries(entries: &Vec<(String, Json)>) -> (list: Vec<(String, serde_json::Value)>)
    ensures
        JsonView::Object(members_view(list@)) == settled(
            JsonView::Object(entries_model(entries@)),
        ),
        distinct_keys(list@),
    decreases entries,
{
    let mut list: Vec<(String, serde_json::Value)> = Vec::new();
    let mut i: usize = entries.len();
    proof {
        assert(entries@.skip(i as int) =~= seq![]);
        lemma_settled_members(Map::empty());
    }
    while i > 0
        invariant
            i <= entries.len(),
            JsonView::Object(members_view(list@)) == settled(
                JsonView::Object(entries_model(entries@.skip(i as int))),
            ),
            distinct_keys(list@),
        decreases i,
    {
        let ghost tail = entries@.skip(i as int);
        i -= 1;
        proof {
            assert(decreases_to!(entries => entries@[i as int]));
            assert(entries@.skip(i as int).drop_first() =~= tail);
            lemma_first_entry(entries@.skip(i as int));
            assert(settled(JsonView::Object(entries_model(tail)))->Object_0.dom()
                =~= entries_model(tail).dom());
        }
        if !has_key(&list, entries[i].0.as_str()) {
            let ghost before = list@;
            list.push((entries[i].0.clone(), given(&entries[i].1)));
            proof {
                assert(list@.drop_last() =~= before);
                assert forall|a: int, b: int| 0 <= a < b < list@.len() implies (
                #[trigger] list@[a]).0@ != (#[trigger] list@[b]).0@ by {
                    assert(before[a] == list@[a]);
                    if b < before.len() {
                        assert(before[b] == list@[b]);
                    }
                }
                lemma_settled_insert(
                    entries_model(tail),
                    entries@[i as int].0@,
                    entries@[i as int].1@,
                );
            }
        }
    }
    assert(entries@.skip(0) =~= entries@);
    list
}

impl Json {
    /// The value that a JSON text stands for, or the message that says why it stands for none.
    pub fn parse(content: &str) -> (json: Result<Json, String>)
        ensures
            match json {
                Ok(value) => parsed(content@) == Ok::<JsonView, Seq<char>>(value@) && settled(
                    value@,
                ) == value@,
                Err(message) => parsed(content@) == Err::<JsonView, Seq<char>>(message@),
            },
    {
        match read_value(content) {
            Ok(value) => Ok(taken(value)),
            Err(message) => Err(message),
        }
    }

    /// The compact text of the value.
    pub fn to_text(&self) -> (content: String)
        ensures
            content@ == rendered(settled(self@)),
    {
        write_value(&given(self))
    }
}

} // verus!
