//! What reading JSON values promises.
use crate::json::{
    flag_of, items_of, member, member_of, number_text, same_value, signed_view, string_of, JsonView,
    NumberView,
};
use crate::json_text::{float_value, settled};
use crate::text::decimal_of;
use vstd::prelude::*;

verus! {

/// A member is found in an object that has it, under its own key alone, and in nothing else.
pub proof fn members_are_found_in_objects(
    members: Map<Seq<char>, JsonView>,
    key: Seq<char>,
    value: JsonView,
)
    ensures
        members.dom().contains(key) ==> member(JsonView::Object(members), key) == Some(
            members[key],
        ),
        !members.dom().contains(key) ==> member(JsonView::Object(members), key) is None,
        !(value is Object) ==> member(value, key) is None,
        member_of(Some(value), key) == member(value, key),
        member_of(None, key) is None,
{
}

/// Only a text is read as a text, only an array as items, and only a flag as a flag.
pub proof fn values_are_read_as_what_they_are(
    content: Seq<char>,
    items: Seq<JsonView>,
    flag: bool,
    value: JsonView,
)
    ensures
        string_of(Some(JsonView::Text(content))) == Some(content),
        items_of(Some(JsonView::Array(items))) == Some(items),
        flag_of(Some(JsonView::Bool(flag))) == Some(flag),
        !(value is Text) ==> string_of(Some(value)) is None,
        !(value is Array) ==> items_of(Some(value)) is None,
        !(value is Bool) ==> flag_of(Some(value)) is None,
        string_of(None) is None,
        items_of(None) is None,
        flag_of(None) is None,
{
}

/// A number is written in decimal, with a sign where it is negative, and a float as it was written.
pub proof fn numbers_are_written(n: u64, m: i64, written: Seq<char>)
    ensures
        number_text(NumberView::Unsigned(n)) == decimal_of(n as nat),
        m < 0 ==> number_text(signed_view(m)) == seq!['-'] + decimal_of((-m) as nat),
        m >= 0 ==> number_text(signed_view(m)) == decimal_of(m as nat),
        m < 0 ==> signed_view(m) == NumberView::Negative(m),
        m >= 0 ==> signed_view(m) == NumberView::Unsigned(m as u64),
        number_text(NumberView::Float(written)) == written,
{
}

/// Values without floats in them are the same when they are equal, and only then; floats are the same
/// when they are written alike, or are the two zeros.
pub proof fn values_are_compared(
    a: JsonView,
    b: JsonView,
    x: Seq<char>,
    y: Seq<char>,
    items: Seq<JsonView>,
    others: Seq<JsonView>,
)
    ensures
        a is Text || a is Bool || a is Null || (a matches JsonView::Number(n) && !(n is Float))
            ==> (same_value(a, b) <==> a == b),
        same_value(JsonView::Number(NumberView::Float(x)), JsonView::Number(NumberView::Float(y)))
            <==> x == y || ((x == "0.0"@ || x == "-0.0"@) && (y == "0.0"@ || y == "-0.0"@)),
        same_value(JsonView::Array(items), JsonView::Array(others)) <==> items.len()
            == others.len() && forall|i: int|
            0 <= i < items.len() ==> same_value(#[trigger] items[i], others[i]),
{
}

/// A value keeps its shape when it is written: only a number may come to be held otherwise, one that is
/// marked as negative without being so as what it is, and a float as what its text reads as.
pub proof fn values_keep_their_shape(
    content: Seq<char>,
    flag: bool,
    n: u64,
    m: i64,
    items: Seq<JsonView>,
    members: Map<Seq<char>, JsonView>,
    i: int,
    key: Seq<char>,
)
    ensures
        settled(JsonView::Null) == JsonView::Null,
        settled(JsonView::Bool(flag)) == JsonView::Bool(flag),
        settled(JsonView::Text(content)) == JsonView::Text(content),
        settled(JsonView::Number(NumberView::Unsigned(n))) == JsonView::Number(
            NumberView::Unsigned(n),
        ),
        settled(JsonView::Number(NumberView::Negative(m))) == JsonView::Number(signed_view(m)),
        settled(JsonView::Number(NumberView::Float(content))) == float_value(content),
        settled(JsonView::Array(items)) matches JsonView::Array(after) && after.len() == items.len()
            && (0 <= i < items.len() ==> after[i] == settled(items[i])),
        settled(JsonView::Object(members)) matches JsonView::Object(after) && (after.dom().contains(
            key,
        ) <==> members.dom().contains(key)) && (members.dom().contains(key) ==> after[key]
            == settled(members[key])),
{
}

/// Objects are the same when they have the same keys and the same value under each, whatever the order;
/// and nothing is the same as a value of another sort.
pub proof fn objects_are_compared(
    a: Map<Seq<char>, JsonView>,
    b: Map<Seq<char>, JsonView>,
    items: Seq<JsonView>,
    written: Seq<char>,
    other: JsonView,
)
    ensures
        same_value(JsonView::Object(a), JsonView::Object(b)) <==> a.dom() == b.dom() && forall|
            key: Seq<char>,
        | #[trigger] a.dom().contains(key) ==> same_value(a[key], b[key]),
        !(other is Object) ==> !same_value(JsonView::Object(a), other),
        !(other is Array) ==> !same_value(JsonView::Array(items), other),
        !(other matches JsonView::Number(NumberView::Float(_))) ==> !same_value(
            JsonView::Number(NumberView::Float(written)),
            other,
        ),
{
}

} // verus!
