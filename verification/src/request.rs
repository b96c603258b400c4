//! Options of a connect request: where they are looked for, and which of them are secret.
use crate::json::{member, member_of, number_text, seen, Json, JsonView};
use crate::text;
use crate::text::{optional, texts, tight, trimmed, trimming_leaves_tight_texts};
use vstd::prelude::*;

verus! {

/// The values of a list of optional values, in order.
pub open spec fn present(list: Seq<Option<JsonView>>) -> Seq<JsonView>
    decreases list.len(),
{
    if list.len() == 0 {
        seq![]
    } else {
        let front = present(list.drop_last());
        match list.last() {
            Some(value) => front.push(value),
            None => front,
        }
    }
}

/// The objects of a request that options are looked for in, in order: the request itself, its
/// sections, and the sections of its profile.
pub open spec fn containers(request: JsonView) -> Seq<JsonView> {
    let profile = member(request, "profile"@);
    present(
        seq![
            Some(request),
            profile,
            member(request, "options"@),
            member(request, "auth"@),
            member(request, "secrets"@),
            member_of(profile, "options"@),
            member_of(profile, "auth"@),
            member_of(profile, "secrets"@),
        ],
    )
}

/// The text of an option's value: empty for a value that is no string, number or flag.
pub open spec fn plain_text(value: JsonView) -> Seq<char> {
    match value {
        JsonView::Text(content) => content,
        JsonView::Number(number) => number_text(number),
        JsonView::Bool(flag) => if flag {
            "true"@
        } else {
            "false"@
        },
        _ => seq![],
    }
}

/// The option that an object holds under a name: its text without surrounding white space, unless
/// nothing is left of it.
pub open spec fn option_at(container: JsonView, field: Seq<char>) -> Option<Seq<char>> {
    match member(container, field) {
        Some(value) => if trimmed(plain_text(value)).len() > 0 {
            Some(trimmed(plain_text(value)))
        } else {
            None
        },
        None => None,
    }
}

/// The first option that an object holds under one of several names.
pub open spec fn option_in(container: JsonView, fields: Seq<Seq<char>>) -> Option<Seq<char>>
    decreases fields.len(),
{
    if fields.len() == 0 {
        None
    } else if option_at(container, fields[0]) is Some {
        option_at(container, fields[0])
    } else {
        option_in(container, fields.drop_first())
    }
}

/// The first option that one of several objects holds under one of several names: an earlier object
/// goes before an earlier name.
pub open spec fn option_among(list: Seq<JsonView>, fields: Seq<Seq<char>>) -> Option<Seq<char>>
    decreases list.len(),
{
    if list.len() == 0 {
        None
    } else if option_in(list[0], fields) is Some {
        option_in(list[0], fields)
    } else {
        option_among(list.drop_first(), fields)
    }
}

/// The option that a request holds under one of several names.
pub open spec fn option_of(request: JsonView, fields: Seq<Seq<char>>) -> Option<Seq<char>> {
    option_among(containers(request), fields)
}

/// The characters of each name of a list.
pub open spec fn names(fields: Seq<&str>) -> Seq<Seq<char>> {
    Seq::new(fields.len(), |i: int| fields[i]@)
}

/// What the values of a list of references stand for.
pub open spec fn all_seen(list: Seq<&Json>) -> Seq<JsonView> {
    Seq::new(list.len(), |i: int| list[i]@)
}

/// Appends a value that is there.
fn keep<'a>(list: &mut Vec<&'a Json>, value: Option<&'a Json>)
    ensures
        all_seen(final(list)@) == (match seen(value) {
            Some(view) => all_seen(old(list)@).push(view),
            None => all_seen(old(list)@),
        }),
{
    if let Some(found) = value {
        list.push(found);
        assert(all_seen(list@) =~= all_seen(old(list)@).push(found@));
    }
}

/// The member under a key of an optional value.
pub fn get_in<'a>(value: Option<&'a Json>, key: &str) -> (found: Option<&'a Json>)
    ensures
        seen(found) == member_of(seen(value), key@),
{
    match value {
        Some(inner) => inner.get(key),
        None => None,
    }
}

/// The objects of a request that options are looked for in.
pub fn request_containers(request: &Json) -> (list: Vec<&Json>)
    ensures
        all_seen(list@) == containers(request@),
{
    let profile = request.get("profile");
    let mut list: Vec<&Json> = Vec::new();
    keep(&mut list, Some(request));
    keep(&mut list, profile);
    keep(&mut list, request.get("options"));
    keep(&mut list, request.get("auth"));
    keep(&mut list, request.get("secrets"));
    keep(&mut list, get_in(profile, "options"));
    keep(&mut list, get_in(profile, "auth"));
    keep(&mut list, get_in(profile, "secrets"));
    proof {
        let p = member(request@, "profile"@);
        let all: Seq<Option<JsonView>> = seq![
            Some(request@),
            p,
            member(request@, "options"@),
            member(request@, "auth"@),
            member(request@, "secrets"@),
            member_of(p, "options"@),
            member_of(p, "auth"@),
            member_of(p, "secrets"@),
        ];
        reveal_with_fuel(present, 9);
        assert(all.drop_last() =~= all.take(7));
        assert(all.take(7).drop_last() =~= all.take(6));
        assert(all.take(6).drop_last() =~= all.take(5));
        assert(all.take(5).drop_last() =~= all.take(4));
        assert(all.take(4).drop_last() =~= all.take(3));
        assert(all.take(3).drop_last() =~= all.take(2));
        assert(all.take(2).drop_last() =~= all.take(1));
        assert(all.take(1).drop_last() =~= all.take(0));
        assert(present(all.take(0)) =~= seq![]);
        assert(all_seen(list@) =~= present(all));
    }
    list
}

/// The text of an option's value.
fn value_text(value: &Json) -> (out: String)
    ensures
        out@ == plain_text(value@),
{
    match value {
        Json::Text(content) => content.clone(),
        Json::Number(number) => number.written(),
        Json::Bool(flag) => if *flag {
            "true".to_string()
        } else {
            "false".to_string()
        },
        _ => String::new(),
    }
}

/// The first option that an object holds under one of several names.
fn option_inside(container: &Json, fields: &[&str]) -> (found: Option<String>)
    ensures
        optional(found) == option_in(container@, names(fields@)),
{
    let mut i: usize = 0;
    let ghost all = names(fields@);
    assert(all.skip(0) =~= all);
    while i < fields.len()
        invariant
            i <= fields.len(),
            all == names(fields@),
            option_in(container@, all) == option_in(container@, all.skip(i as int)),
        decreases fields.len() - i,
    {
        assert(all.skip(i as int).drop_first() =~= all.skip(i + 1));
        if let Some(value) = container.get(fields[i]) {
            let content = text::trim(value_text(value).as_str());
            if !content.as_str().is_empty() {
                return Some(content);
            }
        }
        i += 1;
    }
    None
}

/// The option that a request holds under one of several names.
pub fn option_string(request: &Json, fields: &[&str]) -> (found: Option<String>)
    ensures
        optional(found) == option_of(request@, names(fields@)),
{
    let list = request_containers(request);
    let ghost all = all_seen(list@);
    let mut i: usize = 0;
    assert(all.skip(0) =~= all);
    while i < list.len()
        invariant
            i <= list.len(),
            all == all_seen(list@),
            all == containers(request@),
            option_among(all, names(fields@)) == option_among(all.skip(i as int), names(fields@)),
        decreases list.len() - i,
    {
        assert(all.skip(i as int).drop_first() =~= all.skip(i + 1));
        let found = option_inside(list[i], fields);
        if found.is_some() {
            return found;
        }
        i += 1;
    }
    None
}

/// The option that a request holds under a name.
pub fn option1(request: &Json, a: &str) -> (found: Option<String>)
    ensures
        optional(found) == option_of(request@, seq![a@]),
{
    let fields: [&str; 1] = [a];
    assert(names(fields@) =~= seq![a@]);
    option_string(request, &fields)
}

/// The option that a request holds under one of two names.
pub fn option2(request: &Json, a: &str, b: &str) -> (found: Option<String>)
    ensures
        optional(found) == option_of(request@, seq![a@, b@]),
{
    let fields: [&str; 2] = [a, b];
    assert(names(fields@) =~= seq![a@, b@]);
    option_string(request, &fields)
}

/// The option that a request holds under one of three names.
pub fn option3(request: &Json, a: &str, b: &str, c: &str) -> (found: Option<String>)
    ensures
        optional(found) == option_of(request@, seq![a@, b@, c@]),
{
    let fields: [&str; 3] = [a, b, c];
    assert(names(fields@) =~= seq![a@, b@, c@]);
    option_string(request, &fields)
}

/// The option that a request holds under one of four names.
pub fn option4(request: &Json, a: &str, b: &str, c: &str, d: &str) -> (found: Option<String>)
    ensures
        optional(found) == option_of(request@, seq![a@, b@, c@, d@]),
{
    let fields: [&str; 4] = [a, b, c, d];
    assert(names(fields@) =~= seq![a@, b@, c@, d@]);
    option_string(request, &fields)
}

/// The names of the options whose values never appear in a reported error.
pub open spec fn secret_fields() -> Seq<Seq<char>> {
    seq![
        "password"@,
        "token"@,
        "accessKeyId"@,
        "secretAccessKey"@,
        "s3AccessKeyId"@,
        "s3SecretAccessKey"@,
        "sessionToken"@,
        "s3SessionToken"@,
    ]
}

/// The values that a request holds under each of several names, each value once.
pub open spec fn values_under(request: JsonView, fields: Seq<Seq<char>>) -> Seq<Seq<char>>
    decreases fields.len(),
{
    if fields.len() == 0 {
        seq![]
    } else {
        let front = values_under(request, fields.drop_last());
        match option_of(request, seq![fields.last()]) {
            Some(value) => if front.contains(value) {
                front
            } else {
                front.push(value)
            },
            None => front,
        }
    }
}

/// The secret values of a request.
pub open spec fn secrets(request: JsonView) -> Seq<Seq<char>> {
    values_under(request, secret_fields())
}

/// Whether a text is in a list.
fn listed(list: &Vec<String>, wanted: &String) -> (found: bool)
    ensures
        found == texts(list@).contains(wanted@),
{
    let mut i: usize = 0;
    while i < list.len()
        invariant
            i <= list.len(),
            forall|k: int| 0 <= k < i ==> (#[trigger] list@[k])@ != wanted@,
        decreases list.len() - i,
    {
        if list[i] == *wanted {
            assert(texts(list@)[i as int] == wanted@);
            return true;
        }
        i += 1;
    }
    assert forall|k: int| 0 <= k < texts(list@).len() implies texts(list@)[k] != wanted@ by {
        assert(texts(list@)[k] == list@[k]@);
    }
    false
}

/// The secret values of a request.
pub fn redaction_values(request: &Json) -> (values: Vec<String>)
    ensures
        texts(values@) == secrets(request@),
{
    let fields: [&str; 8] = [
        "password",
        "token",
        "accessKeyId",
        "secretAccessKey",
        "s3AccessKeyId",
        "s3SecretAccessKey",
        "sessionToken",
        "s3SessionToken",
    ];
    let ghost all = secret_fields();
    assert(names(fields@) =~= all);
    let mut values: Vec<String> = Vec::new();
    let mut i: usize = 0;
    assert(texts(values@) =~= seq![]);
    assert(all.take(0) =~= seq![]);
    while i < 8
        invariant
            i <= 8,
            fields.len() == 8,
            all == names(fields@),
            texts(values@) == values_under(request@, all.take(i as int)),
        decreases 8 - i,
    {
        let ghost before = texts(values@);
        proof {
            assert(all.take(i + 1).drop_last() =~= all.take(i as int));
            assert(all.take(i + 1).last() == fields@[i as int]@);
        }
        if let Some(value) = option1(request, fields[i]) {
            if !listed(&values, &value) {
                let ghost added = value@;
                values.push(value);
                assert(texts(values@) =~= before.push(added));
            }
        }
        i += 1;
    }
    assert(all.take(8) =~= all);
    values
}

/// Whether an option has no white space at either end, and something is left of it.
pub open spec fn option_like(value: Seq<char>) -> bool {
    value.len() > 0 && tight(value)
}

proof fn lemma_option_in(container: JsonView, fields: Seq<Seq<char>>)
    ensures
        option_in(container, fields) matches Some(value) ==> option_like(value),
    decreases fields.len(),
{
    if fields.len() > 0 {
        if let Some(value) = member(container, fields[0]) {
            trimming_leaves_tight_texts(plain_text(value));
        }
        lemma_option_in(container, fields.drop_first());
    }
}

proof fn lemma_option_among(list: Seq<JsonView>, fields: Seq<Seq<char>>)
    ensures
        option_among(list, fields) matches Some(value) ==> option_like(value),
    decreases list.len(),
{
    if list.len() > 0 {
        lemma_option_in(list[0], fields);
        lemma_option_among(list.drop_first(), fields);
    }
}

/// An option is never blank: it has no white space at either end, and something is left of it.
pub proof fn options_are_not_blank(request: JsonView, fields: Seq<Seq<char>>)
    ensures
        option_of(request, fields) matches Some(value) ==> option_like(value),
{
    lemma_option_among(containers(request), fields);
}

proof fn lemma_present_first(list: Seq<Option<JsonView>>)
    requires
        list.len() > 0,
        list[0] is Some,
    ensures
        present(list).len() > 0,
        present(list)[0] == list[0]->0,
    decreases list.len(),
{
    if list.len() > 1 {
        lemma_present_first(list.drop_last());
    } else {
        assert(present(list.drop_last()).len() == 0);
    }
}

/// An option that stands in the request itself goes before those of its profile and its sections.
pub proof fn the_request_goes_before_its_sections(request: JsonView, fields: Seq<Seq<char>>)
    requires
        option_in(request, fields) is Some,
    ensures
        option_of(request, fields) == option_in(request, fields),
{
    let profile = member(request, "profile"@);
    lemma_present_first(
        seq![
            Some(request),
            profile,
            member(request, "options"@),
            member(request, "auth"@),
            member(request, "secrets"@),
            member_of(profile, "options"@),
            member_of(profile, "auth"@),
            member_of(profile, "secrets"@),
        ],
    );
}

proof fn lemma_values_under(request: JsonView, fields: Seq<Seq<char>>)
    ensures
        values_under(request, fields).no_duplicates(),
        forall|i: int|
            0 <= i < values_under(request, fields).len() ==> option_like(
                #[trigger] values_under(request, fields)[i],
            ),
        forall|i: int|
            0 <= i < fields.len() ==> (option_of(request, seq![#[trigger] fields[i]]) matches Some(
                value,
            ) ==> values_under(request, fields).contains(value)),
    decreases fields.len(),
{
    if fields.len() > 0 {
        let front = fields.drop_last();
        let before = values_under(request, front);
        let out = values_under(request, fields);
        lemma_values_under(request, front);
        options_are_not_blank(request, seq![fields.last()]);
        assert forall|i: int| 0 <= i < fields.len() implies (option_of(
            request,
            seq![#[trigger] fields[i]],
        ) matches Some(value) ==> out.contains(value)) by {
            if let Some(value) = option_of(request, seq![fields[i]]) {
                if i < front.len() {
                    assert(front[i] == fields[i]);
                    let k = choose|k: int| 0 <= k < before.len() && before[k] == value;
                    assert(out[k] == value);
                } else if !before.contains(value) {
                    assert(out[out.len() - 1] == value);
                }
            }
        }
    }
}

/// The secrets of a request are not blank, none is listed twice, and no option with the name of a
/// secret is missing.
pub proof fn secrets_are_complete(request: JsonView)
    ensures
        secrets(request).no_duplicates(),
        forall|i: int|
            0 <= i < secrets(request).len() ==> option_like(#[trigger] secrets(request)[i]),
        forall|i: int|
            0 <= i < secret_fields().len() ==> (option_of(
                request,
                seq![#[trigger] secret_fields()[i]],
            ) matches Some(value) ==> secrets(request).contains(value)),
{
    lemma_values_under(request, secret_fields());
}

} // verus!
