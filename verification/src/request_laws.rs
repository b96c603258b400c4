//! What the options of a request promise, stated on the members of the request.
use crate::json::{member, member_of, JsonView, NumberView};
use crate::request::{
    containers, option_among, option_at, option_in, option_like, option_of, present, secrets,
    values_under,
};
use crate::text::{
    blank, decimal_of, tight, trimmed, trimming_leaves_tight_texts, trimming_takes_blanks_away,
    white_space,
};
use crate::text_laws::numbers_are_read_back;
use vstd::prelude::*;

verus! {

/// The text of an option is what is left of a string without the white space around it; a blank
/// string is no option.
pub proof fn strings_are_trimmed_options(
    container: JsonView,
    name: Seq<char>,
    before: Seq<char>,
    content: Seq<char>,
    after: Seq<char>,
)
    requires
        blank(before),
        tight(content),
        blank(after),
        container is Object,
        container->Object_0.dom().contains(name),
        container->Object_0[name] == JsonView::Text(before + content + after),
    ensures
        content.len() > 0 ==> option_at(container, name) == Some(content),
        content.len() == 0 ==> option_at(container, name) is None,
{
    trimming_takes_blanks_away(before, content, after);
}

/// Integers and flags are options by their texts; null, arrays and objects are none, and neither is
/// what is not there.
pub proof fn other_values_as_options(container: JsonView, name: Seq<char>, value: JsonView)
    requires
        container is Object,
        container->Object_0.dom().contains(name) ==> container->Object_0[name] == value,
    ensures
        !container->Object_0.dom().contains(name) ==> option_at(container, name) is None,
        container->Object_0.dom().contains(name) ==> match value {
            JsonView::Bool(flag) => option_at(container, name) == Some(
                if flag {
                    seq!['t', 'r', 'u', 'e']
                } else {
                    seq!['f', 'a', 'l', 's', 'e']
                },
            ),
            JsonView::Number(NumberView::Unsigned(n)) => option_at(container, name) == Some(
                decimal_of(n as nat),
            ),
            JsonView::Number(NumberView::Negative(n)) => n < 0 ==> option_at(container, name)
                == Some(seq!['-'] + decimal_of((-n) as nat)),
            JsonView::Number(NumberView::Float(written)) => option_like(written) ==> option_at(
                container,
                name,
            ) == Some(written),
            JsonView::Text(_) => true,
            _ => option_at(container, name) is None,
        },
{
    if container->Object_0.dom().contains(name) {
        match value {
            JsonView::Bool(flag) => {
                reveal_strlit("true");
                reveal_strlit("false");
                assert("true"@ =~= seq!['t', 'r', 'u', 'e']);
                assert("false"@ =~= seq!['f', 'a', 'l', 's', 'e']);
                trimming_leaves_tight_texts("true"@);
                trimming_leaves_tight_texts("false"@);
            },
            JsonView::Number(NumberView::Unsigned(n)) => {
                lemma_digits_tight(n as nat);
            },
            JsonView::Number(NumberView::Negative(n)) => {
                if n < 0 {
                    lemma_digits_tight((-n) as nat);
                }
            },
            JsonView::Number(NumberView::Float(written)) => {
                trimming_leaves_tight_texts(written);
            },
            _ => {},
        }
    }
}

proof fn lemma_digits_tight(n: nat)
    ensures
        trimmed(decimal_of(n)) == decimal_of(n),
        trimmed(seq!['-'] + decimal_of(n)) == seq!['-'] + decimal_of(n),
        decimal_of(n).len() > 0,
{
    numbers_are_read_back(n);
    let digits = decimal_of(n);
    assert(!white_space(digits[0]) && !white_space(digits[digits.len() - 1]));
    trimming_leaves_tight_texts(digits);
    let signed = seq!['-'] + digits;
    assert(signed.last() == digits.last());
    trimming_leaves_tight_texts(signed);
}

/// Of the options that one object holds under several names, the one whose name comes first counts.
pub proof fn earlier_names_win(container: JsonView, names: Seq<Seq<char>>, i: int)
    requires
        0 <= i < names.len(),
        option_at(container, names[i]) is Some,
        forall|j: int| 0 <= j < i ==> option_at(container, #[trigger] names[j]) is None,
    ensures
        option_in(container, names) == option_at(container, names[i]),
    decreases names.len(),
{
    if i > 0 {
        let rest = names.drop_first();
        assert(option_at(container, names[0]) is None);
        assert forall|j: int| 0 <= j < i - 1 implies option_at(container, #[trigger] rest[j]) is None by {
            assert(rest[j] == names[j + 1]);
        }
        earlier_names_win(container, rest, i - 1);
    }
}

/// An object without an option under any of several names gives none.
pub proof fn no_name_no_option(container: JsonView, names: Seq<Seq<char>>)
    requires
        forall|j: int| 0 <= j < names.len() ==> option_at(container, #[trigger] names[j]) is None,
    ensures
        option_in(container, names) is None,
    decreases names.len(),
{
    if names.len() > 0 {
        let rest = names.drop_first();
        assert(option_at(container, names[0]) is None);
        assert forall|j: int| 0 <= j < rest.len() implies option_at(
            container,
            #[trigger] rest[j],
        ) is None by {
            assert(rest[j] == names[j + 1]);
        }
        no_name_no_option(container, rest);
    }
}

/// The first option of a list that is there.
pub open spec fn first_there(list: Seq<Option<Seq<char>>>) -> Option<Seq<char>>
    decreases list.len(),
{
    if list.len() == 0 {
        None
    } else if list[0] is Some {
        list[0]
    } else {
        first_there(list.drop_first())
    }
}

/// The option that an optional object holds under one of several names.
pub open spec fn option_there(place: Option<JsonView>, names: Seq<Seq<char>>) -> Option<Seq<char>> {
    match place {
        Some(container) => option_in(container, names),
        None => None,
    }
}

proof fn lemma_present_among(list: Seq<Option<JsonView>>, names: Seq<Seq<char>>)
    ensures
        option_among(present(list), names) == first_there(
            Seq::new(list.len(), |i: int| option_there(list[i], names)),
        ),
    decreases list.len(),
{
    let found = Seq::new(list.len(), |i: int| option_there(list[i], names));
    if list.len() > 0 {
        let rest = list.drop_first();
        lemma_present_among(rest, names);
        lemma_present_first(list);
        assert(found.drop_first() =~= Seq::new(
            rest.len(),
            |i: int| option_there(rest[i], names),
        ));
        if let Some(value) = list[0] {
            assert((seq![value] + present(rest)).drop_first() =~= present(rest));
        }
    }
}

proof fn lemma_present_first(list: Seq<Option<JsonView>>)
    requires
        list.len() > 0,
    ensures
        present(list) == match list[0] {
            Some(value) => seq![value] + present(list.drop_first()),
            None => present(list.drop_first()),
        },
    decreases list.len(),
{
    let rest = list.drop_first();
    if list.len() == 1 {
        assert(list.drop_last() =~= rest);
        assert(present(rest) =~= seq![]);
        assert(present(list) =~= match list[0] {
            Some(value) => seq![value] + present(rest),
            None => present(rest),
        });
    } else {
        let front = list.drop_last();
        lemma_present_first(front);
        assert(front.drop_first() =~= rest.drop_last());
        assert(rest.last() == list.last());
        assert(present(list) =~= match list[0] {
            Some(value) => seq![value] + present(rest),
            None => present(rest),
        });
    }
}

/// An option is looked for in the request, its profile, its options, its auth and its secrets, and
/// then in the options, the auth and the secrets of its profile; the first of these that holds it
/// under one of the names counts.
pub proof fn options_are_looked_for_in_eight_places(request: JsonView, names: Seq<Seq<char>>)
    ensures
        ({
            let profile = member(request, "profile"@);
            option_of(request, names) == first_there(
                seq![
                    option_in(request, names),
                    option_there(profile, names),
                    option_there(member(request, "options"@), names),
                    option_there(member(request, "auth"@), names),
                    option_there(member(request, "secrets"@), names),
                    option_there(member_of(profile, "options"@), names),
                    option_there(member_of(profile, "auth"@), names),
                    option_there(member_of(profile, "secrets"@), names),
                ],
            )
        }),
{
    let profile = member(request, "profile"@);
    let list: Seq<Option<JsonView>> = seq![
        Some(request),
        profile,
        member(request, "options"@),
        member(request, "auth"@),
        member(request, "secrets"@),
        member_of(profile, "options"@),
        member_of(profile, "auth"@),
        member_of(profile, "secrets"@),
    ];
    lemma_present_among(list, names);
    assert(Seq::new(list.len(), |i: int| option_there(list[i], names)) =~= seq![
        option_in(request, names),
        option_there(profile, names),
        option_there(member(request, "options"@), names),
        option_there(member(request, "auth"@), names),
        option_there(member(request, "secrets"@), names),
        option_there(member_of(profile, "options"@), names),
        option_there(member_of(profile, "auth"@), names),
        option_there(member_of(profile, "secrets"@), names),
    ]);
}

/// Whether a value is the one that counts of the options under several names: it is the only one that
/// the request holds at all, or it stands in the request itself and no earlier name does.
pub open spec fn counts(request: JsonView, names: Seq<Seq<char>>, i: int, value: Seq<char>) -> bool {
    &&& 0 <= i < names.len()
    &&& {
        ||| {
            &&& option_of(request, seq![names[i]]) == Some(value)
            &&& forall|j: int|
                0 <= j < names.len() && j != i ==> option_of(
                    request,
                    seq![#[trigger] names[j]],
                ) is None
        }
        ||| {
            &&& option_at(request, names[i]) == Some(value)
            &&& forall|j: int| 0 <= j < i ==> option_at(request, #[trigger] names[j]) is None
        }
    }
}

/// Whether a request holds no option under any of several names.
pub open spec fn holds_none(request: JsonView, names: Seq<Seq<char>>) -> bool {
    forall|j: int| 0 <= j < names.len() ==> option_of(request, seq![#[trigger] names[j]]) is None
}

proof fn lemma_single(container: JsonView, name: Seq<char>)
    ensures
        option_in(container, seq![name]) == option_at(container, name),
{
    assert(seq![name].drop_first() =~= Seq::<Seq<char>>::empty());
    assert(option_in(container, Seq::<Seq<char>>::empty()) is None);
}

proof fn lemma_only_in(container: JsonView, names: Seq<Seq<char>>, i: int)
    requires
        0 <= i < names.len(),
        forall|j: int|
            0 <= j < names.len() && j != i ==> option_at(container, #[trigger] names[j]) is None,
    ensures
        option_in(container, names) == option_at(container, names[i]),
{
    if option_at(container, names[i]) is Some {
        earlier_names_win(container, names, i);
    } else {
        no_name_no_option(container, names);
    }
}

proof fn lemma_only_among(list: Seq<JsonView>, names: Seq<Seq<char>>, i: int)
    requires
        0 <= i < names.len(),
        forall|j: int|
            0 <= j < names.len() && j != i ==> option_among(
                list,
                seq![#[trigger] names[j]],
            ) is None,
    ensures
        option_among(list, names) == option_among(list, seq![names[i]]),
    decreases list.len(),
{
    if list.len() > 0 {
        let rest = list.drop_first();
        assert forall|j: int| 0 <= j < names.len() && j != i implies option_at(
            list[0],
            #[trigger] names[j],
        ) is None && option_among(rest, seq![names[j]]) is None by {
            lemma_single(list[0], names[j]);
        }
        lemma_single(list[0], names[i]);
        lemma_only_in(list[0], names, i);
        lemma_only_among(rest, names, i);
    }
}

/// The value that counts is the option that is read.
pub proof fn the_value_that_counts_is_read(
    request: JsonView,
    names: Seq<Seq<char>>,
    i: int,
    value: Seq<char>,
)
    requires
        counts(request, names, i, value),
    ensures
        option_of(request, names) == Some(value),
{
    if option_at(request, names[i]) == Some(value) && (forall|j: int|
        0 <= j < i ==> option_at(request, #[trigger] names[j]) is None) {
        earlier_names_win(request, names, i);
        options_are_looked_for_in_eight_places(request, names);
    } else {
        lemma_only_among(containers(request), names, i);
    }
}

proof fn lemma_none_among(list: Seq<JsonView>, names: Seq<Seq<char>>)
    requires
        forall|j: int|
            0 <= j < names.len() ==> option_among(list, seq![#[trigger] names[j]]) is None,
    ensures
        option_among(list, names) is None,
{
    if names.len() > 0 {
        lemma_only_among(list, names, 0);
    } else {
        lemma_no_names(list, names);
    }
}

proof fn lemma_no_names(list: Seq<JsonView>, names: Seq<Seq<char>>)
    requires
        names.len() == 0,
    ensures
        option_among(list, names) is None,
    decreases list.len(),
{
    if list.len() > 0 {
        lemma_no_names(list.drop_first(), names);
    }
}

/// Where a request holds no option under any of several names, none is read.
pub proof fn nothing_held_is_nothing_read(request: JsonView, names: Seq<Seq<char>>)
    requires
        holds_none(request, names),
    ensures
        option_of(request, names) is None,
{
    lemma_none_among(containers(request), names);
}

/// The values of the password, the token, the access keys, their secrets and the session tokens of a
/// request are its secrets, and nothing else is.
pub proof fn secrets_are_those_of_eight_options(request: JsonView, value: Seq<char>)
    ensures
        secrets(request).contains(value) <==> ({
            ||| option_of(request, seq!["password"@]) == Some(value)
            ||| option_of(request, seq!["token"@]) == Some(value)
            ||| option_of(request, seq!["accessKeyId"@]) == Some(value)
            ||| option_of(request, seq!["secretAccessKey"@]) == Some(value)
            ||| option_of(request, seq!["s3AccessKeyId"@]) == Some(value)
            ||| option_of(request, seq!["s3SecretAccessKey"@]) == Some(value)
            ||| option_of(request, seq!["sessionToken"@]) == Some(value)
            ||| option_of(request, seq!["s3SessionToken"@]) == Some(value)
        }),
{
    let names = seq![
        "password"@,
        "token"@,
        "accessKeyId"@,
        "secretAccessKey"@,
        "s3AccessKeyId"@,
        "s3SecretAccessKey"@,
        "sessionToken"@,
        "s3SessionToken"@,
    ];
    assert(crate::request::secret_fields() =~= names);
    lemma_values_under(request, names, value);
    if secrets(request).contains(value) {
        let i = choose|i: int|
            0 <= i < names.len() && option_of(request, seq![#[trigger] names[i]]) == Some(value);
        assert(0 <= i < 8);
    }
    assert(names[0] == "password"@ && names[1] == "token"@ && names[2] == "accessKeyId"@);
    assert(names[3] == "secretAccessKey"@ && names[4] == "s3AccessKeyId"@);
    assert(names[5] == "s3SecretAccessKey"@ && names[6] == "sessionToken"@);
    assert(names[7] == "s3SessionToken"@);
}

/// The values of a list that are there, each where it comes first.
pub open spec fn values_once(list: Seq<Option<Seq<char>>>) -> Seq<Seq<char>>
    decreases list.len(),
{
    if list.len() == 0 {
        seq![]
    } else {
        let front = values_once(list.drop_last());
        match list.last() {
            Some(value) if !front.contains(value) => front.push(value),
            _ => front,
        }
    }
}

proof fn lemma_values_once(request: JsonView, names: Seq<Seq<char>>)
    ensures
        values_under(request, names) == values_once(
            Seq::new(names.len(), |i: int| option_of(request, seq![names[i]])),
        ),
    decreases names.len(),
{
    if names.len() > 0 {
        let front = names.drop_last();
        let list = Seq::new(names.len(), |i: int| option_of(request, seq![names[i]]));
        lemma_values_once(request, front);
        assert(list.drop_last() =~= Seq::new(
            front.len(),
            |i: int| option_of(request, seq![front[i]]),
        ));
    }
}

/// The secrets of a request come in the order of the eight options, each once.
pub proof fn secrets_come_in_order(request: JsonView)
    ensures
        secrets(request) == values_once(
            seq![
                option_of(request, seq!["password"@]),
                option_of(request, seq!["token"@]),
                option_of(request, seq!["accessKeyId"@]),
                option_of(request, seq!["secretAccessKey"@]),
                option_of(request, seq!["s3AccessKeyId"@]),
                option_of(request, seq!["s3SecretAccessKey"@]),
                option_of(request, seq!["sessionToken"@]),
                option_of(request, seq!["s3SessionToken"@]),
            ],
        ),
{
    let names = crate::request::secret_fields();
    lemma_values_once(request, names);
    assert(Seq::new(names.len(), |i: int| option_of(request, seq![names[i]])) =~= seq![
        option_of(request, seq!["password"@]),
        option_of(request, seq!["token"@]),
        option_of(request, seq!["accessKeyId"@]),
        option_of(request, seq!["secretAccessKey"@]),
        option_of(request, seq!["s3AccessKeyId"@]),
        option_of(request, seq!["s3SecretAccessKey"@]),
        option_of(request, seq!["sessionToken"@]),
        option_of(request, seq!["s3SessionToken"@]),
    ]);
}

proof fn lemma_values_under(request: JsonView, names: Seq<Seq<char>>, value: Seq<char>)
    ensures
        values_under(request, names).contains(value) <==> exists|i: int|
            0 <= i < names.len() && option_of(request, seq![#[trigger] names[i]]) == Some(value),
    decreases names.len(),
{
    if names.len() > 0 {
        let front = names.drop_last();
        let before = values_under(request, front);
        let out = values_under(request, names);
        lemma_values_under(request, front, value);
        if out.contains(value) {
            if before.contains(value) {
                let i = choose|i: int|
                    0 <= i < front.len() && option_of(request, seq![#[trigger] front[i]]) == Some(
                        value,
                    );
                assert(option_of(request, seq![names[i]]) == Some(value));
            } else {
                let k = choose|k: int| 0 <= k < out.len() && out[k] == value;
                assert(k == before.len()) by {
                    if k < before.len() {
                        assert(before[k] == value);
                    }
                }
                assert(option_of(request, seq![names[names.len() - 1]]) == Some(value));
            }
        }
        if exists|i: int|
            0 <= i < names.len() && option_of(request, seq![#[trigger] names[i]]) == Some(value) {
            let i = choose|i: int|
                0 <= i < names.len() && option_of(request, seq![#[trigger] names[i]]) == Some(
                    value,
                );
            if i < front.len() {
                assert(option_of(request, seq![front[i]]) == Some(value));
                let k = choose|k: int| 0 <= k < before.len() && before[k] == value;
                assert(out[k] == value);
            } else if before.contains(value) {
                let k = choose|k: int| 0 <= k < before.len() && before[k] == value;
                assert(out[k] == value);
            } else {
                assert(out[out.len() - 1] == value);
            }
        }
    }
}

} // verus!
