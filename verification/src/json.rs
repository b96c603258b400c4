//! JSON values: the type that requests, catalog replies and metadata documents are held in.
use crate::text;
use vstd::prelude::*;

verus! {

/// A JSON number: an integer that fits, or the text that `serde_json` writes for a float.
pub enum JsonNumber {
    Unsigned(u64),
    Negative(i64),
    Float(String),
}

/// A JSON value. Of two members of an object with the same key, the later one counts.
pub enum Json {
    Null,
    Bool(bool),
    Number(JsonNumber),
    Text(String),
    Array(Vec<Json>),
    Object(Vec<(String, Json)>),
}

/// What a JSON number stands for.
pub enum NumberView {
    Unsigned(u64),
    Negative(i64),
    Float(Seq<char>),
}

/// What a JSON value stands for.
pub enum JsonView {
    Null,
    Bool(bool),
    Number(NumberView),
    Text(Seq<char>),
    Array(Seq<JsonView>),
    Object(Map<Seq<char>, JsonView>),
}

impl View for JsonNumber {
    type V = NumberView;

    open spec fn view(&self) -> NumberView {
        match self {
            JsonNumber::Unsigned(n) => NumberView::Unsigned(*n),
            JsonNumber::Negative(n) => NumberView::Negative(*n),
            JsonNumber::Float(written) => NumberView::Float(written@),
        }
    }
}

impl Json {
    /// What the value stands for.
    pub open spec fn model(self) -> JsonView
        decreases self,
    {
        match self {
            Json::Null => JsonView::Null,
            Json::Bool(flag) => JsonView::Bool(flag),
            Json::Number(number) => JsonView::Number(number@),
            Json::Text(content) => JsonView::Text(content@),
            Json::Array(items) => JsonView::Array(items_model(items@)),
            Json::Object(entries) => JsonView::Object(entries_model(entries@)),
        }
    }
}

/// What the values of a list stand for.
pub open spec fn items_model(items: Seq<Json>) -> Seq<JsonView>
    decreases items,
{
    Seq::new(
        items.len(),
        |i: int|
            if 0 <= i < items.len() {
                items[i].model()
            } else {
                JsonView::Null
            },
    )
}

/// What the members of an object stand for.
pub open spec fn entries_model(entries: Seq<(String, Json)>) -> Map<Seq<char>, JsonView>
    decreases entries,
{
    if entries.len() == 0 {
        Map::empty()
    } else {
        entries_model(entries.drop_last()).insert(entries.last().0@, entries.last().1.model())
    }
}

impl View for Json {
    type V = JsonView;

    open spec fn view(&self) -> JsonView {
        self.model()
    }
}

/// What an optional value stands for.
pub open spec fn seen(value: Option<&Json>) -> Option<JsonView> {
    match value {
        Some(json) => Some(json@),
        None => None,
    }
}

/// The member of an object under a key; nothing where the value is no object.
pub open spec fn member(value: JsonView, key: Seq<char>) -> Option<JsonView> {
    match value {
        JsonView::Object(members) => if members.dom().contains(key) {
            Some(members[key])
        } else {
            None
        },
        _ => None,
    }
}

/// The member under a key of an optional value.
pub open spec fn member_of(value: Option<JsonView>, key: Seq<char>) -> Option<JsonView> {
    match value {
        Some(inner) => member(inner, key),
        None => None,
    }
}

/// The characters of a string value.
pub open spec fn string_of(value: Option<JsonView>) -> Option<Seq<char>> {
    match value {
        Some(JsonView::Text(content)) => Some(content),
        _ => None,
    }
}

/// The items of an array value.
pub open spec fn items_of(value: Option<JsonView>) -> Option<Seq<JsonView>> {
    match value {
        Some(JsonView::Array(items)) => Some(items),
        _ => None,
    }
}

/// The flag of a boolean value.
pub open spec fn flag_of(value: Option<JsonView>) -> Option<bool> {
    match value {
        Some(JsonView::Bool(flag)) => Some(flag),
        _ => None,
    }
}

/// The text of a number.
pub open spec fn number_text(number: NumberView) -> Seq<char> {
    match number {
        NumberView::Unsigned(n) => text::decimal_of(n as nat),
        NumberView::Negative(n) => if n < 0 {
            seq!['-'] + text::decimal_of((-n) as nat)
        } else {
            text::decimal_of(n as nat)
        },
        NumberView::Float(written) => written,
    }
}

/// Whether a float is written as one of the two zeros, which are equal.
pub open spec fn float_zero(written: Seq<char>) -> bool {
    written == "0.0"@ || written == "-0.0"@
}

/// Whether two numbers are equal.
pub open spec fn same_number(a: NumberView, b: NumberView) -> bool {
    match (a, b) {
        (NumberView::Float(x), NumberView::Float(y)) => x == y || (float_zero(x) && float_zero(y)),
        _ => a == b,
    }
}

/// Whether two values are equal.
pub open spec fn same_value(a: JsonView, b: JsonView) -> bool
    decreases a,
{
    match (a, b) {
        (JsonView::Number(x), JsonView::Number(y)) => same_number(x, y),
        (JsonView::Array(x), JsonView::Array(y)) => {
            &&& x.len() == y.len()
            &&& forall|i: int| 0 <= i < x.len() ==> same_value(#[trigger] x[i], y[i])
        },
        (JsonView::Object(x), JsonView::Object(y)) => {
            &&& x.dom() == y.dom()
            &&& forall|key: Seq<char>| #[trigger]
                x.dom().contains(key) ==> same_value(x[key], y[key])
        },
        _ => a == b,
    }
}

proof fn lemma_entries_keys(entries: Seq<(String, Json)>)
    ensures
        forall|i: int| 0 <= i < entries.len() ==> entries_model(entries).dom().contains(
            #[trigger] entries[i].0@,
        ),
        forall|key: Seq<char>| #[trigger]
            entries_model(entries).dom().contains(key) ==> exists|i: int|
                0 <= i < entries.len() && #[trigger] entries[i].0@ == key,
    decreases entries.len(),
{
    if entries.len() > 0 {
        let front = entries.drop_last();
        lemma_entries_keys(front);
        assert forall|i: int| 0 <= i < entries.len() implies entries_model(
            entries,
        ).dom().contains(#[trigger] entries[i].0@) by {
            if i < front.len() {
                assert(front[i] == entries[i]);
            }
        }
        assert forall|key: Seq<char>| #[trigger]
            entries_model(entries).dom().contains(key) implies exists|i: int|
            0 <= i < entries.len() && #[trigger] entries[i].0@ == key by {
            if key == entries.last().0@ {
                assert(entries[entries.len() - 1].0@ == key);
            } else {
                assert(entries_model(front).dom().contains(key));
                let i = choose|i: int| 0 <= i < front.len() && #[trigger] front[i].0@ == key;
                assert(entries[i].0@ == key);
            }
        }
    }
}

/// The index of the member that counts under a key.
fn position(entries: &Vec<(String, Json)>, key: &str) -> (found: Option<usize>)
    ensures
        match found {
            Some(i) => {
                &&& i < entries.len()
                &&& entries_model(entries@).dom().contains(key@)
                &&& entries_model(entries@)[key@] == entries@[i as int].1@
            },
            None => !entries_model(entries@).dom().contains(key@),
        },
{
    let mut i: usize = entries.len();
    assert(entries@.take(i as int) == entries@);
    while i > 0
        invariant
            i <= entries.len(),
            entries_model(entries@).dom().contains(key@) == entries_model(
                entries@.take(i as int),
            ).dom().contains(key@),
            entries_model(entries@).dom().contains(key@) ==> entries_model(entries@)[key@]
                == entries_model(entries@.take(i as int))[key@],
        decreases i,
    {
        assert(entries@.take(i as int).drop_last() == entries@.take(i - 1));
        if text::same(entries[i - 1].0.as_str(), key) {
            return Some(i - 1);
        }
        i -= 1;
    }
    None
}

impl Json {
    /// The member of an object under a key.
    pub fn get(&self, key: &str) -> (found: Option<&Json>)
        ensures
            seen(found) == member(self@, key@),
    {
        match self {
            Json::Object(entries) => match position(entries, key) {
                Some(i) => Some(&entries[i].1),
                None => None,
            },
            _ => None,
        }
    }

    /// The text of a string value.
    pub fn as_str(&self) -> (content: Option<&str>)
        ensures
            match content {
                Some(found) => string_of(Some(self@)) == Some(found@),
                None => string_of(Some(self@)) is None,
            },
    {
        match self {
            Json::Text(content) => Some(content.as_str()),
            _ => None,
        }
    }

    /// The items of an array value.
    pub fn as_array(&self) -> (items: Option<&Vec<Json>>)
        ensures
            match items {
                Some(found) => items_of(Some(self@)) == Some(items_model(found@)),
                None => items_of(Some(self@)) is None,
            },
    {
        match self {
            Json::Array(items) => Some(items),
            _ => None,
        }
    }

    /// The flag of a boolean value.
    pub fn as_bool(&self) -> (flag: Option<bool>)
        ensures
            flag == flag_of(Some(self@)),
    {
        match self {
            Json::Bool(flag) => Some(*flag),
            _ => None,
        }
    }

    /// The text of a string member.
    pub fn text_at(&self, key: &str) -> (content: Option<&str>)
        ensures
            match content {
                Some(found) => string_of(member(self@, key@)) == Some(found@),
                None => string_of(member(self@, key@)) is None,
            },
    {
        match self.get(key) {
            Some(value) => value.as_str(),
            None => None,
        }
    }

    /// Whether two values are equal.
    pub fn same(&self, other: &Json) -> (equal: bool)
        ensures
            equal == same_value(self@, other@),
        decreases self,
    {
        match (self, other) {
            (Json::Null, Json::Null) => true,
            (Json::Bool(x), Json::Bool(y)) => *x == *y,
            (Json::Number(x), Json::Number(y)) => numbers_equal(x, y),
            (Json::Text(x), Json::Text(y)) => text::same(x.as_str(), y.as_str()),
            (Json::Array(x), Json::Array(y)) => items_equal(x, y),
            (Json::Object(x), Json::Object(y)) => entries_equal(x, y),
            _ => false,
        }
    }
}

/// Whether two lists hold equal values.
fn items_equal(x: &Vec<Json>, y: &Vec<Json>) -> (equal: bool)
    ensures
        equal == same_value(JsonView::Array(items_model(x@)), JsonView::Array(items_model(y@))),
    decreases x,
{
    if x.len() != y.len() {
        return false;
    }
    let mut i: usize = 0;
    while i < x.len()
        invariant
            x.len() == y.len(),
            i <= x.len(),
            forall|k: int|
                0 <= k < i ==> same_value(#[trigger] items_model(x@)[k], items_model(y@)[k]),
        decreases x.len() - i,
    {
        assert(decreases_to!(x => x@[i as int]));
        if !x[i].same(&y[i]) {
            assert(!same_value(items_model(x@)[i as int], items_model(y@)[i as int]));
            return false;
        }
        i += 1;
    }
    true
}

/// Whether two lists of members stand for equal objects.
fn entries_equal(x: &Vec<(String, Json)>, y: &Vec<(String, Json)>) -> (equal: bool)
    ensures
        equal == same_value(
            JsonView::Object(entries_model(x@)),
            JsonView::Object(entries_model(y@)),
        ),
    decreases x,
{
    let ghost xm = entries_model(x@);
    let ghost ym = entries_model(y@);
    proof {
        lemma_entries_keys(x@);
        lemma_entries_keys(y@);
    }
    let mut i: usize = 0;
    while i < x.len()
        invariant
            i <= x.len(),
            xm == entries_model(x@),
            ym == entries_model(y@),
            forall|k: int| 0 <= k < x.len() ==> xm.dom().contains(#[trigger] x@[k].0@),
            forall|k: int|
                0 <= k < i ==> {
                    let key = #[trigger] x@[k].0@;
                    ym.dom().contains(key) && same_value(xm[key], ym[key])
                },
        decreases x.len() - i,
    {
        let key = x[i].0.as_str();
        assert(xm.dom().contains(x@[i as int].0@));
        match (position(x, key), position(y, key)) {
            (Some(a), Some(b)) => {
                assert(decreases_to!(x => x@[a as int]));
                if !x[a].1.same(&y[b].1) {
                    assert(!same_value(xm[key@], ym[key@]));
                    return false;
                }
            },
            _ => {
                assert(xm.dom() != ym.dom());
                return false;
            },
        }
        i += 1;
    }
    let mut j: usize = 0;
    while j < y.len()
        invariant
            j <= y.len(),
            xm == entries_model(x@),
            ym == entries_model(y@),
            forall|k: int| 0 <= k < y.len() ==> ym.dom().contains(#[trigger] y@[k].0@),
            forall|k: int| 0 <= k < j ==> xm.dom().contains(#[trigger] y@[k].0@),
        decreases y.len() - j,
    {
        let key = y[j].0.as_str();
        assert(ym.dom().contains(y@[j as int].0@));
        if position(x, key).is_none() {
            assert(xm.dom() != ym.dom());
            return false;
        }
        j += 1;
    }
    assert(xm.dom() =~= ym.dom());
    true
}

/// Whether two numbers are equal.
fn numbers_equal(a: &JsonNumber, b: &JsonNumber) -> (equal: bool)
    ensures
        equal == same_number(a@, b@),
{
    match (a, b) {
        (JsonNumber::Unsigned(x), JsonNumber::Unsigned(y)) => *x == *y,
        (JsonNumber::Negative(x), JsonNumber::Negative(y)) => *x == *y,
        (JsonNumber::Float(x), JsonNumber::Float(y)) => text::same(x.as_str(), y.as_str()) || (
        is_float_zero(x.as_str()) && is_float_zero(y.as_str())),
        _ => false,
    }
}

/// Whether a float is written as zero.
fn is_float_zero(written: &str) -> (zero: bool)
    ensures
        zero == float_zero(written@),
{
    text::same(written, "0.0") || text::same(written, "-0.0")
}

impl JsonNumber {
    /// The number of an unsigned integer.
    pub fn from_unsigned(n: u64) -> (number: JsonNumber)
        ensures
            number@ == NumberView::Unsigned(n),
    {
        JsonNumber::Unsigned(n)
    }

    /// The number of a signed integer: only a negative one is held as such.
    pub fn from_signed(n: i64) -> (number: JsonNumber)
        ensures
            number@ == signed_view(n),
    {
        if n < 0 {
            JsonNumber::Negative(n)
        } else {
            JsonNumber::Unsigned(n as u64)
        }
    }

    /// The text of the number.
    pub fn written(&self) -> (out: String)
        ensures
            out@ == number_text(self@),
    {
        match self {
            JsonNumber::Unsigned(n) => text::decimal(*n),
            JsonNumber::Negative(n) => {
                if *n < 0 {
                    let mut out = String::new();
                    out.push('-');
                    let digits = if *n == i64::MIN {
                        text::decimal(0x8000_0000_0000_0000)
                    } else {
                        text::decimal((-*n) as u64)
                    };
                    out.append(digits.as_str());
                    assert(out@ == number_text(self@));
                    out
                } else {
                    text::decimal(*n as u64)
                }
            },
            JsonNumber::Float(written) => written.clone(),
        }
    }
}

/// How a signed integer is held.
pub open spec fn signed_view(n: i64) -> NumberView {
    if n < 0 {
        NumberView::Negative(n)
    } else {
        NumberView::Unsigned(n as u64)
    }
}

impl Clone for JsonNumber {
    fn clone(&self) -> (copy: Self)
        ensures
            copy@ == self@,
    {
        match self {
            JsonNumber::Unsigned(n) => JsonNumber::Unsigned(*n),
            JsonNumber::Negative(n) => JsonNumber::Negative(*n),
            JsonNumber::Float(written) => JsonNumber::Float(written.clone()),
        }
    }
}

impl Clone for Json {
    fn clone(&self) -> (copy: Self)
        ensures
            copy@ == self@,
        decreases self,
    {
        match self {
            Json::Null => Json::Null,
            Json::Bool(flag) => Json::Bool(*flag),
            Json::Number(number) => Json::Number(number.clone()),
            Json::Text(content) => Json::Text(content.clone()),
            Json::Array(items) => Json::Array(items_copy(items)),
            Json::Object(entries) => Json::Object(entries_copy(entries)),
        }
    }
}

/// A copy of a list of values.
pub fn items_copy(items: &Vec<Json>) -> (copy: Vec<Json>)
    ensures
        items_model(copy@) == items_model(items@),
    decreases items,
{
    let mut copy: Vec<Json> = Vec::new();
    let mut i: usize = 0;
    while i < items.len()
        invariant
            i <= items.len(),
            copy.len() == i,
            forall|k: int| 0 <= k < i ==> (#[trigger] copy@[k])@ == items@[k]@,
        decreases items.len() - i,
    {
        assert(decreases_to!(items => items@[i as int]));
        copy.push(items[i].clone());
        i += 1;
    }
    assert(items_model(copy@) =~= items_model(items@));
    copy
}

/// A copy of a list of members.
fn entries_copy(entries: &Vec<(String, Json)>) -> (copy: Vec<(String, Json)>)
    ensures
        entries_model(copy@) == entries_model(entries@),
    decreases entries,
{
    let mut copy: Vec<(String, Json)> = Vec::new();
    let mut i: usize = 0;
    while i < entries.len()
        invariant
            i <= entries.len(),
            copy.len() == i,
            entries_model(copy@) == entries_model(entries@.take(i as int)),
        decreases entries.len() - i,
    {
        assert(decreases_to!(entries => entries@[i as int]));
        let ghost before = copy@;
        copy.push((entries[i].0.clone(), entries[i].1.clone()));
        proof {
            assert(copy@.drop_last() == before);
            assert(entries@.take(i + 1).drop_last() == entries@.take(i as int));
        }
        i += 1;
    }
    assert(entries@.take(i as int) == entries@);
    copy
}

/// The members of an object that is being built.
pub struct Members {
    pub entries: Vec<(String, Json)>,
}

impl View for Members {
    type V = Map<Seq<char>, JsonView>;

    open spec fn view(&self) -> Map<Seq<char>, JsonView> {
        entries_model(self.entries@)
    }
}

impl Members {
    /// No members.
    pub fn new() -> (members: Members)
        ensures
            members@ == Map::<Seq<char>, JsonView>::empty(),
    {
        Members { entries: Vec::new() }
    }

    /// The members with one more.
    pub fn with(self, key: &str, value: Json) -> (members: Members)
        ensures
            members@ == self@.insert(key@, value@),
    {
        let mut entries = self.entries;
        let ghost before = entries@;
        entries.push((key.to_string(), value));
        assert(entries@.drop_last() =~= before);
        Members { entries }
    }

    /// The members with one more, a string.
    pub fn with_text(self, key: &str, content: &str) -> (members: Members)
        ensures
            members@ == self@.insert(key@, JsonView::Text(content@)),
    {
        self.with(key, Json::Text(content.to_string()))
    }

    /// The object of the members.
    pub fn object(self) -> (json: Json)
        ensures
            json@ == JsonView::Object(self@),
    {
        Json::Object(self.entries)
    }
}

/// No members.
pub open spec fn no_members() -> Map<Seq<char>, JsonView> {
    Map::empty()
}

} // verus!
