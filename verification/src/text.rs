//! Text as sequences of characters: trimming, searching, replacing and rendering.
//!
//! Every function states its result over the characters of its arguments.
use vstd::prelude::*;

verus! {

/// `String::push`: appends the given character to the end of the text.
pub assume_specification[ String::push ](receiver: &mut String, ch: char)
    ensures
        final(receiver)@ == old(receiver)@.push(ch),
;

/// The characters of each text of a list.
pub open spec fn texts(list: Seq<String>) -> Seq<Seq<char>> {
    Seq::new(list.len(), |i: int| list[i]@)
}

/// The characters of an optional text.
pub open spec fn optional(text: Option<String>) -> Option<Seq<char>> {
    match text {
        Some(t) => Some(t@),
        None => None,
    }
}

/// The Unicode `White_Space` property.
pub open spec fn white_space(c: char) -> bool {
    let n = c as u32;
    ||| 0x9 <= n <= 0xd
    ||| n == 0x20
    ||| n == 0x85
    ||| n == 0xa0
    ||| n == 0x1680
    ||| 0x2000 <= n <= 0x200a
    ||| n == 0x2028
    ||| n == 0x2029
    ||| n == 0x202f
    ||| n == 0x205f
    ||| n == 0x3000
}

/// A text without its leading white space.
pub open spec fn trimmed_start(s: Seq<char>) -> Seq<char>
    decreases s.len(),
{
    if s.len() > 0 && white_space(s[0]) {
        trimmed_start(s.drop_first())
    } else {
        s
    }
}

/// A text without its trailing white space.
pub open spec fn trimmed_end(s: Seq<char>) -> Seq<char>
    decreases s.len(),
{
    if s.len() > 0 && white_space(s.last()) {
        trimmed_end(s.drop_last())
    } else {
        s
    }
}

/// A text without white space at either end.
pub open spec fn trimmed(s: Seq<char>) -> Seq<char> {
    trimmed_end(trimmed_start(s))
}

/// A text without the leading occurrences of a character.
pub open spec fn without_leading(s: Seq<char>, c: char) -> Seq<char>
    decreases s.len(),
{
    if s.len() > 0 && s[0] == c {
        without_leading(s.drop_first(), c)
    } else {
        s
    }
}

/// A text without the trailing occurrences of a character.
pub open spec fn without_trailing(s: Seq<char>, c: char) -> Seq<char>
    decreases s.len(),
{
    if s.len() > 0 && s.last() == c {
        without_trailing(s.drop_last(), c)
    } else {
        s
    }
}

/// A text with every occurrence of `pattern` replaced, the leftmost first and without overlaps.
pub open spec fn replaced(s: Seq<char>, pattern: Seq<char>, with: Seq<char>) -> Seq<char>
    decreases s.len(),
{
    if s.len() == 0 || pattern.len() == 0 {
        s
    } else if pattern.is_prefix_of(s) {
        with + replaced(s.skip(pattern.len() as int), pattern, with)
    } else {
        seq![s[0]] + replaced(s.skip(1), pattern, with)
    }
}

/// The index of the first occurrence of a character, or the length where there is none.
pub open spec fn first_at(s: Seq<char>, c: char) -> nat
    decreases s.len(),
{
    if s.len() == 0 || s[0] == c {
        0
    } else {
        1 + first_at(s.drop_first(), c)
    }
}

/// The pieces of a text between the occurrences of a character.
pub open spec fn pieces(s: Seq<char>, c: char) -> Seq<Seq<char>>
    decreases s.len(),
{
    let at = first_at(s, c) as int;
    if at < s.len() {
        seq![s.take(at)] + pieces(s.skip(at + 1), c)
    } else {
        seq![s]
    }
}

/// The texts of a list with a separator between each two.
pub open spec fn joined(list: Seq<Seq<char>>, separator: Seq<char>) -> Seq<char>
    decreases list.len(),
{
    if list.len() == 0 {
        seq![]
    } else if list.len() == 1 {
        list[0]
    } else {
        joined(list.drop_last(), separator) + separator + list.last()
    }
}

/// A character with the letters `A` to `Z` mapped to `a` to `z`.
pub open spec fn lowered_char(c: char) -> char {
    if 'A' <= c && c <= 'Z' {
        (c as u8 + 32) as char
    } else {
        c
    }
}

/// A text with the letters `A` to `Z` mapped to `a` to `z`.
pub open spec fn lowered(s: Seq<char>) -> Seq<char> {
    Seq::new(s.len(), |i: int| lowered_char(s[i]))
}

/// The decimal digit with the given value.
pub open spec fn decimal_digit(n: int) -> char {
    (n + 48) as char
}

/// The decimal digits of a number, without leading zeros.
pub open spec fn decimal_of(n: nat) -> Seq<char>
    decreases n,
{
    if n < 10 {
        seq![decimal_digit(n as int)]
    } else {
        decimal_of(n / 10).push(decimal_digit((n % 10) as int))
    }
}

/// The order of texts by their first differing character, a proper prefix coming first.
pub open spec fn precedes(a: Seq<char>, b: Seq<char>) -> bool
    decreases a.len(),
{
    if b.len() == 0 {
        false
    } else if a.len() == 0 {
        true
    } else if a[0] != b[0] {
        a[0] < b[0]
    } else {
        precedes(a.drop_first(), b.drop_first())
    }
}

/// Whether a text has no white space at either end.
pub open spec fn tight(s: Seq<char>) -> bool {
    s.len() > 0 ==> !white_space(s[0]) && !white_space(s.last())
}

proof fn lemma_trimmed_start(s: Seq<char>)
    ensures
        trimmed_start(s).len() > 0 ==> !white_space(trimmed_start(s)[0]),
    decreases s.len(),
{
    if s.len() > 0 && white_space(s[0]) {
        lemma_trimmed_start(s.drop_first());
    }
}

proof fn lemma_trimmed_end(s: Seq<char>)
    ensures
        trimmed_end(s).is_prefix_of(s),
        trimmed_end(s).len() > 0 ==> !white_space(trimmed_end(s).last()),
    decreases s.len(),
{
    if s.len() > 0 && white_space(s.last()) {
        lemma_trimmed_end(s.drop_last());
        assert(trimmed_end(s) =~= s.take(trimmed_end(s).len() as int));
    } else {
        assert(s =~= s.take(s.len() as int));
    }
}

/// Trimming leaves no white space at either end, and leaves a text alone that has none there.
pub proof fn trimming_leaves_tight_texts(s: Seq<char>)
    ensures
        tight(trimmed(s)),
        tight(s) ==> trimmed(s) == s,
{
    lemma_trimmed_start(s);
    lemma_trimmed_end(trimmed_start(s));
    if trimmed(s).len() > 0 {
        assert(trimmed(s)[0] == trimmed_start(s)[0]);
    }
}

proof fn lemma_first_at_joined(s: Seq<char>, c: char, t: Seq<char>)
    ensures
        first_at(s + seq![c] + t, c) == first_at(s, c),
        first_at(s, c) <= s.len(),
    decreases s.len(),
{
    let whole = s + seq![c] + t;
    if s.len() > 0 && s[0] != c {
        assert(whole[0] == s[0]);
        assert(whole.drop_first() =~= s.drop_first() + seq![c] + t);
        lemma_first_at_joined(s.drop_first(), c, t);
    } else if s.len() == 0 {
        assert(whole[0] == c);
    } else {
        assert(whole[0] == s[0]);
    }
}

/// Splitting takes a text apart at each occurrence of the character.
pub proof fn splitting_takes_texts_apart(s: Seq<char>, c: char, t: Seq<char>)
    ensures
        pieces(s + seq![c] + t, c) == pieces(s, c) + pieces(t, c),
    decreases s.len(),
{
    let whole = s + seq![c] + t;
    let at = first_at(s, c) as int;
    lemma_first_at_joined(s, c, t);
    if at < s.len() {
        assert(whole.take(at) =~= s.take(at));
        assert(whole.skip(at + 1) =~= s.skip(at + 1) + seq![c] + t);
        splitting_takes_texts_apart(s.skip(at + 1), c, t);
        assert(seq![s.take(at)] + (pieces(s.skip(at + 1), c) + pieces(t, c)) =~= pieces(s, c)
            + pieces(t, c));
    } else {
        assert(whole.take(at) =~= s);
        assert(whole.skip(at + 1) =~= t);
    }
}

proof fn lemma_no_occurrence(s: Seq<char>, c: char)
    requires
        !s.contains(c),
    ensures
        first_at(s, c) == s.len(),
    decreases s.len(),
{
    if s.len() > 0 {
        assert(s.contains(s[0]));
        assert(!s.drop_first().contains(c)) by {
            if s.drop_first().contains(c) {
                let i = choose|i: int| 0 <= i < s.drop_first().len() && s.drop_first()[i] == c;
                assert(s[i + 1] == c);
            }
        }
        lemma_no_occurrence(s.drop_first(), c);
    }
}

/// Where the first text does not hold a character, the first occurrence in the two texts around it is
/// the one between them.
pub proof fn lemma_first_between(s: Seq<char>, c: char, t: Seq<char>)
    requires
        !s.contains(c),
    ensures
        first_at(s + seq![c] + t, c) == s.len(),
        first_at(s, c) == s.len(),
{
    lemma_first_at_joined(s, c, t);
    lemma_no_occurrence(s, c);
}

/// Splitting undoes joining with a character that none of the texts holds.
pub proof fn splitting_undoes_joining(list: Seq<Seq<char>>, separator: Seq<char>, c: char)
    requires
        separator == seq![c],
        list.len() > 0,
        forall|i: int| 0 <= i < list.len() ==> !(#[trigger] list[i]).contains(c),
    ensures
        pieces(joined(list, separator), c) == list,
    decreases list.len(),
{
    let last = list.last();
    assert(!list[list.len() - 1].contains(c));
    lemma_no_occurrence(last, c);
    assert(pieces(last, c) =~= seq![last]);
    if list.len() == 1 {
        assert(list =~= seq![last]);
    } else {
        let front = list.drop_last();
        assert forall|i: int| 0 <= i < front.len() implies !(#[trigger] front[i]).contains(c) by {
            assert(front[i] == list[i]);
        }
        splitting_undoes_joining(front, separator, c);
        splitting_takes_texts_apart(joined(front, separator), c, last);
        assert(front + seq![last] =~= list);
    }
}

proof fn lemma_without_trailing(s: Seq<char>, c: char)
    ensures
        without_trailing(s, c).is_prefix_of(s),
        without_trailing(s, c).len() > 0 ==> without_trailing(s, c).last() != c,
    decreases s.len(),
{
    if s.len() > 0 && s.last() == c {
        lemma_without_trailing(s.drop_last(), c);
        assert(without_trailing(s, c) =~= s.take(without_trailing(s, c).len() as int));
    } else {
        assert(s =~= s.take(s.len() as int));
    }
}

/// A text whose trailing occurrences of a character are taken away does not end in the character, and
/// begins as it did.
pub proof fn no_trailing_occurrence_is_left(s: Seq<char>, c: char)
    ensures
        without_trailing(s, c).len() > 0 ==> without_trailing(s, c).last() != c
            && without_trailing(s, c)[0] == s[0],
{
    lemma_without_trailing(s, c);
}

/// Whether a text is all white space.
pub open spec fn blank(s: Seq<char>) -> bool {
    forall|i: int| 0 <= i < s.len() ==> white_space(#[trigger] s[i])
}

/// Whether a text is a run of a character.
pub open spec fn run_of(s: Seq<char>, c: char) -> bool {
    forall|i: int| 0 <= i < s.len() ==> #[trigger] s[i] == c
}

proof fn lemma_leading_blank(blanks: Seq<char>, s: Seq<char>)
    requires
        blank(blanks),
    ensures
        trimmed_start(blanks + s) == trimmed_start(s),
    decreases blanks.len(),
{
    let whole = blanks + s;
    if blanks.len() == 0 {
        assert(whole =~= s);
    } else {
        let rest = blanks.drop_first();
        assert(whole[0] == blanks[0]);
        assert(blank(rest)) by {
            assert forall|i: int| 0 <= i < rest.len() implies white_space(#[trigger] rest[i]) by {
                assert(rest[i] == blanks[i + 1]);
            }
        }
        assert(whole.drop_first() =~= rest + s);
        lemma_leading_blank(rest, s);
    }
}

proof fn lemma_trailing_blank(s: Seq<char>, blanks: Seq<char>)
    requires
        blank(blanks),
    ensures
        trimmed_end(s + blanks) == trimmed_end(s),
    decreases blanks.len(),
{
    let whole = s + blanks;
    if blanks.len() == 0 {
        assert(whole =~= s);
    } else {
        let rest = blanks.drop_last();
        assert(whole.last() == blanks[blanks.len() - 1]);
        assert(blank(rest)) by {
            assert forall|i: int| 0 <= i < rest.len() implies white_space(#[trigger] rest[i]) by {
                assert(rest[i] == blanks[i]);
            }
        }
        assert(whole.drop_last() =~= s + rest);
        lemma_trailing_blank(s, rest);
    }
}

/// Trimming takes away all white space around a text that has none at its ends, and nothing else.
pub proof fn trimming_takes_blanks_away(before: Seq<char>, s: Seq<char>, after: Seq<char>)
    requires
        blank(before),
        tight(s),
        blank(after),
    ensures
        trimmed(before + s + after) == s,
{
    assert(before + s + after =~= before + (s + after));
    lemma_leading_blank(before, s + after);
    if s.len() == 0 {
        assert(s + after =~= after + s);
        lemma_leading_blank(after, s);
        assert(trimmed_start(s) =~= s);
    } else {
        assert((s + after)[0] == s[0]);
        lemma_trailing_blank(s, after);
    }
}

/// All trailing occurrences of a character are taken away.
pub proof fn trailing_runs_are_taken_away(s: Seq<char>, c: char, run: Seq<char>)
    requires
        run_of(run, c),
    ensures
        without_trailing(s + run, c) == without_trailing(s, c),
    decreases run.len(),
{
    let whole = s + run;
    if run.len() == 0 {
        assert(whole =~= s);
    } else {
        let rest = run.drop_last();
        assert(whole.last() == run[run.len() - 1]);
        assert(run_of(rest, c)) by {
            assert forall|i: int| 0 <= i < rest.len() implies #[trigger] rest[i] == c by {
                assert(rest[i] == run[i]);
            }
        }
        assert(whole.drop_last() =~= s + rest);
        trailing_runs_are_taken_away(s, c, rest);
    }
}

/// All leading occurrences of a character are taken away.
pub proof fn leading_runs_are_taken_away(run: Seq<char>, c: char, s: Seq<char>)
    requires
        run_of(run, c),
    ensures
        without_leading(run + s, c) == without_leading(s, c),
    decreases run.len(),
{
    let whole = run + s;
    if run.len() == 0 {
        assert(whole =~= s);
    } else {
        let rest = run.drop_first();
        assert(whole[0] == run[0]);
        assert(run_of(rest, c)) by {
            assert forall|i: int| 0 <= i < rest.len() implies #[trigger] rest[i] == c by {
                assert(rest[i] == run[i + 1]);
            }
        }
        assert(whole.drop_first() =~= rest + s);
        leading_runs_are_taken_away(rest, c, s);
    }
}

/// The order of texts is strict: no text comes before itself.
pub proof fn order_is_irreflexive(a: Seq<char>)
    ensures
        !precedes(a, a),
    decreases a.len(),
{
    if a.len() > 0 {
        order_is_irreflexive(a.drop_first());
    }
}

/// The order of texts is transitive.
pub proof fn order_is_transitive(a: Seq<char>, b: Seq<char>, c: Seq<char>)
    requires
        precedes(a, b),
        precedes(b, c),
    ensures
        precedes(a, c),
    decreases a.len(),
{
    if a.len() > 0 && a[0] == b[0] && b[0] == c[0] {
        order_is_transitive(a.drop_first(), b.drop_first(), c.drop_first());
    }
}

/// The order of texts is total: of two that differ, one comes before the other.
pub proof fn order_is_total(a: Seq<char>, b: Seq<char>)
    ensures
        a == b || precedes(a, b) || precedes(b, a),
    decreases a.len(),
{
    if a.len() == 0 || b.len() == 0 {
        if a.len() == 0 && b.len() == 0 {
            assert(a =~= b);
        }
    } else if a[0] == b[0] {
        order_is_total(a.drop_first(), b.drop_first());
        if a.drop_first() == b.drop_first() {
            assert(a =~= seq![a[0]] + a.drop_first());
            assert(b =~= seq![b[0]] + b.drop_first());
        }
    }
}

proof fn lemma_first_at(s: Seq<char>, c: char, n: int)
    requires
        0 <= n <= s.len(),
        forall|k: int| 0 <= k < n ==> s[k] != c,
        n == s.len() || s[n] == c,
    ensures
        first_at(s, c) == n,
    decreases s.len(),
{
    if n > 0 {
        assert forall|k: int| 0 <= k < n - 1 implies s.drop_first()[k] != c by {
            assert(s.drop_first()[k] == s[k + 1]);
        }
        lemma_first_at(s.drop_first(), c, n - 1);
    }
}

/// The characters of a text.
pub fn chars_of(text: &str) -> (chars: Vec<char>)
    ensures
        chars@ == text@,
{
    let mut chars: Vec<char> = Vec::new();
    for c in it: text.chars()
        invariant
            it.seq() == text@,
            chars@ == text@.take(it.index() as int),
    {
        chars.push(c);
    }
    assert(text@.take(text@.len() as int) == text@);
    chars
}

/// The text made of the characters from one index up to another.
pub fn section(chars: &Vec<char>, from: usize, to: usize) -> (text: String)
    requires
        from <= to <= chars.len(),
    ensures
        text@ == chars@.subrange(from as int, to as int),
{
    let mut text = String::new();
    let mut i: usize = from;
    while i < to
        invariant
            from <= i <= to <= chars.len(),
            text@ == chars@.subrange(from as int, i as int),
        decreases to - i,
    {
        text.push(chars[i]);
        i += 1;
    }
    text
}

/// Whether two texts hold the same characters.
pub fn same(a: &str, b: &str) -> (equal: bool)
    ensures
        equal == (a@ == b@),
{
    let x = chars_of(a);
    let y = chars_of(b);
    if x.len() != y.len() {
        return false;
    }
    let mut i: usize = 0;
    while i < x.len()
        invariant
            x@ == a@,
            y@ == b@,
            x.len() == y.len(),
            i <= x.len(),
            forall|k: int| 0 <= k < i ==> a@[k] == b@[k],
        decreases x.len() - i,
    {
        if x[i] != y[i] {
            return false;
        }
        i += 1;
    }
    assert(a@ == b@);
    true
}

/// Whether a character is white space.
pub fn is_white_space(c: char) -> (found: bool)
    ensures
        found == white_space(c),
{
    let n: u32 = c as u32;
    (0x9 <= n && n <= 0xd) || n == 0x20 || n == 0x85 || n == 0xa0 || n == 0x1680
        || (0x2000 <= n && n <= 0x200a) || n == 0x2028 || n == 0x2029 || n == 0x202f
        || n == 0x205f || n == 0x3000
}

/// The text without its leading white space.
pub fn trim_start(text: &str) -> (rest: String)
    ensures
        rest@ == trimmed_start(text@),
{
    let chars = chars_of(text);
    let mut from: usize = 0;
    assert(chars@.skip(0) == chars@);
    while from < chars.len() && is_white_space(chars[from])
        invariant
            from <= chars.len(),
            trimmed_start(chars@) == trimmed_start(chars@.skip(from as int)),
        decreases chars.len() - from,
    {
        assert(chars@.skip(from as int).drop_first() == chars@.skip(from + 1));
        from += 1;
    }
    assert(chars@.subrange(from as int, chars.len() as int) == chars@.skip(from as int));
    section(&chars, from, chars.len())
}

/// The text without white space at either end.
pub fn trim(text: &str) -> (rest: String)
    ensures
        rest@ == trimmed(text@),
{
    let chars = chars_of(trim_start(text).as_str());
    let mut to: usize = chars.len();
    assert(chars@.take(to as int) == chars@);
    while to > 0 && is_white_space(chars[to - 1])
        invariant
            to <= chars.len(),
            trimmed_end(chars@) == trimmed_end(chars@.take(to as int)),
        decreases to,
    {
        assert(chars@.take(to as int).drop_last() == chars@.take(to - 1));
        to -= 1;
    }
    section(&chars, 0, to)
}

/// The text without the leading occurrences of a character.
pub fn trim_leading(text: &str, c: char) -> (rest: String)
    ensures
        rest@ == without_leading(text@, c),
{
    let chars = chars_of(text);
    let mut from: usize = 0;
    assert(chars@.skip(0) == chars@);
    while from < chars.len() && chars[from] == c
        invariant
            from <= chars.len(),
            without_leading(chars@, c) == without_leading(chars@.skip(from as int), c),
        decreases chars.len() - from,
    {
        assert(chars@.skip(from as int).drop_first() == chars@.skip(from + 1));
        from += 1;
    }
    assert(chars@.skip(from as int) == chars@.subrange(from as int, chars.len() as int));
    section(&chars, from, chars.len())
}

/// The text without the trailing occurrences of a character.
pub fn trim_trailing(text: &str, c: char) -> (rest: String)
    ensures
        rest@ == without_trailing(text@, c),
{
    let chars = chars_of(text);
    let mut to: usize = chars.len();
    assert(chars@.take(to as int) == chars@);
    while to > 0 && chars[to - 1] == c
        invariant
            to <= chars.len(),
            without_trailing(chars@, c) == without_trailing(chars@.take(to as int), c),
        decreases to,
    {
        assert(chars@.take(to as int).drop_last() == chars@.take(to - 1));
        to -= 1;
    }
    section(&chars, 0, to)
}

/// Whether the text begins with `prefix`.
pub fn starts_with(text: &str, prefix: &str) -> (found: bool)
    ensures
        found == prefix@.is_prefix_of(text@),
{
    let chars = chars_of(text);
    let wanted = chars_of(prefix);
    matches_at(&chars, 0, &wanted)
}

/// Whether `wanted` stands in `chars` at an index.
fn matches_at(chars: &Vec<char>, at: usize, wanted: &Vec<char>) -> (found: bool)
    requires
        at <= chars.len(),
    ensures
        found == wanted@.is_prefix_of(chars@.skip(at as int)),
{
    if wanted.len() > chars.len() - at {
        return false;
    }
    let mut k: usize = 0;
    while k < wanted.len()
        invariant
            at <= chars.len(),
            wanted.len() <= chars.len() - at,
            k <= wanted.len(),
            forall|j: int| 0 <= j < k ==> wanted@[j] == chars@[at + j],
        decreases wanted.len() - k,
    {
        if wanted[k] != chars[at + k] {
            assert(chars@.skip(at as int)[k as int] == chars@[at + k]);
            assert(chars@.skip(at as int).subrange(0, wanted@.len() as int)[k as int] == chars@[at + k]);
            return false;
        }
        k += 1;
    }
    assert(wanted@ =~= chars@.skip(at as int).subrange(0, wanted@.len() as int));
    true
}

/// Whether the text ends with `suffix`.
pub fn ends_with(text: &str, suffix: &str) -> (found: bool)
    ensures
        found == suffix@.is_suffix_of(text@),
{
    let chars = chars_of(text);
    let wanted = chars_of(suffix);
    if wanted.len() > chars.len() {
        return false;
    }
    let at: usize = chars.len() - wanted.len();
    assert(chars@.skip(at as int).subrange(0, wanted@.len() as int) == chars@.subrange(
        at as int,
        chars@.len() as int,
    ));
    matches_at(&chars, at, &wanted)
}

/// Whether a character occurs in the text.
pub fn contains_char(text: &str, c: char) -> (found: bool)
    ensures
        found == text@.contains(c),
{
    let chars = chars_of(text);
    let mut i: usize = 0;
    while i < chars.len()
        invariant
            i <= chars.len(),
            chars@ == text@,
            forall|k: int| 0 <= k < i ==> chars@[k] != c,
        decreases chars.len() - i,
    {
        if chars[i] == c {
            assert(text@[i as int] == c);
            return true;
        }
        i += 1;
    }
    false
}

/// The rest of the text after `prefix`, where the text begins with it.
pub fn strip_prefix(text: &str, prefix: &str) -> (rest: Option<String>)
    ensures
        optional(rest) == (if prefix@.is_prefix_of(text@) {
            Some(text@.skip(prefix@.len() as int))
        } else {
            None
        }),
{
    if starts_with(text, prefix) {
        let chars = chars_of(text);
        let wanted = chars_of(prefix);
        assert(chars@.skip(wanted.len() as int) == chars@.subrange(
            wanted.len() as int,
            chars.len() as int,
        ));
        Some(section(&chars, wanted.len(), chars.len()))
    } else {
        None
    }
}

/// The rest of the text before `suffix`, where the text ends with it.
pub fn strip_suffix(text: &str, suffix: &str) -> (rest: Option<String>)
    ensures
        optional(rest) == (if suffix@.is_suffix_of(text@) {
            Some(text@.take(text@.len() - suffix@.len()))
        } else {
            None
        }),
{
    if ends_with(text, suffix) {
        let chars = chars_of(text);
        let wanted = chars_of(suffix);
        Some(section(&chars, 0, chars.len() - wanted.len()))
    } else {
        None
    }
}

/// The text with every occurrence of a non-empty pattern replaced.
pub fn replace(text: &str, pattern: &str, with: &str) -> (out: String)
    requires
        pattern@.len() > 0,
    ensures
        out@ == replaced(text@, pattern@, with@),
{
    let chars = chars_of(text);
    let wanted = chars_of(pattern);
    let mut out = String::new();
    let mut i: usize = 0;
    assert(chars@.skip(0) == chars@);
    while i < chars.len()
        invariant
            i <= chars.len(),
            wanted@ == pattern@,
            wanted.len() > 0,
            out@ + replaced(chars@.skip(i as int), pattern@, with@) == replaced(
                chars@,
                pattern@,
                with@,
            ),
        decreases chars.len() - i,
    {
        let ghost rest = chars@.skip(i as int);
        let ghost before = out@;
        if matches_at(&chars, i, &wanted) {
            out.append(with);
            proof {
                let tail = replaced(chars@.skip(i + wanted.len()), pattern@, with@);
                assert(rest.skip(wanted.len() as int) == chars@.skip(i + wanted.len()));
                assert(before + (with@ + tail) == out@ + tail);
            }
            i += wanted.len();
        } else {
            out.push(chars[i]);
            proof {
                let tail = replaced(chars@.skip(i + 1), pattern@, with@);
                assert(rest.skip(1) == chars@.skip(i + 1));
                assert(before + (seq![rest[0]] + tail) == out@ + tail);
            }
            i += 1;
        }
    }
    assert(out@ + replaced(chars@.skip(i as int), pattern@, with@) == out@);
    out
}

/// The pieces of the text between the occurrences of a character.
pub fn split(text: &str, c: char) -> (list: Vec<String>)
    ensures
        texts(list@) == pieces(text@, c),
        list.len() >= 1,
{
    let chars = chars_of(text);
    let mut list: Vec<String> = Vec::new();
    let mut from: usize = 0;
    let mut i: usize = 0;
    assert(chars@.skip(0) == chars@);
    assert(texts(list@) + pieces(chars@, c) == pieces(chars@, c));
    while i < chars.len()
        invariant
            from <= i <= chars.len(),
            forall|k: int| from <= k < i ==> chars@[k] != c,
            texts(list@) + pieces(chars@.skip(from as int), c) == pieces(chars@, c),
        decreases chars.len() - i,
    {
        if chars[i] == c {
            let ghost rest = chars@.skip(from as int);
            let ghost before = list@;
            list.push(section(&chars, from, i));
            proof {
                lemma_first_at(rest, c, i - from);
                assert(rest.take(i - from) == chars@.subrange(from as int, i as int));
                assert(rest.skip(i - from + 1) == chars@.skip(i + 1));
                let tail = pieces(chars@.skip(i + 1), c);
                assert(texts(before) + (seq![rest.take(i - from)] + tail) == texts(list@) + tail);
            }
            from = i + 1;
        }
        i += 1;
    }
    let ghost before = list@;
    list.push(section(&chars, from, chars.len()));
    proof {
        let rest = chars@.skip(from as int);
        lemma_first_at(rest, c, rest.len() as int);
        assert(rest == chars@.subrange(from as int, chars.len() as int));
        assert(texts(before) + seq![rest] == texts(list@));
    }
    list
}

/// The parts of the text before and after the first occurrence of a character.
pub fn split_once(text: &str, c: char) -> (parts: Option<(String, String)>)
    ensures
        match parts {
            Some((before, after)) => {
                &&& first_at(text@, c) < text@.len()
                &&& before@ == text@.take(first_at(text@, c) as int)
                &&& after@ == text@.skip(first_at(text@, c) as int + 1)
            },
            None => first_at(text@, c) == text@.len(),
        },
{
    let chars = chars_of(text);
    let mut i: usize = 0;
    while i < chars.len()
        invariant
            i <= chars.len(),
            chars@ == text@,
            forall|k: int| 0 <= k < i ==> chars@[k] != c,
        decreases chars.len() - i,
    {
        if chars[i] == c {
            proof {
                lemma_first_at(text@, c, i as int);
                assert(text@.skip(i + 1) == chars@.subrange(i + 1, chars.len() as int));
            }
            return Some((section(&chars, 0, i), section(&chars, i + 1, chars.len())));
        }
        i += 1;
    }
    proof {
        lemma_first_at(text@, c, i as int);
    }
    None
}

/// The character with the letters `A` to `Z` mapped to `a` to `z`.
fn lower_char(c: char) -> (low: char)
    ensures
        low == lowered_char(c),
{
    if 'A' <= c && c <= 'Z' {
        (c as u8 + 32) as char
    } else {
        c
    }
}

/// The text with the letters `A` to `Z` mapped to `a` to `z`.
pub fn lower(text: &str) -> (out: String)
    ensures
        out@ == lowered(text@),
{
    let chars = chars_of(text);
    let mut out = String::new();
    let mut i: usize = 0;
    while i < chars.len()
        invariant
            i <= chars.len(),
            chars@ == text@,
            out@ == lowered(text@).take(i as int),
        decreases chars.len() - i,
    {
        out.push(lower_char(chars[i]));
        i += 1;
        assert(out@ == lowered(text@).take(i as int));
    }
    assert(lowered(text@).take(i as int) == lowered(text@));
    out
}

/// The first `count` characters of the text, or all of it where it is shorter.
pub fn first_chars(text: &str, count: usize) -> (out: String)
    ensures
        out@ == (if text@.len() <= count {
            text@
        } else {
            text@.take(count as int)
        }),
{
    let chars = chars_of(text);
    if chars.len() <= count {
        assert(chars@.subrange(0, chars.len() as int) == chars@);
        section(&chars, 0, chars.len())
    } else {
        section(&chars, 0, count)
    }
}

/// The texts of a list with a separator between each two.
pub fn join(list: &Vec<String>, separator: &str) -> (out: String)
    ensures
        out@ == joined(texts(list@), separator@),
{
    let mut out = String::new();
    let mut i: usize = 0;
    while i < list.len()
        invariant
            i <= list.len(),
            out@ == joined(texts(list@).take(i as int), separator@),
        decreases list.len() - i,
    {
        if i > 0 {
            out.append(separator);
        }
        out.append(list[i].as_str());
        proof {
            let done = texts(list@).take(i + 1);
            assert(done.drop_last() == texts(list@).take(i as int));
            assert(done.last() == list@[i as int]@);
        }
        i += 1;
    }
    assert(texts(list@).take(i as int) == texts(list@));
    out
}

/// The decimal digits of a number.
pub fn decimal(n: u64) -> (out: String)
    ensures
        out@ == decimal_of(n as nat),
    decreases n,
{
    if n < 10 {
        let mut out = String::new();
        out.push((n as u8 + 48) as char);
        assert(out@ == decimal_of(n as nat));
        out
    } else {
        let mut out = decimal(n / 10);
        out.push(((n % 10) as u8 + 48) as char);
        out
    }
}

/// Whether the first text comes before the second.
pub fn comes_before(a: &str, b: &str) -> (found: bool)
    ensures
        found == precedes(a@, b@),
{
    let x = chars_of(a);
    let y = chars_of(b);
    let mut i: usize = 0;
    assert(a@.skip(0) == a@);
    assert(b@.skip(0) == b@);
    while i < x.len() && i < y.len()
        invariant
            x@ == a@,
            y@ == b@,
            i <= x.len(),
            i <= y.len(),
            precedes(a@, b@) == precedes(a@.skip(i as int), b@.skip(i as int)),
        decreases x.len() - i,
    {
        if x[i] != y[i] {
            return x[i] < y[i];
        }
        assert(a@.skip(i as int).drop_first() == a@.skip(i + 1));
        assert(b@.skip(i as int).drop_first() == b@.skip(i + 1));
        i += 1;
    }
    i < y.len()
}

} // verus!
