//! What the functions on texts promise, stated on the characters of a text.
use crate::text::{
    blank, decimal_of, joined, leading_runs_are_taken_away, lowered, precedes, replaced, run_of,
    trailing_runs_are_taken_away, trimmed_start, white_space, without_leading, without_trailing,
};
use vstd::prelude::*;

verus! {

/// White space is what Unicode calls so: 25 characters, with the space, the tab and the ends of lines
/// among them.
pub proof fn white_space_is_that_of_unicode(c: char)
    ensures
        white_space(c) <==> seq![
            0x9int,
            0xa,
            0xb,
            0xc,
            0xd,
            0x20,
            0x85,
            0xa0,
            0x1680,
            0x2000,
            0x2001,
            0x2002,
            0x2003,
            0x2004,
            0x2005,
            0x2006,
            0x2007,
            0x2008,
            0x2009,
            0x200a,
            0x2028,
            0x2029,
            0x202f,
            0x205f,
            0x3000,
        ].contains(c as int),
{
    let all = seq![
        0x9int,
        0xa,
        0xb,
        0xc,
        0xd,
        0x20,
        0x85,
        0xa0,
        0x1680,
        0x2000,
        0x2001,
        0x2002,
        0x2003,
        0x2004,
        0x2005,
        0x2006,
        0x2007,
        0x2008,
        0x2009,
        0x200a,
        0x2028,
        0x2029,
        0x202f,
        0x205f,
        0x3000,
    ];
    assert(all[0] == 0x9 && all[1] == 0xa && all[2] == 0xb && all[3] == 0xc && all[4] == 0xd);
    assert(all[5] == 0x20 && all[6] == 0x85 && all[7] == 0xa0 && all[8] == 0x1680);
    assert(all[9] == 0x2000 && all[10] == 0x2001 && all[11] == 0x2002 && all[12] == 0x2003);
    assert(all[13] == 0x2004 && all[14] == 0x2005 && all[15] == 0x2006 && all[16] == 0x2007);
    assert(all[17] == 0x2008 && all[18] == 0x2009 && all[19] == 0x200a && all[20] == 0x2028);
    assert(all[21] == 0x2029 && all[22] == 0x202f && all[23] == 0x205f && all[24] == 0x3000);
}

/// Only the white space before a text is taken away from its beginning.
pub proof fn leading_white_space_is_taken_away(before: Seq<char>, s: Seq<char>)
    requires
        blank(before),
        s.len() > 0 ==> !white_space(s[0]),
    ensures
        trimmed_start(before + s) == s,
    decreases before.len(),
{
    let whole = before + s;
    if before.len() == 0 {
        assert(whole =~= s);
    } else {
        let rest = before.drop_first();
        assert(whole[0] == before[0]);
        assert forall|i: int| 0 <= i < rest.len() implies white_space(#[trigger] rest[i]) by {
            assert(rest[i] == before[i + 1]);
        }
        assert(whole.drop_first() =~= rest + s);
        leading_white_space_is_taken_away(rest, s);
    }
}

/// Every text is white space and then a text that does not begin with white space.
pub proof fn leading_white_space_is_found(s: Seq<char>) -> (before: Seq<char>)
    ensures
        blank(before),
        s == before + trimmed_start(s),
        trimmed_start(s).len() > 0 ==> !white_space(trimmed_start(s)[0]),
    decreases s.len(),
{
    if s.len() > 0 && white_space(s[0]) {
        let rest = leading_white_space_is_found(s.drop_first());
        let before = seq![s[0]] + rest;
        assert forall|i: int| 0 <= i < before.len() implies white_space(#[trigger] before[i]) by {
            if i > 0 {
                assert(before[i] == rest[i - 1]);
            }
        }
        assert(s =~= before + trimmed_start(s)) by {
            assert(s =~= seq![s[0]] + s.drop_first());
        }
        before
    } else {
        assert(s =~= Seq::<char>::empty() + trimmed_start(s));
        Seq::empty()
    }
}

/// A run of a character is taken away from either end, and nothing of what does not begin or end with
/// the character.
pub proof fn runs_are_taken_away(s: Seq<char>, c: char, run: Seq<char>)
    requires
        run_of(run, c),
    ensures
        s.len() > 0 ==> s.last() != c ==> without_trailing(s + run, c) == s,
        s.len() > 0 ==> s[0] != c ==> without_leading(run + s, c) == s,
        without_trailing(run, c).len() == 0,
        without_leading(run, c).len() == 0,
{
    trailing_runs_are_taken_away(s, c, run);
    leading_runs_are_taken_away(run, c, s);
    trailing_runs_are_taken_away(seq![], c, run);
    leading_runs_are_taken_away(run, c, seq![]);
    assert(Seq::<char>::empty() + run =~= run);
    assert(run + Seq::<char>::empty() =~= run);
}

/// Lowering maps each of the letters `A` to `Z` to the letter 32 after it, and no other character.
pub proof fn lowering_maps_capitals(s: Seq<char>, i: int)
    requires
        0 <= i < s.len(),
    ensures
        lowered(s).len() == s.len(),
        65 <= s[i] as int <= 90 ==> lowered(s)[i] as int == s[i] as int + 32,
        !(65 <= s[i] as int <= 90) ==> lowered(s)[i] == s[i],
{
}

/// Lowering goes by characters, so that it can be done part by part.
pub proof fn lowering_goes_by_characters(a: Seq<char>, b: Seq<char>)
    ensures
        lowered(a + b) == lowered(a) + lowered(b),
{
    assert(lowered(a + b) =~= lowered(a) + lowered(b));
}

/// Whether a pattern stands in a text at an index.
pub open spec fn stands_at(pattern: Seq<char>, s: Seq<char>, i: int) -> bool {
    0 <= i && i + pattern.len() <= s.len() && s.subrange(i, i + pattern.len()) == pattern
}

/// The first occurrence of a pattern is replaced, what stands before it is kept, and so on with what
/// stands after it.
pub proof fn the_first_occurrence_is_replaced(
    before: Seq<char>,
    pattern: Seq<char>,
    after: Seq<char>,
    with: Seq<char>,
)
    requires
        pattern.len() > 0,
        forall|i: int| 0 <= i < before.len() ==> !stands_at(pattern, before + pattern + after, i),
    ensures
        replaced(before + pattern + after, pattern, with) == before + with + replaced(
            after,
            pattern,
            with,
        ),
    decreases before.len(),
{
    let whole = before + pattern + after;
    if before.len() == 0 {
        assert(whole.subrange(0, pattern.len() as int) =~= pattern);
        assert(whole.skip(pattern.len() as int) =~= after);
        assert(with + replaced(after, pattern, with) =~= before + with + replaced(
            after,
            pattern,
            with,
        ));
    } else {
        let rest = before.drop_first();
        assert(!stands_at(pattern, whole, 0));
        assert(!pattern.is_prefix_of(whole));
        assert(whole.skip(1) =~= rest + pattern + after);
        assert forall|i: int| 0 <= i < rest.len() implies !stands_at(
            pattern,
            rest + pattern + after,
            i,
        ) by {
            assert(!stands_at(pattern, whole, i + 1));
            assert((rest + pattern + after).subrange(i, i + pattern.len()) =~= whole.subrange(
                i + 1,
                i + 1 + pattern.len(),
            ));
        }
        the_first_occurrence_is_replaced(rest, pattern, after, with);
        assert(seq![before[0]] + (rest + with + replaced(after, pattern, with)) =~= before + with
            + replaced(after, pattern, with));
    }
}

/// A text in which a pattern does not occur stays as it is.
pub proof fn other_texts_are_not_replaced(s: Seq<char>, pattern: Seq<char>, with: Seq<char>)
    requires
        forall|i: int| !stands_at(pattern, s, i),
    ensures
        replaced(s, pattern, with) == s,
    decreases s.len(),
{
    if s.len() > 0 && pattern.len() > 0 {
        assert(!stands_at(pattern, s, 0));
        let rest = s.skip(1);
        assert forall|i: int| !stands_at(pattern, rest, i) by {
            if stands_at(pattern, rest, i) {
                assert(rest.subrange(i, i + pattern.len()) =~= s.subrange(
                    i + 1,
                    i + 1 + pattern.len(),
                ));
                assert(stands_at(pattern, s, i + 1));
            }
        }
        other_texts_are_not_replaced(rest, pattern, with);
        assert(seq![s[0]] + rest =~= s);
    }
}

/// Joining puts the separator between each two texts, and nowhere else.
pub proof fn joining_separates(list: Seq<Seq<char>>, last: Seq<char>, separator: Seq<char>)
    ensures
        joined(seq![last], separator) == last,
        joined(seq![], separator).len() == 0,
        list.len() > 0 ==> joined(list.push(last), separator) == joined(list, separator) + separator
            + last,
{
    assert(list.push(last).drop_last() =~= list);
}

/// Texts are ordered by their first different characters, and a text comes before those that it
/// begins.
pub proof fn the_first_difference_decides(
    common: Seq<char>,
    a: char,
    b: char,
    s: Seq<char>,
    t: Seq<char>,
)
    requires
        a != b,
    ensures
        precedes(common + seq![a] + s, common + seq![b] + t) <==> (a as int) < (b as int),
        precedes(common, common + seq![a] + s),
        !precedes(common + seq![a] + s, common),
    decreases common.len(),
{
    let x = common + seq![a] + s;
    let y = common + seq![b] + t;
    if common.len() > 0 {
        let rest = common.drop_first();
        the_first_difference_decides(rest, a, b, s, t);
        assert(x.drop_first() =~= rest + seq![a] + s);
        assert(y.drop_first() =~= rest + seq![b] + t);
        assert(x[0] == common[0] && y[0] == common[0]);
    } else {
        assert(x[0] == a && y[0] == b);
    }
}

/// The number that decimal digits stand for.
pub open spec fn digits_value(digits: Seq<char>) -> int
    decreases digits.len(),
{
    if digits.len() == 0 {
        0
    } else {
        10 * digits_value(digits.drop_last()) + (digits.last() as int - 48)
    }
}

/// A number is written with decimal digits that stand for it, without leading zeros.
pub proof fn numbers_are_read_back(n: nat)
    ensures
        digits_value(decimal_of(n)) == n,
        decimal_of(n).len() > 0,
        forall|i: int|
            0 <= i < decimal_of(n).len() ==> 48 <= (#[trigger] decimal_of(n)[i]) as int <= 57,
        n > 0 ==> decimal_of(n)[0] != '0',
    decreases n,
{
    if n >= 10 {
        let front = decimal_of(n / 10);
        numbers_are_read_back(n / 10);
        assert(decimal_of(n).drop_last() =~= front);
        assert forall|i: int| 0 <= i < decimal_of(n).len() implies 48 <= (#[trigger] decimal_of(
            n,
        )[i]) as int <= 57 by {
            if i < front.len() {
                assert(decimal_of(n)[i] == front[i]);
            }
        }
        assert(decimal_of(n)[0] == front[0]);
    } else {
        assert(decimal_of(n).drop_last() =~= seq![]);
        assert(digits_value(decimal_of(n).drop_last()) == 0);
    }
}

} // verus!
