//! Parts of texts: what a text that was put together holds, and what tells two
//! such texts apart.
use super::numerals::{digit_value, lemma_numeral_digits, numeral};
use super::search::{
    contains_text, first_of, lemma_find_from, occurrences, occurs_at, replaced, split_at_each,
};
use super::trim::{joined, lemma_line_end, line_end, lines};
use vstd::prelude::*;

verus! {

/// A text holds each of its parts.
pub proof fn lemma_holds(before: Seq<char>, part: Seq<char>, after: Seq<char>)
    ensures
        contains_text(before + part + after, part),
{
    let text = before + part + after;
    let i = before.len() as int;
    assert(text.subrange(i, i + part.len()) =~= part);
    assert(occurs_at(text, part, i));
}

/// A text that is `before`, then `part`, then `after` holds the part.
pub proof fn lemma_holds_in(text: Seq<char>, before: Seq<char>, part: Seq<char>, after: Seq<char>)
    requires
        text == before + part + after,
    ensures
        contains_text(text, part),
{
    lemma_holds(before, part, after);
}

/// What a part holds, the whole holds.
pub proof fn lemma_holds_what_a_part_holds(whole: Seq<char>, part: Seq<char>, inner: Seq<char>)
    requires
        contains_text(whole, part),
        contains_text(part, inner),
    ensures
        contains_text(whole, inner),
{
    let i = choose|i: int| occurs_at(whole, part, i);
    let j = choose|j: int| occurs_at(part, inner, j);
    assert(whole.subrange(i + j, i + j + inner.len()) =~= part.subrange(j, j + inner.len()));
    assert(occurs_at(whole, inner, i + j));
}

/// Two texts that are the same but for one part are the same only where the
/// part is the same.
pub proof fn lemma_part_decides(
    before: Seq<char>,
    a: Seq<char>,
    b: Seq<char>,
    after: Seq<char>,
)
    requires
        before + a + after == before + b + after,
    ensures
        a == b,
{
    let x = before + a + after;
    let y = before + b + after;
    assert(x.len() == y.len());
    assert(a =~= x.subrange(before.len() as int, (before.len() + a.len()) as int));
    assert(b =~= y.subrange(before.len() as int, (before.len() + b.len()) as int));
}

/// Different numbers have different numerals.
pub proof fn law_numerals_tell_numbers_apart(a: nat, b: nat)
    requires
        numeral(a) == numeral(b),
    ensures
        a == b,
{
    lemma_numeral_digits(a);
    lemma_numeral_digits(b);
}

/// Numerals that open two equal texts are the same, where no digit follows
/// either.
pub proof fn lemma_opening_numerals(a: nat, b: nat, after_a: Seq<char>, after_b: Seq<char>)
    requires
        numeral(a) + after_a == numeral(b) + after_b,
        after_a.len() > 0,
        after_b.len() > 0,
        digit_value(after_a[0]) is None,
        digit_value(after_b[0]) is None,
    ensures
        a == b,
        after_a == after_b,
{
    let x = numeral(a) + after_a;
    let y = numeral(b) + after_b;
    lemma_numeral_digits(a);
    lemma_numeral_digits(b);
    let m = numeral(a).len() as int;
    let n = numeral(b).len() as int;
    if m < n {
        assert(x[m] == after_a[0]);
        assert(y[m] == numeral(b)[m]);
    } else if n < m {
        assert(y[n] == after_b[0]);
        assert(x[n] == numeral(a)[n]);
    }
    assert(numeral(a) =~= x.take(m));
    assert(numeral(b) =~= y.take(n));
    assert(after_a =~= x.skip(m));
    assert(after_b =~= y.skip(n));
    law_numerals_tell_numbers_apart(a, b);
}

/// Texts that are joined are all held, in their order and with the separator
/// between each two: a part stands behind the parts before it joined, and
/// before the parts after it joined.
pub proof fn law_joined_holds_each_part(parts: Seq<Seq<char>>, separator: Seq<char>, i: int)
    requires
        0 <= i < parts.len(),
    ensures
        contains_text(joined(parts, separator), parts[i]),
        joined(parts, separator) == (if i == 0 {
            Seq::empty()
        } else {
            joined(parts.take(i), separator) + separator
        }) + parts[i] + (if i == parts.len() - 1 {
            Seq::empty()
        } else {
            separator + joined(parts.skip(i + 1), separator)
        }),
    decreases parts.len(),
{
    let whole = joined(parts, separator);
    let before = if i == 0 {
        Seq::empty()
    } else {
        joined(parts.take(i), separator) + separator
    };
    let after = if i == parts.len() - 1 {
        Seq::empty()
    } else {
        separator + joined(parts.skip(i + 1), separator)
    };
    if i == parts.len() - 1 {
        assert(parts.drop_last() =~= parts.take(i));
        assert(whole =~= before + parts[i] + after);
    } else {
        let init = parts.drop_last();
        law_joined_holds_each_part(init, separator, i);
        assert(init.take(i) =~= parts.take(i));
        let rest = parts.skip(i + 1);
        assert(init.skip(i + 1) =~= rest.drop_last());
        assert(rest.last() == parts.last());
        if i == init.len() - 1 {
            assert(rest.len() == 1);
            assert(rest[0] == parts.last());
        }
        assert(whole =~= before + parts[i] + after);
    }
    lemma_holds(before, parts[i], after);
}

/// Joined lists that differ in one part alone differ.
pub proof fn law_joined_tells_a_part_apart(
    a: Seq<Seq<char>>,
    b: Seq<Seq<char>>,
    separator: Seq<char>,
    k: int,
)
    requires
        a.len() == b.len(),
        0 <= k < a.len(),
        forall|i: int| 0 <= i < a.len() && i != k ==> #[trigger] a[i] == b[i],
        a[k] != b[k],
    ensures
        joined(a, separator) != joined(b, separator),
{
    law_joined_holds_each_part(a, separator, k);
    law_joined_holds_each_part(b, separator, k);
    assert(a.take(k) =~= b.take(k));
    assert(a.skip(k + 1) =~= b.skip(k + 1));
    let before = if k == 0 {
        Seq::empty()
    } else {
        joined(a.take(k), separator) + separator
    };
    let after = if k == a.len() - 1 {
        Seq::empty()
    } else {
        separator + joined(a.skip(k + 1), separator)
    };
    if joined(a, separator) == joined(b, separator) {
        lemma_part_decides(before, a[k], b[k], after);
    }
}

/// What a text is split into, joined again, is the text.
pub proof fn law_split_joins_again(s: Seq<char>, separator: Seq<char>)
    requires
        separator.len() > 0,
    ensures
        split_at_each(s, separator).len() > 0,
        joined(split_at_each(s, separator), separator) == s,
        split_at_each(s, separator).len() == occurrences(s, separator) + 1,
    decreases s.len(),
{
    lemma_find_from(s, separator, 0);
    match first_of(s, separator) {
        Some(i) => {
            let rest = s.skip(i + separator.len());
            law_split_joins_again(rest, separator);
            let tail = split_at_each(rest, separator);
            let all = split_at_each(s, separator);
            assert(all == seq![s.take(i)] + tail);
            law_joined_holds_each_part(all, separator, 0);
            assert(all.skip(1) =~= tail);
            assert(s.subrange(i, i + separator.len()) == separator);
            assert(Seq::<char>::empty() + s.take(i) + (separator + rest) =~= s);
        },
        None => {
            assert(joined(seq![s], separator) =~= s);
        },
    }
}

/// No part that a text is split into holds the separator.
pub proof fn law_parts_hold_no_separator(s: Seq<char>, separator: Seq<char>, k: int)
    requires
        separator.len() > 0,
        0 <= k < split_at_each(s, separator).len(),
    ensures
        !contains_text(split_at_each(s, separator)[k], separator),
    decreases s.len(),
{
    lemma_find_from(s, separator, 0);
    match first_of(s, separator) {
        Some(i) => {
            let rest = s.skip(i + separator.len());
            if k == 0 {
                let part = s.take(i);
                if contains_text(part, separator) {
                    let j = choose|j: int| occurs_at(part, separator, j);
                    assert(s.subrange(j, j + separator.len()) =~= part.subrange(
                        j,
                        j + separator.len(),
                    ));
                    assert(occurs_at(s, separator, j));
                }
            } else {
                law_parts_hold_no_separator(rest, separator, k - 1);
            }
        },
        None => {
            if contains_text(s, separator) {
                let j = choose|j: int| occurs_at(s, separator, j);
                assert(0 <= j);
            }
        },
    }
}

/// Replacing is splitting at what is replaced and joining with what replaces
/// it; so a text without it stays as it is, and all else stays.
pub proof fn law_replacing_joins_the_rest(s: Seq<char>, pat: Seq<char>, with: Seq<char>)
    requires
        pat.len() > 0,
    ensures
        replaced(s, pat, with) == joined(split_at_each(s, pat), with),
        !contains_text(s, pat) ==> replaced(s, pat, with) == s,
        contains_text(s, pat) ==> contains_text(replaced(s, pat, with), with),
    decreases s.len(),
{
    lemma_find_from(s, pat, 0);
    match first_of(s, pat) {
        Some(i) => {
            let rest = s.skip(i + pat.len());
            law_replacing_joins_the_rest(rest, pat, with);
            let tail = split_at_each(rest, pat);
            let all = split_at_each(s, pat);
            law_split_joins_again(rest, pat);
            law_joined_holds_each_part(all, with, 0);
            assert(all.skip(1) =~= tail);
            assert(Seq::<char>::empty() + s.take(i) + (with + joined(tail, with)) =~= s.take(i)
                + with + joined(tail, with));
            assert(occurs_at(s, pat, i));
            lemma_holds(s.take(i), with, replaced(rest, pat, with));
        },
        None => {
            assert(joined(seq![s], with) =~= s);
            if contains_text(s, pat) {
                let j = choose|j: int| occurs_at(s, pat, j);
                assert(0 <= j);
            }
        },
    }
}

/// A place that stands once in a text, with none of its first characters
/// before it, is replaced, and all else stays.
pub proof fn law_one_place_is_filled(
    before: Seq<char>,
    place: Seq<char>,
    after: Seq<char>,
    with: Seq<char>,
)
    requires
        place.len() > 0,
        forall|i: int| 0 <= i < before.len() ==> before[i] != place[0],
        !contains_text(after, place),
    ensures
        replaced(before + place + after, place, with) == before + with + after,
{
    let text = before + place + after;
    lemma_find_from(text, place, 0);
    let at = before.len() as int;
    assert(text.subrange(at, at + place.len()) =~= place);
    assert(occurs_at(text, place, at));
    let i = first_of(text, place)->0;
    assert(text.subrange(i, i + place.len())[0] == place[0]);
    assert(text[i] == place[0]);
    if i < at {
        assert(text[i] == before[i]);
    }
    assert(i == at);
    assert(text.skip(i + place.len()) =~= after);
    assert(text.take(i) =~= before);
    law_replacing_joins_the_rest(after, place, with);
}

/// The lines of a text hold no line feed and, joined again, are the text,
/// where it has no carriage return and does not end in a line feed.
pub proof fn law_lines_join_again(s: Seq<char>, k: int)
    requires
        forall|i: int| 0 <= i < s.len() ==> s[i] != '\r',
        s.len() > 0 ==> s.last() != '\n',
    ensures
        joined(lines(s), "\n"@) == s,
        s.len() > 0 ==> lines(s).len() > 0,
        0 <= k < lines(s).len() ==> forall|i: int|
            0 <= i < lines(s)[k].len() ==> lines(s)[k][i] != '\n',
    decreases s.len(),
{
    reveal_strlit("\n");
    if s.len() == 0 {
        assert(joined(lines(s), "\n"@) =~= s);
    } else {
        lemma_line_end(s);
        let n = line_end(s) as int;
        if n >= s.len() {
            assert(lines(s) =~= seq![s]);
            law_joined_holds_each_part(lines(s), "\n"@, 0);
            assert(Seq::<char>::empty() + s + Seq::<char>::empty() =~= s);
        } else {
            let (first, rest) = (s.take(n), s.skip(n + 1));
            assert(n + 1 < s.len());
            law_lines_join_again(rest, k - 1);
            if n > 0 {
                assert(first.last() == s[n - 1]);
            }
            let all = lines(s);
            assert(all == seq![first] + lines(rest));
            law_joined_holds_each_part(all, "\n"@, 0);
            assert(all.skip(1) =~= lines(rest));
            assert(s =~= Seq::empty() + first + ("\n"@ + rest));
        }
    }
}

/// What stands before anything that is replaced stays.
pub proof fn lemma_replacing_keeps_the_start(
    s: Seq<char>,
    start: Seq<char>,
    pat: Seq<char>,
    with: Seq<char>,
)
    requires
        pat.len() > 0,
        start.is_prefix_of(s),
        forall|i: int| 0 <= i < start.len() ==> start[i] != pat[0],
    ensures
        start.is_prefix_of(replaced(s, pat, with)),
{
    lemma_find_from(s, pat, 0);
    match first_of(s, pat) {
        Some(i) => {
            assert(s.subrange(i, i + pat.len())[0] == pat[0]);
            assert(s[i] == pat[0]);
            if i < start.len() {
                assert(start[i] == s[i]);
            }
            let rest = replaced(s.skip(i + pat.len()), pat, with);
            assert(replaced(s, pat, with) == s.take(i) + with + rest);
            assert(start =~= replaced(s, pat, with).take(start.len() as int));
        },
        None => {
            law_replacing_joins_the_rest(s, pat, with);
            if contains_text(s, pat) {
                let j = choose|j: int| occurs_at(s, pat, j);
                assert(0 <= j);
            }
        },
    }
}

} // verus!
