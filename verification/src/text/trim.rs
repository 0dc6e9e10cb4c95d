//! Trimming, lines and joining.
use super::{is_blank, is_white_space, to_chars, white_space};
use vstd::prelude::*;

verus! {

/// A text without its leading white space.
pub open spec fn trimmed_start(s: Seq<char>) -> Seq<char>
    decreases s.len(),
{
    if s.len() > 0 && is_white_space(s[0]) {
        trimmed_start(s.drop_first())
    } else {
        s
    }
}

/// A text without its trailing white space.
pub open spec fn trimmed_end(s: Seq<char>) -> Seq<char>
    decreases s.len(),
{
    if s.len() > 0 && is_white_space(s.last()) {
        trimmed_end(s.drop_last())
    } else {
        s
    }
}

/// A text without the white space at either end.
pub open spec fn trimmed(s: Seq<char>) -> Seq<char> {
    trimmed_end(trimmed_start(s))
}

/// Strip the leading white space.
pub fn trim_start<'a>(s: &'a str) -> (r: &'a str)
    ensures
        r@ == trimmed_start(s@),
{
    let chars = to_chars(s);
    let mut i: usize = 0;
    assert(s@.skip(0) =~= s@);
    while i < chars.len() && white_space(chars[i])
        invariant
            chars@ == s@,
            i <= chars.len(),
            trimmed_start(s@) == trimmed_start(s@.skip(i as int)),
        decreases chars.len() - i,
    {
        assert(s@.skip(i as int)[0] == s@[i as int]);
        assert(s@.skip(i as int).drop_first() =~= s@.skip(i + 1));
        i = i + 1;
    }
    proof {
        if i < chars.len() {
            assert(s@.skip(i as int)[0] == s@[i as int]);
        }
        assert(s@.subrange(i as int, s@.len() as int) =~= s@.skip(i as int));
    }
    s.substring_char(i, chars.len())
}

/// Strip the trailing white space.
pub fn trim_end<'a>(s: &'a str) -> (r: &'a str)
    ensures
        r@ == trimmed_end(s@),
{
    let chars = to_chars(s);
    let mut n: usize = chars.len();
    assert(s@.take(n as int) =~= s@);
    while n > 0 && white_space(chars[n - 1])
        invariant
            chars@ == s@,
            n <= chars.len(),
            trimmed_end(s@) == trimmed_end(s@.take(n as int)),
        decreases n,
    {
        assert(s@.take(n as int).last() == s@[n - 1]);
        assert(s@.take(n as int).drop_last() =~= s@.take(n - 1));
        n = n - 1;
    }
    proof {
        if n > 0 {
            assert(s@.take(n as int).last() == s@[n - 1]);
        }
    }
    s.substring_char(0, n)
}

/// Strip the white space at both ends.
pub fn trim<'a>(s: &'a str) -> (r: &'a str)
    ensures
        r@ == trimmed(s@),
{
    trim_end(trim_start(s))
}

/// What `trimmed_start` leaves is a suffix that does not begin with white
/// space.
pub proof fn lemma_trimmed_start(s: Seq<char>)
    ensures
        trimmed_start(s).len() <= s.len(),
        trimmed_start(s) == s.skip(s.len() - trimmed_start(s).len()),
        trimmed_start(s).len() > 0 ==> !is_white_space(trimmed_start(s)[0]),
        is_blank(s.take(s.len() - trimmed_start(s).len())),
        (trimmed_start(s).len() == 0) == is_blank(s),
    decreases s.len(),
{
    if s.len() > 0 && is_white_space(s[0]) {
        let t = s.drop_first();
        lemma_trimmed_start(t);
        let k = t.len() - trimmed_start(t).len();
        assert(t.skip(k) =~= s.skip(k + 1));
        assert forall|i: int| 0 <= i < k + 1 implies is_white_space(#[trigger] s.take(k + 1)[i]) by {
            if i > 0 {
                assert(s.take(k + 1)[i] == t.take(k)[i - 1]);
            }
        }
        if trimmed_start(t).len() == 0 {
            assert forall|i: int| 0 <= i < s.len() implies is_white_space(#[trigger] s[i]) by {
                if i > 0 {
                    assert(s[i] == t[i - 1]);
                }
            }
        } else {
            let w = trimmed_start(t)[0];
            assert(w == s[k + 1]);
        }
    } else {
        assert(s.skip(0) =~= s);
        if s.len() > 0 {
            assert(!is_white_space(s[0]));
        }
    }
}

/// White space at the end makes no difference; other text at the end stays.
pub proof fn lemma_trimmed_end_concat(s: Seq<char>, tail: Seq<char>)
    ensures
        is_blank(tail) ==> trimmed_end(s + tail) == trimmed_end(s),
        !is_blank(tail) ==> trimmed_end(s + tail) == s + trimmed_end(tail),
    decreases tail.len(),
{
    if tail.len() == 0 {
        assert(s + tail =~= s);
    } else {
        let t = tail.drop_last();
        lemma_trimmed_end_concat(s, t);
        assert((s + tail).drop_last() =~= s + t);
        assert((s + tail).last() == tail.last());
        if is_white_space(tail.last()) {
            assert(is_blank(t) == is_blank(tail)) by {
                if is_blank(t) {
                    assert forall|i: int| 0 <= i < tail.len() implies is_white_space(
                        #[trigger] tail[i],
                    ) by {
                        if i < t.len() {
                            assert(t[i] == tail[i]);
                        }
                    }
                }
                if is_blank(tail) {
                    assert forall|i: int| 0 <= i < t.len() implies is_white_space(
                        #[trigger] t[i],
                    ) by {
                        assert(t[i] == tail[i]);
                    }
                }
            }
        } else {
            assert(!is_white_space(tail[tail.len() - 1]));
        }
    }
}

/// What `trimmed_end` leaves is a prefix that does not end in white space.
pub proof fn lemma_trimmed_end(s: Seq<char>)
    ensures
        trimmed_end(s).len() <= s.len(),
        trimmed_end(s) == s.take(trimmed_end(s).len() as int),
        trimmed_end(s).len() > 0 ==> !is_white_space(trimmed_end(s).last()),
        is_blank(s.skip(trimmed_end(s).len() as int)),
        (trimmed_end(s).len() == 0) == is_blank(s),
    decreases s.len(),
{
    if s.len() > 0 && is_white_space(s.last()) {
        let t = s.drop_last();
        lemma_trimmed_end(t);
        let k = trimmed_end(t).len() as int;
        assert(t.take(k) =~= s.take(k));
        assert forall|i: int| 0 <= i < s.len() - k implies is_white_space(#[trigger] s.skip(k)[i]) by {
            if i < t.len() - k {
                assert(s.skip(k)[i] == t.skip(k)[i]);
            }
        }
        if k == 0 {
            assert forall|i: int| 0 <= i < s.len() implies is_white_space(#[trigger] s[i]) by {
                if i < t.len() {
                    assert(s[i] == t[i]);
                }
            }
        } else {
            assert(trimmed_end(t).last() == s[k - 1]);
        }
    } else {
        assert(s.take(s.len() as int) =~= s);
        if s.len() > 0 {
            assert(!is_white_space(s[s.len() - 1]));
        }
    }
}

// ---------------------------------------------------------------------------
// Lines
// ---------------------------------------------------------------------------

/// A line without the carriage return that stood before its line feed.
pub open spec fn without_carriage_return(s: Seq<char>) -> Seq<char> {
    if s.len() > 0 && s.last() == '\r' {
        s.drop_last()
    } else {
        s
    }
}

/// The place of the first line feed, or the length where there is none.
pub open spec fn line_end(s: Seq<char>) -> nat
    decreases s.len(),
{
    if s.len() == 0 || s[0] == '\n' {
        0
    } else {
        1 + line_end(s.drop_first())
    }
}

pub proof fn lemma_line_end(s: Seq<char>)
    ensures
        line_end(s) <= s.len(),
        line_end(s) < s.len() ==> s[line_end(s) as int] == '\n',
        forall|i: int| 0 <= i < line_end(s) ==> s[i] != '\n',
    decreases s.len(),
{
    if s.len() > 0 && s[0] != '\n' {
        let t = s.drop_first();
        lemma_line_end(t);
        assert forall|i: int| 0 <= i < line_end(s) implies s[i] != '\n' by {
            if i > 0 {
                assert(s[i] == t[i - 1]);
            }
        }
    }
}

/// The lines of a text: each ends at a line feed, which is dropped together
/// with a carriage return before it; what follows the last line feed is a
/// line where it is not empty.
pub open spec fn lines(s: Seq<char>) -> Seq<Seq<char>>
    decreases s.len(),
{
    if s.len() == 0 {
        Seq::empty()
    } else {
        let n = line_end(s) as int;
        if n >= s.len() {
            seq![s]
        } else {
            seq![without_carriage_return(s.take(n))] + lines(s.skip(n + 1))
        }
    }
}

/// The sequences of characters behind a sequence of strings.
pub open spec fn views(parts: Seq<String>) -> Seq<Seq<char>> {
    Seq::new(parts.len(), |i: int| parts[i]@)
}

/// The lines of a string.
pub fn split_lines(s: &str) -> (r: Vec<String>)
    ensures
        views(r@) == lines(s@),
{
    let chars = to_chars(s);
    let len = chars.len();
    let mut out: Vec<String> = Vec::new();
    let mut start: usize = 0;
    proof {
        assert(s@.skip(0) =~= s@);
        assert(views(out@) =~= Seq::<Seq<char>>::empty());
        assert(views(out@) + lines(s@) =~= lines(s@));
    }
    while start < len
        invariant
            chars@ == s@,
            len == chars.len(),
            start <= len,
            views(out@) + lines(s@.skip(start as int)) == lines(s@),
        decreases len - start,
    {
        let ghost rest = s@.skip(start as int);
        let mut n: usize = start;
        assert(rest.skip(0) =~= rest);
        while n < len && chars[n] != '\n'
            invariant
                chars@ == s@,
                len == chars.len(),
                start <= n <= len,
                rest == s@.skip(start as int),
                line_end(rest) == (n - start) + line_end(rest.skip(n - start)),
            decreases len - n,
        {
            assert(rest.skip(n - start)[0] == s@[n as int]);
            assert(rest.skip(n - start).drop_first() =~= rest.skip(n + 1 - start));
            n = n + 1;
        }
        proof {
            if n < len {
                assert(rest.skip(n - start)[0] == s@[n as int]);
            }
            assert(line_end(rest) == n - start);
        }
        let ghost before = out@;
        if n == len {
            assert(s@.subrange(start as int, len as int) =~= rest);
            out.push(s.substring_char(start, len).to_owned());
            proof {
                assert(views(out@) =~= views(before) + seq![rest]);
                assert(s@.skip(len as int).len() == 0);
                assert(lines(rest) =~= seq![rest]);
                assert(views(out@) + lines(s@.skip(len as int)) =~= views(before) + lines(rest));
            }
            start = len;
        } else {
            let end: usize = if n > start && chars[n - 1] == '\r' {
                n - 1
            } else {
                n
            };
            let line = s.substring_char(start, end).to_owned();
            proof {
                let raw = rest.take(n - start);
                if n > start {
                    assert(raw.last() == s@[n - 1]);
                }
                assert(line@ =~= without_carriage_return(raw));
            }
            out.push(line);
            proof {
                let head = seq![without_carriage_return(rest.take(n - start))];
                assert(views(out@) =~= views(before) + head);
                assert(rest.skip(n - start + 1) =~= s@.skip(n + 1));
                assert(views(out@) + lines(s@.skip(n + 1)) =~= views(before) + (head + lines(
                    s@.skip(n + 1),
                )));
            }
            start = n + 1;
        }
    }
    proof {
        assert(s@.skip(start as int).len() == 0);
        assert(views(out@) + lines(s@.skip(start as int)) =~= views(out@));
    }
    out
}

// ---------------------------------------------------------------------------
// Joining
// ---------------------------------------------------------------------------

/// The parts with a separator between each two.
pub open spec fn joined(parts: Seq<Seq<char>>, separator: Seq<char>) -> Seq<char>
    decreases parts.len(),
{
    if parts.len() == 0 {
        Seq::empty()
    } else if parts.len() == 1 {
        parts[0]
    } else {
        joined(parts.drop_last(), separator) + separator + parts.last()
    }
}

/// Join strings with a separator between each two.
pub fn join(parts: &Vec<String>, separator: &str) -> (r: String)
    ensures
        r@ == joined(views(parts@), separator@),
{
    let mut out = String::new();
    let mut i: usize = 0;
    while i < parts.len()
        invariant
            i <= parts.len(),
            out@ == joined(views(parts@).take(i as int), separator@),
        decreases parts.len() - i,
    {
        let ghost taken = views(parts@).take(i as int + 1);
        assert(taken.drop_last() =~= views(parts@).take(i as int));
        assert(taken.last() == parts@[i as int]@);
        if i > 0 {
            out.append(separator);
        }
        out.append(parts[i].as_str());
        proof {
            if i == 0 {
                assert(out@ =~= parts@[0]@);
            }
        }
        i = i + 1;
    }
    assert(views(parts@).take(parts@.len() as int) =~= views(parts@));
    out
}

} // verus!
