//! Finding, splitting, counting and replacing.
use super::to_chars;
use super::trim::views;
use vstd::prelude::*;

verus! {

/// Whether `pat` stands at place `i` of `s`.
pub open spec fn occurs_at(s: Seq<char>, pat: Seq<char>, i: int) -> bool {
    &&& 0 <= i
    &&& i + pat.len() <= s.len()
    &&& s.subrange(i, i + pat.len()) == pat
}

/// The first place at or after `i` where `pat` stands.
pub open spec fn find_from(s: Seq<char>, pat: Seq<char>, i: int) -> Option<int>
    decreases s.len() + 1 - i,
{
    if i + pat.len() > s.len() {
        None
    } else if occurs_at(s, pat, i) {
        Some(i)
    } else {
        find_from(s, pat, i + 1)
    }
}

/// The last place at or before `i` where `pat` stands.
pub open spec fn rfind_from(s: Seq<char>, pat: Seq<char>, i: int) -> Option<int>
    decreases i + 1,
{
    if i < 0 {
        None
    } else if occurs_at(s, pat, i) {
        Some(i)
    } else {
        rfind_from(s, pat, i - 1)
    }
}

/// The first place where `pat` stands.
pub open spec fn first_of(s: Seq<char>, pat: Seq<char>) -> Option<int> {
    find_from(s, pat, 0)
}

/// The last place where `pat` stands.
pub open spec fn last_of(s: Seq<char>, pat: Seq<char>) -> Option<int> {
    rfind_from(s, pat, s.len() - pat.len())
}

/// Whether `pat` stands anywhere in `s`.
pub open spec fn contains_text(s: Seq<char>, pat: Seq<char>) -> bool {
    exists|i: int| occurs_at(s, pat, i)
}

pub proof fn lemma_find_from(s: Seq<char>, pat: Seq<char>, i: int)
    requires
        0 <= i,
    ensures
        match find_from(s, pat, i) {
            Some(k) => i <= k && occurs_at(s, pat, k) && forall|j: int|
                i <= j < k ==> !#[trigger] occurs_at(s, pat, j),
            None => forall|j: int| i <= j ==> !#[trigger] occurs_at(s, pat, j),
        },
    decreases s.len() + 1 - i,
{
    if i + pat.len() <= s.len() && !occurs_at(s, pat, i) {
        lemma_find_from(s, pat, i + 1);
    }
}

pub proof fn lemma_rfind_from(s: Seq<char>, pat: Seq<char>, i: int)
    ensures
        match rfind_from(s, pat, i) {
            Some(k) => k <= i && occurs_at(s, pat, k) && forall|j: int|
                k < j <= i ==> !#[trigger] occurs_at(s, pat, j),
            None => forall|j: int| j <= i ==> !#[trigger] occurs_at(s, pat, j),
        },
    decreases i + 1,
{
    if i >= 0 && !occurs_at(s, pat, i) {
        lemma_rfind_from(s, pat, i - 1);
    }
}

/// A place is the last one exactly where `pat` stands there and nowhere after.
pub proof fn lemma_last_of_is(s: Seq<char>, pat: Seq<char>, k: int)
    requires
        occurs_at(s, pat, k),
        forall|j: int| k < j ==> !#[trigger] occurs_at(s, pat, j),
    ensures
        last_of(s, pat) == Some(k),
{
    lemma_rfind_from(s, pat, s.len() - pat.len());
}

/// A place is the first one exactly where `pat` stands there and nowhere
/// before.
pub proof fn lemma_first_of_is(s: Seq<char>, pat: Seq<char>, k: int)
    requires
        occurs_at(s, pat, k),
        forall|j: int| 0 <= j < k ==> !#[trigger] occurs_at(s, pat, j),
    ensures
        first_of(s, pat) == Some(k),
{
    lemma_find_from(s, pat, 0);
}

/// Whether `pat` stands at place `i`.
pub fn stands_at(s: &Vec<char>, pat: &Vec<char>, i: usize) -> (r: bool)
    requires
        i + pat@.len() <= s@.len(),
    ensures
        r == occurs_at(s@, pat@, i as int),
{
    let mut j: usize = 0;
    let end = s.len();
    while j < pat.len()
        invariant
            j <= pat.len(),
            end == s@.len(),
            i + pat@.len() <= end,
            forall|k: int| 0 <= k < j ==> s@[i + k] == pat@[k],
        decreases pat.len() - j,
    {
        if s[i + j] != pat[j] {
            assert(s@.subrange(i as int, i + pat@.len())[j as int] != pat@[j as int]);
            return false;
        }
        j = j + 1;
    }
    assert(s@.subrange(i as int, i + pat@.len()) =~= pat@);
    true
}

/// The first place at or after `from` where `pat` stands.
pub fn find_chars(s: &Vec<char>, pat: &Vec<char>, from: usize) -> (r: Option<usize>)
    requires
        from <= s@.len(),
    ensures
        match r {
            Some(i) => find_from(s@, pat@, from as int) == Some(i as int),
            None => find_from(s@, pat@, from as int) is None,
        },
{
    let mut i: usize = from;
    while i <= s.len() && pat.len() <= s.len() - i
        invariant
            from <= i,
            i <= s@.len() + 1,
            find_from(s@, pat@, from as int) == find_from(s@, pat@, i as int),
        decreases s@.len() + 1 - i,
    {
        if stands_at(s, pat, i) {
            return Some(i);
        }
        if i == s.len() {
            assert(find_from(s@, pat@, i + 1) is None);
            return None;
        }
        i = i + 1;
    }
    None
}

/// The first place where `pat` stands in `s`, counted in characters.
pub fn find(s: &str, pat: &str) -> (r: Option<usize>)
    ensures
        match r {
            Some(i) => first_of(s@, pat@) == Some(i as int) && i + pat@.len() <= s@.len()
                && s@.len() <= usize::MAX,
            None => first_of(s@, pat@) is None,
        },
{
    proof {
        lemma_find_from(s@, pat@, 0);
    }
    let chars = to_chars(s);
    let len = chars.len();
    find_chars(&chars, &to_chars(pat), 0)
}

/// The last place where `pat` stands in `s`, counted in characters.
pub fn rfind(s: &str, pat: &str) -> (r: Option<usize>)
    ensures
        match r {
            Some(i) => last_of(s@, pat@) == Some(i as int) && i + pat@.len() <= s@.len(),
            None => last_of(s@, pat@) is None,
        },
{
    let chars = to_chars(s);
    let needle = to_chars(pat);
    if needle.len() > chars.len() {
        return None;
    }
    let mut i: usize = chars.len() - needle.len();
    loop
        invariant
            chars@ == s@,
            needle@ == pat@,
            i + needle@.len() <= chars@.len(),
            last_of(s@, pat@) == rfind_from(s@, pat@, i as int),
        decreases i,
    {
        if stands_at(&chars, &needle, i) {
            return Some(i);
        }
        if i == 0 {
            assert(rfind_from(s@, pat@, -1) is None);
            return None;
        }
        i = i - 1;
    }
}

/// Whether `pat` stands anywhere in `s`.
pub fn contains(s: &str, pat: &str) -> (r: bool)
    ensures
        r == contains_text(s@, pat@),
{
    proof {
        lemma_find_from(s@, pat@, 0);
    }
    match find(s, pat) {
        Some(i) => {
            assert(occurs_at(s@, pat@, i as int));
            true
        },
        None => false,
    }
}

/// Whether `s` begins with `pat`.
pub fn starts_with(s: &str, pat: &str) -> (r: bool)
    ensures
        r == pat@.is_prefix_of(s@),
{
    let chars = to_chars(s);
    let needle = to_chars(pat);
    if needle.len() > chars.len() {
        return false;
    }
    stands_at(&chars, &needle, 0)
}

/// Whether `s` ends with `pat`.
pub fn ends_with(s: &str, pat: &str) -> (r: bool)
    ensures
        r == pat@.is_suffix_of(s@),
{
    let chars = to_chars(s);
    let needle = to_chars(pat);
    if needle.len() > chars.len() {
        return false;
    }
    stands_at(&chars, &needle, chars.len() - needle.len())
}

/// What follows the first `n` characters.
pub fn skip<'a>(s: &'a str, n: usize) -> (r: &'a str)
    requires
        n <= s@.len(),
    ensures
        r@ == s@.skip(n as int),
{
    let len = s.unicode_len();
    assert(s@.subrange(n as int, s@.len() as int) =~= s@.skip(n as int));
    s.substring_char(n, len)
}

// ---------------------------------------------------------------------------
// Replacing, splitting, counting
// ---------------------------------------------------------------------------

/// Every occurrence of `pat`, taken from the left and without overlap,
/// replaced by `with`. An empty `pat` replaces nothing.
pub open spec fn replaced(s: Seq<char>, pat: Seq<char>, with: Seq<char>) -> Seq<char>
    decreases s.len(),
{
    match first_of(s, pat) {
        Some(i) => if pat.len() == 0 || i < 0 || i + pat.len() > s.len() {
            s
        } else {
            s.take(i) + with + replaced(s.skip(i + pat.len()), pat, with)
        },
        None => s,
    }
}

/// Replace every occurrence of `pat` by `with`.
pub fn replace(s: &str, pat: &str, with: &str) -> (r: String)
    requires
        pat@.len() > 0,
    ensures
        r@ == replaced(s@, pat@, with@),
{
    let mut out = String::new();
    let mut rest: &str = s;
    assert(out@ + replaced(rest@, pat@, with@) =~= replaced(s@, pat@, with@));
    loop
        invariant
            pat@.len() > 0,
            out@ + replaced(rest@, pat@, with@) == replaced(s@, pat@, with@),
        decreases rest@.len(),
    {
        match find(rest, pat) {
            Some(i) => {
                let ghost before = out@;
                let ghost whole = rest@;
                out.append(rest.substring_char(0, i));
                out.append(with);
                let plen = pat.unicode_len();
                rest = skip(rest, i + plen);
                assert(out@ + replaced(rest@, pat@, with@) =~= before + (whole.take(i as int)
                    + with@ + replaced(rest@, pat@, with@)));
            },
            None => {
                out.append(rest);
                return out;
            },
        }
    }
}

/// The parts of `s` between the occurrences of a separator, which are taken
/// from the left and without overlap.
pub open spec fn split_at_each(s: Seq<char>, separator: Seq<char>) -> Seq<Seq<char>>
    decreases s.len(),
{
    match first_of(s, separator) {
        Some(i) => if separator.len() == 0 || i < 0 || i + separator.len() > s.len() {
            seq![s]
        } else {
            seq![s.take(i)] + split_at_each(s.skip(i + separator.len()), separator)
        },
        None => seq![s],
    }
}

/// Split a string at each occurrence of a separator.
pub fn split(s: &str, separator: &str) -> (r: Vec<String>)
    requires
        separator@.len() > 0,
    ensures
        views(r@) == split_at_each(s@, separator@),
        r@.len() > 0,
{
    let mut out: Vec<String> = Vec::new();
    let mut rest: &str = s;
    assert(views(out@) + split_at_each(rest@, separator@) =~= split_at_each(s@, separator@));
    loop
        invariant
            separator@.len() > 0,
            views(out@) + split_at_each(rest@, separator@) == split_at_each(s@, separator@),
        decreases rest@.len(),
    {
        let ghost before = views(out@);
        match find(rest, separator) {
            Some(i) => {
                let ghost whole = rest@;
                out.push(rest.substring_char(0, i).to_owned());
                let n = separator.unicode_len();
                rest = skip(rest, i + n);
                assert(views(out@) =~= before + seq![whole.take(i as int)]);
                assert(views(out@) + split_at_each(rest@, separator@) =~= before + (seq![
                    whole.take(i as int),
                ] + split_at_each(rest@, separator@)));
            },
            None => {
                out.push(rest.to_owned());
                assert(views(out@) =~= before + seq![rest@]);
                return out;
            },
        }
    }
}

/// How many occurrences of `pat` there are, taken from the left and without
/// overlap.
pub open spec fn occurrences(s: Seq<char>, pat: Seq<char>) -> nat
    decreases s.len(),
{
    match first_of(s, pat) {
        Some(i) => if pat.len() == 0 || i < 0 || i + pat.len() > s.len() {
            0
        } else {
            1 + occurrences(s.skip(i + pat.len()), pat)
        },
        None => 0,
    }
}

/// Count the occurrences of `pat`.
pub fn count(s: &str, pat: &str) -> (r: usize)
    requires
        pat@.len() > 0,
    ensures
        r == occurrences(s@, pat@),
{
    let mut n: usize = 0;
    let mut rest: &str = s;
    let bound = s.unicode_len();
    loop
        invariant
            pat@.len() > 0,
            bound == s@.len(),
            n + rest@.len() <= bound,
            n + occurrences(rest@, pat@) == occurrences(s@, pat@),
        decreases rest@.len(),
    {
        match find(rest, pat) {
            Some(i) => {
                let plen = pat.unicode_len();
                rest = skip(rest, i + plen);
                n = n + 1;
            },
            None => {
                return n;
            },
        }
    }
}

} // verus!
