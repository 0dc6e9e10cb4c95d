//! Patterns that select tools by name.
//!
//! A star stands for any run of characters. A pattern with a colon selects by
//! the server too: what stands before the colon is matched with the server's
//! name.
use crate::text::search::{find, first_of, skip};
use crate::text::to_chars;
use vstd::prelude::*;

verus! {

/// Whether a text matches a pattern.
pub open spec fn matches_glob(pattern: Seq<char>, s: Seq<char>) -> bool
    decreases pattern.len() + s.len(),
{
    if pattern.len() == 0 {
        s.len() == 0
    } else if pattern[0] == '*' {
        matches_glob(pattern.drop_first(), s) || (s.len() > 0 && matches_glob(
            pattern,
            s.drop_first(),
        ))
    } else {
        s.len() > 0 && s[0] == pattern[0] && matches_glob(pattern.drop_first(), s.drop_first())
    }
}

/// The row before `row`: whether each end of the text matches the pattern with
/// the character `c` before it.
fn earlier_row(c: char, chars: &Vec<char>, row: &Vec<bool>, Ghost(pattern): Ghost<Seq<char>>) -> (r:
    Vec<bool>)
    requires
        pattern.len() > 0,
        pattern[0] == c,
        row.len() == chars.len() + 1,
        forall|j: int|
            0 <= j <= chars.len() ==> #[trigger] row@[j] == matches_glob(
                pattern.drop_first(),
                chars@.skip(j),
            ),
    ensures
        r.len() == chars.len() + 1,
        forall|j: int|
            0 <= j <= chars.len() ==> #[trigger] r@[j] == matches_glob(pattern, chars@.skip(j)),
{
    let n: usize = chars.len();
    let mut r: Vec<bool> = Vec::new();
    let mut fill: usize = 0;
    while fill < row.len()
        invariant
            fill <= row.len(),
            r.len() == fill,
        decreases row.len() - fill,
    {
        r.push(false);
        fill = fill + 1;
    }
    let mut j: usize = n;
    let last = c == '*' && row[n];
    r.set(n, last);
    assert(row@[n as int] == matches_glob(pattern.drop_first(), chars@.skip(n as int)));
    while j > 0
        invariant
            n == chars.len(),
            j <= n,
            pattern.len() > 0,
            pattern[0] == c,
            row.len() == n + 1,
            r.len() == n + 1,
            forall|k: int|
                0 <= k <= n ==> #[trigger] row@[k] == matches_glob(
                    pattern.drop_first(),
                    chars@.skip(k),
                ),
            forall|k: int|
                j <= k <= n ==> #[trigger] r@[k] == matches_glob(pattern, chars@.skip(k)),
        decreases j,
    {
        let ghost end = j;
        assert(r@[j as int] == matches_glob(pattern, chars@.skip(j as int)));
        assert(row@[j as int] == matches_glob(pattern.drop_first(), chars@.skip(j as int)));
        j = j - 1;
        assert(chars@.skip(j as int).drop_first() =~= chars@.skip(end as int));
        assert(row@[j as int] == matches_glob(pattern.drop_first(), chars@.skip(j as int)));
        let here = if c == '*' {
            row[j] || r[j + 1]
        } else {
            chars[j] == c && row[j + 1]
        };
        r.set(j, here);
    }
    r
}

/// Whether a text matches a pattern.
pub fn glob_match(pattern: &str, s: &str) -> (r: bool)
    ensures
        r == matches_glob(pattern@, s@),
{
    let p = to_chars(pattern);
    let chars = to_chars(s);
    let mut row: Vec<bool> = Vec::new();
    let mut fill: usize = 0;
    while fill < chars.len()
        invariant
            fill <= chars.len(),
            row.len() == fill,
            forall|k: int| 0 <= k < fill ==> !(#[trigger] row@[k]),
        decreases chars.len() - fill,
    {
        row.push(false);
        fill = fill + 1;
    }
    row.push(true);
    let mut i: usize = p.len();
    assert(p@.skip(i as int) =~= Seq::empty());
    while i > 0
        invariant
            i <= p.len(),
            row.len() == chars.len() + 1,
            forall|k: int|
                0 <= k <= chars.len() ==> #[trigger] row@[k] == matches_glob(
                    p@.skip(i as int),
                    chars@.skip(k),
                ),
        decreases i,
    {
        let ghost end = i;
        i = i - 1;
        assert(p@.skip(i as int).drop_first() =~= p@.skip(end as int));
        row = earlier_row(p[i], &chars, &row, Ghost(p@.skip(i as int)));
    }
    assert(p@.skip(0) =~= p@);
    assert(chars@.skip(0) =~= chars@);
    row[0]
}

/// A pattern that selects tools.
#[derive(Debug, PartialEq, Eq)]
pub struct GlobPattern {
    pattern: String,
}

/// Whether a pattern selects a tool of a server. A pattern with a colon
/// selects no tool whose server is not known.
pub open spec fn selects(pattern: Seq<char>, namespace: Option<Seq<char>>, name: Seq<char>) -> bool {
    match first_of(pattern, ":"@) {
        Some(i) => namespace is Some && matches_glob(pattern.take(i), namespace->0)
            && matches_glob(pattern.skip(i + 1), name),
        None => matches_glob(pattern, name),
    }
}

impl View for GlobPattern {
    type V = Seq<char>;

    closed spec fn view(&self) -> Seq<char> {
        self.pattern@
    }
}

impl GlobPattern {
    /// The pattern that a text spells.
    pub fn new(pattern: &str) -> (r: GlobPattern)
        ensures
            r@ == pattern@,
    {
        GlobPattern { pattern: pattern.to_owned() }
    }

    /// Whether the pattern selects a tool of a server.
    pub fn matches(&self, namespace: Option<&str>, name: &str) -> (r: bool)
        ensures
            r == selects(
                self@,
                match namespace {
                    Some(n) => Some(n@),
                    None => None,
                },
                name@,
            ),
    {
        match find(&self.pattern, ":") {
            Some(i) => match namespace {
                Some(n) => {
                    proof {
                        reveal_strlit(":");
                    }
                    let server = self.pattern.as_str().substring_char(0, i);
                    assert(self@.subrange(0, i as int) =~= self@.take(i as int));
                    glob_match(server, n) && glob_match(skip(&self.pattern, i + 1), name)
                },
                None => false,
            },
            None => glob_match(&self.pattern, name),
        }
    }
}

/// A pattern without stars matches only itself.
pub proof fn law_plain_pattern_matches_itself(pattern: Seq<char>, s: Seq<char>)
    requires
        forall|i: int| 0 <= i < pattern.len() ==> #[trigger] pattern[i] != '*',
    ensures
        matches_glob(pattern, s) == (pattern == s),
    decreases pattern.len(),
{
    if pattern.len() > 0 {
        if s.len() > 0 {
            law_plain_pattern_matches_itself(pattern.drop_first(), s.drop_first());
            assert((pattern == s) == (pattern[0] == s[0] && pattern.drop_first() == s.drop_first()))
                by {
                if pattern[0] == s[0] && pattern.drop_first() == s.drop_first() {
                    assert(pattern =~= seq![pattern[0]] + pattern.drop_first());
                    assert(s =~= seq![s[0]] + s.drop_first());
                }
            }
        }
    } else {
        assert((pattern == s) == (s.len() == 0)) by {
            if s.len() == 0 {
                assert(pattern =~= s);
            }
        }
    }
}

/// A lone star matches everything.
pub proof fn law_star_matches_everything(s: Seq<char>)
    ensures
        matches_glob(seq!['*'], s),
    decreases s.len(),
{
    let star = seq!['*'];
    if s.len() > 0 {
        law_star_matches_everything(s.drop_first());
    } else {
        assert(matches_glob(star.drop_first(), s));
    }
}

} // verus!
