//! Text as sequences of characters.
//!
//! Every string of the crate is modelled by its sequence of characters
//! (`Seq<char>`), and by its UTF-8 encoding where a width in bytes matters.
//! The specification functions of this module say what the string operations
//! mean; the executable functions compute them.
use vstd::prelude::*;
use vstd::utf8::encode_utf8;

pub mod numerals;
pub mod parts;
pub mod search;
pub mod sorting;
pub mod trim;

verus! {

// ---------------------------------------------------------------------------
// Characters, equality, bytes
// ---------------------------------------------------------------------------

/// The characters with the Unicode `White_Space` property.
pub open spec fn is_white_space(c: char) -> bool {
    let u = c as u32;
    ||| 0x9 <= u <= 0xd
    ||| u == 0x20
    ||| u == 0x85
    ||| u == 0xa0
    ||| u == 0x1680
    ||| 0x2000 <= u <= 0x200a
    ||| 0x2028 <= u <= 0x2029
    ||| u == 0x202f
    ||| u == 0x205f
    ||| u == 0x3000
}

/// Whether a character is white space.
pub fn white_space(c: char) -> (r: bool)
    ensures
        r == is_white_space(c),
{
    let u: u32 = c as u32;
    (0x9 <= u && u <= 0xd) || u == 0x20 || u == 0x85 || u == 0xa0 || u == 0x1680 || (0x2000 <= u
        && u <= 0x200a) || (0x2028 <= u && u <= 0x2029) || u == 0x202f || u == 0x205f || u
        == 0x3000
}

/// A text with nothing but white space in it.
pub open spec fn is_blank(s: Seq<char>) -> bool {
    forall|i: int| 0 <= i < s.len() ==> is_white_space(#[trigger] s[i])
}

/// The characters of a string.
pub fn to_chars(s: &str) -> (r: Vec<char>)
    ensures
        r@ == s@,
{
    let mut out: Vec<char> = Vec::new();
    for c in it: s.chars()
        invariant
            out@ == it.seq().take(it.index() as int),
            it.seq() == s@,
    {
        out.push(c);
    }
    out
}

/// Whether two strings hold the same text.
pub fn same(a: &str, b: &str) -> (r: bool)
    ensures
        r == (a@ == b@),
{
    let x = a.to_owned();
    let y = b.to_owned();
    x == y
}

/// Whether a string has nothing but white space in it.
pub fn blank(s: &str) -> (r: bool)
    ensures
        r == is_blank(s@),
{
    let chars = to_chars(s);
    let mut i: usize = 0;
    while i < chars.len()
        invariant
            chars@ == s@,
            i <= chars.len(),
            forall|j: int| 0 <= j < i ==> is_white_space(#[trigger] s@[j]),
        decreases chars.len() - i,
    {
        if !white_space(chars[i]) {
            assert(!is_white_space(s@[i as int]));
            return false;
        }
        i = i + 1;
    }
    true
}

/// The width of a text in bytes of UTF-8.
pub open spec fn byte_len(s: Seq<char>) -> nat {
    encode_utf8(s).len()
}

/// The width of one character in bytes of UTF-8.
pub open spec fn char_width(c: char) -> nat {
    let u = c as u32;
    if u < 0x80 {
        1
    } else if u < 0x800 {
        2
    } else if u < 0x10000 {
        3
    } else {
        4
    }
}

/// The width of a string in bytes.
pub fn byte_count(s: &str) -> (r: usize)
    ensures
        r == byte_len(s@),
{
    s.as_bytes().len()
}

/// The number of characters of a string.
pub fn char_count(s: &str) -> (r: usize)
    ensures
        r == s@.len(),
{
    s.unicode_len()
}

/// The width of a character in bytes.
pub fn width_of(c: char) -> (r: usize)
    ensures
        r == char_width(c),
        1 <= r <= 4,
{
    let u: u32 = c as u32;
    if u < 0x80 {
        1
    } else if u < 0x800 {
        2
    } else if u < 0x10000 {
        3
    } else {
        4
    }
}

/// A text is as wide as its first character and the rest together.
pub proof fn lemma_byte_len_first(s: Seq<char>)
    requires
        s.len() > 0,
    ensures
        byte_len(s) == char_width(s[0]) + byte_len(s.drop_first()),
{
    let c = s[0];
    vstd::utf8::char_is_scalar(c);
    reveal_with_fuel(encode_utf8, 2);
}

/// Two texts side by side are as wide as both together.
pub proof fn lemma_byte_len_concat(a: Seq<char>, b: Seq<char>)
    ensures
        byte_len(a + b) == byte_len(a) + byte_len(b),
    decreases a.len(),
{
    if a.len() == 0 {
        assert(a + b =~= b);
        assert(byte_len(a) == 0) by {
            reveal_with_fuel(encode_utf8, 2);
        }
    } else {
        lemma_byte_len_first(a);
        lemma_byte_len_first(a + b);
        assert((a + b).drop_first() =~= a.drop_first() + b);
        lemma_byte_len_concat(a.drop_first(), b);
    }
}

/// A text is at least as wide as it has characters.
pub proof fn lemma_byte_len_at_least_chars(s: Seq<char>)
    ensures
        byte_len(s) >= s.len(),
    decreases s.len(),
{
    if s.len() > 0 {
        lemma_byte_len_first(s);
        lemma_byte_len_at_least_chars(s.drop_first());
    }
}

/// A text of ASCII alone is as wide as it has characters.
pub proof fn lemma_byte_len_ascii(s: Seq<char>)
    requires
        forall|i: int| 0 <= i < s.len() ==> ((#[trigger] s[i]) as u32) < 0x80,
    ensures
        byte_len(s) == s.len(),
    decreases s.len(),
{
    if s.len() > 0 {
        lemma_byte_len_first(s);
        lemma_byte_len_ascii(s.drop_first());
    } else {
        reveal_with_fuel(encode_utf8, 2);
    }
}

// ---------------------------------------------------------------------------
// Truncation
// ---------------------------------------------------------------------------

/// How many leading characters fit into `max` bytes.
pub open spec fn chars_within(s: Seq<char>, max: nat) -> nat
    decreases s.len(),
{
    if s.len() == 0 || char_width(s[0]) > max {
        0
    } else {
        1 + chars_within(s.drop_first(), (max - char_width(s[0])) as nat)
    }
}

/// The longest prefix of whole characters that fits into `max` bytes.
pub open spec fn byte_prefix(s: Seq<char>, max: nat) -> Seq<char> {
    s.take(chars_within(s, max) as int)
}

/// `chars_within` is the greatest number of characters that fits: they fit,
/// and one more would not.
pub proof fn lemma_chars_within_greatest(s: Seq<char>, max: nat)
    ensures
        chars_within(s, max) <= s.len(),
        byte_len(byte_prefix(s, max)) <= max,
        chars_within(s, max) < s.len() ==> byte_len(s.take(chars_within(s, max) as int + 1)) > max,
        (chars_within(s, max) == s.len()) == (byte_len(s) <= max),
    decreases s.len(),
{
    let k = chars_within(s, max) as int;
    reveal_with_fuel(encode_utf8, 2);
    if s.len() == 0 {
        assert(s.take(0) =~= s);
    } else if char_width(s[0]) > max {
        assert(s.take(0).len() == 0);
        lemma_byte_len_first(s.take(1));
        lemma_byte_len_first(s);
    } else {
        let rest = s.drop_first();
        let left = (max - char_width(s[0])) as nat;
        lemma_chars_within_greatest(rest, left);
        assert(s.take(k).drop_first() =~= rest.take(k - 1));
        lemma_byte_len_first(s.take(k));
        lemma_byte_len_first(s);
        if k < s.len() {
            assert(s.take(k + 1).drop_first() =~= rest.take(k));
            lemma_byte_len_first(s.take(k + 1));
        }
    }
}

/// The longest prefix of whole characters within `max` bytes, and whether
/// anything was cut off.
pub fn safe_truncate<'a>(s: &'a str, max: usize) -> (r: (&'a str, bool))
    ensures
        r.0@ == byte_prefix(s@, max as nat),
        r.1 == (byte_len(s@) > max),
{
    let chars = to_chars(s);
    let mut i: usize = 0;
    let mut left: usize = max;
    assert(s@.skip(0) =~= s@);
    while i < chars.len() && width_of(chars[i]) <= left
        invariant
            chars@ == s@,
            i <= chars.len(),
            chars_within(s@, max as nat) == i + chars_within(s@.skip(i as int), left as nat),
        decreases chars.len() - i,
    {
        assert(s@.skip(i as int)[0] == s@[i as int]);
        assert(s@.skip(i as int).drop_first() =~= s@.skip(i + 1));
        left = left - width_of(chars[i]);
        i = i + 1;
    }
    proof {
        if i < chars.len() {
            assert(s@.skip(i as int)[0] == s@[i as int]);
        }
        lemma_chars_within_greatest(s@, max as nat);
    }
    (s.substring_char(0, i), i < chars.len())
}

/// The first `max` characters, or all of them.
pub open spec fn char_prefix(s: Seq<char>, max: nat) -> Seq<char> {
    if s.len() <= max {
        s
    } else {
        s.take(max as int)
    }
}

/// The first `max` characters of a string, and whether anything was cut off.
pub fn truncate_to_chars<'a>(s: &'a str, max: usize) -> (r: (&'a str, bool))
    ensures
        r.0@ == char_prefix(s@, max as nat),
        r.1 == (s@.len() > max),
{
    let n = char_count(s);
    if n <= max {
        (s, false)
    } else {
        (s.substring_char(0, max), true)
    }
}

} // verus!
