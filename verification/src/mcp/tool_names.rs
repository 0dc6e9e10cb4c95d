//! Tool names that models take.
use crate::text::{
    byte_len, byte_prefix, lemma_byte_len_ascii, lemma_byte_len_first, lemma_chars_within_greatest,
    safe_truncate, to_chars,
};
use vstd::prelude::*;

verus! {

/// The most bytes of a tool's name.
pub const MAX_TOOL_NAME_BYTES: usize = 64;

/// What stands before a name that could not stand alone.
pub const TOOL_NAME_PREFIX: &'static str = "tool_";

/// Whether a character is an ASCII letter or digit.
pub open spec fn is_ascii_alphanumeric(c: char) -> bool {
    '0' <= c <= '9' || 'A' <= c <= 'Z' || 'a' <= c <= 'z'
}

/// Whether a character is a letter or a numeral of any script.
pub uninterp spec fn alphanumeric(c: char) -> bool;

/// Whether a character is a letter or a numeral, by `char::is_alphanumeric`.
/// Of the ASCII characters those are the letters and the digits; which other
/// characters of Unicode they are is left to that function.
#[verifier::external_body]
fn is_alphanumeric(c: char) -> (r: bool)
    ensures
        r == alphanumeric(c),
        (c as u32) < 0x80 ==> r == is_ascii_alphanumeric(c),
{
    c.is_alphanumeric()
}

/// Which characters of a name are letters or numerals.
pub open spec fn alphanumerics(name: Seq<char>) -> Seq<bool> {
    Seq::new(name.len(), |i: int| alphanumeric(name[i]))
}

/// The character that stands for one in a name, given whether it is a letter
/// or a numeral.
pub open spec fn name_char(c: char, alphanumeric: bool) -> char {
    if c != ' ' && (alphanumeric || c == '_' || c == '-') {
        c
    } else {
        '_'
    }
}

/// A name with every character that may not stand in it replaced.
pub open spec fn replaced_chars(name: Seq<char>, alphanumerics: Seq<bool>) -> Seq<char> {
    Seq::new(name.len(), |i: int| name_char(name[i], alphanumerics[i]))
}

/// A text without the underscores that it begins with.
pub open spec fn without_leading(s: Seq<char>) -> Seq<char>
    decreases s.len(),
{
    if s.len() > 0 && s[0] == '_' {
        without_leading(s.drop_first())
    } else {
        s
    }
}

/// A text without the underscores that it ends with.
pub open spec fn without_trailing(s: Seq<char>) -> Seq<char>
    decreases s.len(),
{
    if s.len() > 0 && s.last() == '_' {
        without_trailing(s.drop_last())
    } else {
        s
    }
}

/// The name without what may not stand in it.
pub open spec fn bare(name: Seq<char>, alphanumerics: Seq<bool>) -> Seq<char> {
    without_trailing(without_leading(replaced_chars(name, alphanumerics)))
}

/// Whether a text begins with a digit.
pub open spec fn begins_with_digit(s: Seq<char>) -> bool {
    s.len() > 0 && '0' <= s[0] && s[0] <= '9'
}

/// The name that models are given for a tool, given which characters of its
/// own name are letters or numerals.
pub open spec fn sanitized_name(name: Seq<char>, alphanumerics: Seq<bool>) -> Seq<char> {
    let s = bare(name, alphanumerics);
    let whole = if s.len() == 0 || begins_with_digit(s) {
        TOOL_NAME_PREFIX@ + s
    } else {
        s
    };
    byte_prefix(whole, MAX_TOOL_NAME_BYTES as nat)
}

/// Whether a name is fit as it is: of ASCII letters, digits, underscores and
/// hyphens, within the limit, not empty, with no underscore at either end, and
/// not beginning with a digit.
pub open spec fn is_fit(name: Seq<char>) -> bool {
    &&& 0 < name.len() <= MAX_TOOL_NAME_BYTES
    &&& forall|i: int|
        0 <= i < name.len() ==> is_ascii_alphanumeric(#[trigger] name[i]) || name[i] == '_'
            || name[i] == '-'
    &&& name[0] != '_'
    &&& name.last() != '_'
    &&& !begins_with_digit(name)
}

/// The name that models are given for a tool: every character that may not
/// stand in a name becomes an underscore, underscores at either end go, a name
/// that would be empty or begin with a digit gets a prefix, and what is too
/// long is cut at a character.
pub fn sanitize_tool_name(name: &str) -> (r: String)
    ensures
        r@ == sanitized_name(name@, alphanumerics(name@)),
        forall|i: int|
            0 <= i < name@.len() && (#[trigger] name@[i] as u32) < 0x80 ==> alphanumeric(name@[i])
                == is_ascii_alphanumeric(name@[i]),
        is_fit(name@) ==> r@ == name@,
{
    let given = to_chars(name);
    let mut classes: Vec<bool> = Vec::new();
    for i in 0..given.len()
        invariant
            given@ == name@,
            classes@ =~= alphanumerics(name@).take(i as int),
            forall|j: int|
                0 <= j < i && (#[trigger] name@[j] as u32) < 0x80 ==> alphanumeric(name@[j])
                    == is_ascii_alphanumeric(name@[j]),
    {
        classes.push(is_alphanumeric(given[i]));
    }
    assert(classes@ =~= alphanumerics(name@));
    proof {
        if is_fit(name@) {
            law_fit_name_is_kept(name@, alphanumerics(name@));
        }
    }
    name_from(name, &classes)
}

/// The name that models are given for a tool, given which characters of its
/// own name are letters or numerals.
pub fn name_from(name: &str, alphanumerics: &Vec<bool>) -> (r: String)
    requires
        alphanumerics.len() == name@.len(),
    ensures
        r@ == sanitized_name(name@, alphanumerics@),
{
    let given = to_chars(name);
    let mut chars: Vec<char> = Vec::new();
    for i in 0..given.len()
        invariant
            given@ == name@,
            alphanumerics.len() == name@.len(),
            chars@ =~= replaced_chars(name@, alphanumerics@).take(i as int),
    {
        let c: char = given[i];
        if c != ' ' && (alphanumerics[i] || c == '_' || c == '-') {
            chars.push(c);
        } else {
            chars.push('_');
        }
    }
    let ghost whole = replaced_chars(name@, alphanumerics@);
    assert(chars@ =~= whole);
    let mut start: usize = 0;
    assert(whole.skip(0) =~= whole);
    while start < chars.len() && chars[start] == '_'
        invariant
            chars@ == whole,
            start <= chars.len(),
            without_leading(whole) == without_leading(whole.skip(start as int)),
        decreases chars.len() - start,
    {
        assert(whole.skip(start as int).drop_first() =~= whole.skip(start + 1));
        start = start + 1;
    }
    let ghost tail = whole.skip(start as int);
    assert(without_leading(whole) == tail);
    let mut end: usize = chars.len();
    assert(tail.take(tail.len() as int) =~= tail);
    while end > start && chars[end - 1] == '_'
        invariant
            chars@ == whole,
            start <= end <= chars.len(),
            tail == whole.skip(start as int),
            without_trailing(tail) == without_trailing(tail.take(end - start)),
        decreases end,
    {
        assert(tail.take(end - start).drop_last() =~= tail.take(end - start - 1));
        end = end - 1;
    }
    let ghost kept = tail.take(end - start);
    assert(bare(name@, alphanumerics@) == kept);
    let prefixed = start == end || ('0' <= chars[start] && chars[start] <= '9');
    let mut out = if prefixed {
        TOOL_NAME_PREFIX.to_owned()
    } else {
        String::new()
    };
    let ghost before = out@;
    for k in start..end
        invariant
            given@ == name@,
            whole == replaced_chars(name@, alphanumerics@),
            chars@ == whole,
            start <= end <= chars.len(),
            tail == whole.skip(start as int),
            kept == tail.take(end - start),
            out@ == before + kept.take(k - start),
    {
        assert(kept.take(k - start + 1) =~= kept.take(k - start).push(chars@[k as int]));
        if chars[k] == given[k] {
            out.append(name.substring_char(k, k + 1));
        } else {
            proof {
                reveal_strlit("_");
                assert(chars@[k as int] == name_char(name@[k as int], alphanumerics@[k as int]));
            }
            out.append("_");
        }
        assert(out@ =~= before + kept.take(k - start + 1));
    }
    assert(kept.take(end - start) =~= kept);
    proof {
        if !prefixed {
            assert(before + kept =~= kept);
        }
    }
    let (cut, _) = safe_truncate(&out, MAX_TOOL_NAME_BYTES);
    cut.to_owned()
}

proof fn lemma_without_leading(s: Seq<char>)
    ensures
        without_leading(s).len() > 0 ==> without_leading(s)[0] != '_',
        forall|i: int| 0 <= i < without_leading(s).len() ==> s.contains(
            #[trigger] without_leading(s)[i],
        ),
    decreases s.len(),
{
    if s.len() > 0 && s[0] == '_' {
        let rest = s.drop_first();
        lemma_without_leading(rest);
        assert forall|i: int| 0 <= i < without_leading(s).len() implies s.contains(
            #[trigger] without_leading(s)[i],
        ) by {
            let c = without_leading(rest)[i];
            assert(rest.contains(c));
            let k = choose|k: int| 0 <= k < rest.len() && rest[k] == c;
            assert(s[k + 1] == c);
        }
    }
}

proof fn lemma_without_trailing(s: Seq<char>)
    ensures
        without_trailing(s).is_prefix_of(s),
    decreases s.len(),
{
    if s.len() > 0 && s.last() == '_' {
        lemma_without_trailing(s.drop_last());
    }
}

/// Whether a character may stand in a name: it is an underscore, a hyphen, or
/// a letter or numeral that the tool's own name holds.
pub open spec fn came_from(c: char, name: Seq<char>, alphanumerics: Seq<bool>) -> bool {
    ||| c == '_'
    ||| c == '-'
    ||| exists|k: int| 0 <= k < name.len() && #[trigger] name[k] == c && alphanumerics[k]
}

/// Whatever a tool is called, the name that models are given is not empty, is
/// within the limit, holds only letters, numerals, underscores and hyphens,
/// those of the prefix included, and begins with neither a digit nor an
/// underscore.
pub proof fn law_sanitized_name_is_fit(name: Seq<char>, alphanumerics: Seq<bool>)
    requires
        alphanumerics.len() == name.len(),
    ensures
        sanitized_name(name, alphanumerics).len() > 0,
        byte_len(sanitized_name(name, alphanumerics)) <= MAX_TOOL_NAME_BYTES,
        forall|i: int|
            0 <= i < sanitized_name(name, alphanumerics).len() ==> {
                ||| came_from(#[trigger] sanitized_name(name, alphanumerics)[i], name, alphanumerics)
                ||| TOOL_NAME_PREFIX@.contains(sanitized_name(name, alphanumerics)[i])
            },
        !begins_with_digit(sanitized_name(name, alphanumerics)),
        sanitized_name(name, alphanumerics)[0] != '_',
{
    let all = replaced_chars(name, alphanumerics);
    let led = without_leading(all);
    let s = bare(name, alphanumerics);
    lemma_without_leading(all);
    lemma_without_trailing(led);
    let prefixed = s.len() == 0 || begins_with_digit(s);
    let whole = if prefixed {
        TOOL_NAME_PREFIX@ + s
    } else {
        s
    };
    reveal_strlit("tool_");
    assert forall|i: int| 0 <= i < s.len() implies came_from(#[trigger] s[i], name, alphanumerics) by {
        assert(s[i] == led[i]);
        assert(all.contains(led[i]));
        let k = choose|k: int| 0 <= k < all.len() && all[k] == led[i];
        assert(s[i] == name_char(name[k], alphanumerics[k]));
    }
    assert(whole.len() > 0);
    assert forall|i: int| 0 <= i < whole.len() implies came_from(
        #[trigger] whole[i],
        name,
        alphanumerics,
    ) || TOOL_NAME_PREFIX@.contains(whole[i]) by {
        if prefixed {
            if i >= 5 {
                assert(whole[i] == s[i - 5]);
            } else {
                assert(whole[i] == TOOL_NAME_PREFIX@[i]);
            }
        }
    }
    if !prefixed {
        assert(s[0] == led[0]);
    }
    let cut = byte_prefix(whole, MAX_TOOL_NAME_BYTES as nat);
    lemma_chars_within_greatest(whole, MAX_TOOL_NAME_BYTES as nat);
    assert(byte_len(whole.take(1)) <= 4) by {
        lemma_byte_len_first(whole.take(1));
        assert(whole.take(1).drop_first() =~= Seq::<char>::empty());
        lemma_empty_byte_len();
    }
    assert(cut.len() > 0);
    assert(forall|i: int| 0 <= i < cut.len() ==> cut[i] == whole[i]);
}

/// A name that is fit is kept as it is.
pub proof fn law_fit_name_is_kept(name: Seq<char>, alphanumerics: Seq<bool>)
    requires
        is_fit(name),
        alphanumerics.len() == name.len(),
        forall|i: int|
            0 <= i < name.len() && is_ascii_alphanumeric(#[trigger] name[i]) ==> alphanumerics[i],
    ensures
        sanitized_name(name, alphanumerics) == name,
{
    assert(replaced_chars(name, alphanumerics) =~= name);
    assert(bare(name, alphanumerics) == name);
    lemma_byte_len_ascii(name);
    lemma_chars_within_greatest(name, MAX_TOOL_NAME_BYTES as nat);
    assert(byte_prefix(name, MAX_TOOL_NAME_BYTES as nat) =~= name);
}

proof fn lemma_empty_byte_len()
    ensures
        byte_len(Seq::<char>::empty()) == 0,
{
    reveal_with_fuel(vstd::utf8::encode_utf8, 2);
}

/// A name of one to 64 ASCII letters, digits, underscores and hyphens, with no
/// underscore at either end and no digit in front, is kept; and no name is
/// ever longer than 64 bytes.
pub proof fn law_plain_names_are_kept(name: Seq<char>, alphanumerics: Seq<bool>)
    requires
        alphanumerics.len() == name.len(),
        forall|i: int|
            0 <= i < name.len() && is_ascii_alphanumeric(#[trigger] name[i]) ==> alphanumerics[i],
    ensures
        byte_len(sanitized_name(name, alphanumerics)) <= 64,
        0 < name.len() <= 64 && (forall|i: int|
            0 <= i < name.len() ==> {
                ||| 'a' <= #[trigger] name[i] <= 'z'
                ||| 'A' <= name[i] <= 'Z'
                ||| '0' <= name[i] <= '9'
                ||| name[i] == '_'
                ||| name[i] == '-'
            }) && name[0] != '_' && name.last() != '_' && !('0' <= name[0] <= '9')
            ==> sanitized_name(name, alphanumerics) == name,
{
    law_sanitized_name_is_fit(name, alphanumerics);
    if is_fit(name) {
        law_fit_name_is_kept(name, alphanumerics);
    }
}

} // verus!
