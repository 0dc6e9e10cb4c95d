//! Decimal numerals.
use super::search::skip;
use super::to_chars;
use vstd::prelude::*;

verus! {

/// The character of one decimal digit.
pub open spec fn digit_char(d: nat) -> char {
    if d == 0 {
        '0'
    } else if d == 1 {
        '1'
    } else if d == 2 {
        '2'
    } else if d == 3 {
        '3'
    } else if d == 4 {
        '4'
    } else if d == 5 {
        '5'
    } else if d == 6 {
        '6'
    } else if d == 7 {
        '7'
    } else if d == 8 {
        '8'
    } else {
        '9'
    }
}

/// The numeral of a number, without leading zeros.
pub open spec fn numeral(n: nat) -> Seq<char>
    decreases n,
{
    if n < 10 {
        seq![digit_char(n)]
    } else {
        numeral(n / 10).push(digit_char(n % 10))
    }
}

/// The value of one decimal digit.
pub open spec fn digit_value(c: char) -> Option<nat> {
    let u = c as u32;
    if 0x30 <= u <= 0x39 {
        Some((u - 0x30) as nat)
    } else {
        None
    }
}

/// The value of a run of decimal digits.
pub open spec fn digits_value(s: Seq<char>) -> Option<nat>
    decreases s.len(),
{
    if s.len() == 0 {
        Some(0)
    } else {
        match (digits_value(s.drop_last()), digit_value(s.last())) {
            (Some(v), Some(d)) => Some(v * 10 + d),
            _ => None,
        }
    }
}

/// The number that a text spells: one or more digits, after a plus sign or
/// not, whose value fits into `usize`.
pub open spec fn parsed_usize(s: Seq<char>) -> Option<usize> {
    let digits = if s.len() > 0 && s[0] == '+' {
        s.drop_first()
    } else {
        s
    };
    if digits.len() == 0 {
        None
    } else {
        match digits_value(digits) {
            Some(v) => if v <= usize::MAX {
                Some(v as usize)
            } else {
                None
            },
            None => None,
        }
    }
}

fn digit_text(d: u64) -> (r: &'static str)
    requires
        d < 10,
    ensures
        r@ == seq![digit_char(d as nat)],
{
    proof {
        reveal_strlit("0");
        reveal_strlit("1");
        reveal_strlit("2");
        reveal_strlit("3");
        reveal_strlit("4");
        reveal_strlit("5");
        reveal_strlit("6");
        reveal_strlit("7");
        reveal_strlit("8");
        reveal_strlit("9");
    }
    if d == 0 {
        "0"
    } else if d == 1 {
        "1"
    } else if d == 2 {
        "2"
    } else if d == 3 {
        "3"
    } else if d == 4 {
        "4"
    } else if d == 5 {
        "5"
    } else if d == 6 {
        "6"
    } else if d == 7 {
        "7"
    } else if d == 8 {
        "8"
    } else {
        "9"
    }
}

/// The numeral of a `u64`.
pub fn u64_text(n: u64) -> (r: String)
    ensures
        r@ == numeral(n as nat),
    decreases n,
{
    if n < 10 {
        digit_text(n).to_owned()
    } else {
        let mut s = u64_text(n / 10);
        let ghost head = s@;
        s.append(digit_text(n % 10));
        assert(s@ =~= head.push(digit_char((n % 10) as nat)));
        s
    }
}

/// The numeral of a `usize`.
pub fn usize_text(n: usize) -> (r: String)
    ensures
        r@ == numeral(n as nat),
{
    u64_text(n as u64)
}

/// The numeral of a signed number, with a minus sign where it is negative.
pub open spec fn signed_numeral(n: int) -> Seq<char> {
    if n < 0 {
        "-"@ + numeral((-n) as nat)
    } else {
        numeral(n as nat)
    }
}

/// The numeral of an `i64`.
pub fn i64_text(n: i64) -> (r: String)
    ensures
        r@ == signed_numeral(n as int),
{
    if n < 0 {
        let magnitude: u64 = if n == i64::MIN {
            0x8000_0000_0000_0000
        } else {
            (-n) as u64
        };
        let mut s = "-".to_owned();
        s.append(u64_text(magnitude).as_str());
        s
    } else {
        u64_text(n as u64)
    }
}

proof fn lemma_digits_value_prefix(s: Seq<char>, i: int)
    requires
        0 <= i <= s.len(),
        digits_value(s) is Some,
    ensures
        digits_value(s.take(i)) is Some,
        digits_value(s.take(i))->0 <= digits_value(s)->0,
    decreases s.len(),
{
    if i == s.len() {
        assert(s.take(i) =~= s);
    } else {
        lemma_digits_value_prefix(s.drop_last(), i);
        assert(s.drop_last().take(i) =~= s.take(i));
    }
}

/// Read the number that a string spells.
pub fn parse_usize(s: &str) -> (r: Option<usize>)
    ensures
        r == parsed_usize(s@),
{
    let whole = to_chars(s);
    let signed = whole.len() > 0 && whole[0] == '+';
    let digits: &str = if signed {
        skip(s, 1)
    } else {
        s
    };
    let ghost body = digits@;
    proof {
        if signed {
            assert(s@.skip(1) =~= s@.drop_first());
        }
    }
    let chars = to_chars(digits);
    if chars.len() == 0 {
        return None;
    }
    let mut value: usize = 0;
    let mut i: usize = 0;
    while i < chars.len()
        invariant
            chars@ == body,
            body.len() > 0,
            i <= chars.len(),
            body == (if s@.len() > 0 && s@[0] == '+' {
                s@.drop_first()
            } else {
                s@
            }),
            digits_value(body.take(i as int)) == Some(value as nat),
        decreases chars.len() - i,
    {
        let u: u32 = chars[i] as u32;
        let ghost next = body.take(i as int + 1);
        proof {
            assert(next.drop_last() =~= body.take(i as int));
            assert(next.last() == body[i as int]);
            if digits_value(body) is Some {
                lemma_digits_value_prefix(body, i + 1);
            }
        }
        if u < 0x30 || u > 0x39 {
            return None;
        }
        let d: usize = (u - 0x30) as usize;
        assert(digits_value(next) == Some((value * 10 + d) as nat));
        match value.checked_mul(10) {
            None => {
                return None;
            },
            Some(shifted) => match shifted.checked_add(d) {
                None => {
                    return None;
                },
                Some(sum) => {
                    value = sum;
                },
            },
        }
        i = i + 1;
    }
    assert(body.take(i as int) =~= body);
    Some(value)
}

/// Every character of a numeral is a digit, and its value is the number.
pub proof fn lemma_numeral_digits(n: nat)
    ensures
        numeral(n).len() > 0,
        digits_value(numeral(n)) == Some(n),
        forall|i: int| 0 <= i < numeral(n).len() ==> digit_value(#[trigger] numeral(n)[i]) is Some,
    decreases n,
{
    reveal_with_fuel(digits_value, 2);
    if n >= 10 {
        lemma_numeral_digits(n / 10);
        assert(numeral(n).drop_last() =~= numeral(n / 10));
    } else {
        assert(numeral(n).drop_last().len() == 0);
    }
}

/// A power of ten.
pub open spec fn ten_to(k: nat) -> nat
    decreases k,
{
    if k == 0 {
        1
    } else {
        10 * ten_to((k - 1) as nat)
    }
}

/// A number below a power of ten has no more digits than the power.
pub proof fn lemma_numeral_len(n: nat, k: nat)
    requires
        k > 0,
        n < ten_to(k),
    ensures
        numeral(n).len() <= k,
    decreases n,
{
    if n >= 10 {
        reveal_with_fuel(ten_to, 2);
        lemma_numeral_len(n / 10, (k - 1) as nat);
    }
}

/// A machine number has at most twenty digits.
pub proof fn lemma_numeral_len_machine(n: nat)
    requires
        n <= u64::MAX,
    ensures
        numeral(n).len() <= 20,
{
    assert(ten_to(20) > u64::MAX) by {
        reveal_with_fuel(ten_to, 21);
    }
    lemma_numeral_len(n, 20);
}

/// A number's numeral reads back as the number.
pub proof fn law_numeral_round_trip(n: usize)
    ensures
        parsed_usize(numeral(n as nat)) == Some(n),
{
    lemma_numeral_digits(n as nat);
    let c = numeral(n as nat)[0];
    assert(digit_value(c) is Some);
    assert(c != '+');
}

} // verus!
