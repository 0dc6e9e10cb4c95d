//! HTTP headers that a client sends.
use vstd::prelude::*;

verus! {

/// A header by its name and its value.
#[derive(Debug, PartialEq, Eq)]
pub struct Header {
    pub name: String,
    pub value: String,
}

/// The characters that a header's name may hold.
pub open spec fn is_name_char(c: char) -> bool {
    let u = c as u32;
    ||| 0x30 <= u <= 0x39
    ||| 0x41 <= u <= 0x5A
    ||| 0x5E <= u <= 0x7A
    ||| 0x23 <= u <= 0x27
    ||| c == '!'
    ||| c == '*'
    ||| c == '+'
    ||| c == '-'
    ||| c == '.'
    ||| c == '|'
    ||| c == '~'
}

/// Whether a text can name a header.
pub open spec fn is_header_name(s: Seq<char>) -> bool {
    1 <= s.len() <= 65535 && forall|i: int| 0 <= i < s.len() ==> is_name_char(#[trigger] s[i])
}

/// The characters that a header's value may hold.
pub open spec fn is_value_char(c: char) -> bool {
    let u = c as u32;
    (0x20 <= u && u != 0x7F) || c == '\t'
}

/// Whether a text can be a header's value.
pub open spec fn is_header_value(s: Seq<char>) -> bool {
    forall|i: int| 0 <= i < s.len() ==> is_value_char(#[trigger] s[i])
}

/// Whether `reqwest::header::HeaderName::from_bytes` takes a text as a name:
/// it takes one to 65535 characters, each a token character of HTTP.
#[verifier::external_body]
fn names_header(name: &str) -> (r: bool)
    ensures
        r == is_header_name(name@),
{
    reqwest::header::HeaderName::from_bytes(name.as_bytes()).is_ok()
}

/// Whether `reqwest::header::HeaderValue::from_str` takes a text as a value:
/// it refuses control characters other than the tab.
#[verifier::external_body]
fn is_value(value: &str) -> (r: bool)
    ensures
        r == is_header_value(value@),
{
    reqwest::header::HeaderValue::from_str(value).is_ok()
}

impl Header {
    /// Whether the header can be sent.
    pub open spec fn sendable(self) -> bool {
        is_header_name(self.name@) && is_header_value(self.value@)
    }

    /// Whether the header can be sent.
    pub fn is_sendable(&self) -> (r: bool)
        ensures
            r == self.sendable(),
    {
        names_header(&self.name) && is_value(&self.value)
    }
}

/// The headers that are sent: those that can be, in the order given. The rest
/// are skipped.
pub open spec fn sent(headers: Seq<Header>) -> Seq<Header> {
    headers.filter(|h: Header| h.sendable())
}

/// The headers that are sent.
pub fn usable_headers(headers: Vec<Header>) -> (r: Vec<Header>)
    ensures
        r@ == sent(headers@),
{
    let mut r: Vec<Header> = Vec::new();
    let ghost keep = |h: Header| h.sendable();
    for i in 0..headers.len()
        invariant
            keep == (|h: Header| h.sendable()),
            r@ == headers@.take(i as int).filter(keep),
    {
        proof {
            assert(headers@.take(i + 1).drop_last() =~= headers@.take(i as int));
            reveal(Seq::filter);
        }
        if headers[i].is_sendable() {
            r.push(Header { name: headers[i].name.clone(), value: headers[i].value.clone() });
        }
    }
    assert(headers@.take(headers.len() as int) =~= headers@);
    r
}

} // verus!
