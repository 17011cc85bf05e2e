//! String helpers shared by the validator and the generator.

use vstd::prelude::*;
use vstd::string::StringSliceAdditionalSpecFns;
use vstd::utf8::{encode_utf8, encode_utf8_decode_utf8};

verus! {

/// Whether two strings hold the same text.
pub fn str_eq(a: &str, b: &str) -> (r: bool)
    ensures
        r == (a@ == b@),
{
    let x = a.as_bytes();
    let y = b.as_bytes();
    proof {
        // Two texts with the same encoding are the same text.
        encode_utf8_decode_utf8(a@);
        encode_utf8_decode_utf8(b@);
    }
    if x.len() != y.len() {
        return false;
    }
    let mut i: usize = 0;
    while i < x.len()
        invariant
            i <= x.len(),
            x.len() == y.len(),
            x@ == encode_utf8(a@),
            y@ == encode_utf8(b@),
            forall|j: int| 0 <= j < i ==> x@[j] == y@[j],
        decreases x.len() - i,
    {
        if x[i] != y[i] {
            return false;
        }
        i += 1;
    }
    assert(x@ =~= y@);
    true
}

/// `true` for the ASCII letters and digits.
pub open spec fn is_ascii_alphanumeric(c: char) -> bool {
    ||| 'a' <= c <= 'z'
    ||| 'A' <= c <= 'Z'
    ||| '0' <= c <= '9'
}

/// `char::is_ascii_alphanumeric` of std: true exactly for `'0'..='9'`,
/// `'A'..='Z'` and `'a'..='z'`, as its documentation lists them.
pub assume_specification[ char::is_ascii_alphanumeric ](c: &char) -> (r: bool)
    ensures
        r == is_ascii_alphanumeric(*c),
;

/// `String::push` of std: appends one character to the end of the string.
pub assume_specification[ String::push ](text: &mut String, ch: char)
    ensures
        final(text)@ == old(text)@.push(ch),
;

/// What one character of a name becomes in a generated identifier.
pub open spec fn sanitized_char(c: char) -> char {
    if is_ascii_alphanumeric(c) {
        c
    } else {
        '_'
    }
}

/// A name with every character that is not an ASCII letter or digit
/// replaced by `_`; length and positions are kept.
pub open spec fn sanitized(name: Seq<char>) -> Seq<char> {
    Seq::new(name.len(), |i: int| sanitized_char(name[i]))
}

/// Turns a domain name into a string that can be part of a generated
/// identifier.
pub fn sanitize_name(domain: &str) -> (out: String)
    ensures
        out@ == sanitized(domain@),
{
    let mut out = String::new();
    for c in it: domain.chars()
        invariant
            it.seq() == domain@,
            out@ == sanitized(domain@.take(it.index())),
    {
        let mapped = if c.is_ascii_alphanumeric() {
            c
        } else {
            '_'
        };
        out.push(mapped);
        assert(out@ == sanitized(domain@.take(it.index() + 1)));
    }
    assert(domain@.take(domain@.len() as int) == domain@);
    out
}

} // verus!
