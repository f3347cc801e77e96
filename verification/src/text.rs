//! Header-value text: the byte-level predicate deciding which header values
//! decode as text, and the decoding itself.

use vstd::prelude::*;

verus! {

/// A byte that may appear in a header value read as text: visible ASCII or
/// horizontal tab.  This mirrors the acceptance test of `HeaderValue::to_str`
/// in the `http` crate, which treats any other byte as non-text.
pub open spec fn is_header_text_byte(b: u8) -> bool {
    (32 <= b && b < 127) || b == 9
}

/// Every byte of the value is acceptable header text.
pub open spec fn all_header_text(bytes: Seq<u8>) -> bool {
    forall|i: int| 0 <= i < bytes.len() ==> is_header_text_byte(bytes[i])
}

/// The text of a header value whose bytes are all acceptable: each byte is
/// its own character, since all acceptable bytes are ASCII.
pub open spec fn header_text(bytes: Seq<u8>) -> Seq<char> {
    bytes.map_values(|b: u8| b as char)
}

/// Decoded text of a header value: `Some` exactly when every byte is
/// acceptable header text.
pub open spec fn decode_header(bytes: Seq<u8>) -> Option<Seq<char>> {
    if all_header_text(bytes) {
        Some(header_text(bytes))
    } else {
        None
    }
}

/// Relies on `String::push`: appends the given character to the end of the
/// string.
#[verifier::external_body]
pub(crate) fn push_char(s: &mut String, c: char)
    ensures
        final(s)@ == old(s)@.push(c),
{
    s.push(c);
}

/// Decodes a header value's bytes as text, refusing any byte that is not
/// visible ASCII or tab.
pub fn decode_header_value(bytes: &Vec<u8>) -> (r: Option<String>)
    ensures
        match r {
            Some(s) => decode_header(bytes@) == Some(s@),
            None => decode_header(bytes@) is None,
        },
{
    let mut out = String::new();
    let mut i: usize = 0;
    while i < bytes.len()
        invariant
            i <= bytes@.len(),
            forall|j: int| 0 <= j < i ==> is_header_text_byte(bytes@[j]),
            out@ == header_text(bytes@.take(i as int)),
        decreases bytes@.len() - i,
    {
        let b = bytes[i];
        if !((32 <= b && b < 127) || b == 9) {
            assert(!is_header_text_byte(bytes@[i as int]));
            return None;
        }
        push_char(&mut out, b as char);
        i = i + 1;
        proof {
            assert(out@ =~= header_text(bytes@.take(i as int)));
        }
    }
    proof {
        assert(bytes@.take(bytes@.len() as int) =~= bytes@);
    }
    Some(out)
}

} // verus!
