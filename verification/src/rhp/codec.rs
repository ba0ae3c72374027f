//! The codec of the `data` field: one code point U+0000..=U+00FF for each byte.

use vstd::prelude::*;

use crate::text::{push_char, to_chars};

verus! {

/// The Latin-1 text of a byte string.
pub open spec fn wire_string(bytes: Seq<u8>) -> Seq<char> {
    Seq::new(bytes.len(), |i: int| bytes[i] as char)
}

/// The low byte of a code point.
pub open spec fn low_byte(c: char) -> u8 {
    (c as u32 % 256) as u8
}

/// The low bytes of a text's code points.
pub open spec fn wire_bytes(s: Seq<char>) -> Seq<u8> {
    Seq::new(s.len(), |i: int| low_byte(s[i]))
}

/// Encodes bytes as a Latin-1 string, one code point for each byte.
pub fn to_wire_string(bytes: &[u8]) -> (r: String)
    ensures
        r@ == wire_string(bytes@),
{
    let mut r = String::new();
    let mut i: usize = 0;
    while i < bytes.len()
        invariant
            i <= bytes.len(),
            r@ == wire_string(bytes@.take(i as int)),
        decreases bytes.len() - i,
    {
        push_char(&mut r, bytes[i] as char);
        i += 1;
        assert(r@ =~= wire_string(bytes@.take(i as int)));
    }
    assert(bytes@.take(i as int) =~= bytes@);
    r
}

/// Decodes a Latin-1 string, one byte for each code point. Of a code point above
/// U+00FF, which well-formed data does not hold, the low byte is taken.
pub fn from_wire_string(s: &str) -> (r: Vec<u8>)
    ensures
        r@ == wire_bytes(s@),
{
    let chars = to_chars(s);
    let mut r: Vec<u8> = Vec::new();
    let mut i: usize = 0;
    while i < chars.len()
        invariant
            i <= chars.len(),
            r@ == wire_bytes(chars@.take(i as int)),
        decreases chars.len() - i,
    {
        r.push((chars[i] as u32 % 256) as u8);
        i += 1;
        assert(r@ =~= wire_bytes(chars@.take(i as int)));
    }
    assert(chars@.take(i as int) =~= chars@);
    r
}

/// Every byte string survives the codec: decoding gives back what was encoded,
/// with exactly one code point for each byte on the way.
pub proof fn law_wire_round_trip(bytes: Seq<u8>)
    ensures
        wire_string(bytes).len() == bytes.len(),
        wire_bytes(wire_string(bytes)) == bytes,
{
    assert(wire_bytes(wire_string(bytes)) =~= bytes);
}

/// A code point of one byte is that byte.
proof fn lemma_low_byte(c: char)
    requires
        c as u32 <= 0xFF,
    ensures
        low_byte(c) as char == c,
{
}

/// Well-formed data survives the other way round too.
pub proof fn law_wire_text_round_trip(s: Seq<char>)
    requires
        forall|i: int| 0 <= i < s.len() ==> (#[trigger] s[i]) as u32 <= 0xFF,
    ensures
        wire_string(wire_bytes(s)) == s,
{
    assert forall|i: int| 0 <= i < s.len() implies wire_string(wire_bytes(s))[i] == s[i] by {
        lemma_low_byte(s[i]);
    }
    assert(wire_string(wire_bytes(s)) =~= s);
}

} // verus!
