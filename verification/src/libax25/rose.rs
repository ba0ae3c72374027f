//! Rose addresses: ten decimal digits in text, two of them in each byte.

use vstd::prelude::*;
use vstd::utf8::{encode_utf8, is_ascii_chars, is_ascii_chars_encode_utf8};

use crate::text::{lemma_ascii_bytes, push_char};

verus! {

/// Five bytes of packed decimal digits.
#[derive(Debug, Copy, Clone)]
pub struct RoseAddress {
    pub rose_addr: [u8; 5],
}

/// Ten ASCII digits.
pub open spec fn is_rose(b: Seq<u8>) -> bool {
    b.len() == 10 && forall|i: int| 0 <= i < 10 ==> 48 <= #[trigger] b[i] <= 57
}

/// The packed form of ten digits: the first of each pair in the high half.
pub open spec fn packed(b: Seq<u8>) -> Seq<u8> {
    Seq::new(5, |i: int| (16 * (b[2 * i] - 48) + (b[2 * i + 1] - 48)) as u8)
}

/// The packed form of a text, or `None` where it is no Rose address.
pub open spec fn rose_of(t: Seq<char>) -> Option<Seq<u8>> {
    let b = encode_utf8(t);
    if is_rose(b) {
        Some(packed(b))
    } else {
        None
    }
}

/// The text of a Rose address: a character for each half of each byte.
pub open spec fn rose_text(a: Seq<u8>) -> Seq<char> {
    Seq::new(
        10,
        |i: int|
            if i % 2 == 0 {
                (48 + a[i / 2] / 16) as char
            } else {
                (48 + a[i / 2] % 16) as char
            },
    )
}

/// Packs a Rose address into a buffer: 0, or -1 with the buffer unchanged where
/// the text is missing or is not ten digits.
pub fn rose_aton(addr: Option<&str>, buf: &mut [u8; 5]) -> (r: i32)
    ensures
        match (match addr {
            Some(t) => rose_of(t@),
            None => None,
        }) {
            Some(p) => r == 0 && final(buf)@ == p,
            None => r == -1 && final(buf)@ == old(buf)@,
        },
{
    let b = match addr {
        Some(t) => t.as_bytes(),
        None => {
            return -1;
        },
    };
    if b.len() != 10 {
        return -1;
    }
    let mut i: usize = 0;
    while i < 10
        invariant
            i <= 10,
            b@.len() == 10,
            addr matches Some(t) && b@ == encode_utf8(t@),
            buf@ == old(buf)@,
            forall|k: int| 0 <= k < i ==> 48 <= #[trigger] b@[k] <= 57,
        decreases 10 - i,
    {
        if b[i] < 48 || b[i] > 57 {
            return -1;
        }
        i += 1;
    }
    let mut out: [u8; 5] = [0u8; 5];
    let mut i: usize = 0;
    while i < 5
        invariant
            i <= 5,
            is_rose(b@),
            forall|k: int| 0 <= k < i ==> #[trigger] out@[k] == packed(b@)[k],
        decreases 5 - i,
    {
        assert(48 <= b@[2 * i] <= 57 && 48 <= b@[2 * i + 1] <= 57);
        out[i] = 16 * (b[2 * i] - 48) + (b[2 * i + 1] - 48);
        i += 1;
    }
    assert(out@ =~= packed(b@));
    *buf = out;
    0
}

/// The text of a Rose address; empty where there is none.
pub fn rose_ntoa(a: Option<&RoseAddress>) -> (r: String)
    ensures
        r@ == (match a {
            Some(x) => rose_text(x.rose_addr@),
            None => Seq::<char>::empty(),
        }),
{
    let mut s = String::new();
    match a {
        Some(x) => {
            let mut i: usize = 0;
            while i < 5
                invariant
                    i <= 5,
                    s@ == rose_text(x.rose_addr@).take(2 * i),
                decreases 5 - i,
            {
                let byte: u8 = x.rose_addr[i];
                push_char(&mut s, (48 + byte / 16) as char);
                push_char(&mut s, (48 + byte % 16) as char);
                i += 1;
                assert(s@ =~= rose_text(x.rose_addr@).take(2 * i));
            }
            assert(rose_text(x.rose_addr@).take(10) =~= rose_text(x.rose_addr@));
        },
        None => {},
    }
    s
}

/// 0 where two Rose addresses are the same, 1 where they differ or one is missing.
pub fn rose_cmp(a: Option<&RoseAddress>, b: Option<&RoseAddress>) -> (r: i32)
    ensures
        r == (match (a, b) {
            (Some(x), Some(y)) => if x.rose_addr@ == y.rose_addr@ {
                0i32
            } else {
                1i32
            },
            _ => 1,
        }),
{
    match (a, b) {
        (Some(x), Some(y)) => {
            let mut i: usize = 0;
            while i < 5
                invariant
                    i <= 5,
                    a == Some(x),
                    b == Some(y),
                    forall|k: int| 0 <= k < i ==> #[trigger] x.rose_addr@[k] == y.rose_addr@[k],
                decreases 5 - i,
            {
                if x.rose_addr[i] != y.rose_addr[i] {
                    return 1;
                }
                i += 1;
            }
            assert(x.rose_addr@ =~= y.rose_addr@);
            0
        },
        _ => 1,
    }
}

/// The text of a packed address is the text that was packed.
pub proof fn law_rose_text_undoes_packing(t: Seq<char>)
    requires
        rose_of(t) is Some,
    ensures
        rose_text(rose_of(t)->Some_0) == t,
{
    let b = encode_utf8(t);
    lemma_ascii_bytes(t);
    is_ascii_chars_encode_utf8(t);
    let a = packed(b);
    assert forall|i: int| 0 <= i < 10 implies #[trigger] rose_text(a)[i] == t[i] by {
        let k = i / 2;
        assert(48 <= b[2 * k] <= 57 && 48 <= b[2 * k + 1] <= 57);
        assert(a[k] == 16 * (b[2 * k] - 48) + (b[2 * k + 1] - 48));
        assert(a[k] / 16 == b[2 * k] - 48);
        assert(a[k] % 16 == b[2 * k + 1] - 48);
        assert(b[i] == t[i] as u8);
        assert(i == 2 * k || i == 2 * k + 1);
        lemma_ascii_char(t, i);
    }
    assert(rose_text(a) =~= t);
}

proof fn lemma_ascii_char(t: Seq<char>, i: int)
    requires
        is_ascii_chars(t),
        0 <= i < t.len(),
    ensures
        (t[i] as u8) as char == t[i],
{
    assert('\0' <= t[i] <= '\u{7f}');
}

/// Packing the text of an address of decimal digits gives the address back.
pub proof fn law_rose_packing_undoes_text(a: Seq<u8>)
    requires
        a.len() == 5,
        forall|i: int| 0 <= i < 5 ==> (#[trigger] a[i]) / 16 <= 9 && a[i] % 16 <= 9,
    ensures
        rose_of(rose_text(a)) == Some(a),
{
    let t = rose_text(a);
    assert forall|i: int| 0 <= i < 10 implies '0' <= #[trigger] t[i] <= '9' by {
        assert(a[i / 2] / 16 <= 9 && a[i / 2] % 16 <= 9);
    }
    assert(is_ascii_chars(t));
    is_ascii_chars_encode_utf8(t);
    let b = encode_utf8(t);
    assert forall|i: int| 0 <= i < 10 implies 48 <= #[trigger] b[i] <= 57 by {
        assert(b[i] == t[i] as u8);
        assert('0' <= t[i] <= '9');
    }
    assert forall|i: int| 0 <= i < 5 implies #[trigger] packed(b)[i] == a[i] by {
        assert(b[2 * i] == t[2 * i] as u8);
        assert(b[2 * i + 1] == t[2 * i + 1] as u8);
        assert((2 * i) / 2 == i && (2 * i + 1) / 2 == i);
        assert(a[i] / 16 <= 9 && a[i] % 16 <= 9);
    }
    assert(packed(b) =~= a);
}

} // verus!
