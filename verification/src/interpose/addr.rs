//! Callsigns in socket addresses.

use vstd::prelude::*;
use vstd::slice::slice_subrange;
use vstd::utf8::encode_utf8;

use crate::libax25::addr::{
    canonical_text, decode_call, decode_entry, encode_entry, entry_of, is_alnum,
    law_decode_undoes_encode, null_ax25_address, Ax25Address, FullSockaddrAx25, SockaddrAx25,
};

verus! {

/// The address family that is served.
pub const AF_AX25: i32 = 3;

/// The type of a connectionless socket.
pub const SOCK_DGRAM: i32 = 2;

/// The type of a connected socket.
pub const SOCK_SEQPACKET: i32 = 5;

/// The level of AX.25 socket options.
pub const SOL_AX25: i32 = 257;

/// The size of a socket address without digipeaters in its C layout.
pub const SOCKADDR_LEN: usize = 16;

/// The bytes of a socket address that hold its family and its callsign.
pub const CALL_BYTES: usize = 9;

/// The address that stands for none.
pub open spec fn no_call() -> Seq<u8> {
    seq![0x40u8, 0x40, 0x40, 0x40, 0x40, 0x40, 0]
}

/// Where the first hyphen of a text stands, from position `i` on; the length where
/// there is none.
pub open spec fn hyphen_at(b: Seq<u8>, i: int) -> int
    decreases b.len() - i,
{
    if i < 0 || i >= b.len() {
        b.len() as int
    } else if b[i] == 45 {
        i
    } else {
        hyphen_at(b, i + 1)
    }
}

/// A text without a plus sign at its front.
pub open spec fn without_plus(b: Seq<u8>) -> Seq<u8> {
    if b.len() > 0 && b[0] == 43 {
        b.drop_first()
    } else {
        b
    }
}

/// Every byte is an ASCII digit.
pub open spec fn digit_bytes(b: Seq<u8>) -> bool {
    forall|i: int| 0 <= i < b.len() ==> 48 <= #[trigger] b[i] <= 57
}

/// A number as it stands behind a hyphen: digits, perhaps behind a plus sign.
pub open spec fn is_number(b: Seq<u8>) -> bool {
    without_plus(b).len() > 0 && digit_bytes(without_plus(b))
}

/// A callsign without anything that does not belong to it: up to six letters and
/// digits, and behind a hyphen a number.
pub open spec fn is_plain_call(b: Seq<u8>) -> bool {
    let h = hyphen_at(b, 0);
    &&& h <= 6
    &&& forall|i: int| 0 <= i < h ==> is_alnum(#[trigger] b[i])
    &&& h < b.len() ==> is_number(b.skip(h + 1))
}

/// The network form of a callsign, and the address that stands for none where the
/// text is no callsign.
pub open spec fn best_effort(t: Seq<char>) -> Seq<u8> {
    match entry_of(t) {
        Some(e) => if is_plain_call(encode_utf8(t)) {
            e
        } else {
            no_call()
        },
        None => no_call(),
    }
}

/// Decodes a callsign from its network form.
pub fn decode(call: &[u8; 7]) -> (r: String)
    ensures
        r@ == decode_call(call@),
{
    decode_entry(call)
}

fn plain_call(b: &[u8]) -> (r: bool)
    ensures
        r == is_plain_call(b@),
{
    let mut h: usize = 0;
    while h < b.len() && b[h] != 45
        invariant
            h <= b@.len(),
            hyphen_at(b@, 0) == hyphen_at(b@, h as int),
        decreases b@.len() - h,
    {
        h += 1;
    }
    if h > 6 {
        return false;
    }
    let mut i: usize = 0;
    while i < h
        invariant
            i <= h,
            h <= 6,
            h <= b@.len(),
            hyphen_at(b@, 0) == h,
            forall|k: int| 0 <= k < i ==> is_alnum(#[trigger] b@[k]),
        decreases h - i,
    {
        let c: u8 = b[i];
        if !((48 <= c && c <= 57) || (65 <= c && c <= 90) || (97 <= c && c <= 122)) {
            assert(!is_alnum(b@[i as int]));
            return false;
        }
        i += 1;
    }
    if h == b.len() {
        return true;
    }
    let rest = slice_subrange(b, h + 1, b.len());
    assert(rest@ =~= b@.skip(h + 1));
    let start: usize = if rest.len() > 0 && rest[0] == 43 {
        1
    } else {
        0
    };
    let ghost d = rest@.skip(start as int);
    assert(rest@.skip(0) =~= rest@);
    assert(rest@.len() > 0 ==> rest@.skip(1) =~= rest@.drop_first());
    if start == rest.len() {
        assert(d.len() == 0);
        return false;
    }
    let mut i: usize = start;
    while i < rest.len()
        invariant
            start <= i <= rest@.len(),
            d == rest@.skip(start as int),
            hyphen_at(b@, 0) == h,
            h < b@.len(),
            rest@ == b@.skip(h + 1),
            d == without_plus(rest@),
            forall|k: int| 0 <= k < i - start ==> 48 <= #[trigger] d[k] <= 57,
        decreases rest@.len() - i,
    {
        assert(d[i - start] == rest@[i as int]);
        if rest[i] < 48 || rest[i] > 57 {
            assert(!digit_bytes(d));
            return false;
        }
        i += 1;
    }
    true
}

/// Encodes a callsign into its network form. Text that is no callsign yields the
/// address that stands for none, all spaces with SSID 0.
pub fn encode(call: &str) -> (r: [u8; 7])
    ensures
        r@ == best_effort(call@),
{
    if plain_call(call.as_bytes()) {
        match encode_entry(call) {
            Some(e) => {
                return e;
            },
            None => {},
        }
    }
    null_ax25_address().ax25_call
}

/// The callsign in a socket address; `None` where it is missing or too short.
pub fn read_call(addr: Option<&[u8]>) -> (r: Option<String>)
    ensures
        match r {
            Some(s) => addr is Some && addr->Some_0@.len() >= CALL_BYTES && s@ == decode_call(
                addr->Some_0@.subrange(2, 9),
            ),
            None => addr is None || addr->Some_0@.len() < CALL_BYTES,
        },
{
    let a = match addr {
        Some(a) => a,
        None => {
            return None;
        },
    };
    if a.len() < CALL_BYTES {
        return None;
    }
    let call: [u8; 7] = [a[2], a[3], a[4], a[5], a[6], a[7], a[8]];
    assert(call@ =~= a@.subrange(2, 9));
    Some(decode(&call))
}

/// The socket address of a callsign.
pub fn write_call(call: &str) -> (r: SockaddrAx25)
    ensures
        r.sax25_family == AF_AX25,
        r.sax25_call.ax25_call@ == best_effort(call@),
        r.sax25_ndigis == 0,
{
    SockaddrAx25 {
        sax25_family: 3,
        sax25_call: Ax25Address { ax25_call: encode(call) },
        sax25_ndigis: 0,
    }
}

/// The address by which a socket reports its own callsign: it also stands in the
/// place of the first digipeater, where servers look for the port.
pub fn write_sockname(call: &str) -> (r: FullSockaddrAx25)
    ensures
        r@.family == AF_AX25,
        r@.call == best_effort(call@),
        r@.ndigis == 1,
        r@.digis == Seq::new(
            8,
            |i: int|
                if i == 0 {
                    best_effort(call@)
                } else {
                    no_call()
                },
        ),
{
    let me = Ax25Address { ax25_call: encode(call) };
    let none = null_ax25_address();
    let r = FullSockaddrAx25 {
        fsa_ax25: SockaddrAx25 { sax25_family: 3, sax25_call: me, sax25_ndigis: 1 },
        fsa_digipeater: [me, none, none, none, none, none, none, none],
    };
    assert(r@.digis =~= Seq::new(
        8,
        |i: int|
            if i == 0 {
                best_effort(call@)
            } else {
                no_call()
            },
    ));
    r
}

/// How many bytes of an address fit the caller's buffer.
pub fn copy_len(avail: usize, full: usize) -> (r: usize)
    ensures
        r == (if avail < full {
            avail
        } else {
            full
        }),
{
    if avail < full {
        avail
    } else {
        full
    }
}

/// A callsign that is written into an address reads back, in canonical form.
pub proof fn law_address_round_trip(t: Seq<char>)
    requires
        entry_of(t) is Some,
        is_plain_call(encode_utf8(t)),
    ensures
        decode_call(best_effort(t)) == canonical_text(encode_utf8(t)),
{
    law_decode_undoes_encode(encode_utf8(t));
}

} // verus!
