//! AX.25 callsigns in text and in their 7-byte shifted network form.
//!
//! Each of six callsign characters is shifted left by one bit, short callsigns
//! are padded with spaces, and the seventh byte holds the SSID in bits 1 to 4.

use vstd::prelude::*;
use vstd::utf8::{encode_utf8, is_ascii_chars, is_ascii_chars_encode_utf8};

use crate::text::{
    decimal, lemma_skip_step, push_char, push_decimal, same_ignoring_case, same_text_ignoring_case,
    split_words, texts_view, to_chars, words,
};

verus! {

/// The AX.25 address family.
pub const AF_AX25: u16 = 3;

/// The most digipeaters that an address can hold.
pub const AX25_MAX_DIGIS: usize = 8;

/// The size of a full socket address in its C layout.
pub const FULL_SOCKADDR_LEN: i32 = 72;

/// Six callsign characters and the SSID byte, all shifted.
#[derive(Debug, Copy, Clone)]
pub struct Ax25Address {
    pub ax25_call: [u8; 7],
}

/// A socket address: family, callsign and number of digipeaters.
#[derive(Debug, Copy, Clone)]
pub struct SockaddrAx25 {
    pub sax25_family: u16,
    pub sax25_call: Ax25Address,
    pub sax25_ndigis: i32,
}

/// A socket address with its digipeaters.
#[derive(Debug, Copy, Clone)]
pub struct FullSockaddrAx25 {
    pub fsa_ax25: SockaddrAx25,
    pub fsa_digipeater: [Ax25Address; 8],
}

/// An ASCII letter or digit.
pub open spec fn is_alnum(b: u8) -> bool {
    48 <= b <= 57 || 65 <= b <= 90 || 97 <= b <= 122
}

/// ASCII small letters become capitals; every other byte stays.
pub open spec fn upper_byte(b: u8) -> u8 {
    if 97 <= b <= 122 {
        (b - 32) as u8
    } else {
        b
    }
}

/// ASCII capitals become small letters; every other byte stays.
pub open spec fn lower_byte(b: u8) -> u8 {
    if 65 <= b <= 90 {
        (b + 32) as u8
    } else {
        b
    }
}

/// The number that a run of ASCII digits stands for.
pub open spec fn number_value(b: Seq<u8>) -> nat
    decreases b.len(),
{
    if b.len() == 0 {
        0
    } else {
        number_value(b.drop_last()) * 10 + (b.last() - 48) as nat
    }
}

/// How many ASCII digits stand at the front.
pub open spec fn digit_run(b: Seq<u8>) -> nat
    decreases b.len(),
{
    if b.len() > 0 && 48 <= b[0] <= 57 {
        1 + digit_run(b.drop_first())
    } else {
        0
    }
}

/// The text without the spaces and tabs at its front.
pub open spec fn skip_blanks(b: Seq<u8>) -> Seq<u8>
    decreases b.len(),
{
    if b.len() > 0 && (b[0] == 32 || b[0] == 9) {
        skip_blanks(b.drop_first())
    } else {
        b
    }
}

/// The integer at the front of a text: blanks, a sign, digits. What follows the
/// digits does not matter.
pub open spec fn scan_int(b: Seq<u8>) -> Option<int> {
    let t = skip_blanks(b);
    let signed = t.len() > 0 && (t[0] == 43 || t[0] == 45);
    let u = if signed {
        t.drop_first()
    } else {
        t
    };
    if digit_run(u) == 0 {
        None
    } else if signed && t[0] == 45 {
        Some(-(number_value(u.take(digit_run(u) as int)) as int))
    } else {
        Some(number_value(u.take(digit_run(u) as int)) as int)
    }
}

/// Where the callsign characters end, from position `i` on: at a hyphen, after
/// six characters, or at the end of the text.
pub open spec fn call_end(b: Seq<u8>, i: int) -> int
    decreases 6 - i,
{
    if i < 0 || i >= 6 || i >= b.len() || b[i] == 45 {
        i
    } else {
        call_end(b, i + 1)
    }
}

/// The SSID of a callsign: 0 where nothing follows its characters, else the
/// integer behind the next character, which must be in 0..=15.
pub open spec fn ssid_of(b: Seq<u8>) -> Option<int> {
    let end = call_end(b, 0);
    if end >= b.len() {
        Some(0)
    } else {
        match scan_int(b.skip(end + 1)) {
            Some(v) => if 0 <= v <= 15 {
                Some(v)
            } else {
                None
            },
            None => None,
        }
    }
}

/// Whether a text is a callsign: letters and digits, and an SSID in range.
pub open spec fn is_call(b: Seq<u8>) -> bool {
    &&& forall|i: int| 0 <= i < call_end(b, 0) ==> is_alnum(#[trigger] b[i])
    &&& ssid_of(b) is Some
}

/// The shifted bytes of a callsign.
pub open spec fn shifted(b: Seq<u8>) -> Seq<u8> {
    Seq::new(
        7,
        |i: int|
            if i == 6 {
                (2 * ssid_of(b)->Some_0) as u8
            } else if i < call_end(b, 0) {
                (2 * upper_byte(b[i])) as u8
            } else {
                0x40
            },
    )
}

/// The network form of a callsign, or `None` where the text is none.
pub open spec fn encode_call(b: Seq<u8>) -> Option<Seq<u8>> {
    if is_call(b) {
        Some(shifted(b))
    } else {
        None
    }
}

/// The value of an optional callsign in network form.
pub open spec fn entry_view(e: Option<[u8; 7]>) -> Option<Seq<u8>> {
    match e {
        Some(a) => Some(a@),
        None => None,
    }
}

/// The SSID in the seventh byte.
pub open spec fn ssid_bits(b: u8) -> int {
    (b as int / 2) % 16
}

/// The first `n` callsign characters without the padding.
pub open spec fn call_letters(call: Seq<u8>, n: nat) -> Seq<char>
    decreases n,
{
    if n == 0 {
        Seq::empty()
    } else {
        call_letters(call, (n - 1) as nat) + (if call[n - 1] / 2 == 32 {
            Seq::<char>::empty()
        } else {
            seq![(call[n - 1] / 2) as char]
        })
    }
}

/// The text of an SSID: nothing for 0, else a hyphen and the number.
pub open spec fn ssid_text(ssid: int) -> Seq<char> {
    if ssid == 0 {
        Seq::empty()
    } else {
        seq!['-'] + decimal(ssid as nat)
    }
}

/// The text of a callsign in network form.
pub open spec fn decode_call(call: Seq<u8>) -> Seq<char> {
    call_letters(call, 6) + ssid_text(ssid_bits(call[6]))
}

/// The two addresses hold the same callsign characters.
pub open spec fn same_letters(a: Seq<u8>, b: Seq<u8>) -> bool {
    forall|i: int| 0 <= i < 6 ==> (#[trigger] a[i]) / 2 == b[i] / 2
}

/// How two addresses compare: 0 where they are the same, 2 where only the SSID
/// differs, 1 otherwise.
pub open spec fn comparison(a: Seq<u8>, b: Seq<u8>) -> i32 {
    if !same_letters(a, b) {
        1
    } else if ssid_bits(a[6]) != ssid_bits(b[6]) {
        2
    } else {
        0
    }
}

/// A callsign character in network form: a capital, a digit or a space.
pub open spec fn is_call_byte(b: u8) -> bool {
    let c = b / 2;
    65 <= c <= 90 || 48 <= c <= 57 || c == 32
}

/// Whether an address holds a valid callsign.
pub open spec fn is_valid(call: Seq<u8>) -> bool {
    forall|i: int| 0 <= i < 6 ==> is_call_byte(#[trigger] call[i])
}

/// A run of digits is where it says it is.
pub proof fn lemma_digit_run(b: Seq<u8>, n: nat)
    requires
        n <= b.len(),
        forall|i: int| 0 <= i < n ==> 48 <= #[trigger] b[i] <= 57,
        n < b.len() ==> !(48 <= b[n as int] <= 57),
    ensures
        digit_run(b) == n,
    decreases n,
{
    if n > 0 {
        lemma_digit_run(b.drop_first(), (n - 1) as nat);
    }
}

/// Scans the integer behind a callsign; `None` unless it is in 0..=15.
fn scan_ssid(b: &[u8], from: usize) -> (r: Option<u8>)
    requires
        from <= b@.len(),
    ensures
        match scan_int(b@.skip(from as int)) {
            Some(v) => r == (if 0 <= v <= 15 {
                Some(v as u8)
            } else {
                None
            }),
            None => r is None,
        },
{
    let mut i: usize = from;
    while i < b.len() && (b[i] == 32 || b[i] == 9)
        invariant
            from <= i <= b@.len(),
            skip_blanks(b@.skip(from as int)) == skip_blanks(b@.skip(i as int)),
        decreases b@.len() - i,
    {
        proof {
            lemma_skip_step(b@, i as int);
        }
        i += 1;
    }
    let ghost t = b@.skip(i as int);
    assert(skip_blanks(t) == t);
    let mut neg = false;
    if i < b.len() && (b[i] == 43 || b[i] == 45) {
        proof {
            lemma_skip_step(b@, i as int);
        }
        neg = b[i] == 45;
        i += 1;
    }
    let start: usize = i;
    let ghost u = b@.skip(start as int);
    let mut val: u8 = 0;
    while i < b.len() && 48 <= b[i] && b[i] <= 57
        invariant
            start <= i <= b@.len(),
            u == b@.skip(start as int),
            forall|k: int| 0 <= k < i - start ==> 48 <= #[trigger] u[k] <= 57,
            number_value(u.take(i - start)) <= 15 ==> val == number_value(u.take(i - start)),
            number_value(u.take(i - start)) > 15 ==> val == 16,
        decreases b@.len() - i,
    {
        assert(u.take(i + 1 - start).drop_last() =~= u.take(i - start));
        assert(u[i - start] == b@[i as int]);
        if val < 16 {
            val = val * 10 + (b[i] - 48);
            if val > 16 {
                val = 16;
            }
        }
        i += 1;
    }
    proof {
        assert(i < b@.len() ==> u[i - start] == b@[i as int]);
        lemma_digit_run(u, (i - start) as nat);
    }
    if i == start {
        return None;
    }
    if val > 15 || (neg && val > 0) {
        return None;
    }
    Some(val)
}

/// Encodes a callsign (`CALL` or `CALL-SSID`). `None` where a symbol is invalid
/// or the SSID is out of range.
pub fn encode_entry(name: &str) -> (r: Option<[u8; 7]>)
    ensures
        entry_view(r) == encode_call(encode_utf8(name@)),
{
    let b = name.as_bytes();
    let mut buf: [u8; 7] = [0x40u8; 7];
    let mut i: usize = 0;
    while i < 6 && i < b.len() && b[i] != 45
        invariant
            i <= 6,
            i <= b@.len(),
            b@ == encode_utf8(name@),
            call_end(b@, 0) == call_end(b@, i as int),
            forall|k: int| 0 <= k < i ==> is_alnum(#[trigger] b@[k]),
            forall|k: int| 0 <= k < i ==> buf@[k] == 2 * upper_byte(#[trigger] b@[k]),
            forall|k: int| i <= k < 7 ==> #[trigger] buf@[k] == 0x40,
        decreases 6 - i,
    {
        let c: u8 = b[i];
        let alnum = (48 <= c && c <= 57) || (65 <= c && c <= 90) || (97 <= c && c <= 122);
        if !alnum {
            proof {
                lemma_call_end_beyond(b@, i as int);
            }
            assert(!is_alnum(b@[i as int]));
            return None;
        }
        buf[i] = 2 * (if 97 <= c && c <= 122 {
            c - 32
        } else {
            c
        });
        i += 1;
    }
    assert(call_end(b@, 0) == i);
    let mut ssid: u8 = 0;
    if i < b.len() {
        match scan_ssid(b, i + 1) {
            Some(v) => {
                ssid = v;
            },
            None => {
                return None;
            },
        }
    }
    buf[6] = 2 * ssid;
    assert(buf@ =~= shifted(b@));
    Some(buf)
}

/// The callsign characters end at or behind a position that is reached.
proof fn lemma_call_end_beyond(b: Seq<u8>, i: int)
    requires
        0 <= i < 6,
        i < b.len(),
        b[i] != 45,
    ensures
        call_end(b, i) > i,
    decreases 6 - i,
{
    reveal_with_fuel(call_end, 2);
    if i + 1 < 6 && i + 1 < b.len() && b[i + 1] != 45 {
        lemma_call_end_beyond(b, i + 1);
    }
}

/// Decodes a callsign; an SSID of 0 is left out.
pub fn decode_entry(call: &[u8; 7]) -> (r: String)
    ensures
        r@ == decode_call(call@),
{
    let mut s = String::new();
    let mut n: usize = 0;
    while n < 6
        invariant
            n <= 6,
            s@ == call_letters(call@, n as nat),
        decreases 6 - n,
    {
        let c: u8 = call[n] / 2;
        if c != 32 {
            push_char(&mut s, c as char);
        }
        n += 1;
        assert(s@ =~= call_letters(call@, n as nat));
    }
    let ssid: u8 = (call[6] / 2) % 16;
    if ssid != 0 {
        push_char(&mut s, '-');
        push_decimal(&mut s, ssid as u64);
    }
    assert(s@ =~= decode_call(call@));
    s
}

/// Compares two callsigns: 0 identical, 1 different, 2 only the SSID differs.
pub fn cmp_entry(a: &[u8; 7], b: &[u8; 7]) -> (r: i32)
    ensures
        r == comparison(a@, b@),
{
    let mut i: usize = 0;
    while i < 6
        invariant
            i <= 6,
            forall|k: int| 0 <= k < i ==> (#[trigger] a@[k]) / 2 == b@[k] / 2,
        decreases 6 - i,
    {
        if a[i] / 2 != b[i] / 2 {
            return 1;
        }
        i += 1;
    }
    if (a[6] / 2) % 16 != (b[6] / 2) % 16 {
        return 2;
    }
    0
}

/// Whether two callsigns are identical.
pub fn same_address(a: &[u8; 7], b: &[u8; 7]) -> (r: bool)
    ensures
        r == (comparison(a@, b@) == 0),
{
    cmp_entry(a, b) == 0
}

/// Whether the six callsign characters are capitals, digits or spaces.
pub fn validate_entry(call: &[u8; 7]) -> (r: bool)
    ensures
        r == is_valid(call@),
{
    let mut i: usize = 0;
    while i < 6
        invariant
            i <= 6,
            forall|k: int| 0 <= k < i ==> is_call_byte(#[trigger] call@[k]),
        decreases 6 - i,
    {
        let c: u8 = call[i] / 2;
        let ok = (65 <= c && c <= 90) || (48 <= c && c <= 57) || c == 32;
        if !ok {
            assert(!is_call_byte(call@[i as int]));
            return false;
        }
        i += 1;
    }
    true
}

/// The address that stands for none: all spaces, SSID 0.
pub fn null_ax25_address() -> (r: Ax25Address)
    ensures
        r.ax25_call@ == seq![0x40u8, 0x40, 0x40, 0x40, 0x40, 0x40, 0],
        decode_call(r.ax25_call@) == Seq::<char>::empty(),
{
    let r = Ax25Address { ax25_call: [0x40, 0x40, 0x40, 0x40, 0x40, 0x40, 0] };
    assert(r.ax25_call@ =~= seq![0x40u8, 0x40, 0x40, 0x40, 0x40, 0x40, 0]);
    proof {
        reveal_with_fuel(call_letters, 7);
        assert(decode_call(r.ax25_call@) =~= Seq::<char>::empty());
    }
    r
}

/// The mathematical value of a full socket address.
#[verifier::ext_equal]
pub struct SaxModel {
    pub family: u16,
    pub call: Seq<u8>,
    pub ndigis: i32,
    pub digis: Seq<Seq<u8>>,
}

impl View for FullSockaddrAx25 {
    type V = SaxModel;

    open spec fn view(&self) -> SaxModel {
        SaxModel {
            family: self.fsa_ax25.sax25_family,
            call: self.fsa_ax25.sax25_call.ax25_call@,
            ndigis: self.fsa_ax25.sax25_ndigis,
            digis: self.fsa_digipeater@.map_values(|a: Ax25Address| a.ax25_call@),
        }
    }
}

/// The word that may stand between a callsign and its digipeaters.
pub open spec fn is_via(t: Seq<char>) -> bool {
    same_ignoring_case(t, "v"@) || same_ignoring_case(t, "via"@)
}

/// The words without the separators at their front.
pub open spec fn skip_vias(t: Seq<Seq<char>>) -> Seq<Seq<char>>
    decreases t.len(),
{
    if t.len() > 0 && is_via(t[0]) {
        skip_vias(t.drop_first())
    } else {
        t
    }
}

/// The callsign and the digipeaters that a list of words names: the first word
/// (an empty one where there is none), then, behind the separators, the others,
/// nine in all at most.
pub open spec fn path_of(tokens: Seq<Seq<char>>) -> Seq<Seq<char>> {
    let all = if tokens.len() == 0 {
        seq![Seq::<char>::empty()]
    } else {
        seq![tokens[0]] + skip_vias(tokens.drop_first())
    };
    if all.len() > AX25_MAX_DIGIS + 1 {
        all.take(AX25_MAX_DIGIS + 1)
    } else {
        all
    }
}

/// The network form of a word.
pub open spec fn entry_of(t: Seq<char>) -> Option<Seq<u8>> {
    encode_call(encode_utf8(t))
}

/// The first `n` entries of a path are callsigns.
pub open spec fn callsigns(path: Seq<Seq<char>>, n: int) -> bool {
    forall|k: int| 0 <= k < n ==> entry_of(#[trigger] path[k]) is Some
}

/// An address in which the first `n` entries of a path have been placed.
pub open spec fn placed(m: SaxModel, path: Seq<Seq<char>>, n: int) -> SaxModel {
    SaxModel {
        family: m.family,
        ndigis: m.ndigis,
        call: if n > 0 {
            entry_of(path[0])->Some_0
        } else {
            m.call
        },
        digis: Seq::new(
            m.digis.len(),
            |k: int|
                if k + 1 < n {
                    entry_of(path[k + 1])->Some_0
                } else {
                    m.digis[k]
                },
        ),
    }
}

/// What filling an address does. Where every entry of the path is a callsign it
/// succeeds: they are placed, and family and count are set. Otherwise it fails,
/// and the entries before the first that is none have been placed.
pub open spec fn filled(before: SaxModel, path: Seq<Seq<char>>, after: SaxModel, r: i32) -> bool {
    if callsigns(path, path.len() as int) {
        &&& r == FULL_SOCKADDR_LEN
        &&& after == SaxModel {
            family: AF_AX25,
            ndigis: (path.len() - 1) as i32,
            ..placed(before, path, path.len() as int)
        }
    } else {
        &&& r == -1
        &&& exists|n: int|
            0 <= n < path.len() && callsigns(path, n) && entry_of(#[trigger] path[n]) is None
                && after == placed(before, path, n)
    }
}

/// The bytes of a C string that come before its end.
pub open spec fn before_nul(s: Seq<u8>, i: int) -> bool {
    forall|k: int| 0 <= k <= i ==> #[trigger] s[k] != 0
}

/// Encodes a callsign into a buffer: 0, or -1 with the buffer unchanged. A name
/// that is missing or no text is no callsign.
pub fn ax25_aton_entry(name: Option<&str>, buf: &mut [u8; 7]) -> (r: i32)
    ensures
        match (match name {
            Some(t) => entry_of(t@),
            None => None,
        }) {
            Some(e) => r == 0 && final(buf)@ == e,
            None => r == -1 && final(buf)@ == old(buf)@,
        },
{
    match name {
        Some(t) => match encode_entry(t) {
            Some(e) => {
                *buf = e;
                0
            },
            None => -1,
        },
        None => -1,
    }
}

/// The text of an address; empty where there is none. It has at most nine
/// characters, all ASCII.
pub fn ax25_ntoa(a: Option<&Ax25Address>) -> (r: String)
    ensures
        r@ == (match a {
            Some(x) => decode_call(x.ax25_call@),
            None => Seq::<char>::empty(),
        }),
        r@.len() <= 9,
        is_ascii_chars(r@),
{
    match a {
        Some(x) => {
            proof {
                lemma_decoded_is_short(x.ax25_call@);
            }
            decode_entry(&x.ax25_call)
        },
        None => String::new(),
    }
}

/// Compares two addresses; one that is missing differs from any other.
pub fn ax25_cmp(a: Option<&Ax25Address>, b: Option<&Ax25Address>) -> (r: i32)
    ensures
        r == (match (a, b) {
            (Some(x), Some(y)) => comparison(x.ax25_call@, y.ax25_call@),
            _ => 1,
        }),
{
    match (a, b) {
        (Some(x), Some(y)) => cmp_entry(&x.ax25_call, &y.ax25_call),
        _ => 1,
    }
}

/// 1 where an address holds a valid callsign, else 0.
pub fn ax25_validate(call: Option<&[u8; 7]>) -> (r: i32)
    ensures
        r == (match call {
            Some(c) => if is_valid(c@) {
                1i32
            } else {
                0i32
            },
            None => 0,
        }),
{
    match call {
        Some(c) => {
            if validate_entry(c) {
                1
            } else {
                0
            }
        },
        None => 0,
    }
}

/// Fills an address from a callsign and its digipeaters, written with blanks
/// between them.
pub fn ax25_aton(call: Option<&str>, sax: &mut FullSockaddrAx25) -> (r: i32)
    ensures
        match call {
            Some(t) => filled(old(sax)@, path_of(words(t@)), final(sax)@, r),
            None => r == -1 && final(sax)@ == old(sax)@,
        },
{
    match call {
        Some(t) => {
            let chars = to_chars(t);
            let tokens = split_words(chars.as_slice());
            fill_sax(&tokens, sax)
        },
        None => -1,
    }
}

/// Fills an address from a list of words.
pub fn ax25_aton_arglist(call: Option<&Vec<String>>, sax: &mut FullSockaddrAx25) -> (r: i32)
    ensures
        match call {
            Some(t) => filled(old(sax)@, path_of(texts_view(t@)), final(sax)@, r),
            None => r == -1 && final(sax)@ == old(sax)@,
        },
{
    match call {
        Some(tokens) => fill_sax(tokens, sax),
        None => -1,
    }
}

/// Places a callsign and its digipeaters.
fn fill_sax(tokens: &Vec<String>, sax: &mut FullSockaddrAx25) -> (r: i32)
    ensures
        filled(old(sax)@, path_of(texts_view(tokens@)), final(sax)@, r),
{
    let ghost before = sax@;
    let ghost words = texts_view(tokens@);
    let ghost path = path_of(words);
    if tokens.len() == 0 {
        // An empty input still yields one entry, all spaces.
        let entry = match encode_entry("") {
            Some(e) => e,
            None => {
                proof {
                    reveal_strlit("");
                    assert(""@ =~= Seq::<char>::empty());
                    assert(path[0] == ""@);
                    assert(sax@ =~= placed(before, path, 0));
                }
                return -1;
            },
        };
        sax.fsa_ax25.sax25_call.ax25_call = entry;
        sax.fsa_ax25.sax25_ndigis = 0;
        sax.fsa_ax25.sax25_family = AF_AX25;
        proof {
            reveal_strlit("");
            assert(""@ =~= Seq::<char>::empty());
            assert(path[0] == ""@);
            assert(sax@.digis =~= placed(before, path, 1).digis);
        }
        return FULL_SOCKADDR_LEN;
    }
    let mut n: usize = 0;
    let mut i: usize = 0;
    assert(sax@ =~= placed(before, path, 0));
    while i < tokens.len() && n <= AX25_MAX_DIGIS
        invariant
            words == texts_view(tokens@),
            words.len() > 0,
            path == path_of(words),
            before == old(sax)@,
            i <= tokens@.len(),
            n <= 9,
            n <= path.len(),
            n == 0 ==> i == 0,
            n == 1 ==> skip_vias(words.skip(i as int)) == skip_vias(words.drop_first()),
            n >= 2 ==> words.skip(i as int) == skip_vias(words.drop_first()).skip(n - 1),
            callsigns(path, n as int),
            sax@ == placed(before, path, n as int),
        decreases tokens@.len() - i,
    {
        proof {
            lemma_skip_step(words, i as int);
            assert(words[i as int] == tokens@[i as int]@);
        }
        if n == 1 && (same_text_ignoring_case(tokens[i].as_str(), "v") || same_text_ignoring_case(
            tokens[i].as_str(),
            "via",
        )) {
            i += 1;
            continue ;
        }
        proof {
            let behind = skip_vias(words.drop_first());
            if n == 0 {
                assert(path[0] == words[0]);
            } else if n == 1 {
                assert(skip_vias(words.skip(i as int)) == words.skip(i as int));
                assert(behind[0] == words[i as int]);
                assert(path[1] == words[i as int]);
            } else {
                assert(behind[n - 1] == words.skip(i as int)[0]);
                assert(path[n as int] == words[i as int]);
            }
        }
        let entry = match encode_entry(tokens[i].as_str()) {
            Some(e) => e,
            None => {
                assert(entry_of(path[n as int]) is None);
                return -1;
            },
        };
        let ghost prev = sax@;
        if n == 0 {
            sax.fsa_ax25.sax25_call.ax25_call = entry;
            assert(words.skip(1) =~= words.drop_first());
            assert(sax@.digis =~= prev.digis);
        } else {
            sax.fsa_digipeater[n - 1] = Ax25Address { ax25_call: entry };
            assert(sax@.digis =~= prev.digis.update(n - 1, entry@));
            assert(words.skip(i + 1) =~= skip_vias(words.drop_first()).skip(n as int));
        }
        n += 1;
        i += 1;
        assert(sax@.digis =~= placed(before, path, n as int).digis);
        assert(sax@ =~= placed(before, path, n as int));
    }
    proof {
        let behind = skip_vias(words.drop_first());
        if n <= 8 {
            assert(words.skip(i as int).len() == 0);
            assert(path.len() == n);
        }
    }
    sax.fsa_ax25.sax25_ndigis = n as i32 - 1;
    sax.fsa_ax25.sax25_family = AF_AX25;
    FULL_SOCKADDR_LEN
}

/// Makes the ASCII small letters of a C string capitals, up to its end.
pub fn strupr(s: &mut Vec<u8>)
    ensures
        final(s)@.len() == old(s)@.len(),
        forall|i: int|
            0 <= i < old(s)@.len() ==> #[trigger] final(s)@[i] == (if before_nul(old(s)@, i) {
                upper_byte(old(s)@[i])
            } else {
                old(s)@[i]
            }),
{
    let mut i: usize = 0;
    while i < s.len() && s[i] != 0
        invariant
            i <= s@.len(),
            s@.len() == old(s)@.len(),
            forall|k: int| 0 <= k < i ==> #[trigger] old(s)@[k] != 0,
            forall|k: int| 0 <= k < i ==> #[trigger] s@[k] == upper_byte(old(s)@[k]),
            forall|k: int| i <= k < s@.len() ==> #[trigger] s@[k] == old(s)@[k],
        decreases s@.len() - i,
    {
        let c: u8 = s[i];
        if 97 <= c && c <= 122 {
            s[i] = c - 32;
        }
        i += 1;
    }
}

/// Makes the ASCII capitals of a C string small letters, up to its end.
pub fn strlwr(s: &mut Vec<u8>)
    ensures
        final(s)@.len() == old(s)@.len(),
        forall|i: int|
            0 <= i < old(s)@.len() ==> #[trigger] final(s)@[i] == (if before_nul(old(s)@, i) {
                lower_byte(old(s)@[i])
            } else {
                old(s)@[i]
            }),
{
    let mut i: usize = 0;
    while i < s.len() && s[i] != 0
        invariant
            i <= s@.len(),
            s@.len() == old(s)@.len(),
            forall|k: int| 0 <= k < i ==> #[trigger] old(s)@[k] != 0,
            forall|k: int| 0 <= k < i ==> #[trigger] s@[k] == lower_byte(old(s)@[k]),
            forall|k: int| i <= k < s@.len() ==> #[trigger] s@[k] == old(s)@[k],
        decreases s@.len() - i,
    {
        let c: u8 = s[i];
        if 65 <= c && c <= 90 {
            s[i] = c + 32;
        }
        i += 1;
    }
}

proof fn lemma_letters_are_short(call: Seq<u8>, n: nat)
    ensures
        call_letters(call, n).len() <= n,
        is_ascii_chars(call_letters(call, n)),
    decreases n,
{
    if n > 0 {
        lemma_letters_are_short(call, (n - 1) as nat);
        lemma_half_is_ascii(call[n - 1]);
    }
}

proof fn lemma_half_is_ascii(b: u8)
    ensures
        '\0' <= ((b / 2) as char) <= '\u{7f}',
{
}

/// A decoded callsign has at most six letters, a hyphen and two digits.
proof fn lemma_decoded_is_short(call: Seq<u8>)
    requires
        call.len() == 7,
    ensures
        decode_call(call).len() <= 9,
        is_ascii_chars(decode_call(call)),
{
    lemma_letters_are_short(call, 6);
    reveal_with_fuel(decimal, 3);
    assert(is_ascii_chars(ssid_text(ssid_bits(call[6]))));
}

/// A callsign in canonical text: its letters as capitals, and its SSID unless it
/// is 0.
pub open spec fn canonical_text(b: Seq<u8>) -> Seq<char> {
    Seq::new(call_end(b, 0) as nat, |i: int| upper_byte(b[i]) as char) + ssid_text(
        ssid_of(b)->Some_0,
    )
}

/// An address as encoding makes it: valid characters with their low bit clear,
/// padding only at the end, and nothing but the SSID in the seventh byte.
pub open spec fn is_canonical(a: Seq<u8>) -> bool {
    &&& a.len() == 7
    &&& is_valid(a)
    &&& forall|i: int| 0 <= i < 6 ==> (#[trigger] a[i]) % 2 == 0
    &&& forall|i: int, j: int|
        0 <= i < j < 6 && #[trigger] a[i] == 0x40 ==> #[trigger] a[j] == 0x40
    &&& a[6] % 2 == 0
    &&& a[6] <= 30
}

pub proof fn lemma_call_end_bounds(b: Seq<u8>, i: int)
    requires
        0 <= i <= 6,
        i <= b.len(),
    ensures
        i <= call_end(b, i) <= 6,
        call_end(b, i) <= b.len(),
        call_end(b, i) < b.len() && call_end(b, i) < 6 ==> b[call_end(b, i)] == 45,
        forall|k: int| i <= k < call_end(b, i) ==> #[trigger] b[k] != 45,
    decreases 6 - i,
{
    if i < 6 && i < b.len() && b[i] != 45 {
        lemma_call_end_bounds(b, i + 1);
    }
}

proof fn lemma_letters_of_shifted(b: Seq<u8>, n: nat)
    requires
        is_call(b),
        n <= 6,
    ensures
        call_letters(shifted(b), n) == Seq::new(
            if n <= call_end(b, 0) {
                n
            } else {
                call_end(b, 0) as nat
            },
            |i: int| upper_byte(b[i]) as char,
        ),
    decreases n,
{
    lemma_call_end_bounds(b, 0);
    if n > 0 {
        lemma_letters_of_shifted(b, (n - 1) as nat);
        let i = n - 1;
        if i < call_end(b, 0) {
            assert(is_alnum(b[i]));
            assert(shifted(b)[i] / 2 == upper_byte(b[i]));
        }
    }
    assert(call_letters(shifted(b), n) =~= Seq::new(
        if n <= call_end(b, 0) {
            n
        } else {
            call_end(b, 0) as nat
        },
        |i: int| upper_byte(b[i]) as char,
    ));
}

/// Decoding gives back what was encoded, in canonical form: capitals, and no SSID
/// where it is 0.
pub proof fn law_decode_undoes_encode(b: Seq<u8>)
    requires
        encode_call(b) is Some,
    ensures
        decode_call(encode_call(b)->Some_0) == canonical_text(b),
{
    lemma_letters_of_shifted(b, 6);
    lemma_call_end_bounds(b, 0);
    assert(shifted(b)[6] / 2 == ssid_of(b)->Some_0);
}

/// What encoding makes is valid and canonical.
pub proof fn law_encoded_is_canonical(b: Seq<u8>)
    requires
        encode_call(b) is Some,
    ensures
        is_canonical(encode_call(b)->Some_0),
        is_valid(encode_call(b)->Some_0),
{
    let a = shifted(b);
    lemma_call_end_bounds(b, 0);
    assert forall|i: int| 0 <= i < 6 implies is_call_byte(#[trigger] a[i]) && a[i] % 2 == 0 && (
    a[i] == 0x40 <==> i >= call_end(b, 0)) by {
        if i < call_end(b, 0) {
            assert(is_alnum(b[i]));
            assert(a[i] / 2 == upper_byte(b[i]));
        }
    }
}

/// How many letters stand before the padding.
spec fn letter_count(a: Seq<u8>, i: int) -> int
    decreases 6 - i,
{
    if i < 0 || i >= 6 || a[i] == 0x40 {
        i
    } else {
        letter_count(a, i + 1)
    }
}

proof fn lemma_letter_count(a: Seq<u8>, i: int)
    requires
        is_canonical(a),
        0 <= i <= 6,
        forall|k: int| 0 <= k < i ==> #[trigger] a[k] != 0x40,
    ensures
        i <= letter_count(a, i) <= 6,
        forall|k: int| 0 <= k < letter_count(a, i) ==> #[trigger] a[k] != 0x40,
        forall|k: int| letter_count(a, i) <= k < 6 ==> #[trigger] a[k] == 0x40,
    decreases 6 - i,
{
    if i < 6 && a[i] != 0x40 {
        lemma_letter_count(a, i + 1);
    }
}

proof fn lemma_letters_of_canonical(a: Seq<u8>, n: nat)
    requires
        is_canonical(a),
        n <= 6,
    ensures
        call_letters(a, n) == Seq::new(
            if n <= letter_count(a, 0) {
                n
            } else {
                letter_count(a, 0) as nat
            },
            |i: int| (a[i] / 2) as char,
        ),
    decreases n,
{
    lemma_letter_count(a, 0);
    if n > 0 {
        lemma_letters_of_canonical(a, (n - 1) as nat);
        assert(a[n - 1] % 2 == 0);
    }
    assert(call_letters(a, n) =~= Seq::new(
        if n <= letter_count(a, 0) {
            n
        } else {
            letter_count(a, 0) as nat
        },
        |i: int| (a[i] / 2) as char,
    ));
}

/// Where the callsign characters of a text end that starts with `k` of them.
pub proof fn lemma_call_end_is(b: Seq<u8>, k: int, i: int)
    requires
        0 <= i <= k <= 6,
        k <= b.len(),
        forall|j: int| 0 <= j < k ==> #[trigger] b[j] != 45,
        k == 6 || k == b.len() || b[k] == 45,
    ensures
        call_end(b, i) == k,
    decreases k - i,
{
    if i < k {
        lemma_call_end_is(b, k, i + 1);
    }
}

/// The numeral of an SSID, scanned.
proof fn lemma_scan_ssid_text(d: Seq<u8>, ssid: int)
    requires
        1 <= ssid <= 15,
        ssid < 10 ==> d == seq![(48 + ssid) as u8],
        ssid >= 10 ==> d == seq![49u8, (38 + ssid) as u8],
    ensures
        scan_int(d) == Some(ssid),
{
    lemma_digit_run(d, d.len());
    assert(d.take(d.len() as int) =~= d);
    assert(skip_blanks(d) == d);
    if ssid < 10 {
        assert(d.drop_last() =~= Seq::<u8>::empty());
        assert(number_value(d.drop_last()) == 0);
    } else {
        assert(d.drop_last() =~= seq![49u8]);
        assert(d.drop_last().drop_last() =~= Seq::<u8>::empty());
        assert(number_value(d.drop_last().drop_last()) == 0);
        assert(number_value(d.drop_last()) == 1);
    }
}

/// Encoding gives back every canonical address that was decoded.
pub proof fn law_encode_undoes_decode(a: Seq<u8>)
    requires
        is_canonical(a),
    ensures
        encode_call(encode_utf8(decode_call(a))) == Some(a),
{
    let k = letter_count(a, 0);
    let ssid = ssid_bits(a[6]);
    let t = decode_call(a);
    let b = encode_utf8(t);
    lemma_letter_count(a, 0);
    lemma_letters_of_canonical(a, 6);
    lemma_decoded_is_short(a);
    is_ascii_chars_encode_utf8(t);
    reveal_with_fuel(decimal, 3);
    assert(b.len() == t.len());
    assert(a[6] == 2 * ssid);
    assert forall|i: int| 0 <= i < k implies b[i] == a[i] / 2 && #[trigger] b[i] != 45 && is_alnum(
        b[i],
    ) && upper_byte(b[i]) == b[i] by {
        assert(t[i] == (a[i] / 2) as char);
        assert(is_call_byte(a[i]));
        assert(a[i] % 2 == 0);
        assert(b[i] == t[i] as u8);
    }
    if ssid == 0 {
        assert(b.len() == k);
        lemma_call_end_is(b, k, 0);
    } else {
        assert(t[k] == '-');
        assert(b[k] == t[k] as u8);
        lemma_call_end_is(b, k, 0);
        let d = b.skip(k + 1);
        if ssid < 10 {
            assert(t[k + 1] == (48 + ssid) as char);
            assert(b[k + 1] == t[k + 1] as u8);
            assert(d =~= seq![(48 + ssid) as u8]);
        } else {
            assert(decimal(ssid as nat) =~= seq!['1', (38 + ssid) as char]);
            assert(t[k + 1] == '1');
            assert(t[k + 2] == (38 + ssid) as char);
            assert(b[k + 1] == t[k + 1] as u8);
            assert(b[k + 2] == t[k + 2] as u8);
            assert(d =~= seq![49u8, (38 + ssid) as u8]);
        }
        lemma_scan_ssid_text(d, ssid);
    }
    assert(ssid_of(b) == Some(ssid));
    assert(shifted(b) =~= a) by {
        assert forall|i: int| 0 <= i < 7 implies shifted(b)[i] == a[i] by {
            if i < k {
                assert(b[i] == a[i] / 2 && b[i] != 45);
                assert(a[i] % 2 == 0);
            }
        }
    }
}

/// Comparison is reflexive and symmetric; "identical" is an equivalence; and for
/// canonical addresses it is equality.
pub proof fn law_comparison(a: Seq<u8>, b: Seq<u8>, c: Seq<u8>)
    requires
        a.len() == 7,
        b.len() == 7,
        c.len() == 7,
    ensures
        comparison(a, a) == 0,
        comparison(a, b) == comparison(b, a),
        comparison(a, b) == 0 && comparison(b, c) == 0 ==> comparison(a, c) == 0,
        is_canonical(a) && is_canonical(b) ==> (comparison(a, b) == 0 <==> a == b),
{
    assert(same_letters(a, b) ==> same_letters(b, a)) by {
        if same_letters(a, b) {
            assert forall|i: int| 0 <= i < 6 implies (#[trigger] b[i]) / 2 == a[i] / 2 by {
                assert(a[i] / 2 == b[i] / 2);
            }
        }
    }
    assert(same_letters(b, a) ==> same_letters(a, b)) by {
        if same_letters(b, a) {
            assert forall|i: int| 0 <= i < 6 implies (#[trigger] a[i]) / 2 == b[i] / 2 by {
                assert(b[i] / 2 == a[i] / 2);
            }
        }
    }
    if same_letters(a, b) && same_letters(b, c) {
        assert forall|i: int| 0 <= i < 6 implies (#[trigger] a[i]) / 2 == c[i] / 2 by {
            assert(a[i] / 2 == b[i] / 2);
            assert(b[i] / 2 == c[i] / 2);
        }
    }
    if is_canonical(a) && is_canonical(b) && comparison(a, b) == 0 {
        assert forall|i: int| 0 <= i < 7 implies a[i] == b[i] by {
            if i < 6 {
                assert(a[i] / 2 == b[i] / 2);
                assert(a[i] % 2 == 0);
                assert(b[i] % 2 == 0);
            }
        }
        assert(a =~= b);
    }
}

/// Two callsigns encode to the same address exactly where they are the same up to
/// case, padding and an SSID of 0; comparing them says so.
pub proof fn law_same_call_same_text(x: Seq<u8>, y: Seq<u8>)
    requires
        encode_call(x) is Some,
        encode_call(y) is Some,
    ensures
        comparison(encode_call(x)->Some_0, encode_call(y)->Some_0) == 0 <==> canonical_text(x)
            == canonical_text(y),
{
    let a = encode_call(x)->Some_0;
    let b = encode_call(y)->Some_0;
    law_encoded_is_canonical(x);
    law_encoded_is_canonical(y);
    law_comparison(a, b, b);
    law_decode_undoes_encode(x);
    law_decode_undoes_encode(y);
    law_encode_undoes_decode(a);
    law_encode_undoes_decode(b);
}

} // verus!
