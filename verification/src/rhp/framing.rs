//! Framing: a 2-byte big-endian length, then that many bytes of UTF-8 JSON.

use vstd::prelude::*;
use vstd::slice::slice_subrange;

use crate::text::push_decimal;

verus! {

/// The largest frame body that the 16-bit length can announce.
pub const MAX_FRAME: usize = 65535;

/// Why a frame could not be written or read.
#[derive(Debug, Clone, Copy, PartialEq, Eq, Structural)]
pub enum FrameError {
    /// The payload does not fit the length prefix; its length.
    TooLarge(usize),
    /// The input ends inside a frame.
    UnexpectedEof,
}

impl FrameError {
    /// The error as text.
    pub open spec fn message_text(self) -> Seq<char> {
        match self {
            FrameError::TooLarge(n) => "RHP frame too large: "@ + crate::text::decimal(n as nat)
                + " > 65535"@,
            FrameError::UnexpectedEof => "failed to fill whole buffer"@,
        }
    }

    /// The error as text.
    pub fn message(&self) -> (r: String)
        ensures
            r@ == self.message_text(),
    {
        match self {
            FrameError::TooLarge(n) => {
                let mut s = "RHP frame too large: ".to_owned();
                push_decimal(&mut s, *n as u64);
                s.append(" > 65535");
                s
            },
            FrameError::UnexpectedEof => "failed to fill whole buffer".to_owned(),
        }
    }
}

/// The length that a prefix announces.
pub open spec fn prefix_value(hi: u8, lo: u8) -> int {
    hi as int * 256 + lo as int
}

/// The bytes of one frame.
pub open spec fn frame_bytes(payload: Seq<u8>) -> Seq<u8> {
    seq![(payload.len() / 256) as u8, (payload.len() % 256) as u8] + payload
}

/// The bytes of several frames in a row.
pub open spec fn stream_bytes(payloads: Seq<Seq<u8>>) -> Seq<u8>
    decreases payloads.len(),
{
    if payloads.len() == 0 {
        Seq::empty()
    } else {
        frame_bytes(payloads[0]) + stream_bytes(payloads.drop_first())
    }
}

/// The first frame of the input and what follows it, where the input holds a
/// whole frame.
pub open spec fn next_frame(input: Seq<u8>) -> Option<(Seq<u8>, Seq<u8>)> {
    if input.len() < 2 || input.len() < 2 + prefix_value(input[0], input[1]) {
        None
    } else {
        let end = 2 + prefix_value(input[0], input[1]);
        Some((input.subrange(2, end), input.skip(end)))
    }
}

/// Appends one frame to the output: a 2-byte big-endian length, then the
/// payload. A payload that is too long is refused, and nothing is written.
pub fn write_frame(w: &mut Vec<u8>, payload: &[u8]) -> (r: Result<(), FrameError>)
    ensures
        r == (if payload@.len() > MAX_FRAME {
            Err(FrameError::TooLarge(payload@.len() as usize))
        } else {
            Ok(())
        }),
        r is Ok ==> final(w)@ == old(w)@ + frame_bytes(payload@),
        r is Err ==> final(w)@ == old(w)@,
{
    let len: usize = payload.len();
    if len > MAX_FRAME {
        return Err(FrameError::TooLarge(len));
    }
    w.push((len / 256) as u8);
    w.push((len % 256) as u8);
    w.extend_from_slice(payload);
    assert(w@ =~= old(w)@ + frame_bytes(payload@));
    Ok(())
}

/// Input that arrives in pieces, and how much of it has been read.
pub struct FrameReader {
    data: Vec<u8>,
    pos: usize,
}

impl FrameReader {
    /// The input that has not been read yet.
    pub closed spec fn rest(self) -> Seq<u8> {
        self.data@.skip(self.pos as int)
    }

    #[verifier::type_invariant]
    closed spec fn inv(self) -> bool {
        self.pos <= self.data@.len()
    }

    /// A reader over the given input.
    pub fn new(data: Vec<u8>) -> (r: FrameReader)
        ensures
            r.rest() == data@,
    {
        let r = FrameReader { data, pos: 0 };
        assert(r.rest() =~= data@);
        r
    }

    /// Appends input.
    pub fn feed(&mut self, bytes: &[u8])
        ensures
            final(self).rest() == old(self).rest() + bytes@,
    {
        proof {
            use_type_invariant(&*self);
        }
        let mut data = vstd::slice::slice_to_vec(
            slice_subrange(self.data.as_slice(), self.pos, self.data.len()),
        );
        data.extend_from_slice(bytes);
        *self = FrameReader { data, pos: 0 };
        assert(self.rest() =~= old(self).rest() + bytes@);
    }
}

/// Reads one frame. `Ok(None)` at a clean end of the input, that is at a frame
/// boundary; an error, with nothing read, where the input ends inside a frame.
pub fn read_frame(r: &mut FrameReader) -> (res: Result<Option<Vec<u8>>, FrameError>)
    ensures
        match next_frame(old(r).rest()) {
            Some((body, rest)) => res matches Ok(Some(b)) && b@ == body && final(r).rest() == rest,
            None => final(r).rest() == old(r).rest() && res == (if old(r).rest().len() == 0 {
                Ok::<Option<Vec<u8>>, FrameError>(None)
            } else {
                Err(FrameError::UnexpectedEof)
            }),
        },
{
    proof {
        use_type_invariant(&*r);
    }
    let have: usize = r.data.len() - r.pos;
    if have == 0 {
        return Ok(None);
    }
    if have < 2 {
        return Err(FrameError::UnexpectedEof);
    }
    let len: usize = r.data[r.pos] as usize * 256 + r.data[r.pos + 1] as usize;
    assert(r.rest()[0] == r.data@[r.pos as int] && r.rest()[1] == r.data@[r.pos + 1]);
    if have - 2 < len {
        return Err(FrameError::UnexpectedEof);
    }
    let start: usize = r.pos + 2;
    let body = vstd::slice::slice_to_vec(slice_subrange(r.data.as_slice(), start, start + len));
    assert(body@ =~= old(r).rest().subrange(2, 2 + len));
    r.pos = start + len;
    assert(r.rest() =~= old(r).rest().skip(2 + len));
    Ok(Some(body))
}

/// Reading gives back what was written, and leaves what follows it.
pub proof fn law_frame_round_trip(payload: Seq<u8>, rest: Seq<u8>)
    requires
        payload.len() <= MAX_FRAME,
    ensures
        next_frame(frame_bytes(payload) + rest) == Some((payload, rest)),
{
    let input = frame_bytes(payload) + rest;
    assert(prefix_value(input[0], input[1]) == payload.len());
    assert(input.subrange(2, 2 + payload.len() as int) =~= payload);
    assert(input.skip(2 + payload.len() as int) =~= rest);
}

/// A stream of frames is read back frame by frame, in order, whatever follows it.
pub proof fn law_stream_round_trip(payloads: Seq<Seq<u8>>, rest: Seq<u8>)
    requires
        payloads.len() > 0,
        payloads[0].len() <= MAX_FRAME,
    ensures
        next_frame(stream_bytes(payloads) + rest) == Some(
            (payloads[0], stream_bytes(payloads.drop_first()) + rest),
        ),
{
    let tail = stream_bytes(payloads.drop_first());
    assert(stream_bytes(payloads) + rest =~= frame_bytes(payloads[0]) + (tail + rest));
    law_frame_round_trip(payloads[0], tail + rest);
}

/// Input that arrives later does not change a frame that is already whole.
pub proof fn law_more_input_keeps_frames(input: Seq<u8>, more: Seq<u8>)
    requires
        next_frame(input) is Some,
    ensures
        next_frame(input + more) == Some(
            (next_frame(input)->Some_0.0, next_frame(input)->Some_0.1 + more),
        ),
{
    let end = 2 + prefix_value(input[0], input[1]);
    assert((input + more).subrange(2, end) =~= input.subrange(2, end));
    assert((input + more).skip(end) =~= input.skip(end) + more);
}

/// An unfinished frame is never read as something else: a proper prefix of a
/// frame holds no frame.
pub proof fn law_no_frame_in_a_prefix(payload: Seq<u8>, n: int)
    requires
        payload.len() <= MAX_FRAME,
        0 <= n < frame_bytes(payload).len(),
    ensures
        next_frame(frame_bytes(payload).take(n)) is None,
{
    let input = frame_bytes(payload).take(n);
    if n >= 2 {
        assert(prefix_value(input[0], input[1]) == payload.len());
    }
}

} // verus!
