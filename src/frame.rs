//! Length-prefixed frames over a byte stream, and their reassembly from
//! reads of any size.
use vstd::prelude::*;
use vstd::slice::{slice_subrange, slice_to_vec};

use crate::codec::{le32, le32_value, lemma_le32_value_of_bytes, MAX_PAYLOAD};

verus! {

/// A payload preceded by its length.
pub open spec fn frame_of(payload: Seq<u8>) -> Seq<u8> {
    le32(payload.len() as u32) + payload
}

/// The length announced by the header at the front of `b`.
pub open spec fn header_len(b: Seq<u8>) -> int {
    le32_value(b[0], b[1], b[2], b[3]) as int
}

/// The front of `b` announces a payload larger than any frame may carry.
pub open spec fn oversized(b: Seq<u8>) -> bool {
    b.len() >= 4 && header_len(b) > MAX_PAYLOAD
}

/// The payload of the frame at the front of `b`.
pub open spec fn first_payload(b: Seq<u8>) -> Seq<u8> {
    b.subrange(4, 4 + header_len(b))
}

/// The front of `b` holds a whole frame.
pub open spec fn complete(b: Seq<u8>) -> bool {
    b.len() >= 4 && b.len() >= 4 + header_len(b)
}

/// The frame that carries `payload`.
pub fn frame(payload: &Vec<u8>) -> (r: Vec<u8>)
    requires
        payload@.len() <= MAX_PAYLOAD,
    ensures
        r@ == frame_of(payload@),
{
    let n = payload.len() as u32;
    let mut r: Vec<u8> = Vec::new();
    r.push(n as u8);
    r.push((n >> 8u32) as u8);
    r.push((n >> 16u32) as u8);
    r.push((n >> 24u32) as u8);
    let mut body = slice_to_vec(payload.as_slice());
    r.append(&mut body);
    assert(r@ =~= frame_of(payload@));
    r
}

/// Why the bytes received cannot be cut into frames.
#[derive(Clone, Copy, Debug, PartialEq, Eq, Structural)]
pub enum FrameError {
    /// A header announces more than [`MAX_PAYLOAD`] bytes.
    TooLarge,
}

/// Bytes received and not yet handed out as frames.
pub struct FrameReader {
    buf: Vec<u8>,
}

impl View for FrameReader {
    type V = Seq<u8>;

    closed spec fn view(&self) -> Seq<u8> {
        self.buf@
    }
}

impl FrameReader {
    pub fn new() -> (r: FrameReader)
        ensures
            r@ == Seq::<u8>::empty(),
    {
        FrameReader { buf: Vec::new() }
    }

    /// Appends bytes read from the stream.
    pub fn push(&mut self, bytes: &[u8])
        ensures
            final(self)@ == old(self)@ + bytes@,
    {
        let mut more = slice_to_vec(bytes);
        self.buf.append(&mut more);
    }

    /// No partial frame is held.
    pub fn is_empty(&self) -> (r: bool)
        ensures
            r == (self@.len() == 0),
    {
        self.buf.len() == 0
    }

    /// Takes the first whole frame's payload, if a whole frame has arrived.
    pub fn take_frame(&mut self) -> (r: Result<Option<Vec<u8>>, FrameError>)
        ensures
            match r {
                Ok(Some(f)) => old(self)@ == frame_of(f@) + final(self)@ && f@.len() <= MAX_PAYLOAD
                    && complete(old(self)@) && !oversized(old(self)@) && f@ == first_payload(
                    old(self)@,
                ) && final(self)@ == old(self)@.subrange(
                    4 + header_len(old(self)@),
                    old(self)@.len() as int,
                ),
                Ok(None) => final(self)@ == old(self)@ && !complete(old(self)@) && !oversized(
                    old(self)@,
                ),
                Err(e) => final(self)@ == old(self)@ && oversized(old(self)@),
            },
    {
        let len = self.buf.len();
        if len < 4 {
            return Ok(None);
        }
        let n = (self.buf[0] as u32) | ((self.buf[1] as u32) << 8u32) | ((self.buf[2] as u32)
            << 16u32) | ((self.buf[3] as u32) << 24u32);
        if n as usize > MAX_PAYLOAD {
            return Err(FrameError::TooLarge);
        }
        if n as usize > len - 4 {
            return Ok(None);
        }
        let end = 4 + n as usize;
        let f = slice_to_vec(slice_subrange(self.buf.as_slice(), 4, end));
        let rest = slice_to_vec(slice_subrange(self.buf.as_slice(), end, len));
        proof {
            crate::codec::lemma_bytes_of_le32_value(self.buf@[0], self.buf@[1], self.buf@[2], self.buf@[3]);
            assert(f@.len() == n);
            assert(self.buf@ =~= frame_of(f@) + rest@);
        }
        self.buf = rest;
        Ok(Some(f))
    }
}

/// Whatever follows it, a whole frame at the front of the received bytes is
/// recognised, and its payload is exactly what was framed.
pub proof fn lemma_frame_reassembled(payload: Seq<u8>, rest: Seq<u8>)
    requires
        payload.len() <= MAX_PAYLOAD,
    ensures
        complete(frame_of(payload) + rest),
        !oversized(frame_of(payload) + rest),
        first_payload(frame_of(payload) + rest) == payload,
        (frame_of(payload) + rest).subrange(4 + payload.len() as int, (frame_of(payload) + rest).len() as int) == rest,
{
    let b = frame_of(payload) + rest;
    let n = payload.len() as u32;
    lemma_le32_value_of_bytes(n);
    assert(b[0] == n as u8 && b[1] == (n >> 8u32) as u8 && b[2] == (n >> 16u32) as u8 && b[3] == (n >> 24u32) as u8);
    assert(header_len(b) == payload.len());
    assert(first_payload(b) =~= payload);
    assert(b.subrange(4 + payload.len() as int, b.len() as int) =~= rest);
}

} // verus!
