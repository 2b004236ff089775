//! The wire frame: a four-byte big-endian length followed by that many payload bytes.

use vstd::prelude::*;
use crate::bytes::{u32_be, u32_at, lemma_u32_at, read_u32_be, push_u32_be, push_all, copy_range};

verus! {

/// Bytes of the length header that precedes every payload.
pub const HEADER_SIZE: usize = 4;

/// The frame that carries payload `p`.
pub open spec fn frame_of(p: Seq<u8>) -> Seq<u8> {
    u32_be(p.len() as u32) + p
}

/// The payload length that the header at the front of `s` declares.
pub open spec fn declared_len(s: Seq<u8>) -> nat {
    u32_at(s, 0) as nat
}

/// Whether the front of `s` holds one whole frame.
pub open spec fn holds_frame(s: Seq<u8>) -> bool {
    s.len() >= HEADER_SIZE && s.len() >= HEADER_SIZE + declared_len(s)
}

/// The payload and the frame size at the front of `s`, or `None` while the
/// frame is still incomplete.
pub open spec fn decode_spec(s: Seq<u8>) -> Option<(Seq<u8>, nat)> {
    if holds_frame(s) {
        let n = declared_len(s);
        Some((s.subrange(HEADER_SIZE as int, HEADER_SIZE + n), (HEADER_SIZE + n) as nat))
    } else {
        None
    }
}

/// An opaque payload moved between processes.
#[derive(Debug, PartialEq, Eq)]
pub struct Message(Vec<u8>);

impl View for Message {
    type V = Seq<u8>;

    closed spec fn view(&self) -> Seq<u8> {
        self.0@
    }
}

impl Message {
    /// Takes one frame off the front of `buf`: the payload and the number of
    /// bytes the frame occupies. `None` means that more bytes are needed.
    pub fn parse(buf: &[u8]) -> (r: Option<(Message, usize)>)
        ensures
            match r {
                Some((m, n)) => decode_spec(buf@) == Some((m@, n as nat)),
                None => decode_spec(buf@) is None,
            },
    {
        if buf.len() < HEADER_SIZE {
            return None;
        }
        let msg_len = read_u32_be(buf, 0) as usize;
        if buf.len() - HEADER_SIZE < msg_len {
            return None;
        }
        let payload_end = HEADER_SIZE + msg_len;
        let msg = Message(copy_range(buf, HEADER_SIZE, payload_end));
        Some((msg, payload_end))
    }

    /// The length header of this message's frame.
    pub fn header(&self) -> (r: [u8; 4])
        requires
            self@.len() <= u32::MAX,
        ensures
            r@ == u32_be(self@.len() as u32),
    {
        let n = self.0.len() as u32;
        let r = [(n >> 24u32) as u8, (n >> 16u32) as u8, (n >> 8u32) as u8, n as u8];
        assert(r@ =~= u32_be(n));
        r
    }

    /// The payload.
    pub fn data(&self) -> (r: &Vec<u8>)
        ensures
            r@ == self@,
    {
        &self.0
    }

    /// The payload's length in bytes.
    pub fn len(&self) -> (r: usize)
        ensures
            r == self@.len(),
    {
        self.0.len()
    }

    /// The whole frame: header, then payload.
    pub fn encode(&self) -> (r: Vec<u8>)
        requires
            self@.len() <= u32::MAX,
        ensures
            r@ == frame_of(self@),
    {
        let mut out: Vec<u8> = Vec::new();
        push_u32_be(&mut out, self.0.len() as u32);
        push_all(&mut out, self.0.as_slice());
        assert(out@ =~= frame_of(self@));
        out
    }
}

impl Message {
    /// Writes the frame, header then payload, over the front of `buf`, as a
    /// writer into a byte slice does. `None`, with `buf` untouched, where the
    /// frame does not fit.
    pub fn write_to(&self, buf: &mut [u8]) -> (r: Option<usize>)
        requires
            self@.len() <= u32::MAX,
        ensures
            match r {
                Some(n) => n == frame_of(self@).len() && n <= old(buf)@.len() && final(buf)@
                    == frame_of(self@) + old(buf)@.subrange(n as int, old(buf)@.len() as int),
                None => frame_of(self@).len() > old(buf)@.len() && final(buf)@ == old(buf)@,
            },
    {
        if buf.len() < HEADER_SIZE || buf.len() - HEADER_SIZE < self.0.len() {
            return None;
        }
        let frame = self.encode();
        let ghost start = buf@;
        let mut i: usize = 0;
        while i < frame.len()
            invariant
                frame@ == frame_of(self@),
                i <= frame@.len() <= start.len(),
                buf@.len() == start.len(),
                buf@ == frame@.subrange(0, i as int) + start.subrange(i as int, start.len() as int),
            decreases frame@.len() - i,
        {
            buf[i] = frame[i];
            i = i + 1;
            assert(buf@ =~= frame@.subrange(0, i as int) + start.subrange(
                i as int,
                start.len() as int,
            ));
        }
        assert(frame@.subrange(0, i as int) =~= frame@);
        Some(frame.len())
    }
}

impl From<Vec<u8>> for Message {
    fn from(vec: Vec<u8>) -> (r: Message)
        ensures
            r@ == vec@,
    {
        Message(vec)
    }
}

impl vstd::std_specs::convert::FromSpecImpl<Vec<u8>> for Message {
    open spec fn obeys_from_spec() -> bool {
        true
    }

    closed spec fn from_spec(v: Vec<u8>) -> Message {
        Message(v)
    }
}

/// Framing then unframing any payload that fits the header gives back the
/// payload, together with the frame's whole length.
pub proof fn lemma_frame_round_trip(p: Seq<u8>)
    requires
        p.len() <= u32::MAX,
    ensures
        decode_spec(frame_of(p)) == Some((p, frame_of(p).len())),
        frame_of(p).len() == HEADER_SIZE + p.len(),
{
    let f = frame_of(p);
    assert(f.subrange(0, 4) =~= u32_be(p.len() as u32));
    lemma_u32_at(f, 0, p.len() as u32);
    assert(f.subrange(HEADER_SIZE as int, HEADER_SIZE + p.len()) =~= p);
}

/// A frame followed by more bytes decodes to the same payload and leaves the
/// bytes after it untouched.
pub proof fn lemma_frame_prefix(p: Seq<u8>, rest: Seq<u8>)
    requires
        p.len() <= u32::MAX,
    ensures
        decode_spec(frame_of(p) + rest) == Some((p, frame_of(p).len())),
        (frame_of(p) + rest).subrange(frame_of(p).len() as int, (frame_of(p) + rest).len() as int)
            == rest,
{
    let f = frame_of(p);
    let s = f + rest;
    assert(s.subrange(0, 4) =~= u32_be(p.len() as u32));
    lemma_u32_at(s, 0, p.len() as u32);
    assert(s.subrange(HEADER_SIZE as int, HEADER_SIZE + p.len()) =~= p);
    assert(s.subrange(f.len() as int, s.len() as int) =~= rest);
}

} // verus!
