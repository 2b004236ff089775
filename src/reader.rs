//! Reassembly of frames out of arbitrarily split reads.
//!
//! `StreamMessageReader` keeps a buffer of fixed capacity and is meant for
//! descriptors polled for readiness: the caller reads at most
//! `free_capacity()` bytes and hands them over. `BlockingMessageReader` grows
//! its buffer as needed and is meant for a caller that reads until one whole
//! message has arrived.

use vstd::prelude::*;
use crate::bytes::{copy_range, push_all, u32_at};
use crate::frame::{Message, decode_spec, frame_of, declared_len, HEADER_SIZE, lemma_frame_prefix};

verus! {

/// Capacity of the reassembly buffer of a `StreamMessageReader`.
pub const BUFFER_SIZE: usize = 8192;

/// The buffered bytes once the frame at their front, if whole, is taken away.
pub open spec fn after_consume(s: Seq<u8>) -> Seq<u8> {
    match decode_spec(s) {
        Some((_, n)) => s.subrange(n as int, s.len() as int),
        None => s,
    }
}

/// How many bytes of a chunk one read into the free space can take.
pub open spec fn accepted(s: Seq<u8>, chunk: Seq<u8>) -> nat {
    let free = BUFFER_SIZE - after_consume(s).len();
    if chunk.len() <= free {
        chunk.len()
    } else {
        free as nat
    }
}

/// The buffered bytes after one `advance` that is handed `chunk`.
pub open spec fn advance_spec(s: Seq<u8>, chunk: Seq<u8>) -> Seq<u8> {
    after_consume(s) + chunk.subrange(0, accepted(s, chunk) as int)
}

/// Whether the frame at the front of `s` can never fit in the buffer.
pub open spec fn too_large(s: Seq<u8>) -> bool {
    s.len() >= HEADER_SIZE && HEADER_SIZE + declared_len(s) > BUFFER_SIZE
}

/// A reader over a fixed-capacity buffer of the bytes received so far.
pub struct StreamMessageReader {
    buf: Vec<u8>,
}

impl View for StreamMessageReader {
    type V = Seq<u8>;

    closed spec fn view(&self) -> Seq<u8> {
        self.buf@
    }
}

impl StreamMessageReader {
    /// The buffer never holds more than its capacity.
    pub closed spec fn wf(&self) -> bool {
        self.buf@.len() <= BUFFER_SIZE
    }

    pub fn new() -> (r: StreamMessageReader)
        ensures
            r.wf(),
            r@ == Seq::<u8>::empty(),
    {
        StreamMessageReader { buf: Vec::new() }
    }

    /// The message at the front of the buffer, if it has fully arrived. The
    /// buffer is left as it is: peeking twice gives the same message.
    pub fn peek(&self) -> (r: Option<Message>)
        ensures
            match decode_spec(self@) {
                Some((p, _)) => r matches Some(m) && m@ == p,
                None => r is None,
            },
    {
        match Message::parse(self.buf.as_slice()) {
            Some((m, _)) => Some(m),
            None => None,
        }
    }

    /// Number of bytes buffered.
    pub fn buffered(&self) -> (r: usize)
        ensures
            r == self@.len(),
    {
        self.buf.len()
    }

    /// Room left for the next read.
    pub fn free_capacity(&self) -> (r: usize)
        requires
            self.wf(),
        ensures
            r == BUFFER_SIZE - self@.len(),
    {
        BUFFER_SIZE - self.buf.len()
    }

    /// Whether the frame at the front declares more bytes than the buffer can
    /// ever hold; such a channel can make no further progress.
    pub fn frame_too_large(&self) -> (r: bool)
        ensures
            r == too_large(self@),
    {
        if self.buf.len() < HEADER_SIZE {
            false
        } else {
            let n = crate::bytes::read_u32_be(self.buf.as_slice(), 0) as usize;
            n > BUFFER_SIZE - HEADER_SIZE
        }
    }

    /// Drops the message at the front if it has fully arrived, moving the
    /// bytes behind it to the start of the buffer.
    pub fn consume(&mut self)
        requires
            old(self).wf(),
        ensures
            final(self).wf(),
            final(self)@ == after_consume(old(self)@),
    {
        match Message::parse(self.buf.as_slice()) {
            Some((_, n)) => {
                let rest = copy_range(self.buf.as_slice(), n, self.buf.len());
                self.buf = rest;
            },
            None => {},
        }
    }

    /// Appends the bytes of one read.
    pub fn fill(&mut self, data: &[u8])
        requires
            old(self).wf(),
            old(self)@.len() + data@.len() <= BUFFER_SIZE,
        ensures
            final(self).wf(),
            final(self)@ == old(self)@ + data@,
    {
        push_all(&mut self.buf, data);
    }

    /// Consumes the message at the front if it has fully arrived, then takes
    /// as much of `chunk` as the free space holds. Returns how many bytes of
    /// `chunk` were taken.
    pub fn advance(&mut self, chunk: &[u8]) -> (r: usize)
        requires
            old(self).wf(),
        ensures
            final(self).wf(),
            r == accepted(old(self)@, chunk@),
            final(self)@ == advance_spec(old(self)@, chunk@),
    {
        self.consume();
        let free = BUFFER_SIZE - self.buf.len();
        let take = if chunk.len() <= free {
            chunk.len()
        } else {
            free
        };
        let part = copy_range(chunk, 0, take);
        push_all(&mut self.buf, part.as_slice());
        take
    }
}

/// The concatenation of a sequence of chunks.
pub open spec fn concat(cs: Seq<Seq<u8>>) -> Seq<u8>
    decreases cs.len(),
{
    if cs.len() == 0 {
        Seq::empty()
    } else {
        concat(cs.drop_last()) + cs.last()
    }
}

/// The buffered bytes of a fresh reader after one `advance` per chunk, in order.
pub open spec fn feed(cs: Seq<Seq<u8>>) -> Seq<u8>
    decreases cs.len(),
{
    if cs.len() == 0 {
        Seq::empty()
    } else {
        advance_spec(feed(cs.drop_last()), cs.last())
    }
}

/// No proper prefix of a frame holds a whole frame.
proof fn lemma_partial_frame(p: Seq<u8>, q: Seq<u8>)
    requires
        p.len() <= u32::MAX,
        q.len() < frame_of(p).len(),
        q == frame_of(p).subrange(0, q.len() as int),
    ensures
        decode_spec(q) is None,
{
    if q.len() >= HEADER_SIZE {
        assert(q.subrange(0, 4) =~= crate::bytes::u32_be(p.len() as u32));
        crate::bytes::lemma_u32_at(q, 0, p.len() as u32);
        assert(u32_at(q, 0) == p.len());
    }
}

/// Every prefix of one frame that the chunks make up is buffered as it is.
proof fn lemma_feed_prefix(p: Seq<u8>, cs: Seq<Seq<u8>>)
    requires
        p.len() <= u32::MAX,
        frame_of(p).len() <= BUFFER_SIZE,
        concat(cs).len() <= frame_of(p).len(),
        concat(cs) == frame_of(p).subrange(0, concat(cs).len() as int),
        forall|i: int| 0 <= i < cs.len() ==> #[trigger] cs[i].len() > 0,
    ensures
        feed(cs) == concat(cs),
    decreases cs.len(),
{
    if cs.len() > 0 {
        let prev = cs.drop_last();
        assert forall|i: int| 0 <= i < prev.len() implies #[trigger] prev[i].len() > 0 by {
            assert(prev[i] == cs[i]);
        }
        let c = concat(prev);
        assert(c.len() < concat(cs).len()) by {
            assert(cs[cs.len() - 1].len() > 0);
        }
        assert(c =~= concat(cs).subrange(0, c.len() as int));
        assert(c =~= frame_of(p).subrange(0, c.len() as int));
        lemma_feed_prefix(p, prev);
        lemma_partial_frame(p, c);
        assert(after_consume(c) == c);
        assert(cs.last().subrange(0, cs.last().len() as int) =~= cs.last());
    }
}

/// Split across any number of non-empty chunks, one `advance` per chunk in
/// order, a frame that fits the buffer yields the same message as when it
/// arrives whole.
pub proof fn lemma_split_delivery(p: Seq<u8>, cs: Seq<Seq<u8>>)
    requires
        p.len() <= u32::MAX,
        frame_of(p).len() <= BUFFER_SIZE,
        concat(cs) == frame_of(p),
        cs.len() >= 1,
        forall|i: int| 0 <= i < cs.len() ==> #[trigger] cs[i].len() > 0,
    ensures
        decode_spec(feed(cs)) == Some((p, frame_of(p).len())),
        feed(cs) == feed(seq![frame_of(p)]),
{
    assert(concat(cs) =~= frame_of(p).subrange(0, concat(cs).len() as int));
    lemma_feed_prefix(p, cs);
    crate::frame::lemma_frame_round_trip(p);
    let whole = seq![frame_of(p)];
    assert(concat(whole.drop_last()) == Seq::<u8>::empty());
    assert(concat(whole) =~= frame_of(p));
    assert forall|i: int| 0 <= i < whole.len() implies #[trigger] whole[i].len() > 0 by {
        assert(whole[i] == frame_of(p));
    }
    assert(frame_of(p) =~= frame_of(p).subrange(0, frame_of(p).len() as int));
    lemma_feed_prefix(p, whole);
}

/// Once the message at the front is consumed, the message buffered behind it
/// sits at the front, unchanged, with the bytes after it.
pub proof fn lemma_consume_keeps_next(p: Seq<u8>, q: Seq<u8>, rest: Seq<u8>)
    requires
        p.len() <= u32::MAX,
        q.len() <= u32::MAX,
    ensures
        after_consume(frame_of(p) + (frame_of(q) + rest)) == frame_of(q) + rest,
        decode_spec(after_consume(frame_of(p) + (frame_of(q) + rest))) == Some(
            (q, frame_of(q).len()),
        ),
{
    lemma_frame_prefix(p, frame_of(q) + rest);
    lemma_frame_prefix(q, rest);
}

/// A reader whose buffer grows until a whole message has arrived.
pub struct BlockingMessageReader {
    buf: Vec<u8>,
}

impl View for BlockingMessageReader {
    type V = Seq<u8>;

    closed spec fn view(&self) -> Seq<u8> {
        self.buf@
    }
}

impl BlockingMessageReader {
    pub fn new() -> (r: BlockingMessageReader)
        ensures
            r@ == Seq::<u8>::empty(),
    {
        BlockingMessageReader { buf: Vec::new() }
    }

    /// Appends `chunk`, then takes the message at the front off the buffer if
    /// it has fully arrived. An empty chunk only looks for a buffered message.
    pub fn receive(&mut self, chunk: &[u8]) -> (r: Option<Message>)
        requires
            old(self)@.len() + chunk@.len() <= usize::MAX,
        ensures
            match decode_spec(old(self)@ + chunk@) {
                Some((p, n)) => r matches Some(m) && m@ == p && final(self)@ == (old(self)@
                    + chunk@).subrange(n as int, (old(self)@ + chunk@).len() as int),
                None => r is None && final(self)@ == old(self)@ + chunk@,
            },
    {
        push_all(&mut self.buf, chunk);
        match Message::parse(self.buf.as_slice()) {
            Some((m, n)) => {
                let rest = copy_range(self.buf.as_slice(), n, self.buf.len());
                self.buf = rest;
                Some(m)
            },
            None => None,
        }
    }
}

} // verus!
