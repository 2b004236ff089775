//! Big-endian integers and byte-sequence helpers shared by the codecs.

use vstd::prelude::*;

verus! {

/// The four big-endian bytes of a 32-bit integer.
pub open spec fn u32_be(v: u32) -> Seq<u8> {
    seq![(v >> 24u32) as u8, (v >> 16u32) as u8, (v >> 8u32) as u8, v as u8]
}

/// The two big-endian bytes of a 16-bit integer.
pub open spec fn u16_be(v: u16) -> Seq<u8> {
    seq![(v >> 8u16) as u8, v as u8]
}

/// The 32-bit integer that four big-endian bytes denote.
pub open spec fn be_to_u32(b0: u8, b1: u8, b2: u8, b3: u8) -> u32 {
    ((b0 as u32) << 24u32) | ((b1 as u32) << 16u32) | ((b2 as u32) << 8u32) | (b3 as u32)
}

/// The 16-bit integer that two big-endian bytes denote.
pub open spec fn be_to_u16(b0: u8, b1: u8) -> u16 {
    ((b0 as u16) << 8u16) | (b1 as u16)
}

/// The 32-bit integer stored big-endian at `pos` in `s`.
pub open spec fn u32_at(s: Seq<u8>, pos: int) -> u32 {
    be_to_u32(s[pos], s[pos + 1], s[pos + 2], s[pos + 3])
}

/// The 16-bit integer stored big-endian at `pos` in `s`.
pub open spec fn u16_at(s: Seq<u8>, pos: int) -> u16 {
    be_to_u16(s[pos], s[pos + 1])
}

pub proof fn lemma_u32_be_decodes(v: u32)
    ensures
        be_to_u32(u32_be(v)[0], u32_be(v)[1], u32_be(v)[2], u32_be(v)[3]) == v,
{
    let b0 = (v >> 24u32) as u8;
    let b1 = (v >> 16u32) as u8;
    let b2 = (v >> 8u32) as u8;
    let b3 = v as u8;
    assert(((b0 as u32) << 24u32) | ((b1 as u32) << 16u32) | ((b2 as u32) << 8u32) | (b3 as u32)
        == v) by (bit_vector)
        requires
            b0 == (v >> 24u32) as u8,
            b1 == (v >> 16u32) as u8,
            b2 == (v >> 8u32) as u8,
            b3 == v as u8,
    ;
}

pub proof fn lemma_u16_be_decodes(v: u16)
    ensures
        be_to_u16(u16_be(v)[0], u16_be(v)[1]) == v,
{
    let b0 = (v >> 8u16) as u8;
    let b1 = v as u8;
    assert(((b0 as u16) << 8u16) | (b1 as u16) == v) by (bit_vector)
        requires
            b0 == (v >> 8u16) as u8,
            b1 == v as u8,
    ;
}

/// Where `s` holds `u32_be(v)` at `pos`, reading there gives back `v`.
pub proof fn lemma_u32_at(s: Seq<u8>, pos: int, v: u32)
    requires
        0 <= pos,
        pos + 4 <= s.len(),
        s.subrange(pos, pos + 4) == u32_be(v),
    ensures
        u32_at(s, pos) == v,
{
    lemma_u32_be_decodes(v);
    assert(s[pos] == s.subrange(pos, pos + 4)[0]);
    assert(s[pos + 1] == s.subrange(pos, pos + 4)[1]);
    assert(s[pos + 2] == s.subrange(pos, pos + 4)[2]);
    assert(s[pos + 3] == s.subrange(pos, pos + 4)[3]);
}

/// Where `s` holds `u16_be(v)` at `pos`, reading there gives back `v`.
pub proof fn lemma_u16_at(s: Seq<u8>, pos: int, v: u16)
    requires
        0 <= pos,
        pos + 2 <= s.len(),
        s.subrange(pos, pos + 2) == u16_be(v),
    ensures
        u16_at(s, pos) == v,
{
    lemma_u16_be_decodes(v);
    assert(s[pos] == s.subrange(pos, pos + 2)[0]);
    assert(s[pos + 1] == s.subrange(pos, pos + 2)[1]);
}

/// A sequence that holds `x + y` at `pos` holds `x` there and `y` right after it.
pub proof fn lemma_split_at(s: Seq<u8>, pos: int, x: Seq<u8>, y: Seq<u8>)
    requires
        0 <= pos,
        pos + x.len() + y.len() <= s.len(),
        s.subrange(pos, pos + x.len() + y.len()) == x + y,
    ensures
        s.subrange(pos, pos + x.len()) == x,
        s.subrange(pos + x.len(), pos + x.len() + y.len()) == y,
{
    let w = s.subrange(pos, pos + x.len() + y.len());
    assert(s.subrange(pos, pos + x.len()) =~= w.subrange(0, x.len() as int));
    assert(w.subrange(0, x.len() as int) =~= x);
    assert(s.subrange(pos + x.len(), pos + x.len() + y.len()) =~= w.subrange(
        x.len() as int,
        w.len() as int,
    ));
    assert(w.subrange(x.len() as int, w.len() as int) =~= y);
}

/// Integers that can be read from the front of a big-endian byte slice.
pub trait FromBeSlice: Sized {
    /// How many bytes a value occupies.
    spec fn width() -> nat;

    /// The value that the first `width()` bytes of `b` denote.
    spec fn from_be_spec(b: Seq<u8>) -> Self;

    fn from_be_slice(buf: &[u8]) -> (r: Self)
        requires
            buf@.len() >= Self::width(),
        ensures
            r == Self::from_be_spec(buf@),
    ;
}

impl FromBeSlice for u32 {
    open spec fn width() -> nat {
        4
    }

    open spec fn from_be_spec(b: Seq<u8>) -> u32 {
        u32_at(b, 0)
    }

    fn from_be_slice(buf: &[u8]) -> (r: u32) {
        read_u32_be(buf, 0)
    }
}

/// Reads the big-endian 32-bit integer at `pos`.
pub fn read_u32_be(s: &[u8], pos: usize) -> (r: u32)
    requires
        pos + 4 <= s@.len(),
    ensures
        r == u32_at(s@, pos as int),
{
    ((s[pos] as u32) << 24u32) | ((s[pos + 1] as u32) << 16u32) | ((s[pos + 2] as u32) << 8u32) | (
    s[pos + 3] as u32)
}

/// Reads the big-endian 16-bit integer at `pos`.
pub fn read_u16_be(s: &[u8], pos: usize) -> (r: u16)
    requires
        pos + 2 <= s@.len(),
    ensures
        r == u16_at(s@, pos as int),
{
    ((s[pos] as u16) << 8u16) | (s[pos + 1] as u16)
}

/// Appends the big-endian bytes of `v`.
pub fn push_u32_be(out: &mut Vec<u8>, v: u32)
    ensures
        final(out)@ == old(out)@ + u32_be(v),
{
    out.push((v >> 24u32) as u8);
    out.push((v >> 16u32) as u8);
    out.push((v >> 8u32) as u8);
    out.push(v as u8);
    assert(final(out)@ =~= old(out)@ + u32_be(v));
}

/// Appends the big-endian bytes of `v`.
pub fn push_u16_be(out: &mut Vec<u8>, v: u16)
    ensures
        final(out)@ == old(out)@ + u16_be(v),
{
    out.push((v >> 8u16) as u8);
    out.push(v as u8);
    assert(final(out)@ =~= old(out)@ + u16_be(v));
}

/// Appends the bytes of `src` in order.
pub fn push_all(out: &mut Vec<u8>, src: &[u8])
    ensures
        final(out)@ == old(out)@ + src@,
{
    let ghost start = out@;
    let mut i: usize = 0;
    while i < src.len()
        invariant
            i <= src@.len(),
            out@ == start + src@.subrange(0, i as int),
        decreases src@.len() - i,
    {
        out.push(src[i]);
        i = i + 1;
        assert(out@ =~= start + src@.subrange(0, i as int));
    }
    assert(src@.subrange(0, i as int) =~= src@);
}

/// A fresh vector holding the bytes of `s` from `start` up to `end`.
pub fn copy_range(s: &[u8], start: usize, end: usize) -> (r: Vec<u8>)
    requires
        start <= end <= s@.len(),
    ensures
        r@ == s@.subrange(start as int, end as int),
{
    let mut r: Vec<u8> = Vec::new();
    let mut i: usize = start;
    while i < end
        invariant
            start <= i <= end,
            end <= s@.len(),
            r@ == s@.subrange(start as int, i as int),
        decreases end - i,
    {
        r.push(s[i]);
        i = i + 1;
        assert(r@ =~= s@.subrange(start as int, i as int));
    }
    r
}

} // verus!
