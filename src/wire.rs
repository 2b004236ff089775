//! Field encodings of event records: big-endian integers, byte vectors with a
//! four-byte length, and lists of device ids with a two-byte length in bytes.

use vstd::prelude::*;
use crate::bytes::{
    u16_be, u32_be, u16_at, u32_at, lemma_u16_at, lemma_u32_at, lemma_split_at, read_u16_be,
    read_u32_be, push_u16_be, push_u32_be, push_all, copy_range,
};

verus! {

/// The shape of one field.
pub enum FieldKind {
    U16,
    U32,
    Bytes,
    Ids,
}

/// The value of one field.
pub enum Field {
    U16(u16),
    U32(u32),
    Bytes(Seq<u8>),
    Ids(Seq<u32>),
}

pub open spec fn kind_of(f: Field) -> FieldKind {
    match f {
        Field::U16(_) => FieldKind::U16,
        Field::U32(_) => FieldKind::U32,
        Field::Bytes(_) => FieldKind::Bytes,
        Field::Ids(_) => FieldKind::Ids,
    }
}

pub open spec fn kinds_of(fs: Seq<Field>) -> Seq<FieldKind> {
    fs.map_values(|f: Field| kind_of(f))
}

/// Each id as four big-endian bytes, one after the other.
pub open spec fn ids_bytes(ids: Seq<u32>) -> Seq<u8> {
    Seq::new(4 * ids.len(), |j: int| u32_be(ids[j / 4])[j % 4])
}

/// The encoding of one field.
pub open spec fn enc_field(f: Field) -> Seq<u8> {
    match f {
        Field::U16(v) => u16_be(v),
        Field::U32(v) => u32_be(v),
        Field::Bytes(b) => u32_be(b.len() as u32) + b,
        Field::Ids(ids) => u16_be((4 * ids.len()) as u16) + ids_bytes(ids),
    }
}

/// Whether a field's length fits its length prefix.
pub open spec fn field_fits(f: Field) -> bool {
    match f {
        Field::Bytes(b) => b.len() <= u32::MAX,
        Field::Ids(ids) => 4 * ids.len() <= u16::MAX,
        _ => true,
    }
}

/// The encoding of fields in order.
pub open spec fn enc_fields(fs: Seq<Field>) -> Seq<u8>
    decreases fs.len(),
{
    if fs.len() == 0 {
        Seq::empty()
    } else {
        enc_fields(fs.drop_last()) + enc_field(fs.last())
    }
}

pub open spec fn fields_fit(fs: Seq<Field>) -> bool {
    forall|i: int| 0 <= i < fs.len() ==> field_fits(#[trigger] fs[i])
}

/// `count` ids stored big-endian from `start` on.
pub open spec fn ids_at(s: Seq<u8>, start: int, count: nat) -> Seq<u32> {
    Seq::new(count, |i: int| u32_at(s, start + 4 * i))
}

/// The field of kind `k` at `pos`, and where the next field starts; `None`
/// where the bytes run out first.
pub open spec fn parse_field(s: Seq<u8>, pos: int, k: FieldKind) -> Option<(Field, int)> {
    match k {
        FieldKind::U16 => if pos + 2 <= s.len() {
            Some((Field::U16(u16_at(s, pos)), pos + 2))
        } else {
            None
        },
        FieldKind::U32 => if pos + 4 <= s.len() {
            Some((Field::U32(u32_at(s, pos)), pos + 4))
        } else {
            None
        },
        FieldKind::Bytes => if pos + 4 <= s.len() && pos + 4 + u32_at(s, pos) <= s.len() {
            let end = pos + 4 + u32_at(s, pos);
            Some((Field::Bytes(s.subrange(pos + 4, end)), end))
        } else {
            None
        },
        FieldKind::Ids => if pos + 2 <= s.len() && u16_at(s, pos) % 4 == 0 && pos + 2 + u16_at(
            s,
            pos,
        ) <= s.len() {
            let n = u16_at(s, pos);
            Some((Field::Ids(ids_at(s, pos + 2, (n / 4) as nat)), pos + 2 + n))
        } else {
            None
        },
    }
}

/// The fields of kinds `ks` from `pos` on, and where they end.
pub open spec fn parse_fields(s: Seq<u8>, pos: int, ks: Seq<FieldKind>) -> Option<(Seq<Field>, int)>
    decreases ks.len(),
{
    if ks.len() == 0 {
        Some((Seq::empty(), pos))
    } else {
        match parse_fields(s, pos, ks.drop_last()) {
            Some((fs, q)) => match parse_field(s, q, ks.last()) {
                Some((f, r)) => Some((fs.push(f), r)),
                None => None,
            },
            None => None,
        }
    }
}

pub proof fn lemma_parse_fields_push(s: Seq<u8>, pos: int, ks: Seq<FieldKind>, k: FieldKind)
    ensures
        parse_fields(s, pos, ks.push(k)) == match parse_fields(s, pos, ks) {
            Some((fs, q)) => match parse_field(s, q, k) {
                Some((f, r)) => Some((fs.push(f), r)),
                None => None,
            },
            None => None,
        },
{
    assert(ks.push(k).drop_last() =~= ks);
}

/// What parsing two fields in a row gives.
pub proof fn lemma_parse_fields2(s: Seq<u8>, pos: int, k0: FieldKind, k1: FieldKind)
    ensures
        parse_fields(s, pos, seq![k0, k1]) == match parse_field(s, pos, k0) {
            Some((f0, q0)) => match parse_field(s, q0, k1) {
                Some((f1, q1)) => Some((seq![f0, f1], q1)),
                None => None,
            },
            None => None,
        },
{
    let e = Seq::<FieldKind>::empty();
    assert(seq![k0, k1] =~= e.push(k0).push(k1));
    assert(parse_fields(s, pos, e) == Some((Seq::<Field>::empty(), pos)));
    lemma_parse_fields_push(s, pos, e, k0);
    lemma_parse_fields_push(s, pos, e.push(k0), k1);
    if let Some((f0, q0)) = parse_field(s, pos, k0) {
        if let Some((f1, q1)) = parse_field(s, q0, k1) {
            assert(Seq::<Field>::empty().push(f0).push(f1) =~= seq![f0, f1]);
        }
    }
}

/// What parsing three fields in a row gives.
pub proof fn lemma_parse_fields3(s: Seq<u8>, pos: int, k0: FieldKind, k1: FieldKind, k2: FieldKind)
    ensures
        parse_fields(s, pos, seq![k0, k1, k2]) == match parse_field(s, pos, k0) {
            Some((f0, q0)) => match parse_field(s, q0, k1) {
                Some((f1, q1)) => match parse_field(s, q1, k2) {
                    Some((f2, q2)) => Some((seq![f0, f1, f2], q2)),
                    None => None,
                },
                None => None,
            },
            None => None,
        },
{
    lemma_parse_fields2(s, pos, k0, k1);
    assert(seq![k0, k1, k2] =~= seq![k0, k1].push(k2));
    lemma_parse_fields_push(s, pos, seq![k0, k1], k2);
    if let Some((f0, q0)) = parse_field(s, pos, k0) {
        if let Some((f1, q1)) = parse_field(s, q0, k1) {
            if let Some((f2, q2)) = parse_field(s, q1, k2) {
                assert(seq![f0, f1].push(f2) =~= seq![f0, f1, f2]);
            }
        }
    }
}

/// What parsing four fields in a row gives.
pub proof fn lemma_parse_fields4(
    s: Seq<u8>,
    pos: int,
    k0: FieldKind,
    k1: FieldKind,
    k2: FieldKind,
    k3: FieldKind,
)
    ensures
        parse_fields(s, pos, seq![k0, k1, k2, k3]) == match parse_field(s, pos, k0) {
            Some((f0, q0)) => match parse_field(s, q0, k1) {
                Some((f1, q1)) => match parse_field(s, q1, k2) {
                    Some((f2, q2)) => match parse_field(s, q2, k3) {
                        Some((f3, q3)) => Some((seq![f0, f1, f2, f3], q3)),
                        None => None,
                    },
                    None => None,
                },
                None => None,
            },
            None => None,
        },
{
    lemma_parse_fields3(s, pos, k0, k1, k2);
    assert(seq![k0, k1, k2, k3] =~= seq![k0, k1, k2].push(k3));
    lemma_parse_fields_push(s, pos, seq![k0, k1, k2], k3);
    if let Some((f0, q0)) = parse_field(s, pos, k0) {
        if let Some((f1, q1)) = parse_field(s, q0, k1) {
            if let Some((f2, q2)) = parse_field(s, q1, k2) {
                if let Some((f3, q3)) = parse_field(s, q2, k3) {
                    assert(seq![f0, f1, f2].push(f3) =~= seq![f0, f1, f2, f3]);
                }
            }
        }
    }
}

/// The encoding and the length limits of two fields.
pub proof fn lemma_fields2(f0: Field, f1: Field)
    ensures
        enc_fields(seq![f0, f1]) == enc_field(f0) + enc_field(f1),
        fields_fit(seq![f0, f1]) == (field_fits(f0) && field_fits(f1)),
{
    let fs = seq![f0, f1];
    let e = Seq::<Field>::empty();
    assert(fs.drop_last() =~= seq![f0]);
    assert(seq![f0].drop_last() =~= e);
    assert(enc_fields(e) == Seq::<u8>::empty());
    assert(enc_fields(seq![f0]) == enc_fields(e) + enc_field(f0));
    assert(enc_fields(seq![f0]) =~= enc_field(f0));
    assert(fs[0] == f0 && fs[1] == f1);
}

/// The encoding and the length limits of three fields.
pub proof fn lemma_fields3(f0: Field, f1: Field, f2: Field)
    ensures
        enc_fields(seq![f0, f1, f2]) == enc_field(f0) + enc_field(f1) + enc_field(f2),
        fields_fit(seq![f0, f1, f2]) == (field_fits(f0) && field_fits(f1) && field_fits(f2)),
{
    lemma_fields2(f0, f1);
    let fs = seq![f0, f1, f2];
    assert(fs.drop_last() =~= seq![f0, f1]);
    assert(fs[0] == f0 && fs[1] == f1 && fs[2] == f2);
}

/// The encoding and the length limits of four fields.
pub proof fn lemma_fields4(f0: Field, f1: Field, f2: Field, f3: Field)
    ensures
        enc_fields(seq![f0, f1, f2, f3]) == enc_field(f0) + enc_field(f1) + enc_field(f2)
            + enc_field(f3),
        fields_fit(seq![f0, f1, f2, f3]) == (field_fits(f0) && field_fits(f1) && field_fits(f2)
            && field_fits(f3)),
{
    lemma_fields3(f0, f1, f2);
    let fs = seq![f0, f1, f2, f3];
    assert(fs.drop_last() =~= seq![f0, f1, f2]);
    assert(fs[0] == f0 && fs[1] == f1 && fs[2] == f2 && fs[3] == f3);
}

proof fn lemma_div_mod4(i: int, k: int)
    requires
        0 <= i,
        0 <= k < 4,
    ensures
        (4 * i + k) / 4 == i,
        (4 * i + k) % 4 == k,
{
    assert((4 * i + k) / 4 == i && (4 * i + k) % 4 == k) by (nonlinear_arith)
        requires
            0 <= i,
            0 <= k < 4,
    ;
}

proof fn lemma_ids_bytes_push(ids: Seq<u32>, x: u32)
    ensures
        ids_bytes(ids.push(x)) == ids_bytes(ids) + u32_be(x),
{
    let n = ids.len() as int;
    let l = ids_bytes(ids.push(x));
    let r = ids_bytes(ids) + u32_be(x);
    assert forall|j: int| 0 <= j < 4 * n + 4 implies #[trigger] l[j] == r[j] by {
        let i = j / 4;
        let k = j % 4;
        assert(j == 4 * i + k && 0 <= k < 4 && 0 <= i) by (nonlinear_arith)
            requires
                0 <= j,
                i == j / 4,
                k == j % 4,
        ;
        if j < 4 * n {
            assert(i < n) by (nonlinear_arith)
                requires
                    j == 4 * i + k,
                    0 <= k < 4,
                    j < 4 * n,
            ;
        } else {
            assert(i == n) by (nonlinear_arith)
                requires
                    j == 4 * i + k,
                    0 <= k < 4,
                    4 * n <= j < 4 * n + 4,
            ;
        }
    }
    assert(l =~= r);
}

/// Where `s` holds the encoding of `f` at `pos`, parsing a field of its kind
/// there gives `f` back and ends right after it.
pub proof fn lemma_parse_field_enc(s: Seq<u8>, pos: int, f: Field)
    requires
        0 <= pos,
        field_fits(f),
        pos + enc_field(f).len() <= s.len(),
        s.subrange(pos, pos + enc_field(f).len()) == enc_field(f),
    ensures
        parse_field(s, pos, kind_of(f)) == Some((f, pos + enc_field(f).len())),
{
    match f {
        Field::U16(v) => {
            lemma_u16_at(s, pos, v);
        },
        Field::U32(v) => {
            lemma_u32_at(s, pos, v);
        },
        Field::Bytes(b) => {
            lemma_split_at(s, pos, u32_be(b.len() as u32), b);
            lemma_u32_at(s, pos, b.len() as u32);
        },
        Field::Ids(ids) => {
            let n = ids.len();
            lemma_split_at(s, pos, u16_be((4 * n) as u16), ids_bytes(ids));
            lemma_u16_at(s, pos, (4 * n) as u16);
            assert(u16_at(s, pos) == 4 * n);
            lemma_div_mod4(n as int, 0);
            let got = ids_at(s, pos + 2, n);
            assert forall|i: int| 0 <= i < n implies #[trigger] got[i] == ids[i] by {
                let start = pos + 2 + 4 * i;
                assert(0 <= 4 * i && 4 * i + 4 <= 4 * n) by (nonlinear_arith)
                    requires
                        0 <= i < n,
                ;
                let w = s.subrange(pos + 2, pos + 2 + 4 * n);
                assert forall|k: int| 0 <= k < 4 implies #[trigger] s.subrange(
                    start,
                    start + 4,
                )[k] == u32_be(ids[i])[k] by {
                    lemma_div_mod4(i, k);
                    assert(s.subrange(start, start + 4)[k] == w[4 * i + k]);
                    assert(w[4 * i + k] == ids_bytes(ids)[4 * i + k]);
                }
                assert(s.subrange(start, start + 4) =~= u32_be(ids[i]));
                lemma_u32_at(s, start, ids[i]);
            }
            assert(got =~= ids);
        },
    }
}

/// Where `s` holds the encoding of `fs` at `pos`, parsing fields of their
/// kinds there gives `fs` back and ends right after them.
pub proof fn lemma_parse_fields_enc(s: Seq<u8>, pos: int, fs: Seq<Field>)
    requires
        0 <= pos,
        fields_fit(fs),
        pos + enc_fields(fs).len() <= s.len(),
        s.subrange(pos, pos + enc_fields(fs).len()) == enc_fields(fs),
    ensures
        parse_fields(s, pos, kinds_of(fs)) == Some((fs, pos + enc_fields(fs).len())),
    decreases fs.len(),
{
    if fs.len() > 0 {
        let prev = fs.drop_last();
        let f = fs.last();
        assert(kinds_of(fs).drop_last() =~= kinds_of(prev));
        assert(fields_fit(prev)) by {
            assert forall|i: int| 0 <= i < prev.len() implies field_fits(#[trigger] prev[i]) by {
                assert(prev[i] == fs[i]);
            }
        }
        assert(field_fits(f)) by {
            assert(f == fs[fs.len() - 1]);
        }
        lemma_split_at(s, pos, enc_fields(prev), enc_field(f));
        lemma_parse_fields_enc(s, pos, prev);
        lemma_parse_field_enc(s, pos + enc_fields(prev).len(), f);
        assert(prev.push(f) =~= fs);
    }
}

/// Reads a 16-bit field.
pub fn read_u16_field(s: &[u8], pos: usize) -> (r: Option<(u16, usize)>)
    ensures
        match parse_field(s@, pos as int, FieldKind::U16) {
            Some((f, q)) => r matches Some((v, p)) && f == Field::U16(v) && p == q,
            None => r is None,
        },
{
    if pos <= s.len() && s.len() - pos >= 2 {
        Some((read_u16_be(s, pos), pos + 2))
    } else {
        None
    }
}

/// Reads a 32-bit field.
pub fn read_u32_field(s: &[u8], pos: usize) -> (r: Option<(u32, usize)>)
    ensures
        match parse_field(s@, pos as int, FieldKind::U32) {
            Some((f, q)) => r matches Some((v, p)) && f == Field::U32(v) && p == q,
            None => r is None,
        },
{
    if pos <= s.len() && s.len() - pos >= 4 {
        Some((read_u32_be(s, pos), pos + 4))
    } else {
        None
    }
}

/// Reads a byte vector with a four-byte length.
pub fn read_bytes_field(s: &[u8], pos: usize) -> (r: Option<(Vec<u8>, usize)>)
    ensures
        match parse_field(s@, pos as int, FieldKind::Bytes) {
            Some((f, q)) => r matches Some((v, p)) && f == Field::Bytes(v@) && p == q,
            None => r is None,
        },
{
    if pos <= s.len() && s.len() - pos >= 4 {
        let n = read_u32_be(s, pos) as usize;
        if s.len() - pos - 4 >= n {
            let end = pos + 4 + n;
            Some((copy_range(s, pos + 4, end), end))
        } else {
            None
        }
    } else {
        None
    }
}

/// Reads a list of device ids with a two-byte length in bytes.
pub fn read_ids_field(s: &[u8], pos: usize) -> (r: Option<(Vec<u32>, usize)>)
    ensures
        match parse_field(s@, pos as int, FieldKind::Ids) {
            Some((f, q)) => r matches Some((v, p)) && f == Field::Ids(v@) && p == q,
            None => r is None,
        },
{
    if pos <= s.len() && s.len() - pos >= 2 {
        let n = read_u16_be(s, pos) as usize;
        if n % 4 == 0 && s.len() - pos - 2 >= n {
            let count = n / 4;
            let start = pos + 2;
            let mut ids: Vec<u32> = Vec::new();
            let len = s.len();
            let mut i: usize = 0;
            while i < count
                invariant
                    len == s@.len(),
                    count == n / 4,
                    n % 4 == 0,
                    start + n <= s@.len(),
                    i <= count,
                    ids@ == ids_at(s@, start as int, i as nat),
                decreases count - i,
            {
                assert(start + 4 * i + 4 <= s@.len()) by (nonlinear_arith)
                    requires
                        i < count,
                        count == n / 4,
                        n % 4 == 0,
                        start + n <= s@.len(),
                ;
                ids.push(read_u32_be(s, start + 4 * i));
                i = i + 1;
                assert(ids@ =~= ids_at(s@, start as int, i as nat));
            }
            Some((ids, start + n))
        } else {
            None
        }
    } else {
        None
    }
}

/// Appends a byte vector with its four-byte length.
pub fn push_bytes_field(out: &mut Vec<u8>, b: &[u8])
    requires
        b@.len() <= u32::MAX,
    ensures
        final(out)@ == old(out)@ + enc_field(Field::Bytes(b@)),
{
    push_u32_be(out, b.len() as u32);
    push_all(out, b);
    assert(final(out)@ =~= old(out)@ + enc_field(Field::Bytes(b@)));
}

/// Appends a list of ids with its two-byte length in bytes.
pub fn push_ids_field(out: &mut Vec<u8>, ids: &[u32])
    requires
        4 * ids@.len() <= u16::MAX,
    ensures
        final(out)@ == old(out)@ + enc_field(Field::Ids(ids@)),
{
    let ghost start = out@;
    push_u16_be(out, (4 * ids.len()) as u16);
    let mut i: usize = 0;
    while i < ids.len()
        invariant
            i <= ids@.len(),
            4 * ids@.len() <= u16::MAX,
            out@ == start + u16_be((4 * ids@.len()) as u16) + ids_bytes(ids@.subrange(0, i as int)),
        decreases ids@.len() - i,
    {
        push_u32_be(out, ids[i]);
        proof {
            lemma_ids_bytes_push(ids@.subrange(0, i as int), ids@[i as int]);
            assert(ids@.subrange(0, i as int).push(ids@[i as int]) =~= ids@.subrange(0, i + 1));
        }
        i = i + 1;
    }
    assert(ids@.subrange(0, i as int) =~= ids@);
    assert(final(out)@ =~= old(out)@ + enc_field(Field::Ids(ids@)));
}

} // verus!
