//! Typed events and their payload encoding.
//!
//! A payload is a big-endian 32-bit discriminant followed by the fields of the
//! record that the discriminant names. Each of the four event families has its
//! own table of discriminants; the tables are shared with other
//! implementations and are spelled out in `kinds_for` and in each family's
//! view.

use vstd::prelude::*;
use crate::bytes::{u32_be, u32_at, lemma_u32_at, read_u32_be, push_u16_be, push_u32_be};
use crate::frame::Message;
use crate::wire::{
    Field, FieldKind, enc_field, enc_fields, parse_field, fields_fit, kinds_of, parse_fields,
    lemma_fields2, lemma_fields3, lemma_fields4, lemma_parse_fields2, lemma_parse_fields3,
    lemma_parse_fields4, lemma_parse_fields_enc, read_u16_field,
    read_u32_field, read_bytes_field, read_ids_field, push_bytes_field, push_ids_field,
};

verus! {

/// A TLS-encoded object carried as a byte vector with a four-byte length.
#[derive(Debug, Clone, PartialEq, Eq)]
pub struct TlsSerialized {
    inner: Vec<u8>,
}

impl View for TlsSerialized {
    type V = Seq<u8>;

    closed spec fn view(&self) -> Seq<u8> {
        self.inner@
    }
}

impl TlsSerialized {
    /// Wraps the encoding of an object.
    pub fn new(inner: Vec<u8>) -> (r: TlsSerialized)
        ensures
            r@ == inner@,
    {
        TlsSerialized { inner }
    }

    /// Hands the encoding back.
    pub fn unwrap(self) -> (r: Vec<u8>)
        ensures
            r@ == self@,
    {
        self.inner
    }

    pub fn as_slice(&self) -> (r: &[u8])
        ensures
            r@ == self@,
    {
        self.inner.as_slice()
    }

    pub fn len(&self) -> (r: usize)
        ensures
            r == self@.len(),
    {
        self.inner.len()
    }

    /// The four-byte length, then the encoding.
    pub fn serialize(&self) -> (r: Vec<u8>)
        requires
            self@.len() <= u32::MAX,
        ensures
            r@ == enc_field(Field::Bytes(self@)),
    {
        let mut out: Vec<u8> = Vec::new();
        push_bytes_field(&mut out, self.inner.as_slice());
        out
    }

    /// Reads a length-prefixed encoding from the front of `s`, and how many
    /// bytes it took; bytes after it are not looked at.
    pub fn deserialize(s: &[u8]) -> (r: Option<(TlsSerialized, usize)>)
        ensures
            match parse_field(s@, 0, FieldKind::Bytes) {
                Some((f, q)) => r matches Some((t, n)) && f == Field::Bytes(t@) && n == q,
                None => r is None,
            },
    {
        match read_bytes_field(s, 0) {
            Some((inner, n)) => Some((TlsSerialized { inner }, n)),
            None => None,
        }
    }
}

/// The four directions in which events travel.
pub enum Family {
    NetworkToSecurity,
    SecurityToNetwork,
    UiToSecurity,
    SecurityToUi,
}

/// Why a payload carries no event of the requested family.
#[derive(Debug, Clone, Copy, PartialEq, Eq, Structural)]
pub enum DecodeError {
    /// The discriminant names no variant of the family.
    UnknownDiscriminant,
    /// The payload ends before the fields do.
    Truncated,
}

/// Why an event has no encoding.
#[derive(Debug, Clone, Copy, PartialEq, Eq, Structural)]
pub enum EncodeError {
    /// A vector is longer than its length prefix can state.
    VectorTooLong,
}

pub open spec fn kinds_ub() -> Seq<FieldKind> {
    seq![FieldKind::U32, FieldKind::Bytes]
}

pub open spec fn kinds_ubb() -> Seq<FieldKind> {
    seq![FieldKind::U32, FieldKind::Bytes, FieldKind::Bytes]
}

pub open spec fn kinds_uub() -> Seq<FieldKind> {
    seq![FieldKind::U32, FieldKind::U32, FieldKind::Bytes]
}

pub open spec fn kinds_uuhb() -> Seq<FieldKind> {
    seq![FieldKind::U32, FieldKind::U32, FieldKind::U16, FieldKind::Bytes]
}

pub open spec fn kinds_uui() -> Seq<FieldKind> {
    seq![FieldKind::U32, FieldKind::U32, FieldKind::Ids]
}

pub open spec fn kinds_uu() -> Seq<FieldKind> {
    seq![FieldKind::U32, FieldKind::U32]
}

pub open spec fn kinds_uh() -> Seq<FieldKind> {
    seq![FieldKind::U32, FieldKind::U16]
}

/// An event as its discriminant and the fields of its record.
pub type EventModel = (u32, Seq<Field>);

/// The payload of the event with discriminant `tag` and fields `fs`.
pub open spec fn enc_event(tag: u32, fs: Seq<Field>) -> Seq<u8> {
    u32_be(tag) + enc_fields(fs)
}

/// The discriminant and fields of the event of `family` that payload `s`
/// carries. Bytes after the last field are not looked at.
pub open spec fn decode_event_spec(family: Family, s: Seq<u8>) -> Result<EventModel, DecodeError> {
    if s.len() < 4 {
        Err(DecodeError::Truncated)
    } else {
        match kinds_for(family, u32_at(s, 0)) {
            None => Err(DecodeError::UnknownDiscriminant),
            Some(ks) => match parse_fields(s, 4, ks) {
                Some((fs, _)) => Ok((u32_at(s, 0), fs)),
                None => Err(DecodeError::Truncated),
            },
        }
    }
}

/// Fields of the kinds that the table gives a discriminant decode from their
/// own encoding to themselves.
pub proof fn lemma_event_round_trip(family: Family, tag: u32, fs: Seq<Field>)
    requires
        kinds_for(family, tag) == Some(kinds_of(fs)),
        fields_fit(fs),
    ensures
        decode_event_spec(family, enc_event(tag, fs)) == Result::<EventModel, DecodeError>::Ok(
            (tag, fs),
        ),
{
    let s = enc_event(tag, fs);
    assert(s.subrange(0, 4) =~= u32_be(tag));
    lemma_u32_at(s, 0, tag);
    assert(s.subrange(4, 4 + enc_fields(fs).len() as int) =~= enc_fields(fs));
    lemma_parse_fields_enc(s, 4, fs);
}

fn len_fits_u32(n: usize) -> (r: bool)
    ensures
        r == (n <= u32::MAX),
{
    n as u64 <= 0xFFFF_FFFFu64
}

fn ids_fit(n: usize) -> (r: bool)
    ensures
        r == (4 * n <= u16::MAX),
{
    n <= 16383
}

/// Reads a 32-bit integer and a byte vector from `pos` on.
fn decode_ub(s: &[u8], pos: usize) -> (r: Option<(u32, Vec<u8>, usize)>)
    ensures
        match parse_fields(s@, pos as int, kinds_ub()) {
            Some((fs, q)) => r matches Some((a, b, p)) && p == q
                && fs == seq![Field::U32(a), Field::Bytes(b@)],
            None => r is None,
        },
{
    proof {
        lemma_parse_fields2(s@, pos as int, FieldKind::U32, FieldKind::Bytes);
    }
    let (a, p) = match read_u32_field(s, pos) {
        Some(x) => x,
        None => return None,
    };
    let (b, p) = match read_bytes_field(s, p) {
        Some(x) => x,
        None => return None,
    };
    Some((a, b, p))
}

/// Appends a 32-bit integer and a byte vector.
fn encode_ub(out: &mut Vec<u8>, a: u32, b: &[u8])
    requires
        b@.len() <= u32::MAX,
    ensures
        final(out)@ == old(out)@ + enc_fields(seq![Field::U32(a), Field::Bytes(b@)]),
{
    proof {
        lemma_fields2(Field::U32(a), Field::Bytes(b@));
    }
    let ghost start = out@;
    push_u32_be(out, a);
    push_bytes_field(out, b);
    assert(out@ =~= start + enc_fields(seq![Field::U32(a), Field::Bytes(b@)]));
}

/// Reads a 32-bit integer, a byte vector and a byte vector from `pos` on.
fn decode_ubb(s: &[u8], pos: usize) -> (r: Option<(u32, Vec<u8>, Vec<u8>, usize)>)
    ensures
        match parse_fields(s@, pos as int, kinds_ubb()) {
            Some((fs, q)) => r matches Some((a, b, c, p)) && p == q
                && fs == seq![Field::U32(a), Field::Bytes(b@), Field::Bytes(c@)],
            None => r is None,
        },
{
    proof {
        lemma_parse_fields3(s@, pos as int, FieldKind::U32, FieldKind::Bytes, FieldKind::Bytes);
    }
    let (a, p) = match read_u32_field(s, pos) {
        Some(x) => x,
        None => return None,
    };
    let (b, p) = match read_bytes_field(s, p) {
        Some(x) => x,
        None => return None,
    };
    let (c, p) = match read_bytes_field(s, p) {
        Some(x) => x,
        None => return None,
    };
    Some((a, b, c, p))
}

/// Appends a 32-bit integer, a byte vector and a byte vector.
fn encode_ubb(out: &mut Vec<u8>, a: u32, b: &[u8], c: &[u8])
    requires
        b@.len() <= u32::MAX,
        c@.len() <= u32::MAX,
    ensures
        final(out)@ == old(out)@ + enc_fields(
            seq![Field::U32(a), Field::Bytes(b@), Field::Bytes(c@)],
        ),
{
    proof {
        lemma_fields3(Field::U32(a), Field::Bytes(b@), Field::Bytes(c@));
    }
    let ghost start = out@;
    push_u32_be(out, a);
    push_bytes_field(out, b);
    push_bytes_field(out, c);
    assert(out@ =~= start + enc_fields(seq![Field::U32(a), Field::Bytes(b@), Field::Bytes(c@)]));
}

/// Reads a 32-bit integer, a 32-bit integer and a byte vector from `pos` on.
fn decode_uub(s: &[u8], pos: usize) -> (r: Option<(u32, u32, Vec<u8>, usize)>)
    ensures
        match parse_fields(s@, pos as int, kinds_uub()) {
            Some((fs, q)) => r matches Some((a, b, c, p)) && p == q
                && fs == seq![Field::U32(a), Field::U32(b), Field::Bytes(c@)],
            None => r is None,
        },
{
    proof {
        lemma_parse_fields3(s@, pos as int, FieldKind::U32, FieldKind::U32, FieldKind::Bytes);
    }
    let (a, p) = match read_u32_field(s, pos) {
        Some(x) => x,
        None => return None,
    };
    let (b, p) = match read_u32_field(s, p) {
        Some(x) => x,
        None => return None,
    };
    let (c, p) = match read_bytes_field(s, p) {
        Some(x) => x,
        None => return None,
    };
    Some((a, b, c, p))
}

/// Appends a 32-bit integer, a 32-bit integer and a byte vector.
fn encode_uub(out: &mut Vec<u8>, a: u32, b: u32, c: &[u8])
    requires
        c@.len() <= u32::MAX,
    ensures
        final(out)@ == old(out)@ + enc_fields(seq![Field::U32(a), Field::U32(b), Field::Bytes(c@)]),
{
    proof {
        lemma_fields3(Field::U32(a), Field::U32(b), Field::Bytes(c@));
    }
    let ghost start = out@;
    push_u32_be(out, a);
    push_u32_be(out, b);
    push_bytes_field(out, c);
    assert(out@ =~= start + enc_fields(seq![Field::U32(a), Field::U32(b), Field::Bytes(c@)]));
}

/// Reads a 32-bit integer, a 32-bit integer, a 16-bit integer and a byte vector from `pos` on.
fn decode_uuhb(s: &[u8], pos: usize) -> (r: Option<(u32, u32, u16, Vec<u8>, usize)>)
    ensures
        match parse_fields(s@, pos as int, kinds_uuhb()) {
            Some((fs, q)) => r matches Some((a, b, c, d, p)) && p == q
                && fs == seq![Field::U32(a), Field::U32(b), Field::U16(c), Field::Bytes(d@)],
            None => r is None,
        },
{
    proof {
        lemma_parse_fields4(
            s@,
            pos as int,
            FieldKind::U32,
            FieldKind::U32,
            FieldKind::U16,
            FieldKind::Bytes,
        );
    }
    let (a, p) = match read_u32_field(s, pos) {
        Some(x) => x,
        None => return None,
    };
    let (b, p) = match read_u32_field(s, p) {
        Some(x) => x,
        None => return None,
    };
    let (c, p) = match read_u16_field(s, p) {
        Some(x) => x,
        None => return None,
    };
    let (d, p) = match read_bytes_field(s, p) {
        Some(x) => x,
        None => return None,
    };
    Some((a, b, c, d, p))
}

/// Appends a 32-bit integer, a 32-bit integer, a 16-bit integer and a byte vector.
fn encode_uuhb(out: &mut Vec<u8>, a: u32, b: u32, c: u16, d: &[u8])
    requires
        d@.len() <= u32::MAX,
    ensures
        final(out)@ == old(out)@ + enc_fields(
            seq![Field::U32(a), Field::U32(b), Field::U16(c), Field::Bytes(d@)],
        ),
{
    proof {
        lemma_fields4(Field::U32(a), Field::U32(b), Field::U16(c), Field::Bytes(d@));
    }
    let ghost start = out@;
    push_u32_be(out, a);
    push_u32_be(out, b);
    push_u16_be(out, c);
    push_bytes_field(out, d);
    assert(out@ =~= start + enc_fields(
        seq![Field::U32(a), Field::U32(b), Field::U16(c), Field::Bytes(d@)],
    ));
}

/// Reads a 32-bit integer, a 32-bit integer and a list of ids from `pos` on.
fn decode_uui(s: &[u8], pos: usize) -> (r: Option<(u32, u32, Vec<u32>, usize)>)
    ensures
        match parse_fields(s@, pos as int, kinds_uui()) {
            Some((fs, q)) => r matches Some((a, b, c, p)) && p == q
                && fs == seq![Field::U32(a), Field::U32(b), Field::Ids(c@)],
            None => r is None,
        },
{
    proof {
        lemma_parse_fields3(s@, pos as int, FieldKind::U32, FieldKind::U32, FieldKind::Ids);
    }
    let (a, p) = match read_u32_field(s, pos) {
        Some(x) => x,
        None => return None,
    };
    let (b, p) = match read_u32_field(s, p) {
        Some(x) => x,
        None => return None,
    };
    let (c, p) = match read_ids_field(s, p) {
        Some(x) => x,
        None => return None,
    };
    Some((a, b, c, p))
}

/// Appends a 32-bit integer, a 32-bit integer and a list of ids.
fn encode_uui(out: &mut Vec<u8>, a: u32, b: u32, c: &[u32])
    requires
        4 * c@.len() <= u16::MAX,
    ensures
        final(out)@ == old(out)@ + enc_fields(seq![Field::U32(a), Field::U32(b), Field::Ids(c@)]),
{
    proof {
        lemma_fields3(Field::U32(a), Field::U32(b), Field::Ids(c@));
    }
    let ghost start = out@;
    push_u32_be(out, a);
    push_u32_be(out, b);
    push_ids_field(out, c);
    assert(out@ =~= start + enc_fields(seq![Field::U32(a), Field::U32(b), Field::Ids(c@)]));
}

/// Reads a 32-bit integer and a 32-bit integer from `pos` on.
fn decode_uu(s: &[u8], pos: usize) -> (r: Option<(u32, u32, usize)>)
    ensures
        match parse_fields(s@, pos as int, kinds_uu()) {
            Some((fs, q)) => r matches Some((a, b, p)) && p == q
                && fs == seq![Field::U32(a), Field::U32(b)],
            None => r is None,
        },
{
    proof {
        lemma_parse_fields2(s@, pos as int, FieldKind::U32, FieldKind::U32);
    }
    let (a, p) = match read_u32_field(s, pos) {
        Some(x) => x,
        None => return None,
    };
    let (b, p) = match read_u32_field(s, p) {
        Some(x) => x,
        None => return None,
    };
    Some((a, b, p))
}

/// Appends a 32-bit integer and a 32-bit integer.
fn encode_uu(out: &mut Vec<u8>, a: u32, b: u32)
    ensures
        final(out)@ == old(out)@ + enc_fields(seq![Field::U32(a), Field::U32(b)]),
{
    proof {
        lemma_fields2(Field::U32(a), Field::U32(b));
    }
    let ghost start = out@;
    push_u32_be(out, a);
    push_u32_be(out, b);
    assert(out@ =~= start + enc_fields(seq![Field::U32(a), Field::U32(b)]));
}

/// Reads a 32-bit integer and a 16-bit integer from `pos` on.
fn decode_uh(s: &[u8], pos: usize) -> (r: Option<(u32, u16, usize)>)
    ensures
        match parse_fields(s@, pos as int, kinds_uh()) {
            Some((fs, q)) => r matches Some((a, b, p)) && p == q
                && fs == seq![Field::U32(a), Field::U16(b)],
            None => r is None,
        },
{
    proof {
        lemma_parse_fields2(s@, pos as int, FieldKind::U32, FieldKind::U16);
    }
    let (a, p) = match read_u32_field(s, pos) {
        Some(x) => x,
        None => return None,
    };
    let (b, p) = match read_u16_field(s, p) {
        Some(x) => x,
        None => return None,
    };
    Some((a, b, p))
}

/// Appends a 32-bit integer and a 16-bit integer.
fn encode_uh(out: &mut Vec<u8>, a: u32, b: u16)
    ensures
        final(out)@ == old(out)@ + enc_fields(seq![Field::U32(a), Field::U16(b)]),
{
    proof {
        lemma_fields2(Field::U32(a), Field::U16(b));
    }
    let ghost start = out@;
    push_u32_be(out, a);
    push_u16_be(out, b);
    assert(out@ =~= start + enc_fields(seq![Field::U32(a), Field::U16(b)]));
}

/// A member's key package together with a hash of it.
#[derive(Debug, Clone, PartialEq, Eq)]
pub struct MlsKeyPackage {
    pub team: u32,
    pub key_package: TlsSerialized,
    pub hash_bytes: Vec<u8>,
}

impl View for MlsKeyPackage {
    type V = Seq<Field>;

    open spec fn view(&self) -> Seq<Field> {
        seq![Field::U32(self.team), Field::Bytes(self.key_package@), Field::Bytes(self.hash_bytes@)]
    }
}

impl MlsKeyPackage {
    /// Whether every length fits its prefix on the wire.
    pub fn fits(&self) -> (r: bool)
        ensures
            r == fields_fit(self@),
    {
        proof {
            lemma_fields3(
                Field::U32(self.team),
                Field::Bytes(self.key_package@),
                Field::Bytes(self.hash_bytes@),
            );
        }
        len_fits_u32(self.key_package.len()) && len_fits_u32(self.hash_bytes.len())
    }

    /// Appends the encoding of the fields.
    pub fn encode_into(&self, out: &mut Vec<u8>)
        requires
            fields_fit(self@),
        ensures
            final(out)@ == old(out)@ + enc_fields(self@),
    {
        proof {
            lemma_fields3(
                Field::U32(self.team),
                Field::Bytes(self.key_package@),
                Field::Bytes(self.hash_bytes@),
            );
        }
        encode_ubb(out, self.team, self.key_package.as_slice(), self.hash_bytes.as_slice());
    }

    /// The record whose fields start at `pos`, and where it ends.
    pub fn decode_at(s: &[u8], pos: usize) -> (r: Option<(MlsKeyPackage, usize)>)
        ensures
            match parse_fields(s@, pos as int, kinds_ubb()) {
                Some((fs, q)) => r matches Some((m, p)) && m@ == fs && p == q,
                None => r is None,
            },
    {
        let (team, key_package, hash_bytes, p) = match decode_ubb(s, pos) {
            Some(x) => x,
            None => return None,
        };
        Some((MlsKeyPackage { team, key_package: TlsSerialized::new(key_package), hash_bytes }, p))
    }
}

/// A request to add the owner of a key package to a team.
#[derive(Debug, Clone, PartialEq, Eq)]
pub struct MlsAddKeyPackage {
    pub team: u32,
    pub key_package: TlsSerialized,
}

impl View for MlsAddKeyPackage {
    type V = Seq<Field>;

    open spec fn view(&self) -> Seq<Field> {
        seq![Field::U32(self.team), Field::Bytes(self.key_package@)]
    }
}

impl MlsAddKeyPackage {
    /// Whether every length fits its prefix on the wire.
    pub fn fits(&self) -> (r: bool)
        ensures
            r == fields_fit(self@),
    {
        proof {
            lemma_fields2(Field::U32(self.team), Field::Bytes(self.key_package@));
        }
        len_fits_u32(self.key_package.len())
    }

    /// Appends the encoding of the fields.
    pub fn encode_into(&self, out: &mut Vec<u8>)
        requires
            fields_fit(self@),
        ensures
            final(out)@ == old(out)@ + enc_fields(self@),
    {
        proof {
            lemma_fields2(Field::U32(self.team), Field::Bytes(self.key_package@));
        }
        encode_ub(out, self.team, self.key_package.as_slice());
    }

    /// The record whose fields start at `pos`, and where it ends.
    pub fn decode_at(s: &[u8], pos: usize) -> (r: Option<(MlsAddKeyPackage, usize)>)
        ensures
            match parse_fields(s@, pos as int, kinds_ub()) {
                Some((fs, q)) => r matches Some((m, p)) && m@ == fs && p == q,
                None => r is None,
            },
    {
        let (team, key_package, p) = match decode_ub(s, pos) {
            Some(x) => x,
            None => return None,
        };
        Some((MlsAddKeyPackage { team, key_package: TlsSerialized::new(key_package) }, p))
    }
}

/// The welcome that lets a new member into a team.
#[derive(Debug, Clone, PartialEq, Eq)]
pub struct MlsWelcome {
    pub team: u32,
    pub welcome: TlsSerialized,
}

impl View for MlsWelcome {
    type V = Seq<Field>;

    open spec fn view(&self) -> Seq<Field> {
        seq![Field::U32(self.team), Field::Bytes(self.welcome@)]
    }
}

impl MlsWelcome {
    /// Whether every length fits its prefix on the wire.
    pub fn fits(&self) -> (r: bool)
        ensures
            r == fields_fit(self@),
    {
        proof {
            lemma_fields2(Field::U32(self.team), Field::Bytes(self.welcome@));
        }
        len_fits_u32(self.welcome.len())
    }

    /// Appends the encoding of the fields.
    pub fn encode_into(&self, out: &mut Vec<u8>)
        requires
            fields_fit(self@),
        ensures
            final(out)@ == old(out)@ + enc_fields(self@),
    {
        proof {
            lemma_fields2(Field::U32(self.team), Field::Bytes(self.welcome@));
        }
        encode_ub(out, self.team, self.welcome.as_slice());
    }

    /// The record whose fields start at `pos`, and where it ends.
    pub fn decode_at(s: &[u8], pos: usize) -> (r: Option<(MlsWelcome, usize)>)
        ensures
            match parse_fields(s@, pos as int, kinds_ub()) {
                Some((fs, q)) => r matches Some((m, p)) && m@ == fs && p == q,
                None => r is None,
            },
    {
        let (team, welcome, p) = match decode_ub(s, pos) {
            Some(x) => x,
            None => return None,
        };
        Some((MlsWelcome { team, welcome: TlsSerialized::new(welcome) }, p))
    }
}

/// A commit received for a team.
#[derive(Debug, Clone, PartialEq, Eq)]
pub struct MlsCommitIn {
    pub team: u32,
    pub commit: TlsSerialized,
}

impl View for MlsCommitIn {
    type V = Seq<Field>;

    open spec fn view(&self) -> Seq<Field> {
        seq![Field::U32(self.team), Field::Bytes(self.commit@)]
    }
}

impl MlsCommitIn {
    /// Whether every length fits its prefix on the wire.
    pub fn fits(&self) -> (r: bool)
        ensures
            r == fields_fit(self@),
    {
        proof {
            lemma_fields2(Field::U32(self.team), Field::Bytes(self.commit@));
        }
        len_fits_u32(self.commit.len())
    }

    /// Appends the encoding of the fields.
    pub fn encode_into(&self, out: &mut Vec<u8>)
        requires
            fields_fit(self@),
        ensures
            final(out)@ == old(out)@ + enc_fields(self@),
    {
        proof {
            lemma_fields2(Field::U32(self.team), Field::Bytes(self.commit@));
        }
        encode_ub(out, self.team, self.commit.as_slice());
    }

    /// The record whose fields start at `pos`, and where it ends.
    pub fn decode_at(s: &[u8], pos: usize) -> (r: Option<(MlsCommitIn, usize)>)
        ensures
            match parse_fields(s@, pos as int, kinds_ub()) {
                Some((fs, q)) => r matches Some((m, p)) && m@ == fs && p == q,
                None => r is None,
            },
    {
        let (team, commit, p) = match decode_ub(s, pos) {
            Some(x) => x,
            None => return None,
        };
        Some((MlsCommitIn { team, commit: TlsSerialized::new(commit) }, p))
    }
}

/// A commit sent out for a team.
#[derive(Debug, Clone, PartialEq, Eq)]
pub struct MlsCommitOut {
    pub team: u32,
    pub commit: TlsSerialized,
}

impl View for MlsCommitOut {
    type V = Seq<Field>;

    open spec fn view(&self) -> Seq<Field> {
        seq![Field::U32(self.team), Field::Bytes(self.commit@)]
    }
}

impl MlsCommitOut {
    /// Whether every length fits its prefix on the wire.
    pub fn fits(&self) -> (r: bool)
        ensures
            r == fields_fit(self@),
    {
        proof {
            lemma_fields2(Field::U32(self.team), Field::Bytes(self.commit@));
        }
        len_fits_u32(self.commit.len())
    }

    /// Appends the encoding of the fields.
    pub fn encode_into(&self, out: &mut Vec<u8>)
        requires
            fields_fit(self@),
        ensures
            final(out)@ == old(out)@ + enc_fields(self@),
    {
        proof {
            lemma_fields2(Field::U32(self.team), Field::Bytes(self.commit@));
        }
        encode_ub(out, self.team, self.commit.as_slice());
    }

    /// The record whose fields start at `pos`, and where it ends.
    pub fn decode_at(s: &[u8], pos: usize) -> (r: Option<(MlsCommitOut, usize)>)
        ensures
            match parse_fields(s@, pos as int, kinds_ub()) {
                Some((fs, q)) => r matches Some((m, p)) && m@ == fs && p == q,
                None => r is None,
            },
    {
        let (team, commit, p) = match decode_ub(s, pos) {
            Some(x) => x,
            None => return None,
        };
        Some((MlsCommitOut { team, commit: TlsSerialized::new(commit) }, p))
    }
}

/// A received encrypted text message.
#[derive(Debug, Clone, PartialEq, Eq)]
pub struct EncryptedAsciiMessageIn {
    pub team: u32,
    pub channel: u32,
    pub ciphertext: TlsSerialized,
}

impl View for EncryptedAsciiMessageIn {
    type V = Seq<Field>;

    open spec fn view(&self) -> Seq<Field> {
        seq![Field::U32(self.team), Field::U32(self.channel), Field::Bytes(self.ciphertext@)]
    }
}

impl EncryptedAsciiMessageIn {
    /// Whether every length fits its prefix on the wire.
    pub fn fits(&self) -> (r: bool)
        ensures
            r == fields_fit(self@),
    {
        proof {
            lemma_fields3(
                Field::U32(self.team),
                Field::U32(self.channel),
                Field::Bytes(self.ciphertext@),
            );
        }
        len_fits_u32(self.ciphertext.len())
    }

    /// Appends the encoding of the fields.
    pub fn encode_into(&self, out: &mut Vec<u8>)
        requires
            fields_fit(self@),
        ensures
            final(out)@ == old(out)@ + enc_fields(self@),
    {
        proof {
            lemma_fields3(
                Field::U32(self.team),
                Field::U32(self.channel),
                Field::Bytes(self.ciphertext@),
            );
        }
        encode_uub(out, self.team, self.channel, self.ciphertext.as_slice());
    }

    /// The record whose fields start at `pos`, and where it ends.
    pub fn decode_at(s: &[u8], pos: usize) -> (r: Option<(EncryptedAsciiMessageIn, usize)>)
        ensures
            match parse_fields(s@, pos as int, kinds_uub()) {
                Some((fs, q)) => r matches Some((m, p)) && m@ == fs && p == q,
                None => r is None,
            },
    {
        let (team, channel, ciphertext, p) = match decode_uub(s, pos) {
            Some(x) => x,
            None => return None,
        };
        Some((EncryptedAsciiMessageIn {
            team,
            channel,
            ciphertext: TlsSerialized::new(ciphertext),
        }, p))
    }
}

/// An encrypted text message sent out.
#[derive(Debug, Clone, PartialEq, Eq)]
pub struct EncryptedAsciiMessageOut {
    pub team: u32,
    pub channel: u32,
    pub ciphertext: TlsSerialized,
}

impl View for EncryptedAsciiMessageOut {
    type V = Seq<Field>;

    open spec fn view(&self) -> Seq<Field> {
        seq![Field::U32(self.team), Field::U32(self.channel), Field::Bytes(self.ciphertext@)]
    }
}

impl EncryptedAsciiMessageOut {
    /// Whether every length fits its prefix on the wire.
    pub fn fits(&self) -> (r: bool)
        ensures
            r == fields_fit(self@),
    {
        proof {
            lemma_fields3(
                Field::U32(self.team),
                Field::U32(self.channel),
                Field::Bytes(self.ciphertext@),
            );
        }
        len_fits_u32(self.ciphertext.len())
    }

    /// Appends the encoding of the fields.
    pub fn encode_into(&self, out: &mut Vec<u8>)
        requires
            fields_fit(self@),
        ensures
            final(out)@ == old(out)@ + enc_fields(self@),
    {
        proof {
            lemma_fields3(
                Field::U32(self.team),
                Field::U32(self.channel),
                Field::Bytes(self.ciphertext@),
            );
        }
        encode_uub(out, self.team, self.channel, self.ciphertext.as_slice());
    }

    /// The record whose fields start at `pos`, and where it ends.
    pub fn decode_at(s: &[u8], pos: usize) -> (r: Option<(EncryptedAsciiMessageOut, usize)>)
        ensures
            match parse_fields(s@, pos as int, kinds_uub()) {
                Some((fs, q)) => r matches Some((m, p)) && m@ == fs && p == q,
                None => r is None,
            },
    {
        let (team, channel, ciphertext, p) = match decode_uub(s, pos) {
            Some(x) => x,
            None => return None,
        };
        Some((EncryptedAsciiMessageOut {
            team,
            channel,
            ciphertext: TlsSerialized::new(ciphertext),
        }, p))
    }
}

/// A plain text message on a channel.
#[derive(Debug, Clone, PartialEq, Eq)]
pub struct AsciiMessage {
    pub team: u32,
    pub channel: u32,
    pub device_id: u16,
    pub ascii: Vec<u8>,
}

impl View for AsciiMessage {
    type V = Seq<Field>;

    open spec fn view(&self) -> Seq<Field> {
        seq![
            Field::U32(self.team),
            Field::U32(self.channel),
            Field::U16(self.device_id),
            Field::Bytes(self.ascii@),
        ]
    }
}

impl AsciiMessage {
    /// Whether every length fits its prefix on the wire.
    pub fn fits(&self) -> (r: bool)
        ensures
            r == fields_fit(self@),
    {
        proof {
            lemma_fields4(
                Field::U32(self.team),
                Field::U32(self.channel),
                Field::U16(self.device_id),
                Field::Bytes(self.ascii@),
            );
        }
        len_fits_u32(self.ascii.len())
    }

    /// Appends the encoding of the fields.
    pub fn encode_into(&self, out: &mut Vec<u8>)
        requires
            fields_fit(self@),
        ensures
            final(out)@ == old(out)@ + enc_fields(self@),
    {
        proof {
            lemma_fields4(
                Field::U32(self.team),
                Field::U32(self.channel),
                Field::U16(self.device_id),
                Field::Bytes(self.ascii@),
            );
        }
        encode_uuhb(out, self.team, self.channel, self.device_id, self.ascii.as_slice());
    }

    /// The record whose fields start at `pos`, and where it ends.
    pub fn decode_at(s: &[u8], pos: usize) -> (r: Option<(AsciiMessage, usize)>)
        ensures
            match parse_fields(s@, pos as int, kinds_uuhb()) {
                Some((fs, q)) => r matches Some((m, p)) && m@ == fs && p == q,
                None => r is None,
            },
    {
        let (team, channel, device_id, ascii, p) = match decode_uuhb(s, pos) {
            Some(x) => x,
            None => return None,
        };
        Some((AsciiMessage { team, channel, device_id, ascii }, p))
    }
}

/// Devices whose traffic on a channel is wanted.
#[derive(Debug, Clone, PartialEq, Eq)]
pub struct WatchDevices {
    pub team: u32,
    pub channel: u32,
    pub device_ids: Vec<u32>,
}

impl View for WatchDevices {
    type V = Seq<Field>;

    open spec fn view(&self) -> Seq<Field> {
        seq![Field::U32(self.team), Field::U32(self.channel), Field::Ids(self.device_ids@)]
    }
}

impl WatchDevices {
    /// Whether every length fits its prefix on the wire.
    pub fn fits(&self) -> (r: bool)
        ensures
            r == fields_fit(self@),
    {
        proof {
            lemma_fields3(
                Field::U32(self.team),
                Field::U32(self.channel),
                Field::Ids(self.device_ids@),
            );
        }
        ids_fit(self.device_ids.len())
    }

    /// Appends the encoding of the fields.
    pub fn encode_into(&self, out: &mut Vec<u8>)
        requires
            fields_fit(self@),
        ensures
            final(out)@ == old(out)@ + enc_fields(self@),
    {
        proof {
            lemma_fields3(
                Field::U32(self.team),
                Field::U32(self.channel),
                Field::Ids(self.device_ids@),
            );
        }
        encode_uui(out, self.team, self.channel, self.device_ids.as_slice());
    }

    /// The record whose fields start at `pos`, and where it ends.
    pub fn decode_at(s: &[u8], pos: usize) -> (r: Option<(WatchDevices, usize)>)
        ensures
            match parse_fields(s@, pos as int, kinds_uui()) {
                Some((fs, q)) => r matches Some((m, p)) && m@ == fs && p == q,
                None => r is None,
            },
    {
        let (team, channel, device_ids, p) = match decode_uui(s, pos) {
            Some(x) => x,
            None => return None,
        };
        Some((WatchDevices { team, channel, device_ids }, p))
    }
}

/// Devices whose traffic on a channel is no longer wanted.
#[derive(Debug, Clone, PartialEq, Eq)]
pub struct UnwatchDevices {
    pub team: u32,
    pub channel: u32,
    pub device_ids: Vec<u32>,
}

impl View for UnwatchDevices {
    type V = Seq<Field>;

    open spec fn view(&self) -> Seq<Field> {
        seq![Field::U32(self.team), Field::U32(self.channel), Field::Ids(self.device_ids@)]
    }
}

impl UnwatchDevices {
    /// Whether every length fits its prefix on the wire.
    pub fn fits(&self) -> (r: bool)
        ensures
            r == fields_fit(self@),
    {
        proof {
            lemma_fields3(
                Field::U32(self.team),
                Field::U32(self.channel),
                Field::Ids(self.device_ids@),
            );
        }
        ids_fit(self.device_ids.len())
    }

    /// Appends the encoding of the fields.
    pub fn encode_into(&self, out: &mut Vec<u8>)
        requires
            fields_fit(self@),
        ensures
            final(out)@ == old(out)@ + enc_fields(self@),
    {
        proof {
            lemma_fields3(
                Field::U32(self.team),
                Field::U32(self.channel),
                Field::Ids(self.device_ids@),
            );
        }
        encode_uui(out, self.team, self.channel, self.device_ids.as_slice());
    }

    /// The record whose fields start at `pos`, and where it ends.
    pub fn decode_at(s: &[u8], pos: usize) -> (r: Option<(UnwatchDevices, usize)>)
        ensures
            match parse_fields(s@, pos as int, kinds_uui()) {
                Some((fs, q)) => r matches Some((m, p)) && m@ == fs && p == q,
                None => r is None,
            },
    {
        let (team, channel, device_ids, p) = match decode_uui(s, pos) {
            Some(x) => x,
            None => return None,
        };
        Some((UnwatchDevices { team, channel, device_ids }, p))
    }
}

/// A signature hash for a team.
#[derive(Debug, Clone, PartialEq, Eq)]
pub struct MlsSignatureHash {
    pub team: u32,
    pub hash_bytes: Vec<u8>,
}

impl View for MlsSignatureHash {
    type V = Seq<Field>;

    open spec fn view(&self) -> Seq<Field> {
        seq![Field::U32(self.team), Field::Bytes(self.hash_bytes@)]
    }
}

impl MlsSignatureHash {
    /// Whether every length fits its prefix on the wire.
    pub fn fits(&self) -> (r: bool)
        ensures
            r == fields_fit(self@),
    {
        proof {
            lemma_fields2(Field::U32(self.team), Field::Bytes(self.hash_bytes@));
        }
        len_fits_u32(self.hash_bytes.len())
    }

    /// Appends the encoding of the fields.
    pub fn encode_into(&self, out: &mut Vec<u8>)
        requires
            fields_fit(self@),
        ensures
            final(out)@ == old(out)@ + enc_fields(self@),
    {
        proof {
            lemma_fields2(Field::U32(self.team), Field::Bytes(self.hash_bytes@));
        }
        encode_ub(out, self.team, self.hash_bytes.as_slice());
    }

    /// The record whose fields start at `pos`, and where it ends.
    pub fn decode_at(s: &[u8], pos: usize) -> (r: Option<(MlsSignatureHash, usize)>)
        ensures
            match parse_fields(s@, pos as int, kinds_ub()) {
                Some((fs, q)) => r matches Some((m, p)) && m@ == fs && p == q,
                None => r is None,
            },
    {
        let (team, hash_bytes, p) = match decode_ub(s, pos) {
            Some(x) => x,
            None => return None,
        };
        Some((MlsSignatureHash { team, hash_bytes }, p))
    }
}

/// A request to follow a channel.
#[derive(Debug, Clone, PartialEq, Eq)]
pub struct WatchChannel {
    pub team: u32,
    pub channel: u32,
}

impl View for WatchChannel {
    type V = Seq<Field>;

    open spec fn view(&self) -> Seq<Field> {
        seq![Field::U32(self.team), Field::U32(self.channel)]
    }
}

impl WatchChannel {
    /// Whether every length fits its prefix on the wire.
    pub fn fits(&self) -> (r: bool)
        ensures
            r == fields_fit(self@),
    {
        proof {
            lemma_fields2(Field::U32(self.team), Field::U32(self.channel));
        }
        true
    }

    /// Appends the encoding of the fields.
    pub fn encode_into(&self, out: &mut Vec<u8>)
        requires
            fields_fit(self@),
        ensures
            final(out)@ == old(out)@ + enc_fields(self@),
    {
        proof {
            lemma_fields2(Field::U32(self.team), Field::U32(self.channel));
        }
        encode_uu(out, self.team, self.channel);
    }

    /// The record whose fields start at `pos`, and where it ends.
    pub fn decode_at(s: &[u8], pos: usize) -> (r: Option<(WatchChannel, usize)>)
        ensures
            match parse_fields(s@, pos as int, kinds_uu()) {
                Some((fs, q)) => r matches Some((m, p)) && m@ == fs && p == q,
                None => r is None,
            },
    {
        let (team, channel, p) = match decode_uu(s, pos) {
            Some(x) => x,
            None => return None,
        };
        Some((WatchChannel { team, channel }, p))
    }
}

/// A request to stop following a channel.
#[derive(Debug, Clone, PartialEq, Eq)]
pub struct UnwatchChannel {
    pub team: u32,
    pub channel: u32,
}

impl View for UnwatchChannel {
    type V = Seq<Field>;

    open spec fn view(&self) -> Seq<Field> {
        seq![Field::U32(self.team), Field::U32(self.channel)]
    }
}

impl UnwatchChannel {
    /// Whether every length fits its prefix on the wire.
    pub fn fits(&self) -> (r: bool)
        ensures
            r == fields_fit(self@),
    {
        proof {
            lemma_fields2(Field::U32(self.team), Field::U32(self.channel));
        }
        true
    }

    /// Appends the encoding of the fields.
    pub fn encode_into(&self, out: &mut Vec<u8>)
        requires
            fields_fit(self@),
        ensures
            final(out)@ == old(out)@ + enc_fields(self@),
    {
        proof {
            lemma_fields2(Field::U32(self.team), Field::U32(self.channel));
        }
        encode_uu(out, self.team, self.channel);
    }

    /// The record whose fields start at `pos`, and where it ends.
    pub fn decode_at(s: &[u8], pos: usize) -> (r: Option<(UnwatchChannel, usize)>)
        ensures
            match parse_fields(s@, pos as int, kinds_uu()) {
                Some((fs, q)) => r matches Some((m, p)) && m@ == fs && p == q,
                None => r is None,
            },
    {
        let (team, channel, p) = match decode_uu(s, pos) {
            Some(x) => x,
            None => return None,
        };
        Some((UnwatchChannel { team, channel }, p))
    }
}

/// This device's id within a team.
#[derive(Debug, Clone, PartialEq, Eq)]
pub struct DeviceInfo {
    pub team: u32,
    pub device_id: u16,
}

impl View for DeviceInfo {
    type V = Seq<Field>;

    open spec fn view(&self) -> Seq<Field> {
        seq![Field::U32(self.team), Field::U16(self.device_id)]
    }
}

impl DeviceInfo {
    /// Whether every length fits its prefix on the wire.
    pub fn fits(&self) -> (r: bool)
        ensures
            r == fields_fit(self@),
    {
        proof {
            lemma_fields2(Field::U32(self.team), Field::U16(self.device_id));
        }
        true
    }

    /// Appends the encoding of the fields.
    pub fn encode_into(&self, out: &mut Vec<u8>)
        requires
            fields_fit(self@),
        ensures
            final(out)@ == old(out)@ + enc_fields(self@),
    {
        proof {
            lemma_fields2(Field::U32(self.team), Field::U16(self.device_id));
        }
        encode_uh(out, self.team, self.device_id);
    }

    /// The record whose fields start at `pos`, and where it ends.
    pub fn decode_at(s: &[u8], pos: usize) -> (r: Option<(DeviceInfo, usize)>)
        ensures
            match parse_fields(s@, pos as int, kinds_uh()) {
                Some((fs, q)) => r matches Some((m, p)) && m@ == fs && p == q,
                None => r is None,
            },
    {
        let (team, device_id, p) = match decode_uh(s, pos) {
            Some(x) => x,
            None => return None,
        };
        Some((DeviceInfo { team, device_id }, p))
    }
}

/// The field kinds of the record that `tag` stands for in `family`, or `None`
/// where `family` has no such tag. These are the discriminant tables.
pub open spec fn kinds_for(family: Family, tag: u32) -> Option<Seq<FieldKind>> {
    match family {
        Family::NetworkToSecurity => {
            if tag == 6 {
                Some(kinds_ubb())
            } else if tag == 7 {
                Some(kinds_ub())
            } else if tag == 8 {
                Some(kinds_ub())
            } else if tag == 9 {
                Some(kinds_ub())
            } else if tag == 2 {
                Some(kinds_uub())
            } else {
                None
            }
        },
        Family::SecurityToNetwork => {
            if tag == 7 {
                Some(kinds_ub())
            } else if tag == 8 {
                Some(kinds_ub())
            } else if tag == 9 {
                Some(kinds_ub())
            } else if tag == 1 {
                Some(kinds_uub())
            } else if tag == 3 {
                Some(kinds_uui())
            } else if tag == 4 {
                Some(kinds_uui())
            } else if tag == 5 {
                Some(kinds_ub())
            } else if tag == 10 {
                Some(kinds_uh())
            } else {
                None
            }
        },
        Family::UiToSecurity => {
            if tag == 1 {
                Some(kinds_uuhb())
            } else if tag == 5 {
                Some(kinds_ub())
            } else if tag == 11 {
                Some(kinds_uu())
            } else if tag == 12 {
                Some(kinds_uu())
            } else {
                None
            }
        },
        Family::SecurityToUi => {
            if tag == 2 {
                Some(kinds_uuhb())
            } else {
                None
            }
        },
    }
}

/// Events from the network process to the security process.
#[derive(Debug, Clone, PartialEq, Eq)]
pub enum NetworkToSecurityEvent {
    MlsKeyPackage(MlsKeyPackage),
    MlsAddKeyPackage(MlsAddKeyPackage),
    MlsWelcome(MlsWelcome),
    MlsCommit(MlsCommitIn),
    EncryptedAsciiMessage(EncryptedAsciiMessageIn),
}

impl View for NetworkToSecurityEvent {
    /// The discriminant and the record's fields.
    type V = EventModel;

    open spec fn view(&self) -> EventModel {
        match self {
            NetworkToSecurityEvent::MlsKeyPackage(r) => (6, r@),
            NetworkToSecurityEvent::MlsAddKeyPackage(r) => (7, r@),
            NetworkToSecurityEvent::MlsWelcome(r) => (8, r@),
            NetworkToSecurityEvent::MlsCommit(r) => (9, r@),
            NetworkToSecurityEvent::EncryptedAsciiMessage(r) => (2, r@),
        }
    }
}

impl NetworkToSecurityEvent {
    /// The payload: the discriminant, then the record's fields. Fails where a
    /// length does not fit its prefix.
    pub fn encode(&self) -> (r: Result<Message, EncodeError>)
        ensures
            match r {
                Ok(m) => fields_fit(self@.1) && m@ == enc_event(self@.0, self@.1),
                Err(_) => !fields_fit(self@.1),
            },
    {
        let mut out: Vec<u8> = Vec::new();
        match self {
            NetworkToSecurityEvent::MlsKeyPackage(r) => {
                if !r.fits() {
                    return Err(EncodeError::VectorTooLong);
                }
                push_u32_be(&mut out, 6);
                r.encode_into(&mut out);
            },
            NetworkToSecurityEvent::MlsAddKeyPackage(r) => {
                if !r.fits() {
                    return Err(EncodeError::VectorTooLong);
                }
                push_u32_be(&mut out, 7);
                r.encode_into(&mut out);
            },
            NetworkToSecurityEvent::MlsWelcome(r) => {
                if !r.fits() {
                    return Err(EncodeError::VectorTooLong);
                }
                push_u32_be(&mut out, 8);
                r.encode_into(&mut out);
            },
            NetworkToSecurityEvent::MlsCommit(r) => {
                if !r.fits() {
                    return Err(EncodeError::VectorTooLong);
                }
                push_u32_be(&mut out, 9);
                r.encode_into(&mut out);
            },
            NetworkToSecurityEvent::EncryptedAsciiMessage(r) => {
                if !r.fits() {
                    return Err(EncodeError::VectorTooLong);
                }
                push_u32_be(&mut out, 2);
                r.encode_into(&mut out);
            },
        }
        Ok(Message::from(out))
    }

    /// The event that a payload carries.
    pub fn decode(msg: &Message) -> (r: Result<NetworkToSecurityEvent, DecodeError>)
        ensures
            decode_event_spec(Family::NetworkToSecurity, msg@) == match r {
                Ok(e) => Result::<EventModel, DecodeError>::Ok(e@),
                Err(k) => Result::<EventModel, DecodeError>::Err(k),
            },
    {
        let s = msg.data().as_slice();
        if s.len() < 4 {
            return Err(DecodeError::Truncated);
        }
        let tag = read_u32_be(s, 0);
        if tag == 6 {
            match MlsKeyPackage::decode_at(s, 4) {
                Some((r, _)) => Ok(NetworkToSecurityEvent::MlsKeyPackage(r)),
                None => Err(DecodeError::Truncated),
            }
        } else if tag == 7 {
            match MlsAddKeyPackage::decode_at(s, 4) {
                Some((r, _)) => Ok(NetworkToSecurityEvent::MlsAddKeyPackage(r)),
                None => Err(DecodeError::Truncated),
            }
        } else if tag == 8 {
            match MlsWelcome::decode_at(s, 4) {
                Some((r, _)) => Ok(NetworkToSecurityEvent::MlsWelcome(r)),
                None => Err(DecodeError::Truncated),
            }
        } else if tag == 9 {
            match MlsCommitIn::decode_at(s, 4) {
                Some((r, _)) => Ok(NetworkToSecurityEvent::MlsCommit(r)),
                None => Err(DecodeError::Truncated),
            }
        } else if tag == 2 {
            match EncryptedAsciiMessageIn::decode_at(s, 4) {
                Some((r, _)) => Ok(NetworkToSecurityEvent::EncryptedAsciiMessage(r)),
                None => Err(DecodeError::Truncated),
            }
        } else {
            Err(DecodeError::UnknownDiscriminant)
        }
    }
}

/// Every event whose lengths fit decodes from its own encoding to itself,
/// and its discriminant is the one the table gives its variant.
pub proof fn lemma_network_to_security_round_trip(e: NetworkToSecurityEvent)
    requires
        fields_fit(e@.1),
    ensures
        kinds_for(Family::NetworkToSecurity, e@.0) == Some(kinds_of(e@.1)),
        decode_event_spec(Family::NetworkToSecurity, enc_event(e@.0, e@.1))
            == Result::<EventModel, DecodeError>::Ok(e@),
{
    match e {
        NetworkToSecurityEvent::MlsKeyPackage(r) => {
            assert(kinds_of(r@) =~= kinds_ubb());
        },
        NetworkToSecurityEvent::MlsAddKeyPackage(r) => {
            assert(kinds_of(r@) =~= kinds_ub());
        },
        NetworkToSecurityEvent::MlsWelcome(r) => {
            assert(kinds_of(r@) =~= kinds_ub());
        },
        NetworkToSecurityEvent::MlsCommit(r) => {
            assert(kinds_of(r@) =~= kinds_ub());
        },
        NetworkToSecurityEvent::EncryptedAsciiMessage(r) => {
            assert(kinds_of(r@) =~= kinds_uub());
        },
    }
    lemma_event_round_trip(Family::NetworkToSecurity, e@.0, e@.1);
}

/// Events from the security process to the network process.
#[derive(Debug, Clone, PartialEq, Eq)]
pub enum SecurityToNetworkEvent {
    JoinRequest(MlsAddKeyPackage),
    MlsWelcome(MlsWelcome),
    MlsCommitOut(MlsCommitOut),
    EncryptedAsciiMessage(EncryptedAsciiMessageOut),
    WatchDevices(WatchDevices),
    UnwatchDevices(UnwatchDevices),
    MlsSignatureHash(MlsSignatureHash),
    DeviceInfo(DeviceInfo),
}

impl View for SecurityToNetworkEvent {
    /// The discriminant and the record's fields.
    type V = EventModel;

    open spec fn view(&self) -> EventModel {
        match self {
            SecurityToNetworkEvent::JoinRequest(r) => (7, r@),
            SecurityToNetworkEvent::MlsWelcome(r) => (8, r@),
            SecurityToNetworkEvent::MlsCommitOut(r) => (9, r@),
            SecurityToNetworkEvent::EncryptedAsciiMessage(r) => (1, r@),
            SecurityToNetworkEvent::WatchDevices(r) => (3, r@),
            SecurityToNetworkEvent::UnwatchDevices(r) => (4, r@),
            SecurityToNetworkEvent::MlsSignatureHash(r) => (5, r@),
            SecurityToNetworkEvent::DeviceInfo(r) => (10, r@),
        }
    }
}

impl SecurityToNetworkEvent {
    /// The payload: the discriminant, then the record's fields. Fails where a
    /// length does not fit its prefix.
    pub fn encode(&self) -> (r: Result<Message, EncodeError>)
        ensures
            match r {
                Ok(m) => fields_fit(self@.1) && m@ == enc_event(self@.0, self@.1),
                Err(_) => !fields_fit(self@.1),
            },
    {
        let mut out: Vec<u8> = Vec::new();
        match self {
            SecurityToNetworkEvent::JoinRequest(r) => {
                if !r.fits() {
                    return Err(EncodeError::VectorTooLong);
                }
                push_u32_be(&mut out, 7);
                r.encode_into(&mut out);
            },
            SecurityToNetworkEvent::MlsWelcome(r) => {
                if !r.fits() {
                    return Err(EncodeError::VectorTooLong);
                }
                push_u32_be(&mut out, 8);
                r.encode_into(&mut out);
            },
            SecurityToNetworkEvent::MlsCommitOut(r) => {
                if !r.fits() {
                    return Err(EncodeError::VectorTooLong);
                }
                push_u32_be(&mut out, 9);
                r.encode_into(&mut out);
            },
            SecurityToNetworkEvent::EncryptedAsciiMessage(r) => {
                if !r.fits() {
                    return Err(EncodeError::VectorTooLong);
                }
                push_u32_be(&mut out, 1);
                r.encode_into(&mut out);
            },
            SecurityToNetworkEvent::WatchDevices(r) => {
                if !r.fits() {
                    return Err(EncodeError::VectorTooLong);
                }
                push_u32_be(&mut out, 3);
                r.encode_into(&mut out);
            },
            SecurityToNetworkEvent::UnwatchDevices(r) => {
                if !r.fits() {
                    return Err(EncodeError::VectorTooLong);
                }
                push_u32_be(&mut out, 4);
                r.encode_into(&mut out);
            },
            SecurityToNetworkEvent::MlsSignatureHash(r) => {
                if !r.fits() {
                    return Err(EncodeError::VectorTooLong);
                }
                push_u32_be(&mut out, 5);
                r.encode_into(&mut out);
            },
            SecurityToNetworkEvent::DeviceInfo(r) => {
                if !r.fits() {
                    return Err(EncodeError::VectorTooLong);
                }
                push_u32_be(&mut out, 10);
                r.encode_into(&mut out);
            },
        }
        Ok(Message::from(out))
    }

    /// The event that a payload carries.
    pub fn decode(msg: &Message) -> (r: Result<SecurityToNetworkEvent, DecodeError>)
        ensures
            decode_event_spec(Family::SecurityToNetwork, msg@) == match r {
                Ok(e) => Result::<EventModel, DecodeError>::Ok(e@),
                Err(k) => Result::<EventModel, DecodeError>::Err(k),
            },
    {
        let s = msg.data().as_slice();
        if s.len() < 4 {
            return Err(DecodeError::Truncated);
        }
        let tag = read_u32_be(s, 0);
        if tag == 7 {
            match MlsAddKeyPackage::decode_at(s, 4) {
                Some((r, _)) => Ok(SecurityToNetworkEvent::JoinRequest(r)),
                None => Err(DecodeError::Truncated),
            }
        } else if tag == 8 {
            match MlsWelcome::decode_at(s, 4) {
                Some((r, _)) => Ok(SecurityToNetworkEvent::MlsWelcome(r)),
                None => Err(DecodeError::Truncated),
            }
        } else if tag == 9 {
            match MlsCommitOut::decode_at(s, 4) {
                Some((r, _)) => Ok(SecurityToNetworkEvent::MlsCommitOut(r)),
                None => Err(DecodeError::Truncated),
            }
        } else if tag == 1 {
            match EncryptedAsciiMessageOut::decode_at(s, 4) {
                Some((r, _)) => Ok(SecurityToNetworkEvent::EncryptedAsciiMessage(r)),
                None => Err(DecodeError::Truncated),
            }
        } else if tag == 3 {
            match WatchDevices::decode_at(s, 4) {
                Some((r, _)) => Ok(SecurityToNetworkEvent::WatchDevices(r)),
                None => Err(DecodeError::Truncated),
            }
        } else if tag == 4 {
            match UnwatchDevices::decode_at(s, 4) {
                Some((r, _)) => Ok(SecurityToNetworkEvent::UnwatchDevices(r)),
                None => Err(DecodeError::Truncated),
            }
        } else if tag == 5 {
            match MlsSignatureHash::decode_at(s, 4) {
                Some((r, _)) => Ok(SecurityToNetworkEvent::MlsSignatureHash(r)),
                None => Err(DecodeError::Truncated),
            }
        } else if tag == 10 {
            match DeviceInfo::decode_at(s, 4) {
                Some((r, _)) => Ok(SecurityToNetworkEvent::DeviceInfo(r)),
                None => Err(DecodeError::Truncated),
            }
        } else {
            Err(DecodeError::UnknownDiscriminant)
        }
    }
}

/// Every event whose lengths fit decodes from its own encoding to itself,
/// and its discriminant is the one the table gives its variant.
pub proof fn lemma_security_to_network_round_trip(e: SecurityToNetworkEvent)
    requires
        fields_fit(e@.1),
    ensures
        kinds_for(Family::SecurityToNetwork, e@.0) == Some(kinds_of(e@.1)),
        decode_event_spec(Family::SecurityToNetwork, enc_event(e@.0, e@.1))
            == Result::<EventModel, DecodeError>::Ok(e@),
{
    match e {
        SecurityToNetworkEvent::JoinRequest(r) => {
            assert(kinds_of(r@) =~= kinds_ub());
        },
        SecurityToNetworkEvent::MlsWelcome(r) => {
            assert(kinds_of(r@) =~= kinds_ub());
        },
        SecurityToNetworkEvent::MlsCommitOut(r) => {
            assert(kinds_of(r@) =~= kinds_ub());
        },
        SecurityToNetworkEvent::EncryptedAsciiMessage(r) => {
            assert(kinds_of(r@) =~= kinds_uub());
        },
        SecurityToNetworkEvent::WatchDevices(r) => {
            assert(kinds_of(r@) =~= kinds_uui());
        },
        SecurityToNetworkEvent::UnwatchDevices(r) => {
            assert(kinds_of(r@) =~= kinds_uui());
        },
        SecurityToNetworkEvent::MlsSignatureHash(r) => {
            assert(kinds_of(r@) =~= kinds_ub());
        },
        SecurityToNetworkEvent::DeviceInfo(r) => {
            assert(kinds_of(r@) =~= kinds_uh());
        },
    }
    lemma_event_round_trip(Family::SecurityToNetwork, e@.0, e@.1);
}

/// Events from the interface process to the security process.
#[derive(Debug, Clone, PartialEq, Eq)]
pub enum UiToSecurityEvent {
    AsciiMessage(AsciiMessage),
    MlsSignatureHash(MlsSignatureHash),
    WatchChannel(WatchChannel),
    UnwatchChannel(UnwatchChannel),
}

impl View for UiToSecurityEvent {
    /// The discriminant and the record's fields.
    type V = EventModel;

    open spec fn view(&self) -> EventModel {
        match self {
            UiToSecurityEvent::AsciiMessage(r) => (1, r@),
            UiToSecurityEvent::MlsSignatureHash(r) => (5, r@),
            UiToSecurityEvent::WatchChannel(r) => (11, r@),
            UiToSecurityEvent::UnwatchChannel(r) => (12, r@),
        }
    }
}

impl UiToSecurityEvent {
    /// The payload: the discriminant, then the record's fields. Fails where a
    /// length does not fit its prefix.
    pub fn encode(&self) -> (r: Result<Message, EncodeError>)
        ensures
            match r {
                Ok(m) => fields_fit(self@.1) && m@ == enc_event(self@.0, self@.1),
                Err(_) => !fields_fit(self@.1),
            },
    {
        let mut out: Vec<u8> = Vec::new();
        match self {
            UiToSecurityEvent::AsciiMessage(r) => {
                if !r.fits() {
                    return Err(EncodeError::VectorTooLong);
                }
                push_u32_be(&mut out, 1);
                r.encode_into(&mut out);
            },
            UiToSecurityEvent::MlsSignatureHash(r) => {
                if !r.fits() {
                    return Err(EncodeError::VectorTooLong);
                }
                push_u32_be(&mut out, 5);
                r.encode_into(&mut out);
            },
            UiToSecurityEvent::WatchChannel(r) => {
                if !r.fits() {
                    return Err(EncodeError::VectorTooLong);
                }
                push_u32_be(&mut out, 11);
                r.encode_into(&mut out);
            },
            UiToSecurityEvent::UnwatchChannel(r) => {
                if !r.fits() {
                    return Err(EncodeError::VectorTooLong);
                }
                push_u32_be(&mut out, 12);
                r.encode_into(&mut out);
            },
        }
        Ok(Message::from(out))
    }

    /// The event that a payload carries.
    pub fn decode(msg: &Message) -> (r: Result<UiToSecurityEvent, DecodeError>)
        ensures
            decode_event_spec(Family::UiToSecurity, msg@) == match r {
                Ok(e) => Result::<EventModel, DecodeError>::Ok(e@),
                Err(k) => Result::<EventModel, DecodeError>::Err(k),
            },
    {
        let s = msg.data().as_slice();
        if s.len() < 4 {
            return Err(DecodeError::Truncated);
        }
        let tag = read_u32_be(s, 0);
        if tag == 1 {
            match AsciiMessage::decode_at(s, 4) {
                Some((r, _)) => Ok(UiToSecurityEvent::AsciiMessage(r)),
                None => Err(DecodeError::Truncated),
            }
        } else if tag == 5 {
            match MlsSignatureHash::decode_at(s, 4) {
                Some((r, _)) => Ok(UiToSecurityEvent::MlsSignatureHash(r)),
                None => Err(DecodeError::Truncated),
            }
        } else if tag == 11 {
            match WatchChannel::decode_at(s, 4) {
                Some((r, _)) => Ok(UiToSecurityEvent::WatchChannel(r)),
                None => Err(DecodeError::Truncated),
            }
        } else if tag == 12 {
            match UnwatchChannel::decode_at(s, 4) {
                Some((r, _)) => Ok(UiToSecurityEvent::UnwatchChannel(r)),
                None => Err(DecodeError::Truncated),
            }
        } else {
            Err(DecodeError::UnknownDiscriminant)
        }
    }
}

/// Every event whose lengths fit decodes from its own encoding to itself,
/// and its discriminant is the one the table gives its variant.
pub proof fn lemma_ui_to_security_round_trip(e: UiToSecurityEvent)
    requires
        fields_fit(e@.1),
    ensures
        kinds_for(Family::UiToSecurity, e@.0) == Some(kinds_of(e@.1)),
        decode_event_spec(Family::UiToSecurity, enc_event(e@.0, e@.1))
            == Result::<EventModel, DecodeError>::Ok(e@),
{
    match e {
        UiToSecurityEvent::AsciiMessage(r) => {
            assert(kinds_of(r@) =~= kinds_uuhb());
        },
        UiToSecurityEvent::MlsSignatureHash(r) => {
            assert(kinds_of(r@) =~= kinds_ub());
        },
        UiToSecurityEvent::WatchChannel(r) => {
            assert(kinds_of(r@) =~= kinds_uu());
        },
        UiToSecurityEvent::UnwatchChannel(r) => {
            assert(kinds_of(r@) =~= kinds_uu());
        },
    }
    lemma_event_round_trip(Family::UiToSecurity, e@.0, e@.1);
}

/// Events from the security process to the interface process.
#[derive(Debug, Clone, PartialEq, Eq)]
pub enum SecurityToUiEvent {
    AsciiMessage(AsciiMessage),
}

impl View for SecurityToUiEvent {
    /// The discriminant and the record's fields.
    type V = EventModel;

    open spec fn view(&self) -> EventModel {
        match self {
            SecurityToUiEvent::AsciiMessage(r) => (2, r@),
        }
    }
}

impl SecurityToUiEvent {
    /// The payload: the discriminant, then the record's fields. Fails where a
    /// length does not fit its prefix.
    pub fn encode(&self) -> (r: Result<Message, EncodeError>)
        ensures
            match r {
                Ok(m) => fields_fit(self@.1) && m@ == enc_event(self@.0, self@.1),
                Err(_) => !fields_fit(self@.1),
            },
    {
        let mut out: Vec<u8> = Vec::new();
        match self {
            SecurityToUiEvent::AsciiMessage(r) => {
                if !r.fits() {
                    return Err(EncodeError::VectorTooLong);
                }
                push_u32_be(&mut out, 2);
                r.encode_into(&mut out);
            },
        }
        Ok(Message::from(out))
    }

    /// The event that a payload carries.
    pub fn decode(msg: &Message) -> (r: Result<SecurityToUiEvent, DecodeError>)
        ensures
            decode_event_spec(Family::SecurityToUi, msg@) == match r {
                Ok(e) => Result::<EventModel, DecodeError>::Ok(e@),
                Err(k) => Result::<EventModel, DecodeError>::Err(k),
            },
    {
        let s = msg.data().as_slice();
        if s.len() < 4 {
            return Err(DecodeError::Truncated);
        }
        let tag = read_u32_be(s, 0);
        if tag == 2 {
            match AsciiMessage::decode_at(s, 4) {
                Some((r, _)) => Ok(SecurityToUiEvent::AsciiMessage(r)),
                None => Err(DecodeError::Truncated),
            }
        } else {
            Err(DecodeError::UnknownDiscriminant)
        }
    }
}

/// Every event whose lengths fit decodes from its own encoding to itself,
/// and its discriminant is the one the table gives its variant.
pub proof fn lemma_security_to_ui_round_trip(e: SecurityToUiEvent)
    requires
        fields_fit(e@.1),
    ensures
        kinds_for(Family::SecurityToUi, e@.0) == Some(kinds_of(e@.1)),
        decode_event_spec(Family::SecurityToUi, enc_event(e@.0, e@.1))
            == Result::<EventModel, DecodeError>::Ok(e@),
{
    match e {
        SecurityToUiEvent::AsciiMessage(r) => {
            assert(kinds_of(r@) =~= kinds_uuhb());
        },
    }
    lemma_event_round_trip(Family::SecurityToUi, e@.0, e@.1);
}
} // verus!
