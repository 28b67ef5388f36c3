//! The canonical binary codec for the tagged program data types.
//!
//! Every tagged union is encoded as one tag byte — the small integer
//! discriminant of the active variant — followed by the variant's payload in
//! declared field order, with no padding. Decoding reads the tag byte and
//! dispatches on it; a tag outside the known range, a truncated payload, or
//! an invalid name fails with `DecodeError` — the format is closed, and
//! unknown tags are not accepted. Decoding an encoding returns the encoded
//! value exactly.

use vstd::prelude::*;

use crate::command::{AccessV, CallOperatorV, GetV, LiteralValueV, OperandV, RegisterV};
use crate::ident::{spec_ident_wf, Identifier, Locator, LocatorV, ProgramId, ProgramIdV};
use crate::types::{EntryType, EntryTypeV, LiteralKind, PlaintextType, PlaintextTypeV};
use crate::VmError;

verus! {

/// Largest number of bytes an encoded string literal may hold.
pub const MAX_STRING_BYTES: u64 = 1020;

/// Appends `data` to `out`.
fn append_bytes(out: &mut Vec<u8>, data: &Vec<u8>)
    ensures
        final(out)@ == old(out)@ + data@,
{
    let n = data.len();
    let mut i: usize = 0;
    while i < n
        invariant
            0 <= i <= n,
            n == data@.len(),
            out@ == old(out)@ + data@.subrange(0, i as int),
        decreases n - i,
    {
        out.push(data[i]);
        proof {
            assert(out@ =~= old(out)@ + data@.subrange(0, i + 1 as int));
        }
        i = i + 1;
    }
    proof {
        assert(out@ =~= old(out)@ + data@);
    }
}

/// Splitting a concatenation out of a byte window: if the window at `pos`
/// holds `a + b`, its front holds `a` and its back holds `b`.
proof fn lemma_split_concat(bytes: Seq<u8>, pos: int, a: Seq<u8>, b: Seq<u8>)
    requires
        0 <= pos,
        pos + a.len() + b.len() <= bytes.len(),
        bytes.subrange(pos, pos + a.len() + b.len()) == a + b,
    ensures
        bytes.subrange(pos, pos + a.len()) == a,
        bytes.subrange(pos + a.len(), pos + a.len() + b.len()) == b,
{
    let w = bytes.subrange(pos, pos + a.len() + b.len());
    assert forall|i: int| 0 <= i < a.len() implies bytes.subrange(pos, pos + a.len() as int)[i]
        == a[i] by {
        assert(w[i] == (a + b)[i]);
    }
    assert(bytes.subrange(pos, pos + a.len()) =~= a);
    assert forall|i: int| 0 <= i < b.len() implies bytes.subrange(
        pos + a.len(),
        pos + a.len() + b.len(),
    )[i] == b[i] by {
        assert(w[a.len() + i] == (a + b)[a.len() + i]);
    }
    assert(bytes.subrange(pos + a.len(), pos + a.len() + b.len()) =~= b);
}

// ---------------------------------------------------------------------------
// Identifiers
// ---------------------------------------------------------------------------

/// The encoding of an identifier: one length byte, then the name's bytes.
pub open spec fn spec_enc_ident(name: Seq<u8>) -> Seq<u8> {
    seq![name.len() as u8] + name
}

/// The identifier decoded at `pos`, with the position after it: the length
/// byte must announce a valid identifier length, the bytes must be present,
/// and the name must be well-formed.
pub open spec fn spec_dec_ident(bytes: Seq<u8>, pos: int) -> Option<(Seq<u8>, int)> {
    if 0 <= pos < bytes.len() {
        let n = bytes[pos] as int;
        if 1 <= n <= crate::ident::MAX_IDENTIFIER_BYTES && pos + 1 + n <= bytes.len() {
            let name = bytes.subrange(pos + 1, pos + 1 + n);
            if spec_ident_wf(name) {
                Some((name, pos + 1 + n))
            } else {
                None
            }
        } else {
            None
        }
    } else {
        None
    }
}

/// Writes an identifier.
fn encode_ident(id: &Identifier, out: &mut Vec<u8>)
    requires
        id.wf(),
    ensures
        final(out)@ == old(out)@ + spec_enc_ident(id@),
{
    out.push(id.bytes.len() as u8);
    append_bytes(out, &id.bytes);
    proof {
        assert(out@ =~= old(out)@ + spec_enc_ident(id@));
    }
}

/// Reads an identifier.
fn decode_ident(bytes: &[u8], pos: usize) -> (r: Result<(Identifier, usize), VmError>)
    ensures
        match r {
            Ok((id, n)) => {
                &&& spec_dec_ident(bytes@, pos as int) == Some((id@, n as int))
                &&& id.wf()
                &&& pos < n <= bytes@.len()
            },
            Err(e) => e == VmError::DecodeError && spec_dec_ident(bytes@, pos as int) is None,
        },
{
    if pos >= bytes.len() {
        return Err(VmError::DecodeError);
    }
    let n = bytes[pos] as usize;
    if n < 1 || n > crate::ident::MAX_IDENTIFIER_BYTES {
        return Err(VmError::DecodeError);
    }
    if n > bytes.len() - pos - 1 {
        return Err(VmError::DecodeError);
    }
    let name = vstd::slice::slice_to_vec(vstd::slice::slice_subrange(bytes, pos + 1, pos + 1 + n));
    match Identifier::from_bytes(name) {
        Ok(id) => Ok((id, pos + 1 + n)),
        Err(_) => Err(VmError::DecodeError),
    }
}

/// Decoding inverts encoding for identifiers.
pub proof fn lemma_round_trip_ident(name: Seq<u8>, bytes: Seq<u8>, pos: int)
    requires
        spec_ident_wf(name),
        0 <= pos,
        pos + spec_enc_ident(name).len() <= bytes.len(),
        bytes.subrange(pos, pos + spec_enc_ident(name).len()) == spec_enc_ident(name),
    ensures
        spec_dec_ident(bytes, pos) == Some((name, pos + spec_enc_ident(name).len())),
{
    let e = spec_enc_ident(name);
    lemma_split_concat(bytes, pos, seq![name.len() as u8], name);
    assert(bytes.subrange(pos, pos + 1)[0] == bytes[pos]);
    assert(bytes[pos] == name.len() as u8);
    assert(bytes.subrange(pos + 1, pos + 1 + name.len()) == name);
}

// ---------------------------------------------------------------------------
// Literal kinds
// ---------------------------------------------------------------------------

/// The tag byte of each literal kind.
pub open spec fn spec_literal_kind_tag(k: LiteralKind) -> u8 {
    match k {
        LiteralKind::Address => 0,
        LiteralKind::Boolean => 1,
        LiteralKind::Field => 2,
        LiteralKind::Group => 3,
        LiteralKind::I8 => 4,
        LiteralKind::I16 => 5,
        LiteralKind::I32 => 6,
        LiteralKind::I64 => 7,
        LiteralKind::I128 => 8,
        LiteralKind::U8 => 9,
        LiteralKind::U16 => 10,
        LiteralKind::U32 => 11,
        LiteralKind::U64 => 12,
        LiteralKind::U128 => 13,
        LiteralKind::Scalar => 14,
        LiteralKind::Signature => 15,
        LiteralKind::String => 16,
    }
}

/// The literal kind of a tag byte.
pub open spec fn spec_literal_kind_of_tag(t: u8) -> Option<LiteralKind> {
    if t == 0 {
        Some(LiteralKind::Address)
    } else if t == 1 {
        Some(LiteralKind::Boolean)
    } else if t == 2 {
        Some(LiteralKind::Field)
    } else if t == 3 {
        Some(LiteralKind::Group)
    } else if t == 4 {
        Some(LiteralKind::I8)
    } else if t == 5 {
        Some(LiteralKind::I16)
    } else if t == 6 {
        Some(LiteralKind::I32)
    } else if t == 7 {
        Some(LiteralKind::I64)
    } else if t == 8 {
        Some(LiteralKind::I128)
    } else if t == 9 {
        Some(LiteralKind::U8)
    } else if t == 10 {
        Some(LiteralKind::U16)
    } else if t == 11 {
        Some(LiteralKind::U32)
    } else if t == 12 {
        Some(LiteralKind::U64)
    } else if t == 13 {
        Some(LiteralKind::U128)
    } else if t == 14 {
        Some(LiteralKind::Scalar)
    } else if t == 15 {
        Some(LiteralKind::Signature)
    } else if t == 16 {
        Some(LiteralKind::String)
    } else {
        None
    }
}

/// The tags invert.
pub proof fn lemma_literal_kind_tag(k: LiteralKind)
    ensures
        spec_literal_kind_of_tag(spec_literal_kind_tag(k)) == Some(k),
{
}

/// Reads a literal kind tag byte.
fn decode_literal_kind(bytes: &[u8], pos: usize) -> (r: Result<(LiteralKind, usize), VmError>)
    ensures
        match r {
            Ok((k, n)) => {
                &&& pos < bytes@.len()
                &&& spec_literal_kind_of_tag(bytes@[pos as int]) == Some(k)
                &&& n == pos + 1
            },
            Err(e) => {
                &&& e == VmError::DecodeError
                &&& (pos >= bytes@.len() || (pos < bytes@.len() && spec_literal_kind_of_tag(
                    bytes@[pos as int],
                ) is None))
            },
        },
{
    if pos >= bytes.len() {
        return Err(VmError::DecodeError);
    }
    let t = bytes[pos];
    let k = match t {
        0 => LiteralKind::Address,
        1 => LiteralKind::Boolean,
        2 => LiteralKind::Field,
        3 => LiteralKind::Group,
        4 => LiteralKind::I8,
        5 => LiteralKind::I16,
        6 => LiteralKind::I32,
        7 => LiteralKind::I64,
        8 => LiteralKind::I128,
        9 => LiteralKind::U8,
        10 => LiteralKind::U16,
        11 => LiteralKind::U32,
        12 => LiteralKind::U64,
        13 => LiteralKind::U128,
        14 => LiteralKind::Scalar,
        15 => LiteralKind::Signature,
        16 => LiteralKind::String,
        _ => {
            return Err(VmError::DecodeError);
        },
    };
    Ok((k, pos + 1))
}

// ---------------------------------------------------------------------------
// Plaintext types
// ---------------------------------------------------------------------------

/// Well-formedness of a plaintext type view: names are valid identifiers.
pub open spec fn spec_plaintext_type_wf(t: PlaintextTypeV) -> bool
    decreases t,
{
    match t {
        PlaintextTypeV::Literal(_) => true,
        PlaintextTypeV::Struct(name) => spec_ident_wf(name),
        PlaintextTypeV::Array(elem, _) => spec_plaintext_type_wf(*elem),
    }
}

/// The encoding of a plaintext type: tag 0 for a literal kind, tag 1 for a
/// struct name, tag 2 for an array (element type, then length).
pub open spec fn spec_enc_plaintext_type(t: PlaintextTypeV) -> Seq<u8>
    decreases t,
{
    match t {
        PlaintextTypeV::Literal(k) => seq![0u8] + seq![spec_literal_kind_tag(k)],
        PlaintextTypeV::Struct(name) => seq![1u8] + spec_enc_ident(name),
        PlaintextTypeV::Array(elem, len) => seq![2u8] + spec_enc_plaintext_type(*elem)
            + vstd::bytes::spec_u32_to_le_bytes(len),
    }
}

/// The plaintext type decoded at `pos`, with the position after it.
pub open spec fn spec_dec_plaintext_type(bytes: Seq<u8>, pos: int) -> Option<(PlaintextTypeV, int)>
    decreases bytes.len() - pos,
{
    if 0 <= pos < bytes.len() {
        let tag = bytes[pos];
        if tag == 0 {
            if pos + 1 < bytes.len() {
                match spec_literal_kind_of_tag(bytes[pos + 1]) {
                    Some(k) => Some((PlaintextTypeV::Literal(k), pos + 2)),
                    None => None,
                }
            } else {
                None
            }
        } else if tag == 1 {
            match spec_dec_ident(bytes, pos + 1) {
                Some((name, n)) => Some((PlaintextTypeV::Struct(name), n)),
                None => None,
            }
        } else if tag == 2 {
            match spec_dec_plaintext_type(bytes, pos + 1) {
                Some((elem, n)) => {
                    if n + 4 <= bytes.len() {
                        Some(
                            (
                                PlaintextTypeV::Array(
                                    Box::new(elem),
                                    vstd::bytes::spec_u32_from_le_bytes(
                                        bytes.subrange(n, n + 4),
                                    ),
                                ),
                                n + 4,
                            ),
                        )
                    } else {
                        None
                    }
                },
                None => None,
            }
        } else {
            None
        }
    } else {
        None
    }
}

/// Writes a plaintext type.
fn encode_plaintext_type(t: &PlaintextType, out: &mut Vec<u8>)
    requires
        t.wf(),
    ensures
        final(out)@ == old(out)@ + spec_enc_plaintext_type(t@),
    decreases *t,
{
    match t {
        PlaintextType::Literal(k) => {
            out.push(0);
            out.push(crate::codec::literal_kind_tag(*k));
            proof {
                assert(out@ =~= old(out)@ + spec_enc_plaintext_type(t@));
            }
        },
        PlaintextType::Struct(name) => {
            out.push(1);
            encode_ident(name, out);
            proof {
                assert(out@ =~= old(out)@ + spec_enc_plaintext_type(t@));
            }
        },
        PlaintextType::Array(elem, len) => {
            out.push(2);
            encode_plaintext_type(elem, out);
            let le = vstd::bytes::u32_to_le_bytes(*len);
            append_bytes(out, &le);
            proof {
                assert(out@ =~= old(out)@ + spec_enc_plaintext_type(t@));
            }
        },
    }
}

/// The tag byte of a literal kind.
fn literal_kind_tag(k: LiteralKind) -> (r: u8)
    ensures
        r == spec_literal_kind_tag(k),
{
    match k {
        LiteralKind::Address => 0,
        LiteralKind::Boolean => 1,
        LiteralKind::Field => 2,
        LiteralKind::Group => 3,
        LiteralKind::I8 => 4,
        LiteralKind::I16 => 5,
        LiteralKind::I32 => 6,
        LiteralKind::I64 => 7,
        LiteralKind::I128 => 8,
        LiteralKind::U8 => 9,
        LiteralKind::U16 => 10,
        LiteralKind::U32 => 11,
        LiteralKind::U64 => 12,
        LiteralKind::U128 => 13,
        LiteralKind::Scalar => 14,
        LiteralKind::Signature => 15,
        LiteralKind::String => 16,
    }
}

/// Reads a plaintext type.
fn decode_plaintext_type(bytes: &[u8], pos: usize) -> (r: Result<(PlaintextType, usize), VmError>)
    ensures
        match r {
            Ok((t, n)) => {
                &&& spec_dec_plaintext_type(bytes@, pos as int) == Some((t@, n as int))
                &&& t.wf()
                &&& pos < n <= bytes@.len()
            },
            Err(e) => e == VmError::DecodeError && spec_dec_plaintext_type(
                bytes@,
                pos as int,
            ) is None,
        },
    decreases bytes@.len() - pos,
{
    if pos >= bytes.len() {
        return Err(VmError::DecodeError);
    }
    let tag = bytes[pos];
    if tag == 0 {
        match decode_literal_kind(bytes, pos + 1) {
            Ok((k, n)) => Ok((PlaintextType::Literal(k), n)),
            Err(e) => Err(e),
        }
    } else if tag == 1 {
        match decode_ident(bytes, pos + 1) {
            Ok((name, n)) => Ok((PlaintextType::Struct(name), n)),
            Err(e) => Err(e),
        }
    } else if tag == 2 {
        let (elem, n) = match decode_plaintext_type(bytes, pos + 1) {
            Ok(r) => r,
            Err(e) => {
                return Err(e);
            },
        };
        if bytes.len() - n < 4 {
            return Err(VmError::DecodeError);
        }
        let len = vstd::bytes::u32_from_le_bytes(vstd::slice::slice_subrange(bytes, n, n + 4));
        Ok((PlaintextType::Array(Box::new(elem), len), n + 4))
    } else {
        Err(VmError::DecodeError)
    }
}

/// Decoding inverts encoding for plaintext types.
pub proof fn lemma_round_trip_plaintext_type(t: PlaintextTypeV, bytes: Seq<u8>, pos: int)
    requires
        spec_plaintext_type_wf(t),
        0 <= pos,
        pos + spec_enc_plaintext_type(t).len() <= bytes.len(),
        bytes.subrange(pos, pos + spec_enc_plaintext_type(t).len()) == spec_enc_plaintext_type(t),
    ensures
        spec_dec_plaintext_type(bytes, pos) == Some((t, pos + spec_enc_plaintext_type(t).len())),
    decreases t,
{
    let e = spec_enc_plaintext_type(t);
    match t {
        PlaintextTypeV::Literal(k) => {
            lemma_split_concat(bytes, pos, seq![0u8], seq![spec_literal_kind_tag(k)]);
            assert(bytes.subrange(pos, pos + 1)[0] == bytes[pos]);
            assert(bytes[pos] == 0);
            assert(bytes.subrange(pos + 1, pos + 2)[0] == bytes[pos + 1]);
            assert(bytes[pos + 1] == spec_literal_kind_tag(k));
        },
        PlaintextTypeV::Struct(name) => {
            lemma_split_concat(bytes, pos, seq![1u8], spec_enc_ident(name));
            assert(bytes.subrange(pos, pos + 1)[0] == bytes[pos]);
            assert(bytes[pos] == 1);
            lemma_round_trip_ident(name, bytes, pos + 1);
        },
        PlaintextTypeV::Array(elem, len) => {
            let ee = spec_enc_plaintext_type(*elem);
            let el = vstd::bytes::spec_u32_to_le_bytes(len);
            vstd::bytes::lemma_auto_spec_u32_to_from_le_bytes();
            assert(e == (seq![2u8] + ee) + el);
            lemma_split_concat(bytes, pos, seq![2u8] + ee, el);
            assert((seq![2u8] + ee) + el =~= seq![2u8] + (ee + el));
            lemma_split_concat(bytes, pos, seq![2u8], ee + el);
            lemma_split_concat(bytes, pos + 1, ee, el);
            assert(bytes.subrange(pos, pos + 1)[0] == bytes[pos]);
            assert(bytes[pos] == 2);
            lemma_round_trip_plaintext_type(*elem, bytes, pos + 1);
            let n = pos + 1 + ee.len();
            assert(bytes.subrange(n, n + 4) == el);
        },
    }
}

// ---------------------------------------------------------------------------
// Entry types
// ---------------------------------------------------------------------------

/// Well-formedness of an entry type view.
pub open spec fn spec_entry_type_wf(e: EntryTypeV) -> bool {
    match e {
        EntryTypeV::Constant(t) => spec_plaintext_type_wf(t),
        EntryTypeV::Public(t) => spec_plaintext_type_wf(t),
        EntryTypeV::Private(t) => spec_plaintext_type_wf(t),
    }
}

/// The encoding of an entry type: the visibility tag, then the plaintext
/// type.
pub open spec fn spec_enc_entry_type(e: EntryTypeV) -> Seq<u8> {
    match e {
        EntryTypeV::Constant(t) => seq![0u8] + spec_enc_plaintext_type(t),
        EntryTypeV::Public(t) => seq![1u8] + spec_enc_plaintext_type(t),
        EntryTypeV::Private(t) => seq![2u8] + spec_enc_plaintext_type(t),
    }
}

/// The entry type decoded at `pos`, with the position after it.
pub open spec fn spec_dec_entry_type(bytes: Seq<u8>, pos: int) -> Option<(EntryTypeV, int)> {
    if 0 <= pos < bytes.len() {
        let tag = bytes[pos];
        if tag == 0 {
            match spec_dec_plaintext_type(bytes, pos + 1) {
                Some((t, n)) => Some((EntryTypeV::Constant(t), n)),
                None => None,
            }
        } else if tag == 1 {
            match spec_dec_plaintext_type(bytes, pos + 1) {
                Some((t, n)) => Some((EntryTypeV::Public(t), n)),
                None => None,
            }
        } else if tag == 2 {
            match spec_dec_plaintext_type(bytes, pos + 1) {
                Some((t, n)) => Some((EntryTypeV::Private(t), n)),
                None => None,
            }
        } else {
            None
        }
    } else {
        None
    }
}

impl EntryType {
    /// Writes the entry type to the buffer: one tag byte for the
    /// visibility variant, then the plaintext type's encoding.
    pub fn write_le(&self, writer: &mut Vec<u8>)
        requires
            self.wf(),
        ensures
            final(writer)@ == old(writer)@ + spec_enc_entry_type(self@),
    {
        match self {
            EntryType::Constant(t) => {
                writer.push(0);
                encode_plaintext_type(t, writer);
            },
            EntryType::Public(t) => {
                writer.push(1);
                encode_plaintext_type(t, writer);
            },
            EntryType::Private(t) => {
                writer.push(2);
                encode_plaintext_type(t, writer);
            },
        }
        proof {
            assert(writer@ =~= old(writer)@ + spec_enc_entry_type(self@));
        }
    }

    /// Reads an entry type from the buffer at `pos`: the visibility tag
    /// dispatches the variant, and any tag past the known range fails.
    pub fn read_le(reader: &[u8], pos: usize) -> (r: Result<(EntryType, usize), VmError>)
        ensures
            match r {
                Ok((e, n)) => {
                    &&& spec_dec_entry_type(reader@, pos as int) == Some((e@, n as int))
                    &&& e.wf()
                    &&& pos < n <= reader@.len()
                },
                Err(e) => e == VmError::DecodeError && spec_dec_entry_type(
                    reader@,
                    pos as int,
                ) is None,
            },
    {
        if pos >= reader.len() {
            return Err(VmError::DecodeError);
        }
        let variant = reader[pos];
        if variant > 2 {
            return Err(VmError::DecodeError);
        }
        let (t, n) = match decode_plaintext_type(reader, pos + 1) {
            Ok(r) => r,
            Err(e) => {
                return Err(e);
            },
        };
        if variant == 0 {
            Ok((EntryType::Constant(t), n))
        } else if variant == 1 {
            Ok((EntryType::Public(t), n))
        } else {
            Ok((EntryType::Private(t), n))
        }
    }

    /// The complete encoding of the entry type.
    pub fn to_bytes_le(&self) -> (r: Vec<u8>)
        requires
            self.wf(),
        ensures
            r@ == spec_enc_entry_type(self@),
    {
        let mut out: Vec<u8> = Vec::new();
        self.write_le(&mut out);
        out
    }

    /// Decodes an entry type from the start of the buffer.
    pub fn from_bytes_le(bytes: &[u8]) -> (r: Result<EntryType, VmError>)
        ensures
            match r {
                Ok(e) => spec_dec_entry_type(bytes@, 0) matches Some((ev, _)) && ev == e@ && e.wf(),
                Err(e) => e == VmError::DecodeError && spec_dec_entry_type(bytes@, 0) is None,
            },
    {
        match Self::read_le(bytes, 0) {
            Ok((e, _)) => Ok(e),
            Err(e) => Err(e),
        }
    }
}

// ---------------------------------------------------------------------------
// Literal values
// ---------------------------------------------------------------------------

/// The encoding of a literal value: its kind's tag byte, then its payload.
/// Every kind but a string has a fixed payload width; a string payload is
/// preceded by its two-byte length.
pub open spec fn spec_enc_literal_value(l: LiteralValueV) -> Seq<u8> {
    if l.kind is String {
        seq![spec_literal_kind_tag(l.kind)] + vstd::bytes::spec_u16_to_le_bytes(
            l.data.len() as u16,
        ) + l.data
    } else {
        seq![spec_literal_kind_tag(l.kind)] + l.data
    }
}

/// The literal value decoded at `pos`, with the position after it.
pub open spec fn spec_dec_literal_value(bytes: Seq<u8>, pos: int) -> Option<(LiteralValueV, int)> {
    if 0 <= pos < bytes.len() {
        match spec_literal_kind_of_tag(bytes[pos]) {
            None => None,
            Some(LiteralKind::String) => {
                if pos + 3 <= bytes.len() {
                    let n = vstd::bytes::spec_u16_from_le_bytes(
                        bytes.subrange(pos + 1, pos + 3),
                    ) as int;
                    if n <= MAX_STRING_BYTES && pos + 3 + n <= bytes.len() {
                        Some(
                            (
                                LiteralValueV {
                                    kind: LiteralKind::String,
                                    data: bytes.subrange(pos + 3, pos + 3 + n),
                                },
                                pos + 3 + n,
                            ),
                        )
                    } else {
                        None
                    }
                } else {
                    None
                }
            },
            Some(k) => {
                let w = crate::types::spec_literal_size(k) as int;
                if pos + 1 + w <= bytes.len() {
                    Some(
                        (
                            LiteralValueV { kind: k, data: bytes.subrange(pos + 1, pos + 1 + w) },
                            pos + 1 + w,
                        ),
                    )
                } else {
                    None
                }
            },
        }
    } else {
        None
    }
}

/// Writes a literal value.
fn encode_literal_value(l: &crate::command::LiteralValue, out: &mut Vec<u8>)
    requires
        l.wf(),
    ensures
        final(out)@ == old(out)@ + spec_enc_literal_value(l@),
{
    out.push(literal_kind_tag(l.kind));
    match l.kind {
        LiteralKind::String => {
            let le = vstd::bytes::u16_to_le_bytes(l.data.len() as u16);
            append_bytes(out, &le);
            append_bytes(out, &l.data);
        },
        _ => {
            append_bytes(out, &l.data);
        },
    }
    proof {
        assert(final(out)@ =~= old(out)@ + spec_enc_literal_value(l@));
    }
}

/// Reads a literal value.
fn decode_literal_value(bytes: &[u8], pos: usize) -> (r: Result<
    (crate::command::LiteralValue, usize),
    VmError,
>)
    ensures
        match r {
            Ok((l, n)) => {
                &&& spec_dec_literal_value(bytes@, pos as int) == Some((l@, n as int))
                &&& l.wf()
                &&& pos < n <= bytes@.len()
            },
            Err(e) => e == VmError::DecodeError && spec_dec_literal_value(
                bytes@,
                pos as int,
            ) is None,
        },
{
    let (kind, after_tag) = match decode_literal_kind(bytes, pos) {
        Ok(r) => r,
        Err(e) => {
            return Err(e);
        },
    };
    match kind {
        LiteralKind::String => {
            if bytes.len() - after_tag < 2 {
                return Err(VmError::DecodeError);
            }
            let n = vstd::bytes::u16_from_le_bytes(
                vstd::slice::slice_subrange(bytes, after_tag, after_tag + 2),
            ) as usize;
            if n as u64 > MAX_STRING_BYTES {
                return Err(VmError::DecodeError);
            }
            if n > bytes.len() - after_tag - 2 {
                return Err(VmError::DecodeError);
            }
            let data = vstd::slice::slice_to_vec(
                vstd::slice::slice_subrange(bytes, after_tag + 2, after_tag + 2 + n),
            );
            Ok(
                (
                    crate::command::LiteralValue { kind: LiteralKind::String, data },
                    after_tag + 2 + n,
                ),
            )
        },
        _ => {
            let w = crate::types::literal_size_in_bytes(kind) as usize;
            if w > bytes.len() - after_tag {
                return Err(VmError::DecodeError);
            }
            let data = vstd::slice::slice_to_vec(
                vstd::slice::slice_subrange(bytes, after_tag, after_tag + w),
            );
            Ok((crate::command::LiteralValue { kind, data }, after_tag + w))
        },
    }
}

/// Decoding inverts encoding for literal values.
pub proof fn lemma_round_trip_literal_value(l: crate::command::LiteralValueV, bytes: Seq<u8>, pos: int)
    requires
        crate::command::spec_literal_value_wf(l),
        0 <= pos,
        pos + spec_enc_literal_value(l).len() <= bytes.len(),
        bytes.subrange(pos, pos + spec_enc_literal_value(l).len()) == spec_enc_literal_value(l),
    ensures
        spec_dec_literal_value(bytes, pos) == Some(
            (l, pos + spec_enc_literal_value(l).len()),
        ),
{
    if l.kind is String {
        let tag = seq![spec_literal_kind_tag(l.kind)];
        let le = vstd::bytes::spec_u16_to_le_bytes(l.data.len() as u16);
        vstd::bytes::lemma_auto_spec_u16_to_from_le_bytes();
        assert(spec_enc_literal_value(l) == (tag + le) + l.data);
        lemma_split_concat(bytes, pos, tag + le, l.data);
        assert((tag + le) + l.data =~= tag + (le + l.data));
        lemma_split_concat(bytes, pos, tag, le + l.data);
        lemma_split_concat(bytes, pos + 1, le, l.data);
        assert(bytes.subrange(pos, pos + 1)[0] == bytes[pos]);
        assert(bytes[pos] == spec_literal_kind_tag(l.kind));
        assert(bytes.subrange(pos + 1, pos + 3) == le);
        assert(spec_dec_literal_value(bytes, pos) matches Some((lv, n)) && lv =~= l && n == pos
            + spec_enc_literal_value(l).len());
    } else {
        let tag = seq![spec_literal_kind_tag(l.kind)];
        lemma_split_concat(bytes, pos, tag, l.data);
        assert(bytes.subrange(pos, pos + 1)[0] == bytes[pos]);
        assert(bytes[pos] == spec_literal_kind_tag(l.kind));
        lemma_literal_kind_tag(l.kind);
        assert(spec_dec_literal_value(bytes, pos) matches Some((lv, n)) && lv =~= l && n == pos
            + spec_enc_literal_value(l).len());
    }
}

// ---------------------------------------------------------------------------
// Program identities and locators
// ---------------------------------------------------------------------------

/// Well-formedness of a program identity view.
pub open spec fn spec_program_id_wf(p: ProgramIdV) -> bool {
    spec_ident_wf(p.name) && spec_ident_wf(p.network)
}

/// The encoding of a program identity: its name, then its network.
pub open spec fn spec_enc_program_id(p: ProgramIdV) -> Seq<u8> {
    spec_enc_ident(p.name) + spec_enc_ident(p.network)
}

/// The program identity decoded at `pos`.
pub open spec fn spec_dec_program_id(bytes: Seq<u8>, pos: int) -> Option<(ProgramIdV, int)> {
    match spec_dec_ident(bytes, pos) {
        None => None,
        Some((name, n1)) => match spec_dec_ident(bytes, n1) {
            None => None,
            Some((network, n2)) => Some((ProgramIdV { name, network }, n2)),
        },
    }
}

/// Writes a program identity.
fn encode_program_id(p: &ProgramId, out: &mut Vec<u8>)
    requires
        p.wf(),
    ensures
        final(out)@ == old(out)@ + spec_enc_program_id(p@),
{
    encode_ident(&p.name, out);
    encode_ident(&p.network, out);
    proof {
        assert(final(out)@ =~= old(out)@ + spec_enc_program_id(p@));
    }
}

/// Reads a program identity.
fn decode_program_id(bytes: &[u8], pos: usize) -> (r: Result<(ProgramId, usize), VmError>)
    ensures
        match r {
            Ok((p, n)) => {
                &&& spec_dec_program_id(bytes@, pos as int) == Some((p@, n as int))
                &&& p.wf()
                &&& pos < n <= bytes@.len()
            },
            Err(e) => e == VmError::DecodeError && spec_dec_program_id(
                bytes@,
                pos as int,
            ) is None,
        },
{
    let (name, n1) = match decode_ident(bytes, pos) {
        Ok(r) => r,
        Err(e) => {
            return Err(e);
        },
    };
    let (network, n2) = match decode_ident(bytes, n1) {
        Ok(r) => r,
        Err(e) => {
            return Err(e);
        },
    };
    Ok((ProgramId { name, network }, n2))
}

/// Decoding inverts encoding for program identities.
pub proof fn lemma_round_trip_program_id(p: ProgramIdV, bytes: Seq<u8>, pos: int)
    requires
        spec_program_id_wf(p),
        0 <= pos,
        pos + spec_enc_program_id(p).len() <= bytes.len(),
        bytes.subrange(pos, pos + spec_enc_program_id(p).len()) == spec_enc_program_id(p),
    ensures
        spec_dec_program_id(bytes, pos) == Some((p, pos + spec_enc_program_id(p).len())),
{
    lemma_split_concat(bytes, pos, spec_enc_ident(p.name), spec_enc_ident(p.network));
    lemma_round_trip_ident(p.name, bytes, pos);
    lemma_round_trip_ident(p.network, bytes, pos + spec_enc_ident(p.name).len());
}

/// Well-formedness of a locator view.
pub open spec fn spec_locator_wf(l: LocatorV) -> bool {
    spec_program_id_wf(l.program_id) && spec_ident_wf(l.resource)
}

/// The encoding of a locator: the program identity, then the resource name.
pub open spec fn spec_enc_locator(l: LocatorV) -> Seq<u8> {
    spec_enc_program_id(l.program_id) + spec_enc_ident(l.resource)
}

/// The locator decoded at `pos`.
pub open spec fn spec_dec_locator(bytes: Seq<u8>, pos: int) -> Option<(LocatorV, int)> {
    match spec_dec_program_id(bytes, pos) {
        None => None,
        Some((program_id, n1)) => match spec_dec_ident(bytes, n1) {
            None => None,
            Some((resource, n2)) => Some((LocatorV { program_id, resource }, n2)),
        },
    }
}

/// Writes a locator.
fn encode_locator(l: &Locator, out: &mut Vec<u8>)
    requires
        l.wf(),
    ensures
        final(out)@ == old(out)@ + spec_enc_locator(l@),
{
    encode_program_id(&l.program_id, out);
    encode_ident(&l.resource, out);
    proof {
        assert(final(out)@ =~= old(out)@ + spec_enc_locator(l@));
    }
}

/// Reads a locator.
fn decode_locator(bytes: &[u8], pos: usize) -> (r: Result<(Locator, usize), VmError>)
    ensures
        match r {
            Ok((l, n)) => {
                &&& spec_dec_locator(bytes@, pos as int) == Some((l@, n as int))
                &&& l.wf()
                &&& pos < n <= bytes@.len()
            },
            Err(e) => e == VmError::DecodeError && spec_dec_locator(bytes@, pos as int) is None,
        },
{
    let (program_id, n1) = match decode_program_id(bytes, pos) {
        Ok(r) => r,
        Err(e) => {
            return Err(e);
        },
    };
    let (resource, n2) = match decode_ident(bytes, n1) {
        Ok(r) => r,
        Err(e) => {
            return Err(e);
        },
    };
    Ok((Locator { program_id, resource }, n2))
}

/// Decoding inverts encoding for locators.
pub proof fn lemma_round_trip_locator(l: LocatorV, bytes: Seq<u8>, pos: int)
    requires
        spec_locator_wf(l),
        0 <= pos,
        pos + spec_enc_locator(l).len() <= bytes.len(),
        bytes.subrange(pos, pos + spec_enc_locator(l).len()) == spec_enc_locator(l),
    ensures
        spec_dec_locator(bytes, pos) == Some((l, pos + spec_enc_locator(l).len())),
{
    lemma_split_concat(bytes, pos, spec_enc_program_id(l.program_id), spec_enc_ident(l.resource));
    lemma_round_trip_program_id(l.program_id, bytes, pos);
    lemma_round_trip_ident(l.resource, bytes, pos + spec_enc_program_id(l.program_id).len());
}

/// Decoding inverts encoding for entry types: for every well-formed entry
/// type, reading its encoding back returns the same value.
pub proof fn lemma_round_trip_entry_type(e: EntryTypeV, bytes: Seq<u8>, pos: int)
    requires
        spec_entry_type_wf(e),
        0 <= pos,
        pos + spec_enc_entry_type(e).len() <= bytes.len(),
        bytes.subrange(pos, pos + spec_enc_entry_type(e).len()) == spec_enc_entry_type(e),
    ensures
        spec_dec_entry_type(bytes, pos) == Some((e, pos + spec_enc_entry_type(e).len())),
{
    match e {
        EntryTypeV::Constant(t) => {
            lemma_split_concat(bytes, pos, seq![0u8], spec_enc_plaintext_type(t));
            assert(bytes.subrange(pos, pos + 1)[0] == bytes[pos]);
            assert(bytes[pos] == 0);
            lemma_round_trip_plaintext_type(t, bytes, pos + 1);
        },
        EntryTypeV::Public(t) => {
            lemma_split_concat(bytes, pos, seq![1u8], spec_enc_plaintext_type(t));
            assert(bytes.subrange(pos, pos + 1)[0] == bytes[pos]);
            assert(bytes[pos] == 1);
            lemma_round_trip_plaintext_type(t, bytes, pos + 1);
        },
        EntryTypeV::Private(t) => {
            lemma_split_concat(bytes, pos, seq![2u8], spec_enc_plaintext_type(t));
            assert(bytes.subrange(pos, pos + 1)[0] == bytes[pos]);
            assert(bytes[pos] == 2);
            lemma_round_trip_plaintext_type(t, bytes, pos + 1);
        },
    }
}

// ---------------------------------------------------------------------------
// Accesses and registers
// ---------------------------------------------------------------------------

/// Well-formedness of an access view.
pub open spec fn spec_access_wf(a: AccessV) -> bool {
    match a {
        AccessV::Member(n) => spec_ident_wf(n),
        AccessV::Index(_) => true,
    }
}

/// The encoding of one access: tag 0 for a member name, tag 1 for an index.
pub open spec fn spec_enc_access(a: AccessV) -> Seq<u8> {
    match a {
        AccessV::Member(n) => seq![0u8] + spec_enc_ident(n),
        AccessV::Index(i) => seq![1u8] + vstd::bytes::spec_u32_to_le_bytes(i),
    }
}

/// The access decoded at `pos`.
pub open spec fn spec_dec_access(bytes: Seq<u8>, pos: int) -> Option<(AccessV, int)> {
    if 0 <= pos < bytes.len() {
        let tag = bytes[pos];
        if tag == 0 {
            match spec_dec_ident(bytes, pos + 1) {
                Some((n, m)) => Some((AccessV::Member(n), m)),
                None => None,
            }
        } else if tag == 1 {
            if pos + 5 <= bytes.len() {
                Some(
                    (
                        AccessV::Index(
                            vstd::bytes::spec_u32_from_le_bytes(
                                bytes.subrange(pos + 1, pos + 5),
                            ),
                        ),
                        pos + 5,
                    ),
                )
            } else {
                None
            }
        } else {
            None
        }
    } else {
        None
    }
}

/// The concatenated encodings of the accesses from position `i` on.
pub open spec fn spec_enc_accesses_from(path: Seq<AccessV>, i: int) -> Seq<u8>
    decreases path.len() - i,
{
    if i < 0 || i >= path.len() {
        Seq::empty()
    } else {
        spec_enc_access(path[i]) + spec_enc_accesses_from(path, i + 1)
    }
}

/// `count` accesses decoded in sequence from `pos`.
pub open spec fn spec_dec_accesses(bytes: Seq<u8>, pos: int, count: int) -> Option<
    (Seq<AccessV>, int),
>
    decreases count,
{
    if count <= 0 {
        Some((Seq::empty(), pos))
    } else {
        match spec_dec_access(bytes, pos) {
            None => None,
            Some((a, n)) => match spec_dec_accesses(bytes, n, count - 1) {
                None => None,
                Some((rest, m)) => Some((seq![a] + rest, m)),
            },
        }
    }
}

/// Writes one access.
fn encode_access(a: &crate::command::Access, out: &mut Vec<u8>)
    requires
        a.wf(),
    ensures
        final(out)@ == old(out)@ + spec_enc_access(a@),
{
    match a {
        crate::command::Access::Member(n) => {
            out.push(0);
            encode_ident(n, out);
        },
        crate::command::Access::Index(i) => {
            out.push(1);
            let le = vstd::bytes::u32_to_le_bytes(*i);
            append_bytes(out, &le);
        },
    }
    proof {
        assert(final(out)@ =~= old(out)@ + spec_enc_access(a@));
    }
}

/// Reads one access.
fn decode_access(bytes: &[u8], pos: usize) -> (r: Result<(crate::command::Access, usize), VmError>)
    ensures
        match r {
            Ok((a, n)) => {
                &&& spec_dec_access(bytes@, pos as int) == Some((a@, n as int))
                &&& a.wf()
                &&& pos < n <= bytes@.len()
            },
            Err(e) => e == VmError::DecodeError && spec_dec_access(bytes@, pos as int) is None,
        },
{
    if pos >= bytes.len() {
        return Err(VmError::DecodeError);
    }
    let tag = bytes[pos];
    if tag == 0 {
        match decode_ident(bytes, pos + 1) {
            Ok((n, m)) => Ok((crate::command::Access::Member(n), m)),
            Err(e) => Err(e),
        }
    } else if tag == 1 {
        if bytes.len() - pos - 1 < 4 {
            return Err(VmError::DecodeError);
        }
        let i = vstd::bytes::u32_from_le_bytes(
            vstd::slice::slice_subrange(bytes, pos + 1, pos + 5),
        );
        Ok((crate::command::Access::Index(i), pos + 5))
    } else {
        Err(VmError::DecodeError)
    }
}

/// Decoding inverts encoding for one access.
pub proof fn lemma_round_trip_access(a: AccessV, bytes: Seq<u8>, pos: int)
    requires
        spec_access_wf(a),
        0 <= pos,
        pos + spec_enc_access(a).len() <= bytes.len(),
        bytes.subrange(pos, pos + spec_enc_access(a).len()) == spec_enc_access(a),
    ensures
        spec_dec_access(bytes, pos) == Some((a, pos + spec_enc_access(a).len())),
{
    match a {
        AccessV::Member(n) => {
            lemma_split_concat(bytes, pos, seq![0u8], spec_enc_ident(n));
            assert(bytes.subrange(pos, pos + 1)[0] == bytes[pos]);
            assert(bytes[pos] == 0);
            lemma_round_trip_ident(n, bytes, pos + 1);
        },
        AccessV::Index(i) => {
            let le = vstd::bytes::spec_u32_to_le_bytes(i);
            vstd::bytes::lemma_auto_spec_u32_to_from_le_bytes();
            lemma_split_concat(bytes, pos, seq![1u8], le);
            assert(bytes.subrange(pos, pos + 1)[0] == bytes[pos]);
            assert(bytes[pos] == 1);
            assert(bytes.subrange(pos + 1, pos + 5) == le);
        },
    }
}

/// Decoding inverts encoding for access sequences.
pub proof fn lemma_round_trip_accesses(path: Seq<AccessV>, i: int, bytes: Seq<u8>, pos: int)
    requires
        forall|j: int| 0 <= j < path.len() ==> spec_access_wf(#[trigger] path[j]),
        0 <= i <= path.len(),
        0 <= pos,
        pos + spec_enc_accesses_from(path, i).len() <= bytes.len(),
        bytes.subrange(pos, pos + spec_enc_accesses_from(path, i).len())
            == spec_enc_accesses_from(path, i),
    ensures
        spec_dec_accesses(bytes, pos, path.len() - i) == Some(
            (path.skip(i), pos + spec_enc_accesses_from(path, i).len()),
        ),
    decreases path.len() - i,
{
    if i == path.len() {
        assert(path.skip(i) =~= Seq::empty());
    } else {
        let ea = spec_enc_access(path[i]);
        let rest = spec_enc_accesses_from(path, i + 1);
        lemma_split_concat(bytes, pos, ea, rest);
        lemma_round_trip_access(path[i], bytes, pos);
        lemma_round_trip_accesses(path, i + 1, bytes, pos + ea.len());
        assert(path.skip(i) =~= seq![path[i]] + path.skip(i + 1));
    }
}

/// Well-formedness of a register view.
pub open spec fn spec_register_wf(r: RegisterV) -> bool {
    match r {
        RegisterV::Locator(_) => true,
        RegisterV::Access(_, path) => {
            &&& path.len() <= u16::MAX
            &&& forall|j: int| 0 <= j < path.len() ==> spec_access_wf(#[trigger] path[j])
        },
    }
}

/// The encoding of a register: tag 0 and the locator, or tag 1, the
/// locator, the access count, and the accesses.
pub open spec fn spec_enc_register(r: RegisterV) -> Seq<u8> {
    match r {
        RegisterV::Locator(loc) => seq![0u8] + vstd::bytes::spec_u64_to_le_bytes(loc),
        RegisterV::Access(loc, path) => seq![1u8] + vstd::bytes::spec_u64_to_le_bytes(loc)
            + vstd::bytes::spec_u16_to_le_bytes(path.len() as u16) + spec_enc_accesses_from(
            path,
            0,
        ),
    }
}

/// The register decoded at `pos`.
pub open spec fn spec_dec_register(bytes: Seq<u8>, pos: int) -> Option<(RegisterV, int)> {
    if 0 <= pos < bytes.len() {
        let tag = bytes[pos];
        if tag == 0 {
            if pos + 9 <= bytes.len() {
                Some(
                    (
                        RegisterV::Locator(
                            vstd::bytes::spec_u64_from_le_bytes(
                                bytes.subrange(pos + 1, pos + 9),
                            ),
                        ),
                        pos + 9,
                    ),
                )
            } else {
                None
            }
        } else if tag == 1 {
            if pos + 11 <= bytes.len() {
                let loc = vstd::bytes::spec_u64_from_le_bytes(bytes.subrange(pos + 1, pos + 9));
                let count = vstd::bytes::spec_u16_from_le_bytes(
                    bytes.subrange(pos + 9, pos + 11),
                ) as int;
                match spec_dec_accesses(bytes, pos + 11, count) {
                    Some((path, m)) => Some((RegisterV::Access(loc, path), m)),
                    None => None,
                }
            } else {
                None
            }
        } else {
            None
        }
    } else {
        None
    }
}

/// Writes a register.
#[verifier::loop_isolation(false)]
fn encode_register(r: &crate::command::Register, out: &mut Vec<u8>)
    requires
        r.wf(),
    ensures
        final(out)@ == old(out)@ + spec_enc_register(r@),
{
    match r {
        crate::command::Register::Locator(loc) => {
            out.push(0);
            let le = vstd::bytes::u64_to_le_bytes(*loc);
            append_bytes(out, &le);
            proof {
                assert(final(out)@ =~= old(out)@ + spec_enc_register(r@));
            }
        },
        crate::command::Register::Access(loc, path) => {
            let ghost pathv = path@.map_values(|a: crate::command::Access| a@);
            out.push(1);
            let le = vstd::bytes::u64_to_le_bytes(*loc);
            append_bytes(out, &le);
            let cle = vstd::bytes::u16_to_le_bytes(path.len() as u16);
            append_bytes(out, &cle);
            let ghost header = old(out)@ + seq![1u8] + vstd::bytes::spec_u64_to_le_bytes(*loc)
                + vstd::bytes::spec_u16_to_le_bytes(pathv.len() as u16);
            let n = path.len();
            let mut k: usize = 0;
            while k < n
                invariant
                    0 <= k <= n,
                    n == path@.len(),
                    out@ + spec_enc_accesses_from(pathv, k as int) == header
                        + spec_enc_accesses_from(pathv, 0),
                decreases n - k,
            {
                proof {
                    assert(pathv[k as int] == path@[k as int]@);
                }
                encode_access(&path[k], out);
                proof {
                    assert(out@ + spec_enc_accesses_from(pathv, k + 1 as int) =~= header
                        + spec_enc_accesses_from(pathv, 0));
                }
                k = k + 1;
            }
            proof {
                assert(spec_enc_accesses_from(pathv, n as int) =~= Seq::empty());
                assert(out@ =~= out@ + spec_enc_accesses_from(pathv, n as int));
                assert(out@ =~= old(out)@ + spec_enc_register(r@));
            }
        },
    }
}

/// Reads a register.
#[verifier::loop_isolation(false)]
fn decode_register(bytes: &[u8], pos: usize) -> (r: Result<
    (crate::command::Register, usize),
    VmError,
>)
    ensures
        match r {
            Ok((reg, n)) => {
                &&& spec_dec_register(bytes@, pos as int) == Some((reg@, n as int))
                &&& reg.wf()
                &&& pos < n <= bytes@.len()
            },
            Err(e) => e == VmError::DecodeError && spec_dec_register(bytes@, pos as int) is None,
        },
{
    if pos >= bytes.len() {
        return Err(VmError::DecodeError);
    }
    let tag = bytes[pos];
    if tag == 0 {
        if bytes.len() - pos - 1 < 8 {
            return Err(VmError::DecodeError);
        }
        let loc = vstd::bytes::u64_from_le_bytes(
            vstd::slice::slice_subrange(bytes, pos + 1, pos + 9),
        );
        Ok((crate::command::Register::Locator(loc), pos + 9))
    } else if tag == 1 {
        if bytes.len() - pos - 1 < 10 {
            return Err(VmError::DecodeError);
        }
        let loc = vstd::bytes::u64_from_le_bytes(
            vstd::slice::slice_subrange(bytes, pos + 1, pos + 9),
        );
        let count = vstd::bytes::u16_from_le_bytes(
            vstd::slice::slice_subrange(bytes, pos + 9, pos + 11),
        ) as usize;
        let ghost count_g = count as int;
        let mut path: Vec<crate::command::Access> = Vec::new();
        let mut cur: usize = pos + 11;
        let mut k: usize = 0;
        while k < count
            invariant
                0 <= k <= count,
                pos + 11 <= cur <= bytes@.len(),
                path@.len() == k,
                forall|j: int| 0 <= j < k ==> (#[trigger] path@[j]).wf(),
                spec_dec_accesses(bytes@, pos + 11, count_g) == match spec_dec_accesses(
                    bytes@,
                    cur as int,
                    count_g - k,
                ) {
                    Option::None => None::<(Seq<AccessV>, int)>,
                    Option::Some((rest, m)) => Some(
                        (path@.map_values(|a: crate::command::Access| a@) + rest, m),
                    ),
                },
            decreases count - k,
        {
            match decode_access(bytes, cur) {
                Ok((a, n2)) => {
                    let ghost old_path = path@;
                    path.push(a);
                    proof {
                        assert(path@.map_values(|x: crate::command::Access| x@) =~= old_path
                            .map_values(|x: crate::command::Access| x@) + seq![a@]);
                        assert(old_path.map_values(|x: crate::command::Access| x@) + (seq![a@]
                            + spec_dec_accesses(bytes@, n2 as int, count_g - k - 1)->Some_0.0)
                            =~= (old_path.map_values(|x: crate::command::Access| x@) + seq![a@])
                            + spec_dec_accesses(bytes@, n2 as int, count_g - k - 1)->Some_0.0);
                    }
                    cur = n2;
                },
                Err(e) => {
                    return Err(e);
                },
            }
            k = k + 1;
        }
        proof {
            assert(path@.map_values(|a: crate::command::Access| a@) + Seq::<AccessV>::empty()
                =~= path@.map_values(|a: crate::command::Access| a@));
        }
        Ok((crate::command::Register::Access(loc, path), cur))
    } else {
        Err(VmError::DecodeError)
    }
}

/// Decoding inverts encoding for registers.
pub proof fn lemma_round_trip_register(r: RegisterV, bytes: Seq<u8>, pos: int)
    requires
        spec_register_wf(r),
        0 <= pos,
        pos + spec_enc_register(r).len() <= bytes.len(),
        bytes.subrange(pos, pos + spec_enc_register(r).len()) == spec_enc_register(r),
    ensures
        spec_dec_register(bytes, pos) == Some((r, pos + spec_enc_register(r).len())),
{
    match r {
        RegisterV::Locator(loc) => {
            let le = vstd::bytes::spec_u64_to_le_bytes(loc);
            vstd::bytes::lemma_auto_spec_u64_to_from_le_bytes();
            lemma_split_concat(bytes, pos, seq![0u8], le);
            assert(bytes.subrange(pos, pos + 1)[0] == bytes[pos]);
            assert(bytes[pos] == 0);
            assert(bytes.subrange(pos + 1, pos + 9) == le);
        },
        RegisterV::Access(loc, path) => {
            let le = vstd::bytes::spec_u64_to_le_bytes(loc);
            let cle = vstd::bytes::spec_u16_to_le_bytes(path.len() as u16);
            let ea = spec_enc_accesses_from(path, 0);
            vstd::bytes::lemma_auto_spec_u64_to_from_le_bytes();
            vstd::bytes::lemma_auto_spec_u16_to_from_le_bytes();
            let e = spec_enc_register(r);
            assert(e == ((seq![1u8] + le) + cle) + ea);
            lemma_split_concat(bytes, pos, (seq![1u8] + le) + cle, ea);
            assert((seq![1u8] + le) + cle =~= seq![1u8] + (le + cle));
            lemma_split_concat(bytes, pos, seq![1u8], le + cle);
            lemma_split_concat(bytes, pos + 1, le, cle);
            assert(bytes.subrange(pos, pos + 1)[0] == bytes[pos]);
            assert(bytes[pos] == 1);
            assert(bytes.subrange(pos + 1, pos + 9) == le);
            assert(bytes.subrange(pos + 9, pos + 11) == cle);
            lemma_round_trip_accesses(path, 0, bytes, pos + 11);
            assert(path.skip(0) =~= path);
        },
    }
}

// ---------------------------------------------------------------------------
// Operands, call operators and the get command
// ---------------------------------------------------------------------------

/// Well-formedness of an operand view.
pub open spec fn spec_operand_wf(o: OperandV) -> bool {
    match o {
        OperandV::Literal(l) => crate::command::spec_literal_value_wf(l),
        OperandV::Register(r) => spec_register_wf(r),
        OperandV::ProgramID(p) => spec_program_id_wf(p),
        _ => true,
    }
}

/// The encoding of an operand: a tag byte, then the payload (none for the
/// signer, caller, block height and network identifier operands).
pub open spec fn spec_enc_operand(o: OperandV) -> Seq<u8> {
    match o {
        OperandV::Literal(l) => seq![0u8] + spec_enc_literal_value(l),
        OperandV::Register(r) => seq![1u8] + spec_enc_register(r),
        OperandV::ProgramID(p) => seq![2u8] + spec_enc_program_id(p),
        OperandV::Signer => seq![3u8],
        OperandV::Caller => seq![4u8],
        OperandV::BlockHeight => seq![5u8],
        OperandV::NetworkID => seq![6u8],
    }
}

/// The operand decoded at `pos`.
pub open spec fn spec_dec_operand(bytes: Seq<u8>, pos: int) -> Option<(OperandV, int)> {
    if 0 <= pos < bytes.len() {
        let tag = bytes[pos];
        if tag == 0 {
            match spec_dec_literal_value(bytes, pos + 1) {
                Some((l, n)) => Some((OperandV::Literal(l), n)),
                None => None,
            }
        } else if tag == 1 {
            match spec_dec_register(bytes, pos + 1) {
                Some((r, n)) => Some((OperandV::Register(r), n)),
                None => None,
            }
        } else if tag == 2 {
            match spec_dec_program_id(bytes, pos + 1) {
                Some((p, n)) => Some((OperandV::ProgramID(p), n)),
                None => None,
            }
        } else if tag == 3 {
            Some((OperandV::Signer, pos + 1))
        } else if tag == 4 {
            Some((OperandV::Caller, pos + 1))
        } else if tag == 5 {
            Some((OperandV::BlockHeight, pos + 1))
        } else if tag == 6 {
            Some((OperandV::NetworkID, pos + 1))
        } else {
            None
        }
    } else {
        None
    }
}

/// Writes an operand.
fn encode_operand(o: &crate::command::Operand, out: &mut Vec<u8>)
    requires
        o.wf(),
    ensures
        final(out)@ == old(out)@ + spec_enc_operand(o@),
{
    match o {
        crate::command::Operand::Literal(l) => {
            out.push(0);
            encode_literal_value(l, out);
        },
        crate::command::Operand::Register(r) => {
            out.push(1);
            encode_register(r, out);
        },
        crate::command::Operand::ProgramID(p) => {
            out.push(2);
            encode_program_id(p, out);
        },
        crate::command::Operand::Signer => {
            out.push(3);
        },
        crate::command::Operand::Caller => {
            out.push(4);
        },
        crate::command::Operand::BlockHeight => {
            out.push(5);
        },
        crate::command::Operand::NetworkID => {
            out.push(6);
        },
    }
    proof {
        assert(final(out)@ =~= old(out)@ + spec_enc_operand(o@));
    }
}

/// Reads an operand.
fn decode_operand(bytes: &[u8], pos: usize) -> (r: Result<
    (crate::command::Operand, usize),
    VmError,
>)
    ensures
        match r {
            Ok((o, n)) => {
                &&& spec_dec_operand(bytes@, pos as int) == Some((o@, n as int))
                &&& o.wf()
                &&& pos < n <= bytes@.len()
            },
            Err(e) => e == VmError::DecodeError && spec_dec_operand(bytes@, pos as int) is None,
        },
{
    if pos >= bytes.len() {
        return Err(VmError::DecodeError);
    }
    let tag = bytes[pos];
    if tag == 0 {
        match decode_literal_value(bytes, pos + 1) {
            Ok((l, n)) => Ok((crate::command::Operand::Literal(l), n)),
            Err(e) => Err(e),
        }
    } else if tag == 1 {
        match decode_register(bytes, pos + 1) {
            Ok((r, n)) => Ok((crate::command::Operand::Register(r), n)),
            Err(e) => Err(e),
        }
    } else if tag == 2 {
        match decode_program_id(bytes, pos + 1) {
            Ok((p, n)) => Ok((crate::command::Operand::ProgramID(p), n)),
            Err(e) => Err(e),
        }
    } else if tag == 3 {
        Ok((crate::command::Operand::Signer, pos + 1))
    } else if tag == 4 {
        Ok((crate::command::Operand::Caller, pos + 1))
    } else if tag == 5 {
        Ok((crate::command::Operand::BlockHeight, pos + 1))
    } else if tag == 6 {
        Ok((crate::command::Operand::NetworkID, pos + 1))
    } else {
        Err(VmError::DecodeError)
    }
}

/// Decoding inverts encoding for operands.
pub proof fn lemma_round_trip_operand(o: OperandV, bytes: Seq<u8>, pos: int)
    requires
        spec_operand_wf(o),
        0 <= pos,
        pos + spec_enc_operand(o).len() <= bytes.len(),
        bytes.subrange(pos, pos + spec_enc_operand(o).len()) == spec_enc_operand(o),
    ensures
        spec_dec_operand(bytes, pos) == Some((o, pos + spec_enc_operand(o).len())),
{
    match o {
        OperandV::Literal(l) => {
            lemma_split_concat(bytes, pos, seq![0u8], spec_enc_literal_value(l));
            assert(bytes.subrange(pos, pos + 1)[0] == bytes[pos]);
            lemma_round_trip_literal_value(l, bytes, pos + 1);
        },
        OperandV::Register(r) => {
            lemma_split_concat(bytes, pos, seq![1u8], spec_enc_register(r));
            assert(bytes.subrange(pos, pos + 1)[0] == bytes[pos]);
            lemma_round_trip_register(r, bytes, pos + 1);
        },
        OperandV::ProgramID(p) => {
            lemma_split_concat(bytes, pos, seq![2u8], spec_enc_program_id(p));
            assert(bytes.subrange(pos, pos + 1)[0] == bytes[pos]);
            lemma_round_trip_program_id(p, bytes, pos + 1);
        },
        _ => {
            assert(bytes.subrange(pos, pos + 1)[0] == bytes[pos]);
        },
    }
}

/// Well-formedness of a call operator view.
pub open spec fn spec_call_operator_wf(c: CallOperatorV) -> bool {
    match c {
        CallOperatorV::Locator(l) => spec_locator_wf(l),
        CallOperatorV::Resource(n) => spec_ident_wf(n),
    }
}

/// The encoding of a mapping reference: tag 0 for a qualified locator,
/// tag 1 for a bare resource name.
pub open spec fn spec_enc_call_operator(c: CallOperatorV) -> Seq<u8> {
    match c {
        CallOperatorV::Locator(l) => seq![0u8] + spec_enc_locator(l),
        CallOperatorV::Resource(n) => seq![1u8] + spec_enc_ident(n),
    }
}

/// The mapping reference decoded at `pos`.
pub open spec fn spec_dec_call_operator(bytes: Seq<u8>, pos: int) -> Option<(CallOperatorV, int)> {
    if 0 <= pos < bytes.len() {
        let tag = bytes[pos];
        if tag == 0 {
            match spec_dec_locator(bytes, pos + 1) {
                Some((l, n)) => Some((CallOperatorV::Locator(l), n)),
                None => None,
            }
        } else if tag == 1 {
            match spec_dec_ident(bytes, pos + 1) {
                Some((r, n)) => Some((CallOperatorV::Resource(r), n)),
                None => None,
            }
        } else {
            None
        }
    } else {
        None
    }
}

/// Writes a mapping reference.
fn encode_call_operator(c: &crate::command::CallOperator, out: &mut Vec<u8>)
    requires
        c.wf(),
    ensures
        final(out)@ == old(out)@ + spec_enc_call_operator(c@),
{
    match c {
        crate::command::CallOperator::Locator(l) => {
            out.push(0);
            encode_locator(l, out);
        },
        crate::command::CallOperator::Resource(n) => {
            out.push(1);
            encode_ident(n, out);
        },
    }
    proof {
        assert(final(out)@ =~= old(out)@ + spec_enc_call_operator(c@));
    }
}

/// Reads a mapping reference.
fn decode_call_operator(bytes: &[u8], pos: usize) -> (r: Result<
    (crate::command::CallOperator, usize),
    VmError,
>)
    ensures
        match r {
            Ok((c, n)) => {
                &&& spec_dec_call_operator(bytes@, pos as int) == Some((c@, n as int))
                &&& c.wf()
                &&& pos < n <= bytes@.len()
            },
            Err(e) => e == VmError::DecodeError && spec_dec_call_operator(
                bytes@,
                pos as int,
            ) is None,
        },
{
    if pos >= bytes.len() {
        return Err(VmError::DecodeError);
    }
    let tag = bytes[pos];
    if tag == 0 {
        match decode_locator(bytes, pos + 1) {
            Ok((l, n)) => Ok((crate::command::CallOperator::Locator(l), n)),
            Err(e) => Err(e),
        }
    } else if tag == 1 {
        match decode_ident(bytes, pos + 1) {
            Ok((r, n)) => Ok((crate::command::CallOperator::Resource(r), n)),
            Err(e) => Err(e),
        }
    } else {
        Err(VmError::DecodeError)
    }
}

/// Decoding inverts encoding for mapping references.
pub proof fn lemma_round_trip_call_operator(c: CallOperatorV, bytes: Seq<u8>, pos: int)
    requires
        spec_call_operator_wf(c),
        0 <= pos,
        pos + spec_enc_call_operator(c).len() <= bytes.len(),
        bytes.subrange(pos, pos + spec_enc_call_operator(c).len()) == spec_enc_call_operator(c),
    ensures
        spec_dec_call_operator(bytes, pos) == Some(
            (c, pos + spec_enc_call_operator(c).len()),
        ),
{
    match c {
        CallOperatorV::Locator(l) => {
            lemma_split_concat(bytes, pos, seq![0u8], spec_enc_locator(l));
            assert(bytes.subrange(pos, pos + 1)[0] == bytes[pos]);
            lemma_round_trip_locator(l, bytes, pos + 1);
        },
        CallOperatorV::Resource(n) => {
            lemma_split_concat(bytes, pos, seq![1u8], spec_enc_ident(n));
            assert(bytes.subrange(pos, pos + 1)[0] == bytes[pos]);
            lemma_round_trip_ident(n, bytes, pos + 1);
        },
    }
}

/// Well-formedness of a `get` command view.
pub open spec fn spec_get_cmd_wf(g: GetV) -> bool {
    &&& spec_call_operator_wf(g.mapping)
    &&& spec_operand_wf(g.key)
    &&& spec_register_wf(g.destination)
}

/// The encoding of a `get` command: the mapping reference, the key operand,
/// and the destination register, in declared field order.
pub open spec fn spec_enc_get(g: GetV) -> Seq<u8> {
    spec_enc_call_operator(g.mapping) + spec_enc_operand(g.key) + spec_enc_register(g.destination)
}

/// The `get` command decoded at `pos`.
pub open spec fn spec_dec_get(bytes: Seq<u8>, pos: int) -> Option<(GetV, int)> {
    match spec_dec_call_operator(bytes, pos) {
        None => None,
        Some((mapping, n1)) => match spec_dec_operand(bytes, n1) {
            None => None,
            Some((key, n2)) => match spec_dec_register(bytes, n2) {
                None => None,
                Some((destination, n3)) => Some((GetV { mapping, key, destination }, n3)),
            },
        },
    }
}

impl crate::command::Get {
    /// Writes the command to the buffer: the mapping reference, the key
    /// operand, and the destination register.
    pub fn write_le(&self, writer: &mut Vec<u8>)
        requires
            self.wf(),
        ensures
            final(writer)@ == old(writer)@ + spec_enc_get(self@),
    {
        encode_call_operator(&self.mapping, writer);
        encode_operand(&self.key, writer);
        encode_register(&self.destination, writer);
        proof {
            assert(final(writer)@ =~= old(writer)@ + spec_enc_get(self@));
        }
    }

    /// Reads a command from the buffer at `pos`.
    pub fn read_le(reader: &[u8], pos: usize) -> (r: Result<
        (crate::command::Get, usize),
        VmError,
    >)
        ensures
            match r {
                Ok((g, n)) => {
                    &&& spec_dec_get(reader@, pos as int) == Some((g@, n as int))
                    &&& g.wf()
                    &&& pos < n <= reader@.len()
                },
                Err(e) => e == VmError::DecodeError && spec_dec_get(reader@, pos as int) is None,
            },
    {
        let (mapping, n1) = match decode_call_operator(reader, pos) {
            Ok(r) => r,
            Err(e) => {
                return Err(e);
            },
        };
        let (key, n2) = match decode_operand(reader, n1) {
            Ok(r) => r,
            Err(e) => {
                return Err(e);
            },
        };
        let (destination, n3) = match decode_register(reader, n2) {
            Ok(r) => r,
            Err(e) => {
                return Err(e);
            },
        };
        Ok((crate::command::Get { mapping, key, destination }, n3))
    }

    /// The complete encoding of the command.
    pub fn to_bytes_le(&self) -> (r: Vec<u8>)
        requires
            self.wf(),
        ensures
            r@ == spec_enc_get(self@),
    {
        let mut out: Vec<u8> = Vec::new();
        self.write_le(&mut out);
        out
    }

    /// Decodes a command from the start of the buffer.
    pub fn from_bytes_le(bytes: &[u8]) -> (r: Result<crate::command::Get, VmError>)
        ensures
            match r {
                Ok(g) => spec_dec_get(bytes@, 0) matches Some((gv, _)) && gv == g@ && g.wf(),
                Err(e) => e == VmError::DecodeError && spec_dec_get(bytes@, 0) is None,
            },
    {
        match Self::read_le(bytes, 0) {
            Ok((g, _)) => Ok(g),
            Err(e) => Err(e),
        }
    }
}

/// Decoding inverts encoding for `get` commands: for every well-formed
/// command, reading its encoding back returns the same value.
pub proof fn lemma_round_trip_get(g: GetV, bytes: Seq<u8>, pos: int)
    requires
        spec_get_cmd_wf(g),
        0 <= pos,
        pos + spec_enc_get(g).len() <= bytes.len(),
        bytes.subrange(pos, pos + spec_enc_get(g).len()) == spec_enc_get(g),
    ensures
        spec_dec_get(bytes, pos) == Some((g, pos + spec_enc_get(g).len())),
{
    let em = spec_enc_call_operator(g.mapping);
    let ek = spec_enc_operand(g.key);
    let ed = spec_enc_register(g.destination);
    assert(spec_enc_get(g) == (em + ek) + ed);
    lemma_split_concat(bytes, pos, em + ek, ed);
    lemma_split_concat(bytes, pos, em, ek);
    lemma_round_trip_call_operator(g.mapping, bytes, pos);
    lemma_round_trip_operand(g.key, bytes, pos + em.len());
    lemma_round_trip_register(g.destination, bytes, pos + em.len() + ek.len());
}

} // verus!
