//! The CoLa typed field codec and frame handling.
//!
//! Every field type that can travel in a CoLa payload implements
//! [`CoLaDataType`]: an encoder appending big-endian bytes to a buffer, a
//! decoder walking a cursor over an immutable byte buffer, and the
//! mathematical descriptions of both. The decoder's contract ties it exactly
//! to the spec-level [`CoLaDataType::parse`] function, and every encodable
//! value round-trips, which [`lemma_cola_round_trip`] states once for all
//! types.

use vstd::prelude::*;

use crate::{DecodeError, FrameError, ValueKind};

verus! {

broadcast use vstd::string::group_string_axioms;

/// The space byte that delimits text values and command names.
pub const SPC: u8 = 0x20;

/// One undecoded CoLa payload: the bytes between a frame's length word and
/// its checksum.
pub type ColaMessageRaw = Vec<u8>;

// --- big-endian views of byte pairs and quadruples ---

/// The unsigned value of two big-endian bytes.
pub open spec fn be16(b0: u8, b1: u8) -> u16 {
    (b0 * 0x100 + b1) as u16
}

/// The unsigned value of four big-endian bytes.
pub open spec fn be32(b0: u8, b1: u8, b2: u8, b3: u8) -> u32 {
    (b0 * 0x1000000 + b1 * 0x10000 + b2 * 0x100 + b3) as u32
}

/// The two big-endian bytes of an unsigned 16-bit value.
pub open spec fn be16_bytes(v: u16) -> Seq<u8> {
    seq![(v / 0x100) as u8, (v % 0x100) as u8]
}

/// The four big-endian bytes of an unsigned 32-bit value.
pub open spec fn be32_bytes(v: u32) -> Seq<u8> {
    seq![
        (v / 0x1000000) as u8,
        ((v / 0x10000) % 0x100) as u8,
        ((v / 0x100) % 0x100) as u8,
        (v % 0x100) as u8,
    ]
}

/// The signed reading of an unsigned 16-bit wire value (two's complement).
pub open spec fn as_i16(u: u16) -> i16 {
    if u < 0x8000 {
        u as i16
    } else {
        (u - 0x10000) as i16
    }
}

/// The unsigned wire form of a signed 16-bit value (two's complement).
pub open spec fn i16_bits(v: i16) -> u16 {
    if v >= 0 {
        v as u16
    } else {
        (v + 0x10000) as u16
    }
}

/// The signed reading of an unsigned 8-bit wire value (two's complement).
pub open spec fn as_i8(u: u8) -> i8 {
    if u < 0x80 {
        u as i8
    } else {
        (u - 0x100) as i8
    }
}

/// The unsigned wire form of a signed 8-bit value (two's complement).
pub open spec fn i8_bits(v: i8) -> u8 {
    if v >= 0 {
        v as u8
    } else {
        (v + 0x100) as u8
    }
}

/// The signed reading of an unsigned 32-bit wire value (two's complement).
pub open spec fn as_i32(u: u32) -> i32 {
    if u < 0x80000000 {
        u as i32
    } else {
        (u - 0x100000000) as i32
    }
}

/// The unsigned wire form of a signed 32-bit value (two's complement).
pub open spec fn i32_bits(v: i32) -> u32 {
    if v >= 0 {
        v as u32
    } else {
        (v + 0x100000000) as u32
    }
}

/// Reading back the two big-endian bytes of a 16-bit value gives the value.
pub proof fn lemma_be16_round(v: u16)
    ensures
        be16(be16_bytes(v)[0], be16_bytes(v)[1]) == v,
{
}

/// Reading back the four big-endian bytes of a 32-bit value gives the value.
pub proof fn lemma_be32_round(v: u32)
    ensures
        be32(be32_bytes(v)[0], be32_bytes(v)[1], be32_bytes(v)[2], be32_bytes(v)[3]) == v,
{
}

/// A codec for one CoLa field type: big-endian encoding into a byte buffer
/// and decoding from a cursor over one, each pinned to its mathematical
/// description.
pub trait CoLaDataType: DeepView + Sized {
    /// Whether an abstract value can be put on the wire at all.
    spec fn wf_v(v: Self::V) -> bool;

    /// The bytes that encode an abstract value.
    spec fn wire_of(v: Self::V) -> Seq<u8>;

    /// The decoder as a mathematical function: the decoded value and the
    /// number of bytes consumed, or the error that the input forces.
    spec fn parse(s: Seq<u8>) -> Result<(Self::V, int), DecodeError>;

    /// Whether decoding stops exactly at the end of an encoded value even
    /// when more input follows. Text values, which run to a delimiter, do
    /// not have this property; everything else does.
    spec fn prefix_secure() -> bool;

    /// A successful parse consumes no more bytes than the input holds.
    proof fn lemma_parse_len(s: Seq<u8>)
        ensures
            Self::parse(s) matches Ok((v, n)) ==> 0 <= n <= s.len(),
    ;

    /// Round trip: decoding an encoded value, with anything at all behind
    /// it, gives the value back and consumes exactly its encoding.
    proof fn lemma_wire_parse(v: Self::V, rest: Seq<u8>)
        requires
            Self::wf_v(v),
            Self::prefix_secure(),
        ensures
            Self::parse(Self::wire_of(v) + rest) == Ok::<_, DecodeError>((
                v,
                Self::wire_of(v).len() as int,
            )),
    ;

    /// Appends the encoding of `self` to `data`.
    fn write_to_data(&self, data: &mut Vec<u8>)
        requires
            Self::wf_v(self.deep_view()),
        ensures
            final(data)@ == old(data)@ + Self::wire_of(self.deep_view()),
    ;

    /// Decodes one value of this type from `src` starting at `*pos`,
    /// advancing the cursor past the bytes consumed. The outcome, value and
    /// error alike, is exactly what [`Self::parse`] says of the remaining
    /// input.
    fn get_from_data(src: &Vec<u8>, pos: &mut usize) -> (r: Result<Self, DecodeError>)
        requires
            *old(pos) <= src@.len(),
        ensures
            *old(pos) <= *final(pos) <= src@.len(),
            match r {
                Ok(v) => Self::parse(src@.skip(*old(pos) as int)) == Ok::<_, DecodeError>((
                    v.deep_view(),
                    *final(pos) - *old(pos),
                )),
                Err(e) => Self::parse(src@.skip(*old(pos) as int)) == Err::<(Self::V, int), _>(e),
            },
    ;
}

impl CoLaDataType for bool {
    open spec fn wf_v(v: bool) -> bool {
        true
    }

    open spec fn wire_of(v: bool) -> Seq<u8> {
        seq![if v { 1u8 } else { 0u8 }]
    }

    open spec fn parse(s: Seq<u8>) -> Result<(bool, int), DecodeError> {
        if s.len() < 1 {
            Err(DecodeError::Exhausted(ValueKind::Bool))
        } else {
            Ok((s[0] == 1, 1))
        }
    }

    open spec fn prefix_secure() -> bool {
        true
    }

    proof fn lemma_parse_len(s: Seq<u8>) {
    }

    proof fn lemma_wire_parse(v: bool, rest: Seq<u8>) {
    }

    fn write_to_data(&self, data: &mut Vec<u8>) {
        data.push(if *self { 1 } else { 0 });
        assert(final(data)@ =~= old(data)@ + Self::wire_of(*self));
    }

    fn get_from_data(src: &Vec<u8>, pos: &mut usize) -> (r: Result<Self, DecodeError>) {
        if src.len() - *pos >= 1 {
            let b = src[*pos];
            *pos = *pos + 1;
            Ok(b == 1)
        } else {
            Err(DecodeError::Exhausted(ValueKind::Bool))
        }
    }
}

impl CoLaDataType for u8 {
    open spec fn wf_v(v: u8) -> bool {
        true
    }

    open spec fn wire_of(v: u8) -> Seq<u8> {
        seq![v]
    }

    open spec fn parse(s: Seq<u8>) -> Result<(u8, int), DecodeError> {
        if s.len() < 1 {
            Err(DecodeError::Exhausted(ValueKind::U8))
        } else {
            Ok((s[0], 1))
        }
    }

    open spec fn prefix_secure() -> bool {
        true
    }

    proof fn lemma_parse_len(s: Seq<u8>) {
    }

    proof fn lemma_wire_parse(v: u8, rest: Seq<u8>) {
    }

    fn write_to_data(&self, data: &mut Vec<u8>) {
        data.push(*self);
        assert(final(data)@ =~= old(data)@ + Self::wire_of(*self));
    }

    fn get_from_data(src: &Vec<u8>, pos: &mut usize) -> (r: Result<Self, DecodeError>) {
        if src.len() - *pos >= 1 {
            let b = src[*pos];
            *pos = *pos + 1;
            Ok(b)
        } else {
            Err(DecodeError::Exhausted(ValueKind::U8))
        }
    }
}

impl CoLaDataType for u16 {
    open spec fn wf_v(v: u16) -> bool {
        true
    }

    open spec fn wire_of(v: u16) -> Seq<u8> {
        be16_bytes(v)
    }

    open spec fn parse(s: Seq<u8>) -> Result<(u16, int), DecodeError> {
        if s.len() < 2 {
            Err(DecodeError::Exhausted(ValueKind::U16))
        } else {
            Ok((be16(s[0], s[1]), 2))
        }
    }

    open spec fn prefix_secure() -> bool {
        true
    }

    proof fn lemma_parse_len(s: Seq<u8>) {
    }

    proof fn lemma_wire_parse(v: u16, rest: Seq<u8>) {
        let w = Self::wire_of(v);
        assert(be16(w[0], w[1]) == v);
    }

    fn write_to_data(&self, data: &mut Vec<u8>) {
        data.push((*self / 0x100) as u8);
        data.push((*self % 0x100) as u8);
        assert(final(data)@ =~= old(data)@ + Self::wire_of(*self));
    }

    fn get_from_data(src: &Vec<u8>, pos: &mut usize) -> (r: Result<Self, DecodeError>) {
        if src.len() - *pos >= 2 {
            let b0 = src[*pos];
            let b1 = src[*pos + 1];
            *pos = *pos + 2;
            Ok((b0 as u16) * 0x100 + (b1 as u16))
        } else {
            Err(DecodeError::Exhausted(ValueKind::U16))
        }
    }
}

impl CoLaDataType for u32 {
    open spec fn wf_v(v: u32) -> bool {
        true
    }

    open spec fn wire_of(v: u32) -> Seq<u8> {
        be32_bytes(v)
    }

    open spec fn parse(s: Seq<u8>) -> Result<(u32, int), DecodeError> {
        if s.len() < 4 {
            Err(DecodeError::Exhausted(ValueKind::U32))
        } else {
            Ok((be32(s[0], s[1], s[2], s[3]), 4))
        }
    }

    open spec fn prefix_secure() -> bool {
        true
    }

    proof fn lemma_parse_len(s: Seq<u8>) {
    }

    proof fn lemma_wire_parse(v: u32, rest: Seq<u8>) {
        let w = Self::wire_of(v);
        assert(be32(w[0], w[1], w[2], w[3]) == v);
    }

    fn write_to_data(&self, data: &mut Vec<u8>) {
        data.push((*self / 0x1000000) as u8);
        data.push(((*self / 0x10000) % 0x100) as u8);
        data.push(((*self / 0x100) % 0x100) as u8);
        data.push((*self % 0x100) as u8);
        assert(final(data)@ =~= old(data)@ + Self::wire_of(*self));
    }

    fn get_from_data(src: &Vec<u8>, pos: &mut usize) -> (r: Result<Self, DecodeError>) {
        if src.len() - *pos >= 4 {
            let b0 = src[*pos];
            let b1 = src[*pos + 1];
            let b2 = src[*pos + 2];
            let b3 = src[*pos + 3];
            *pos = *pos + 4;
            Ok((b0 as u32) * 0x1000000 + (b1 as u32) * 0x10000 + (b2 as u32) * 0x100 + (b3 as u32))
        } else {
            Err(DecodeError::Exhausted(ValueKind::U32))
        }
    }
}

impl CoLaDataType for i8 {
    open spec fn wf_v(v: i8) -> bool {
        true
    }

    open spec fn wire_of(v: i8) -> Seq<u8> {
        seq![i8_bits(v)]
    }

    open spec fn parse(s: Seq<u8>) -> Result<(i8, int), DecodeError> {
        if s.len() < 1 {
            Err(DecodeError::Exhausted(ValueKind::I8))
        } else {
            Ok((as_i8(s[0]), 1))
        }
    }

    open spec fn prefix_secure() -> bool {
        true
    }

    proof fn lemma_parse_len(s: Seq<u8>) {
    }

    proof fn lemma_wire_parse(v: i8, rest: Seq<u8>) {
    }

    fn write_to_data(&self, data: &mut Vec<u8>) {
        let b: u8 = if *self >= 0 {
            *self as u8
        } else {
            ((*self as i16) + 0x100) as u8
        };
        data.push(b);
        assert(final(data)@ =~= old(data)@ + Self::wire_of(*self));
    }

    fn get_from_data(src: &Vec<u8>, pos: &mut usize) -> (r: Result<Self, DecodeError>) {
        if src.len() - *pos >= 1 {
            let b = src[*pos];
            *pos = *pos + 1;
            if b < 0x80 {
                Ok(b as i8)
            } else {
                Ok(((b as i16) - 0x100) as i8)
            }
        } else {
            Err(DecodeError::Exhausted(ValueKind::I8))
        }
    }
}

impl CoLaDataType for i16 {
    open spec fn wf_v(v: i16) -> bool {
        true
    }

    open spec fn wire_of(v: i16) -> Seq<u8> {
        be16_bytes(i16_bits(v))
    }

    open spec fn parse(s: Seq<u8>) -> Result<(i16, int), DecodeError> {
        if s.len() < 2 {
            Err(DecodeError::Exhausted(ValueKind::I16))
        } else {
            Ok((as_i16(be16(s[0], s[1])), 2))
        }
    }

    open spec fn prefix_secure() -> bool {
        true
    }

    proof fn lemma_parse_len(s: Seq<u8>) {
    }

    proof fn lemma_wire_parse(v: i16, rest: Seq<u8>) {
        let w = Self::wire_of(v);
        assert(be16(w[0], w[1]) == i16_bits(v));
    }

    fn write_to_data(&self, data: &mut Vec<u8>) {
        let u: u16 = if *self >= 0 {
            *self as u16
        } else {
            ((*self as i32) + 0x10000) as u16
        };
        data.push((u / 0x100) as u8);
        data.push((u % 0x100) as u8);
        assert(final(data)@ =~= old(data)@ + Self::wire_of(*self));
    }

    fn get_from_data(src: &Vec<u8>, pos: &mut usize) -> (r: Result<Self, DecodeError>) {
        if src.len() - *pos >= 2 {
            let b0 = src[*pos];
            let b1 = src[*pos + 1];
            *pos = *pos + 2;
            let u: u16 = (b0 as u16) * 0x100 + (b1 as u16);
            if u < 0x8000 {
                Ok(u as i16)
            } else {
                Ok(((u as i32) - 0x10000) as i16)
            }
        } else {
            Err(DecodeError::Exhausted(ValueKind::I16))
        }
    }
}

impl CoLaDataType for i32 {
    open spec fn wf_v(v: i32) -> bool {
        true
    }

    open spec fn wire_of(v: i32) -> Seq<u8> {
        be32_bytes(i32_bits(v))
    }

    open spec fn parse(s: Seq<u8>) -> Result<(i32, int), DecodeError> {
        if s.len() < 4 {
            Err(DecodeError::Exhausted(ValueKind::I32))
        } else {
            Ok((as_i32(be32(s[0], s[1], s[2], s[3])), 4))
        }
    }

    open spec fn prefix_secure() -> bool {
        true
    }

    proof fn lemma_parse_len(s: Seq<u8>) {
    }

    proof fn lemma_wire_parse(v: i32, rest: Seq<u8>) {
        let w = Self::wire_of(v);
        assert(be32(w[0], w[1], w[2], w[3]) == i32_bits(v));
    }

    fn write_to_data(&self, data: &mut Vec<u8>) {
        let u: u32 = if *self >= 0 {
            *self as u32
        } else {
            ((*self as i64) + 0x100000000) as u32
        };
        data.push((u / 0x1000000) as u8);
        data.push(((u / 0x10000) % 0x100) as u8);
        data.push(((u / 0x100) % 0x100) as u8);
        data.push((u % 0x100) as u8);
        assert(final(data)@ =~= old(data)@ + Self::wire_of(*self));
    }

    fn get_from_data(src: &Vec<u8>, pos: &mut usize) -> (r: Result<Self, DecodeError>) {
        if src.len() - *pos >= 4 {
            let b0 = src[*pos];
            let b1 = src[*pos + 1];
            let b2 = src[*pos + 2];
            let b3 = src[*pos + 3];
            *pos = *pos + 4;
            let u: u32 = (b0 as u32) * 0x1000000 + (b1 as u32) * 0x10000 + (b2 as u32) * 0x100 + (
            b3 as u32);
            if u < 0x80000000 {
                Ok(u as i32)
            } else {
                Ok(((u as i64) - 0x100000000) as i32)
            }
        } else {
            Err(DecodeError::Exhausted(ValueKind::I32))
        }
    }
}

/// A 32-bit floating-point wire value carried as its raw IEEE-754 bit
/// pattern. The codec moves the four bytes unchanged; interpreting them as a
/// number is the caller's concern.
#[derive(Clone, Copy, Debug, PartialEq, Eq, Structural)]
pub struct F32Bits {
    pub bits: u32,
}

impl DeepView for F32Bits {
    type V = F32Bits;

    open spec fn deep_view(&self) -> F32Bits {
        *self
    }
}

impl CoLaDataType for F32Bits {
    open spec fn wf_v(v: F32Bits) -> bool {
        true
    }

    open spec fn wire_of(v: F32Bits) -> Seq<u8> {
        be32_bytes(v.bits)
    }

    open spec fn parse(s: Seq<u8>) -> Result<(F32Bits, int), DecodeError> {
        if s.len() < 4 {
            Err(DecodeError::Exhausted(ValueKind::F32))
        } else {
            Ok((F32Bits { bits: be32(s[0], s[1], s[2], s[3]) }, 4))
        }
    }

    open spec fn prefix_secure() -> bool {
        true
    }

    proof fn lemma_parse_len(s: Seq<u8>) {
    }

    proof fn lemma_wire_parse(v: F32Bits, rest: Seq<u8>) {
        let w = Self::wire_of(v);
        assert(be32(w[0], w[1], w[2], w[3]) == v.bits);
    }

    fn write_to_data(&self, data: &mut Vec<u8>) {
        let u: u32 = self.bits;
        data.push((u / 0x1000000) as u8);
        data.push(((u / 0x10000) % 0x100) as u8);
        data.push(((u / 0x100) % 0x100) as u8);
        data.push((u % 0x100) as u8);
        assert(final(data)@ =~= old(data)@ + Self::wire_of(*self));
    }

    fn get_from_data(src: &Vec<u8>, pos: &mut usize) -> (r: Result<Self, DecodeError>) {
        if src.len() - *pos >= 4 {
            let b0 = src[*pos];
            let b1 = src[*pos + 1];
            let b2 = src[*pos + 2];
            let b3 = src[*pos + 3];
            *pos = *pos + 4;
            Ok(
                F32Bits {
                    bits: (b0 as u32) * 0x1000000 + (b1 as u32) * 0x10000 + (b2 as u32) * 0x100 + (
                    b3 as u32),
                },
            )
        } else {
            Err(DecodeError::Exhausted(ValueKind::F32))
        }
    }
}


// --- text values ---

/// The number of leading bytes before the first space delimiter, or the
/// whole length when no space occurs.
pub open spec fn space_prefix_len(s: Seq<u8>) -> int
    decreases s.len(),
{
    if s.len() == 0 {
        0
    } else if s[0] == SPC {
        0
    } else {
        1 + space_prefix_len(s.skip(1))
    }
}

/// Characterizes [`space_prefix_len`]: it is the index of the first space,
/// or the whole length when there is none.
pub proof fn lemma_space_prefix(s: Seq<u8>, k: int)
    requires
        0 <= k <= s.len(),
        forall|j: int| 0 <= j < k ==> s[j] != SPC,
        k < s.len() ==> s[k] == SPC,
    ensures
        space_prefix_len(s) == k,
    decreases k,
{
    if k == 0 {
    } else {
        lemma_space_prefix(s.skip(1), k - 1);
    }
}

/// No byte of the UTF-8 encoding of a space-free character sequence is the
/// space byte: ASCII characters keep their single byte, and every byte of a
/// multi-byte encoding is at least 0x80.
pub proof fn lemma_no_space_encode(chars: Seq<char>)
    requires
        forall|i: int| 0 <= i < chars.len() ==> chars[i] != ' ',
    ensures
        forall|j: int|
            0 <= j < vstd::utf8::encode_utf8(chars).len() ==> vstd::utf8::encode_utf8(chars)[j]
                != SPC,
    decreases chars.len(),
{
    broadcast use vstd::utf8::char_is_scalar, vstd::utf8::char_u32_cast;

    if chars.len() == 0 {
    } else {
        let c = chars[0];
        let u = c as u32;
        let first = vstd::utf8::encode_scalar(u);
        assert(forall|j: int| 0 <= j < first.len() ==> first[j] != SPC) by {
            if vstd::utf8::has_width_1_encoding(u) {
                assert(vstd::utf8::leading_byte_width_1(u) == 0x20 ==> u == 0x20)
                    by (bit_vector)
                    requires
                        vstd::utf8::has_width_1_encoding(u),
                ;
                assert(' ' as u32 == 0x20);
                vstd::utf8::char_u32_cast(c, u);
                vstd::utf8::char_u32_cast(' ', 0x20);
                assert(u != 0x20);
            } else {
                assert(vstd::utf8::leading_byte_width_2(u) >= 0xc0) by (bit_vector);
                assert(vstd::utf8::leading_byte_width_3(u) >= 0xe0) by (bit_vector);
                assert(vstd::utf8::leading_byte_width_4(u) >= 0xf0) by (bit_vector);
                assert(vstd::utf8::last_continuation_byte(u) >= 0x80) by (bit_vector);
                assert(vstd::utf8::second_last_continuation_byte(u) >= 0x80) by (bit_vector);
                assert(vstd::utf8::third_last_continuation_byte(u) >= 0x80) by (bit_vector);
            }
        }
        lemma_no_space_encode(chars.drop_first());
        assert(vstd::utf8::encode_utf8(chars) == first + vstd::utf8::encode_utf8(
            chars.drop_first(),
        ));
    }
}

/// Relies on String::from_utf8: it succeeds exactly on valid UTF-8 input,
/// and the UTF-8 bytes of the returned string are the input bytes.
#[verifier::external_body]
fn string_from_utf8(bytes: Vec<u8>) -> (r: Option<String>)
    ensures
        match r {
            Some(s) => vstd::utf8::valid_utf8(bytes@) && vstd::utf8::encode_utf8(s@) == bytes@,
            None => !vstd::utf8::valid_utf8(bytes@),
        },
{
    String::from_utf8(bytes).ok()
}

impl CoLaDataType for String {
    open spec fn wf_v(v: Seq<char>) -> bool {
        true
    }

    open spec fn wire_of(v: Seq<char>) -> Seq<u8> {
        vstd::utf8::encode_utf8(v)
    }

    open spec fn parse(s: Seq<u8>) -> Result<(Seq<char>, int), DecodeError> {
        let k = space_prefix_len(s);
        let b = s.take(k);
        if vstd::utf8::valid_utf8(b) {
            Ok((vstd::utf8::decode_utf8(b), if k < s.len() { k + 1 } else { k }))
        } else {
            Err(DecodeError::InvalidUtf8)
        }
    }

    open spec fn prefix_secure() -> bool {
        false
    }

    proof fn lemma_parse_len(s: Seq<u8>) {
        lemma_space_prefix_len_bounds(s);
    }

    proof fn lemma_wire_parse(v: Seq<char>, rest: Seq<u8>) {
    }

    fn write_to_data(&self, data: &mut Vec<u8>) {
        let mut bytes = vstd::string::StrSliceExecFns::as_bytes_vec(self.as_str());
        data.append(&mut bytes);
    }

    fn get_from_data(src: &Vec<u8>, pos: &mut usize) -> (r: Result<Self, DecodeError>) {
        let ghost start = *pos;
        let ghost rem = src@.skip(start as int);
        let mut bytes: Vec<u8> = Vec::new();
        let mut i: usize = *pos;
        while i < src.len() && src[i] != SPC
            invariant
                start <= i <= src@.len(),
                src@.len() == src.len(),
                bytes@ =~= src@.subrange(start as int, i as int),
                forall|j: int| start <= j < i ==> src@[j] != SPC,
            decreases src@.len() - i,
        {
            let b = src[i];
            bytes.push(b);
            i = i + 1;
            assert(bytes@ =~= src@.subrange(start as int, i as int));
        }
        proof {
            lemma_space_prefix(rem, i - start);
            assert(rem.take((i - start) as int) =~= src@.subrange(start as int, i as int));
        }
        let consumed_all = i == src.len();
        match string_from_utf8(bytes) {
            Some(s) => {
                if consumed_all {
                    *pos = i;
                } else {
                    // skip the delimiter itself
                    *pos = i + 1;
                }
                proof {
                    broadcast use vstd::utf8::encode_utf8_decode_utf8;

                    assert(s@ == vstd::utf8::decode_utf8(rem.take(space_prefix_len(rem))));
                }
                Ok(s)
            },
            None => Err(DecodeError::InvalidUtf8),
        }
    }
}

/// [`space_prefix_len`] stays within the bounds of its input.
pub proof fn lemma_space_prefix_len_bounds(s: Seq<u8>)
    ensures
        0 <= space_prefix_len(s) <= s.len(),
    decreases s.len(),
{
    if s.len() == 0 || s[0] == SPC {
    } else {
        lemma_space_prefix_len_bounds(s.skip(1));
    }
}

// --- element sequences, shared by lists ---

/// The concatenated encodings of a sequence of values.
pub open spec fn wire_elems<T: CoLaDataType>(v: Seq<T::V>) -> Seq<u8>
    decreases v.len(),
{
    if v.len() == 0 {
        Seq::empty()
    } else {
        T::wire_of(v[0]) + wire_elems::<T>(v.drop_first())
    }
}

/// Parses exactly `n` consecutive values.
pub open spec fn parse_elems<T: CoLaDataType>(s: Seq<u8>, n: nat) -> Result<
    (Seq<T::V>, int),
    DecodeError,
>
    decreases n,
{
    if n == 0 {
        Ok((Seq::empty(), 0))
    } else {
        match T::parse(s) {
            Err(e) => Err(e),
            Ok((v, k)) => match parse_elems::<T>(s.skip(k), (n - 1) as nat) {
                Err(e) => Err(e),
                Ok((vs, m)) => Ok((seq![v] + vs, k + m)),
            },
        }
    }
}

proof fn lemma_parse_elems_len<T: CoLaDataType>(s: Seq<u8>, n: nat)
    ensures
        parse_elems::<T>(s, n) matches Ok((vs, m)) ==> 0 <= m <= s.len() && vs.len() == n,
    decreases n,
{
    if n == 0 {
    } else {
        match T::parse(s) {
            Err(_) => {},
            Ok((v, k)) => {
                T::lemma_parse_len(s);
                lemma_parse_elems_len::<T>(s.skip(k), (n - 1) as nat);
            },
        }
    }
}

proof fn lemma_wire_elems_parse<T: CoLaDataType>(v: Seq<T::V>, rest: Seq<u8>)
    requires
        forall|i: int| 0 <= i < v.len() ==> T::wf_v(#[trigger] v[i]),
        T::prefix_secure(),
    ensures
        parse_elems::<T>(wire_elems::<T>(v) + rest, v.len() as nat) == Ok::<_, DecodeError>((
            v,
            wire_elems::<T>(v).len() as int,
        )),
    decreases v.len(),
{
    if v.len() == 0 {
        assert(wire_elems::<T>(v) + rest =~= rest);
        assert(v =~= Seq::<T::V>::empty());
    } else {
        let w0 = T::wire_of(v[0]);
        let tail = v.drop_first();
        let wt = wire_elems::<T>(tail);
        assert(wire_elems::<T>(v) + rest =~= w0 + (wt + rest));
        T::lemma_wire_parse(v[0], wt + rest);
        assert((w0 + (wt + rest)).skip(w0.len() as int) =~= wt + rest);
        lemma_wire_elems_parse::<T>(tail, rest);
        assert(seq![v[0]] + tail =~= v);
    }
}

impl<T: CoLaDataType> CoLaDataType for Vec<T> {
    open spec fn wf_v(v: Seq<T::V>) -> bool {
        v.len() <= 0xffff && forall|i: int| 0 <= i < v.len() ==> T::wf_v(#[trigger] v[i])
    }

    open spec fn wire_of(v: Seq<T::V>) -> Seq<u8> {
        be16_bytes(v.len() as u16) + wire_elems::<T>(v)
    }

    open spec fn parse(s: Seq<u8>) -> Result<(Seq<T::V>, int), DecodeError> {
        if s.len() < 2 {
            Err(DecodeError::Exhausted(ValueKind::U16))
        } else {
            let n = be16(s[0], s[1]);
            match parse_elems::<T>(s.skip(2), n as nat) {
                Err(e) => Err(e),
                Ok((vs, m)) => Ok((vs, 2 + m)),
            }
        }
    }

    open spec fn prefix_secure() -> bool {
        T::prefix_secure()
    }

    proof fn lemma_parse_len(s: Seq<u8>) {
        if s.len() >= 2 {
            lemma_parse_elems_len::<T>(s.skip(2), be16(s[0], s[1]) as nat);
        }
    }

    proof fn lemma_wire_parse(v: Seq<T::V>, rest: Seq<u8>) {
        let lenb = be16_bytes(v.len() as u16);
        let we = wire_elems::<T>(v);
        let s = Self::wire_of(v) + rest;
        assert(s =~= lenb + (we + rest));
        assert(s.len() >= 2);
        assert(be16(s[0], s[1]) == v.len() as u16);
        assert(s.skip(2) =~= we + rest);
        lemma_wire_elems_parse::<T>(v, rest);
    }

    fn write_to_data(&self, data: &mut Vec<u8>) {
        let ghost dv = self.deep_view();
        proof {
            assert(dv.len() == self@.len());
        }
        let n: u16 = self.len() as u16;
        n.write_to_data(data);
        let ghost base = data@;
        let mut i: usize = 0;
        while i < self.len()
            invariant
                i <= self@.len(),
                dv == self.deep_view(),
                dv.len() == self@.len(),
                forall|j: int| 0 <= j < dv.len() ==> T::wf_v(#[trigger] dv[j]),
                data@ == base + wire_elems::<T>(dv.take(i as int)),
            decreases self@.len() - i,
        {
            let ghost pre = data@;
            proof {
                assert(self@[i as int].deep_view() == dv[i as int]);
                assert(T::wf_v(dv[i as int]));
            }
            self[i].write_to_data(data);
            proof {
                assert(self@[i as int].deep_view() == dv[i as int]);
                lemma_wire_elems_snoc::<T>(dv.take(i as int), dv[i as int]);
                assert(dv.take(i as int).push(dv[i as int]) =~= dv.take(i + 1 as int));
            }
            i = i + 1;
        }
        proof {
            assert(dv.take(dv.len() as int) =~= dv);
            assert(final(data)@ =~= old(data)@ + Self::wire_of(dv));
        }
    }

    fn get_from_data(src: &Vec<u8>, pos: &mut usize) -> (r: Result<Self, DecodeError>) {
        let ghost start = *pos;
        let n = match u16::get_from_data(src, pos) {
            Ok(n) => n,
            Err(e) => {
                return Err(e);
            },
        };
        let ghost after_len = *pos;
        proof {
            assert(src@.skip(start as int).skip(2) =~= src@.skip(after_len as int));
        }
        let mut out: Vec<T> = Vec::new();
        let mut i: u16 = 0;
        while i < n
            invariant
                start == *old(pos),
                start + 2 == after_len,
                after_len <= *pos <= src@.len(),
                src@.len() == src.len(),
                i <= n,
                out@.len() == i as nat,
                src@.skip(start as int).len() >= 2,
                src@.skip(start as int).skip(2) == src@.skip(after_len as int),
                n == be16(src@.skip(start as int)[0], src@.skip(start as int)[1]),
                match parse_elems::<T>(src@.skip(*pos as int), (n - i) as nat) {
                    Ok((vs, m)) => parse_elems::<T>(
                        src@.skip(after_len as int),
                        n as nat,
                    ) == Ok::<_, DecodeError>((out.deep_view() + vs, *pos - after_len + m)),
                    Err(e) => parse_elems::<T>(src@.skip(after_len as int), n as nat) == Err::<
                        (Seq<T::V>, int),
                        _,
                    >(e),
                },
            decreases n - i,
        {
            let ghost pre = *pos;
            let ghost out_pre = out.deep_view();
            match T::get_from_data(src, pos) {
                Ok(v) => {
                    proof {
                        T::lemma_parse_len(src@.skip(pre as int));
                        assert(src@.skip(pre as int).skip((*pos - pre) as int) =~= src@.skip(
                            *pos as int,
                        ));
                    }
                    out.push(v);
                    i = i + 1;
                    proof {
                        assert(out.deep_view() =~= out_pre.push(v.deep_view()));
                        match parse_elems::<T>(src@.skip(*pos as int), (n - i) as nat) {
                            Ok((vs, m)) => {
                                assert(out_pre + (seq![v.deep_view()] + vs) =~= out.deep_view()
                                    + vs);
                            },
                            Err(_) => {},
                        }
                    }
                },
                Err(e) => {
                    proof {
                        assert(parse_elems::<T>(src@.skip(pre as int), (n - i) as nat) == Err::<
                            (Seq<T::V>, int),
                            DecodeError,
                        >(e));
                    }
                    return Err(e);
                },
            }
        }
        proof {
            assert(parse_elems::<T>(src@.skip(*pos as int), 0) == Ok::<_, DecodeError>((
                Seq::<T::V>::empty(),
                0int,
            )));
            assert(out.deep_view() + Seq::<T::V>::empty() =~= out.deep_view());
        }
        Ok(out)
    }
}

proof fn lemma_wire_elems_snoc<T: CoLaDataType>(v: Seq<T::V>, x: T::V)
    ensures
        wire_elems::<T>(v.push(x)) == wire_elems::<T>(v) + T::wire_of(x),
    decreases v.len(),
{
    if v.len() == 0 {
        assert(v.push(x) =~= seq![x]);
        assert(seq![x][0] == x);
        assert(seq![x].drop_first() =~= Seq::<T::V>::empty());
        assert(wire_elems::<T>(Seq::<T::V>::empty()) =~= Seq::<u8>::empty());
        assert(wire_elems::<T>(seq![x]) =~= T::wire_of(x) + Seq::<u8>::empty());
        assert(wire_elems::<T>(v.push(x)) =~= wire_elems::<T>(v) + T::wire_of(x));
    } else {
        assert(v.push(x).drop_first() =~= v.drop_first().push(x));
        lemma_wire_elems_snoc::<T>(v.drop_first(), x);
        assert(wire_elems::<T>(v.push(x)) =~= wire_elems::<T>(v) + T::wire_of(x));
    }
}

impl<T: CoLaDataType> CoLaDataType for Option<T> {
    open spec fn wf_v(v: Option<T::V>) -> bool {
        v matches Some(x) ==> T::wf_v(x)
    }

    open spec fn wire_of(v: Option<T::V>) -> Seq<u8> {
        match v {
            Some(x) => be16_bytes(1) + T::wire_of(x),
            None => be16_bytes(0),
        }
    }

    open spec fn parse(s: Seq<u8>) -> Result<(Option<T::V>, int), DecodeError> {
        if s.len() < 2 {
            Err(DecodeError::Exhausted(ValueKind::U16))
        } else {
            let ctrl = be16(s[0], s[1]);
            if ctrl == 1 {
                match T::parse(s.skip(2)) {
                    Err(e) => Err(e),
                    Ok((x, k)) => Ok((Some(x), 2 + k)),
                }
            } else if ctrl == 0 {
                Ok((None, 2))
            } else {
                Err(DecodeError::InvalidControlCode(ctrl))
            }
        }
    }

    open spec fn prefix_secure() -> bool {
        T::prefix_secure()
    }

    proof fn lemma_parse_len(s: Seq<u8>) {
        if s.len() >= 2 && be16(s[0], s[1]) == 1 {
            T::lemma_parse_len(s.skip(2));
        }
    }

    proof fn lemma_wire_parse(v: Option<T::V>, rest: Seq<u8>) {
        match v {
            Some(x) => {
                let w = T::wire_of(x);
                let s = Self::wire_of(v) + rest;
                assert(s =~= be16_bytes(1) + (w + rest));
                assert(be16(s[0], s[1]) == 1);
                assert(s.skip(2) =~= w + rest);
                T::lemma_wire_parse(x, rest);
            },
            None => {
                let s = Self::wire_of(v) + rest;
                assert(be16(s[0], s[1]) == 0);
            },
        }
    }

    fn write_to_data(&self, data: &mut Vec<u8>) {
        match self {
            Some(x) => {
                let ctrl: u16 = 1;
                ctrl.write_to_data(data);
                x.write_to_data(data);
                assert(final(data)@ =~= old(data)@ + Self::wire_of(self.deep_view()));
            },
            None => {
                let ctrl: u16 = 0;
                ctrl.write_to_data(data);
                assert(final(data)@ =~= old(data)@ + Self::wire_of(self.deep_view()));
            },
        }
    }

    fn get_from_data(src: &Vec<u8>, pos: &mut usize) -> (r: Result<Self, DecodeError>) {
        let ghost start = *pos;
        let ctrl = match u16::get_from_data(src, pos) {
            Ok(c) => c,
            Err(e) => {
                return Err(e);
            },
        };
        if ctrl == 1 {
            let ghost pre = *pos;
            match T::get_from_data(src, pos) {
                Ok(x) => {
                    proof {
                        assert(src@.skip(start as int).skip(2) =~= src@.skip(pre as int));
                    }
                    Ok(Some(x))
                },
                Err(e) => {
                    proof {
                        assert(src@.skip(start as int).skip(2) =~= src@.skip(pre as int));
                    }
                    Err(e)
                },
            }
        } else if ctrl == 0 {
            Ok(None)
        } else {
            Err(DecodeError::InvalidControlCode(ctrl))
        }
    }
}

// --- the round-trip laws ---

/// Round trip: for every prefix-secure CoLa field type, decoding an encoded
/// value gives the value back and consumes exactly its encoding.
pub proof fn lemma_cola_round_trip<T: CoLaDataType>(v: T::V)
    requires
        T::wf_v(v),
        T::prefix_secure(),
    ensures
        T::parse(T::wire_of(v)) == Ok::<_, DecodeError>((v, T::wire_of(v).len() as int)),
{
    T::lemma_wire_parse(v, Seq::empty());
    assert(T::wire_of(v) + Seq::<u8>::empty() =~= T::wire_of(v));
}

/// Round trip for text: decoding the encoding of a string without embedded
/// spaces gives the string back and consumes the whole buffer.
pub proof fn lemma_string_round_trip(v: Seq<char>)
    requires
        forall|i: int| 0 <= i < v.len() ==> v[i] != ' ',
    ensures
        <String as CoLaDataType>::parse(vstd::utf8::encode_utf8(v)) == Ok::<_, DecodeError>((
            v,
            vstd::utf8::encode_utf8(v).len() as int,
        )),
{
    broadcast use vstd::utf8::encode_utf8_valid_utf8, vstd::utf8::encode_utf8_decode_utf8;

    let w = vstd::utf8::encode_utf8(v);
    lemma_no_space_encode(v);
    lemma_space_prefix(w, w.len() as int);
    assert(w.take(w.len() as int) =~= w);
}


// --- framing ---

/// The XOR of all bytes in a sequence; the CoLa frame checksum.
pub open spec fn xor_all(s: Seq<u8>) -> u8
    decreases s.len(),
{
    if s.len() == 0 {
        0
    } else {
        xor_all(s.drop_last()) ^ s.last()
    }
}

/// One complete CoLa frame around a payload: the four magic bytes, the
/// big-endian payload length, the payload, and the XOR checksum byte.
pub open spec fn frame_bytes(payload: Seq<u8>) -> Seq<u8> {
    seq![2u8, 2u8, 2u8, 2u8] + be32_bytes(payload.len() as u32) + payload + seq![xor_all(payload)]
}

/// Splits a byte buffer holding exactly one CoLa frame into its payload, or
/// says what disqualifies it. The checksum is checked here, before any field
/// of the payload is decoded.
pub open spec fn parse_frame_spec(s: Seq<u8>) -> Result<Seq<u8>, FrameError> {
    if s.len() < 8 {
        Err(FrameError::TooShort)
    } else if !(s[0] == 2 && s[1] == 2 && s[2] == 2 && s[3] == 2) {
        Err(FrameError::BadMagic)
    } else {
        let n = be32(s[4], s[5], s[6], s[7]) as int;
        if s.len() != 9 + n {
            Err(FrameError::LengthMismatch)
        } else {
            let payload = s.subrange(8, 8 + n);
            if s[8 + n] != xor_all(payload) {
                Err(FrameError::BadChecksum)
            } else {
                Ok(payload)
            }
        }
    }
}

/// The helpers shared by both directions of the CoLa protocol: command
/// prefixes and framing.
pub struct CoLaUtil;

/// The bytes that open every command payload: the three command-class bytes,
/// a space, the command name, and another space.
pub open spec fn command_prefix(class: Seq<u8>, name: Seq<char>) -> Seq<u8> {
    class + seq![SPC] + vstd::utf8::encode_utf8(name) + seq![SPC]
}

impl CoLaUtil {
    /// Starts a command payload: command-class tag, space, command name,
    /// space, ready for the command's fields to follow.
    pub fn vec_from_command(cmd_type: [u8; 3], cmd: &str) -> (r: Vec<u8>)
        ensures
            r@ == command_prefix(cmd_type@, cmd@),
    {
        let mut out: Vec<u8> = Vec::new();
        out.push(cmd_type[0]);
        out.push(cmd_type[1]);
        out.push(cmd_type[2]);
        out.push(SPC);
        let mut name = vstd::string::StrSliceExecFns::as_bytes_vec(cmd);
        out.append(&mut name);
        out.push(SPC);
        assert(out@ =~= command_prefix(cmd_type@, cmd@));
        out
    }

    /// [`Self::vec_from_command`], taking its two arguments as one tuple.
    pub fn vec_from_command_tuple(input: ([u8; 3], &str)) -> (r: Vec<u8>)
        ensures
            r@ == command_prefix(input.0@, input.1@),
    {
        CoLaUtil::vec_from_command(input.0, input.1)
    }

    /// Wraps a payload into one CoLa frame, draining the payload buffer:
    /// magic, big-endian length, payload bytes, XOR checksum.
    pub fn setup_vec(input: &mut Vec<u8>) -> (r: Vec<u8>)
        requires
            old(input)@.len() <= u32::MAX,
        ensures
            r@ == frame_bytes(old(input)@),
            final(input)@.len() == 0,
    {
        let len: u32 = input.len() as u32;
        let mut output: Vec<u8> = vec![2u8, 2u8, 2u8, 2u8];
        len.write_to_data(&mut output);
        let mut check: u8 = 0x00;
        let mut i: usize = 0;
        while i < input.len()
            invariant
                i <= input@.len(),
                check == xor_all(input@.take(i as int)),
            decreases input@.len() - i,
        {
            check = check ^ input[i];
            i = i + 1;
            assert(input@.take(i as int).drop_last() =~= input@.take(i - 1));
        }
        assert(input@.take(input@.len() as int) =~= input@);
        output.append(input);
        output.push(check);
        assert(output@ =~= frame_bytes(old(input)@));
        output
    }

    /// Takes apart a buffer holding exactly one CoLa frame: checks the
    /// magic, the announced length and the checksum, in that order, and
    /// hands back the payload. No field of a frame that fails any of these
    /// checks is ever decoded.
    pub fn parse_frame(data: &Vec<u8>) -> (r: Result<Vec<u8>, FrameError>)
        ensures
            match r {
                Ok(p) => parse_frame_spec(data@) == Ok::<_, FrameError>(p@),
                Err(e) => parse_frame_spec(data@) == Err::<Seq<u8>, _>(e),
            },
    {
        if data.len() < 8 {
            return Err(FrameError::TooShort);
        }
        if !(data[0] == 2 && data[1] == 2 && data[2] == 2 && data[3] == 2) {
            return Err(FrameError::BadMagic);
        }
        let n: u32 = (data[4] as u32) * 0x1000000 + (data[5] as u32) * 0x10000 + (data[6] as u32)
            * 0x100 + (data[7] as u32);
        if (data.len() - 8) as u64 != (n as u64) + 1 {
            return Err(FrameError::LengthMismatch);
        }
        let mut payload: Vec<u8> = Vec::new();
        let mut check: u8 = 0x00;
        let last = data.len() - 1;
        let mut i: usize = 8;
        while i < last
            invariant
                last == data@.len() - 1,
                8 <= i <= last,
                payload@ =~= data@.subrange(8, i as int),
                check == xor_all(data@.subrange(8, i as int)),
            decreases last - i,
        {
            let b = data[i];
            payload.push(b);
            check = check ^ b;
            i = i + 1;
            assert(data@.subrange(8, i as int).drop_last() =~= data@.subrange(8, i - 1));
            assert(payload@ =~= data@.subrange(8, i as int));
        }
        if data[data.len() - 1] != check {
            return Err(FrameError::BadChecksum);
        }
        Ok(payload)
    }
}

/// Frame integrity, the rejecting half: a frame whose checksum byte does not
/// match its payload is refused outright, whatever else it holds.
pub proof fn lemma_corrupt_checksum_rejected(payload: Seq<u8>, check: u8)
    requires
        payload.len() <= u32::MAX,
        check != xor_all(payload),
    ensures
        parse_frame_spec(
            seq![2u8, 2u8, 2u8, 2u8] + be32_bytes(payload.len() as u32) + payload + seq![check],
        ) == Err::<Seq<u8>, _>(FrameError::BadChecksum),
{
    let s = seq![2u8, 2u8, 2u8, 2u8] + be32_bytes(payload.len() as u32) + payload + seq![check];
    let lb = be32_bytes(payload.len() as u32);
    assert(be32(lb[0], lb[1], lb[2], lb[3]) == payload.len() as u32);
    assert(s.len() == 9 + payload.len());
    assert(s.subrange(8, 8 + payload.len() as int) =~= payload);
    assert(s[8 + payload.len() as int] == check);
}

/// Frame integrity, the accepting half: a frame built around a payload, with
/// the checksum that belongs to it, gives that payload back.
pub proof fn lemma_frame_round_trip(payload: Seq<u8>)
    requires
        payload.len() <= u32::MAX,
    ensures
        parse_frame_spec(frame_bytes(payload)) == Ok::<_, FrameError>(payload),
{
    let s = frame_bytes(payload);
    let lb = be32_bytes(payload.len() as u32);
    assert(be32(lb[0], lb[1], lb[2], lb[3]) == payload.len() as u32);
    assert(s.len() == 9 + payload.len());
    assert(s.subrange(8, 8 + payload.len() as int) =~= payload);
    assert(s[8 + payload.len() as int] == xor_all(payload));
}

} // verus!
