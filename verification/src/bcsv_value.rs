use vstd::prelude::*;

use crate::bytes::{
    as_signed_16, as_signed_32, as_signed_8, le_u16_at, le_u32_at, le_u64_at, read_i16_le,
    read_i32_le, read_i8_at, read_u16_le, read_u32_le, read_u64_le, read_u8_at,
};
use crate::data_type::{fixed_width, is_sized_kind, DataType};
use crate::error::BcsvError;
use crate::text::{find_first_zero, first_zero, lemma_first_zero, lossy_utf8_of, utf8_lossy};
use vstd::slice::{slice_subrange, slice_to_vec};

verus! {

/// One decoded field value.
///
/// `Float` and `Double` carry the little-endian IEEE 754 bit patterns read
/// from the buffer, left uninterpreted; a caller that wants the numeric value
/// reassembles it from the bits.
#[derive(Clone, Debug, PartialEq)]
pub enum BCSVValue {
    Byte(u8),
    SByte(i8),
    Short(i16),
    UShort(u16),
    Int(i32),
    UInt(u32),
    /// The bits of a 32-bit IEEE 754 value.
    Float(u32),
    /// The bits of a 64-bit IEEE 754 value.
    Double(u64),
    String(String),
    Bytes(Vec<u8>),
}

/// Which value variant a storage kind decodes to.
pub open spec fn value_has_type(v: BCSVValue, dt: DataType) -> bool {
    match dt {
        DataType::BitField => v is Bytes,
        DataType::S8 => v is SByte,
        DataType::U8 => v is Byte,
        DataType::Int16 => v is Short,
        DataType::UInt16 => v is UShort,
        DataType::Int32 => v is Int,
        DataType::UInt32 => v is UInt,
        DataType::CRC32 => v is UInt,
        DataType::MMH3 => v is UInt,
        DataType::Float32 => v is Float,
        DataType::Float64 => v is Double,
        DataType::String => v is String,
    }
}

/// The bytes of a string field before text decoding: `size` raw bytes starting
/// at `at`, cut at the first zero byte.
pub open spec fn string_payload(s: Seq<u8>, at: int, size: int) -> Seq<u8> {
    let raw = s.subrange(at, at + size);
    raw.take(first_zero(raw))
}

/// Whether decoding a value of kind `dt` with derived size `size` at absolute
/// offset `at` stays inside a buffer of `len` bytes. For the sized kinds a
/// negative size is out of bounds by definition: a field whose derived size
/// is nonsensical must fail rather than read garbage.
pub open spec fn value_in_bounds(len: int, at: int, size: int, dt: DataType) -> bool {
    if is_sized_kind(dt) {
        at >= 0 && size >= 0 && at + size <= len
    } else {
        at >= 0 && at + fixed_width(dt) <= len
    }
}

/// What the decoded value of kind `dt` at absolute offset `at` of buffer `s`
/// is.
pub open spec fn value_matches(v: BCSVValue, s: Seq<u8>, at: int, size: int, dt: DataType) -> bool {
    match dt {
        DataType::BitField => v matches BCSVValue::Bytes(b) && b@ == s.subrange(at, at + size),
        DataType::S8 => v matches BCSVValue::SByte(x) && x == as_signed_8(s[at] as int),
        DataType::U8 => v matches BCSVValue::Byte(x) && x == s[at],
        DataType::Int16 => v matches BCSVValue::Short(x) && x == as_signed_16(le_u16_at(s, at)),
        DataType::UInt16 => v matches BCSVValue::UShort(x) && x == le_u16_at(s, at),
        DataType::Int32 => v matches BCSVValue::Int(x) && x == as_signed_32(le_u32_at(s, at)),
        DataType::UInt32 => v matches BCSVValue::UInt(x) && x == le_u32_at(s, at),
        DataType::CRC32 => v matches BCSVValue::UInt(x) && x == le_u32_at(s, at),
        DataType::MMH3 => v matches BCSVValue::UInt(x) && x == le_u32_at(s, at),
        DataType::Float32 => v matches BCSVValue::Float(x) && x == le_u32_at(s, at),
        DataType::Float64 => v matches BCSVValue::Double(x) && x == le_u64_at(s, at),
        DataType::String => v matches BCSVValue::String(t) && t@ == lossy_utf8_of(
            string_payload(s, at, size),
        ),
    }
}

/// A value that matches a storage kind is of the variant that kind calls for.
pub proof fn lemma_value_matches_has_type(
    v: BCSVValue,
    s: Seq<u8>,
    at: int,
    size: int,
    dt: DataType,
)
    requires
        value_matches(v, s, at, size, dt),
    ensures
        value_has_type(v, dt),
{
}

/// How many buffer bytes a decode of kind `dt` with derived size `size`
/// reads.
pub open spec fn value_width(dt: DataType, size: int) -> int {
    if is_sized_kind(dt) {
        size
    } else {
        fixed_width(dt)
    }
}

/// A decoded value depends only on the bytes of its own block: two buffers
/// that agree on the `value_width` bytes at `at` decode to the same value
/// there. Records rooted at different positions therefore decode
/// independently, even when their blocks are adjacent.
pub proof fn lemma_value_local(
    v: BCSVValue,
    s1: Seq<u8>,
    s2: Seq<u8>,
    at: int,
    size: int,
    dt: DataType,
)
    requires
        value_in_bounds(s1.len() as int, at, size, dt),
        value_in_bounds(s2.len() as int, at, size, dt),
        s1.subrange(at, at + value_width(dt, size)) == s2.subrange(at, at + value_width(dt, size)),
        value_matches(v, s1, at, size, dt),
    ensures
        value_matches(v, s2, at, size, dt),
{
    let w = value_width(dt, size);
    assert forall|i: int| at <= i < at + w implies s1[i] == s2[i] by {
        assert(s1.subrange(at, at + w)[i - at] == s2.subrange(at, at + w)[i - at]);
    }
    if is_sized_kind(dt) {
        assert(s1.subrange(at, at + size) =~= s2.subrange(at, at + size));
    }
}

/// Decodes one value of kind `dt` with derived size `size` at absolute offset
/// `at`. Succeeds exactly when the read stays inside the buffer (for the
/// sized kinds this includes the size being non-negative); any failure is an
/// end-of-input error.
pub fn decode_value(bytes: &[u8], at: usize, size: i32, dt: DataType) -> (r: Result<
    BCSVValue,
    BcsvError,
>)
    ensures
        r is Ok <==> value_in_bounds(bytes@.len() as int, at as int, size as int, dt),
        r matches Ok(v) ==> value_matches(v, bytes@, at as int, size as int, dt),
        r matches Err(e) ==> e == BcsvError::UnexpectedEof,
{
    match dt {
        DataType::BitField => match read_raw(bytes, at, size) {
            Ok(buf) => Ok(BCSVValue::Bytes(buf)),
            Err(e) => Err(e),
        },
        DataType::S8 => match read_i8_at(bytes, at) {
            Ok(v) => Ok(BCSVValue::SByte(v)),
            Err(e) => Err(e),
        },
        DataType::U8 => match read_u8_at(bytes, at) {
            Ok(v) => Ok(BCSVValue::Byte(v)),
            Err(e) => Err(e),
        },
        DataType::Int16 => match read_i16_le(bytes, at) {
            Ok(v) => Ok(BCSVValue::Short(v)),
            Err(e) => Err(e),
        },
        DataType::UInt16 => match read_u16_le(bytes, at) {
            Ok(v) => Ok(BCSVValue::UShort(v)),
            Err(e) => Err(e),
        },
        DataType::Int32 => match read_i32_le(bytes, at) {
            Ok(v) => Ok(BCSVValue::Int(v)),
            Err(e) => Err(e),
        },
        DataType::UInt32 => match read_u32_le(bytes, at) {
            Ok(v) => Ok(BCSVValue::UInt(v)),
            Err(e) => Err(e),
        },
        DataType::CRC32 => match read_u32_le(bytes, at) {
            Ok(v) => Ok(BCSVValue::UInt(v)),
            Err(e) => Err(e),
        },
        DataType::MMH3 => match read_u32_le(bytes, at) {
            Ok(v) => Ok(BCSVValue::UInt(v)),
            Err(e) => Err(e),
        },
        DataType::Float32 => match read_u32_le(bytes, at) {
            Ok(v) => Ok(BCSVValue::Float(v)),
            Err(e) => Err(e),
        },
        DataType::Float64 => match read_u64_le(bytes, at) {
            Ok(v) => Ok(BCSVValue::Double(v)),
            Err(e) => Err(e),
        },
        DataType::String => match read_raw(bytes, at, size) {
            Ok(buf) => {
                let cut = find_first_zero(buf.as_slice());
                proof {
                    lemma_first_zero(buf@);
                }
                let payload = slice_subrange(buf.as_slice(), 0, cut);
                let text = utf8_lossy(payload);
                proof {
                    assert(payload@ =~= string_payload(
                        bytes@,
                        at as int,
                        size as int,
                    ));
                }
                Ok(BCSVValue::String(text))
            },
            Err(e) => Err(e),
        },
    }
}

/// Reads `size` raw bytes at `at`, or fails when the run would leave the
/// buffer or the size is negative.
fn read_raw(bytes: &[u8], at: usize, size: i32) -> (r: Result<Vec<u8>, BcsvError>)
    ensures
        r is Ok <==> (size >= 0 && at + size <= bytes@.len()),
        r matches Ok(v) ==> v@ == bytes@.subrange(at as int, at as int + size as int),
        r matches Err(e) ==> e == BcsvError::UnexpectedEof,
{
    if size < 0 {
        return Err(BcsvError::UnexpectedEof);
    }
    let n = size as usize;
    if at > bytes.len() || bytes.len() - at < n {
        return Err(BcsvError::UnexpectedEof);
    }
    let raw = slice_subrange(bytes, at, at + n);
    Ok(slice_to_vec(raw))
}

} // verus!
