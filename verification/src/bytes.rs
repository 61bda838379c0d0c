use vstd::prelude::*;

use crate::error::BcsvError;

verus! {

/// The unsigned value of the little-endian 16-bit word at `i`.
pub open spec fn le_u16_at(s: Seq<u8>, i: int) -> int {
    s[i] + 0x100 * s[i + 1]
}

/// The unsigned value of the little-endian 32-bit word at `i`.
pub open spec fn le_u32_at(s: Seq<u8>, i: int) -> int {
    s[i] + 0x100 * s[i + 1] + 0x1_0000 * s[i + 2] + 0x100_0000 * s[i + 3]
}

/// The unsigned value of the little-endian 64-bit word at `i`.
pub open spec fn le_u64_at(s: Seq<u8>, i: int) -> int {
    le_u32_at(s, i) + 0x1_0000_0000 * le_u32_at(s, i + 4)
}

/// The value of an 8-bit word reinterpreted as a signed (two's complement)
/// integer.
pub open spec fn as_signed_8(u: int) -> int {
    if u < 0x80 {
        u
    } else {
        u - 0x100
    }
}

/// The value of a 16-bit word reinterpreted as a signed integer.
pub open spec fn as_signed_16(u: int) -> int {
    if u < 0x8000 {
        u
    } else {
        u - 0x1_0000
    }
}

/// The value of a 32-bit word reinterpreted as a signed integer.
pub open spec fn as_signed_32(u: int) -> int {
    if u < 0x8000_0000 {
        u
    } else {
        u - 0x1_0000_0000
    }
}

/// Reinterprets the bits of a `u32` as an `i32`.
pub fn i32_from_bits(u: u32) -> (r: i32)
    ensures
        r == as_signed_32(u as int),
{
    if u < 0x8000_0000 {
        u as i32
    } else {
        let d: u32 = u - 0x8000_0000;
        i32::MIN + (d as i32)
    }
}

/// Reinterprets the bits of a `u16` as an `i16`.
pub fn i16_from_bits(u: u16) -> (r: i16)
    ensures
        r == as_signed_16(u as int),
{
    if u < 0x8000 {
        u as i16
    } else {
        let d: u16 = u - 0x8000;
        i16::MIN + (d as i16)
    }
}

/// Reinterprets the bits of a `u8` as an `i8`.
pub fn i8_from_bits(u: u8) -> (r: i8)
    ensures
        r == as_signed_8(u as int),
{
    if u < 0x80 {
        u as i8
    } else {
        let d: u8 = u - 0x80;
        i8::MIN + (d as i8)
    }
}

/// Reads the byte at `pos`, or fails when the buffer is too short.
pub fn read_u8_at(bytes: &[u8], pos: usize) -> (r: Result<u8, BcsvError>)
    ensures
        r is Ok <==> pos + 1 <= bytes@.len(),
        r matches Ok(v) ==> v == bytes@[pos as int],
        r matches Err(e) ==> e == BcsvError::UnexpectedEof,
{
    if pos < bytes.len() {
        Ok(bytes[pos])
    } else {
        Err(BcsvError::UnexpectedEof)
    }
}

/// Reads the little-endian `u16` at `pos`, or fails when the buffer is too
/// short.
pub fn read_u16_le(bytes: &[u8], pos: usize) -> (r: Result<u16, BcsvError>)
    ensures
        r is Ok <==> pos + 2 <= bytes@.len(),
        r matches Ok(v) ==> v == le_u16_at(bytes@, pos as int),
        r matches Err(e) ==> e == BcsvError::UnexpectedEof,
{
    if bytes.len() >= 2 && pos <= bytes.len() - 2 {
        let b0 = bytes[pos] as u16;
        let b1 = bytes[pos + 1] as u16;
        Ok(b0 + 0x100 * b1)
    } else {
        Err(BcsvError::UnexpectedEof)
    }
}

/// Reads the little-endian `u32` at `pos`, or fails when the buffer is too
/// short.
pub fn read_u32_le(bytes: &[u8], pos: usize) -> (r: Result<u32, BcsvError>)
    ensures
        r is Ok <==> pos + 4 <= bytes@.len(),
        r matches Ok(v) ==> v == le_u32_at(bytes@, pos as int),
        r matches Err(e) ==> e == BcsvError::UnexpectedEof,
{
    if bytes.len() >= 4 && pos <= bytes.len() - 4 {
        let b0 = bytes[pos] as u32;
        let b1 = bytes[pos + 1] as u32;
        let b2 = bytes[pos + 2] as u32;
        let b3 = bytes[pos + 3] as u32;
        Ok(b0 + 0x100 * b1 + 0x1_0000 * b2 + 0x100_0000 * b3)
    } else {
        Err(BcsvError::UnexpectedEof)
    }
}

/// Reads the little-endian `u64` at `pos`, or fails when the buffer is too
/// short.
pub fn read_u64_le(bytes: &[u8], pos: usize) -> (r: Result<u64, BcsvError>)
    ensures
        r is Ok <==> pos + 8 <= bytes@.len(),
        r matches Ok(v) ==> v == le_u64_at(bytes@, pos as int),
        r matches Err(e) ==> e == BcsvError::UnexpectedEof,
{
    if bytes.len() >= 8 && pos <= bytes.len() - 8 {
        let lo = match read_u32_le(bytes, pos) {
            Ok(v) => v,
            Err(e) => {
                return Err(e);
            },
        };
        let hi = match read_u32_le(bytes, pos + 4) {
            Ok(v) => v,
            Err(e) => {
                return Err(e);
            },
        };
        Ok(lo as u64 + 0x1_0000_0000 * (hi as u64))
    } else {
        Err(BcsvError::UnexpectedEof)
    }
}

/// Reads the little-endian `i32` at `pos`, or fails when the buffer is too
/// short.
pub fn read_i32_le(bytes: &[u8], pos: usize) -> (r: Result<i32, BcsvError>)
    ensures
        r is Ok <==> pos + 4 <= bytes@.len(),
        r matches Ok(v) ==> v == as_signed_32(le_u32_at(bytes@, pos as int)),
        r matches Err(e) ==> e == BcsvError::UnexpectedEof,
{
    match read_u32_le(bytes, pos) {
        Ok(u) => Ok(i32_from_bits(u)),
        Err(e) => Err(e),
    }
}

/// Reads the little-endian `i16` at `pos`, or fails when the buffer is too
/// short.
pub fn read_i16_le(bytes: &[u8], pos: usize) -> (r: Result<i16, BcsvError>)
    ensures
        r is Ok <==> pos + 2 <= bytes@.len(),
        r matches Ok(v) ==> v == as_signed_16(le_u16_at(bytes@, pos as int)),
        r matches Err(e) ==> e == BcsvError::UnexpectedEof,
{
    match read_u16_le(bytes, pos) {
        Ok(u) => Ok(i16_from_bits(u)),
        Err(e) => Err(e),
    }
}

/// Reads the byte at `pos` as a signed integer, or fails when the buffer is
/// too short.
pub fn read_i8_at(bytes: &[u8], pos: usize) -> (r: Result<i8, BcsvError>)
    ensures
        r is Ok <==> pos + 1 <= bytes@.len(),
        r matches Ok(v) ==> v == as_signed_8(bytes@[pos as int] as int),
        r matches Err(e) ==> e == BcsvError::UnexpectedEof,
{
    match read_u8_at(bytes, pos) {
        Ok(u) => Ok(i8_from_bits(u)),
        Err(e) => Err(e),
    }
}

} // verus!
