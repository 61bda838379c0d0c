use vstd::prelude::*;

verus! {

/// The closed set of storage kinds a field can have.
///
/// The two hash-flavored kinds (`CRC32`, `MMH3`) decode exactly like `UInt32`;
/// they are kept apart only for their meaning. `Float32` and `Float64` values
/// are decoded to their little-endian IEEE bit patterns.
#[derive(Clone, Copy, Debug, PartialEq, Eq, Structural)]
pub enum DataType {
    /// An opaque blob of `size` raw bytes, kept uninterpreted.
    BitField,
    S8,
    U8,
    Int16,
    UInt16,
    Int32,
    UInt32,
    CRC32,
    MMH3,
    Float32,
    Float64,
    /// `size` bytes, truncated at the first zero byte and decoded as text.
    String,
}

/// How many bytes a fixed-width kind reads. `BitField` and `String` read the
/// field's derived size instead and are not fixed-width.
pub open spec fn fixed_width(dt: DataType) -> int {
    match dt {
        DataType::BitField => 0,
        DataType::S8 => 1,
        DataType::U8 => 1,
        DataType::Int16 => 2,
        DataType::UInt16 => 2,
        DataType::Int32 => 4,
        DataType::UInt32 => 4,
        DataType::CRC32 => 4,
        DataType::MMH3 => 4,
        DataType::Float32 => 4,
        DataType::Float64 => 8,
        DataType::String => 0,
    }
}

/// Whether a kind reads a run of `size` bytes rather than a fixed width.
pub open spec fn is_sized_kind(dt: DataType) -> bool {
    dt is BitField || dt is String
}

} // verus!
