use vstd::prelude::*;

use crate::data_type::DataType;

verus! {

/// One column of the table.
///
/// The file stores only `hash` and `offset`; `size` is always derived from the
/// next field's offset (or from the record width for the last field), and
/// `data_type` is chosen by the decoder.
#[derive(Clone, Copy, Debug, PartialEq, Eq, Structural)]
pub struct Field {
    /// The column's stable 32-bit identifier.
    pub hash: u32,
    /// Byte offset of this field's value inside one record's value block.
    pub offset: i32,
    /// Derived byte width; never read from the file.
    pub size: i32,
    /// Storage kind chosen by the decoder.
    pub data_type: DataType,
}

} // verus!
