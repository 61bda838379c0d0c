use vstd::prelude::*;

verus! {

/// Why a decode failed. Fatal errors are parse-wide: no partial table is ever
/// returned.
#[derive(Clone, Copy, Debug, PartialEq, Eq, Structural)]
pub enum BcsvError {
    /// The extended header was flagged but its magic tag was not `VSCB`.
    BadMagic,
    /// A read or seek would pass the end of the buffer, or a field's derived
    /// placement is nonsensical (negative offset or size).
    UnexpectedEof,
}

impl BcsvError {
    /// A short description of the error, for callers that report it.
    pub fn describe(&self) -> (r: &'static str)
        ensures
            *self is BadMagic ==> r@ == "invalid BCSV magic"@,
            *self is UnexpectedEof ==> r@ == "unexpected end of input"@,
    {
        match self {
            BcsvError::BadMagic => "invalid BCSV magic",
            BcsvError::UnexpectedEof => "unexpected end of input",
        }
    }
}

} // verus!
