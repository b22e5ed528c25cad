//! The errors the library reports: failed number parses, conflicting or
//! underivable range arguments, and a source that ends before the requested
//! start offset is reached. I/O errors stay with the caller that does the I/O.

use vstd::prelude::*;

verus! {

/// What can go wrong inside the dump pipeline itself.
#[derive(Clone, Copy, PartialEq, Eq, Structural, Debug)]
pub enum HexError {
    /// A `--start`/`--end`/`--num` value is not valid decimal or `0x`-hex,
    /// or does not fit in `usize`.
    ParseNumber,
    /// The range arguments conflict: all three of start/end/num were given,
    /// a derived bound cannot be represented, or start exceeds end.
    InvalidArguments,
    /// The source ended before `start` bytes could be skipped: the requested
    /// range exceeds the input's length.
    UnexpectedEndOfSource,
}

impl HexError {
    /// The one-line human-readable message for this error.
    pub fn message(&self) -> (r: &'static str)
        ensures
            *self is ParseNumber ==> r@ == "value is not a valid decimal or 0x-prefixed hex number"@,
            *self is InvalidArguments ==> r@ == "invalid range: specify at most two of start, end and num, with start <= end"@,
            *self is UnexpectedEndOfSource ==> r@ == "unexpected end of input while skipping to start offset"@,
    {
        match self {
            HexError::ParseNumber => "value is not a valid decimal or 0x-prefixed hex number",
            HexError::InvalidArguments => "invalid range: specify at most two of start, end and num, with start <= end",
            HexError::UnexpectedEndOfSource => "unexpected end of input while skipping to start offset",
        }
    }
}

} // verus!
