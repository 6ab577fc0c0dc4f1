//! Why a row or a tile could not be decoded.
use vstd::prelude::*;

verus! {

/// Every failure of row resolution, reader construction or tile decoding.
#[derive(Clone, Copy, Debug, PartialEq, Eq)]
pub enum TileError {
    /// A heap descriptor holds a negative size.
    NegativeSize,
    /// A heap descriptor holds a negative offset.
    NegativeOffset,
    /// Two data columns of one row both hold an address.
    MultipleDataColumns,
    /// No data column of the row holds an address.
    NoDataColumn,
    /// A ZSCALE, ZZERO or ZBLANK column on an image that is not quantized.
    NoQuantization,
    /// The payload is not a valid gzip stream.
    Inflate,
    /// The payload holds fewer bytes than the tile's elements need.
    Truncated,
    /// The inflated byte planes do not hold exactly one byte per plane and element.
    PlaneLength,
    /// A compression or quantization algorithm that this library does not decode.
    Unimplemented,
}

/// A decoding result with its values seen as a sequence.
pub open spec fn vec_result<T>(r: Result<Vec<T>, TileError>) -> Result<Seq<T>, TileError> {
    match r {
        Ok(v) => Ok(v@),
        Err(e) => Err(e),
    }
}

} // verus!
