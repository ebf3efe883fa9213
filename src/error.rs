use vstd::prelude::*;

verus! {

/// The ways in which an operation of the compressor can fail.
#[derive(Debug, Clone, Copy, PartialEq, Eq, Structural)]
pub enum CodecError {
    /// A transform size (or block size, or block-row width) of zero.
    InvalidSize,
    /// A block or table whose shape does not fit the operation.
    DimensionMismatch,
    /// A quality level outside 1..=100.
    InvalidQualityLevel,
    /// A quantization table that has no inverse.
    SingularTable,
}

} // verus!
