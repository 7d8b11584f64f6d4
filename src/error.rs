//! Why an encode or decode call did not succeed.
use vstd::prelude::*;

verus! {

/// The failures of the codec. None of them is retried here: the caller
/// decides whether to drop the message or stop.
#[derive(Debug, Clone, Copy, PartialEq, Eq, Structural)]
pub enum CodecError {
    /// A source pixel in a layout other than the one supported.
    UnsupportedPixel,
    /// A record whose data length does not match its width and height.
    InvalidRecord,
    /// Depth and color records of a pair with different dimensions.
    DimensionMismatch,
    /// Dimensions that do not fit the 16-bit fields of the combined message.
    DimensionTooLarge,
    /// Compressed bytes that do not decompress.
    Decompression,
    /// Bytes that do not hold a well-formed record.
    Malformed,
    /// An image payload that does not start with the JPEG start-of-image marker.
    BadMagic,
}

} // verus!
