//! Error kinds reported by the codec and the compositor.
use vstd::prelude::*;

verus! {

/// Why a byte buffer could not be turned into a header or an image.
#[derive(Clone, Copy, Debug, PartialEq, Eq, Structural)]
pub enum FormatError {
    /// Fewer bytes are available than the header or the pixel region needs.
    Truncated,
    /// The bytes are all there, but the values they hold are not acceptable:
    /// a zero width or height, a pixel count that does not match the
    /// dimensions, or a header field outside the truecolor profile.
    Malformed,
}

/// Why two layers could not be combined.
#[derive(Clone, Copy, Debug, PartialEq, Eq, Structural)]
pub enum CompositeError {
    /// The operands differ in width or in height.
    DimensionMismatch,
    /// The result would be wider or taller than the 16 bits of a header
    /// field can say.
    Oversized,
}

} // verus!
