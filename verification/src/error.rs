use vstd::prelude::*;

verus! {

/// Errors reported by canvas construction, pixel writes, rendering and
/// PNG encoding.
#[derive(Clone, Copy, Debug, PartialEq, Eq, Structural)]
pub enum ChartError {
    /// A zero-sized canvas was requested.
    InvalidDimensions,
    /// A pixel write landed outside the buffer.
    OutOfBounds,
    /// The series is empty or a maximum data coordinate is zero, so no
    /// data-to-pixel scale exists.
    DegenerateScale,
    /// The PNG encoder failed.
    EncodingError,
}

} // verus!
