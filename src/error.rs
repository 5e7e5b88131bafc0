use vstd::prelude::*;

verus! {

/// Why a transform call was refused or could not complete.
#[derive(Debug, Clone, Copy, PartialEq, Eq, Structural)]
pub enum FftError {
    /// A transform length or a grid dimension is zero.
    InvalidLength,
    /// A buffer's length does not match the length declared beside it.
    LengthMismatch,
    /// A grid buffer does not hold `rows * cols` samples.
    DimensionMismatch,
    /// The one-dimensional kernel failed, or handed back a line of the wrong length.
    KernelError,
}

} // verus!
