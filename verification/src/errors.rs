use vstd::prelude::*;

verus! {

/// The ways a kernel operation can fail. Every failure is detected before any
/// computation proceeds and is returned as a value, never as a panic.
#[derive(Clone, Copy, Debug, PartialEq, Eq, Structural)]
pub enum LinAlgError {
    /// Operand shapes are incompatible for the requested operation.
    DimensionMismatch,
    /// A matrix was constructed from rows of unequal length.
    RaggedRows,
    /// A matrix was constructed with zero rows, so its column count is undefined.
    EmptyMatrix,
}

} // verus!
