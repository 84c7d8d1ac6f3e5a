//! The failures that the library reports.
use vstd::prelude::*;

verus! {

/// Every failure of the field, sharing and chunk operations.
#[derive(Debug, Clone, Copy, PartialEq, Eq, Structural)]
pub enum TpeaError {
    /// Inversion of, or division by, the zero element.
    DivideByZero,
    /// A threshold `k` with `k <= 1` or `k > n`.
    InvalidThreshold,
    /// Reconstruction from no shares at all.
    EmptyShareSet,
    /// Two presented shares carry the same ID.
    DuplicateShareID,
    /// Presented shares differ in payload length.
    MismatchedShareLength,
    /// A payload was read after the chunk was disposed.
    UseAfterDispose,
    /// No decoy of the requested length can be built from the dictionary.
    UnsatisfiableLength,
}

} // verus!
