//! Failures reported by bit set operations.

use vstd::prelude::*;

verus! {

/// Why an operation on a bit set was refused.
#[derive(Clone, Copy, Debug, PartialEq, Eq, Structural)]
pub enum BitSetError {
    /// The bit index is not below the capacity of the set.
    OutOfRange,
    /// The two operands of a combination do not have the same number of words.
    SizeMismatch,
}

} // verus!
