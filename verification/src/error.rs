//! The ways in which an operation on a grid can be refused.

use vstd::prelude::*;

verus! {

/// Why a grid, a slice or a data source refused an operation. A refused
/// operation leaves the value it was called on unchanged.
#[derive(Clone, Copy, Debug, PartialEq, Eq)]
pub enum GridError {
    /// The requested dimensions describe more samples than the machine can
    /// address.
    TooLarge,
    /// The allocator could not provide the buffer.
    AllocationFailed,
    /// A coordinate or a component index lies outside the grid.
    OutOfRange,
    /// A buffer does not hold exactly as many samples as the grid does.
    LengthMismatch,
    /// A slice and a grid differ in their horizontal dimensions.
    ShapeMismatch,
    /// A dimension of the grid does not fit the 32-bit signed integers in
    /// which a field generator takes its dimensions.
    GeneratorRange,
}

} // verus!
