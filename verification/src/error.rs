//! The two ways a shape can be wrong.

use vstd::prelude::*;

verus! {

/// Everything here fails for one of two reasons: a construction
/// argument asks for an empty or zero-sized piece, or two vectors that
/// must line up have different lengths.
#[derive(Clone, Copy, PartialEq, Eq, Structural, Debug)]
pub enum NetworkError {
    /// A malformed construction argument: a zero count or an empty
    /// blueprint.
    InvalidConfiguration,
    /// A vector length that does not match the arity it meets.
    DimensionMismatch,
}

} // verus!
