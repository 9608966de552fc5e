//! The failure reasons an operation of the kernel can report.

use vstd::prelude::*;

verus! {

/// Why an operation returned no vector. Every failure is an expected domain
/// outcome of ill-conditioned input, never a process fault.
#[derive(Clone, Copy, Debug, PartialEq, Eq, Structural)]
pub enum VecError {
    /// A cross product was asked of operands whose cardinalities are not
    /// (2, 2) or (3, 3).
    UnsupportedCardinality,
    /// An operation needed the direction of a zero-length reference vector.
    DegenerateReference,
    /// A coordinate or denominator of the exact result does not fit the
    /// machine representation.
    NumericRange,
}

} // verus!
