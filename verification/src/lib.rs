//! An exact vector-algebra and planar-geometry kernel.
//!
//! Vectors carry rational coordinates: a sequence of integer numerators over
//! one shared positive denominator. Every operation is a pure function whose
//! result is pinned, coordinate by coordinate, to a mathematical model of the
//! operation, so no floating-point slack enters the kernel; where the exact
//! result does not fit the machine representation, the operation says so
//! instead of rounding.

pub mod error;
pub mod laws;
pub mod model;
pub mod rational;
pub mod segment;
pub mod vector;
