//! Fixed-dimension matrices and vectors over scalar-like element types.
//!
//! The shape of every matrix is part of its type, so operations with
//! incompatible shapes are rejected at compile time.  Construction from a
//! runtime sequence of unknown length goes through a fixed-capacity builder
//! that enforces the capacity and reports too few or too many elements.

pub mod array;
pub mod matrix;
pub mod scalar;
pub mod vector;

pub use array::ArrayBuilder;
pub use matrix::Matrix;
pub use matrix::TryFromIterError;
pub use scalar::Scalar;
pub use vector::Vector;
