//! Vectors and matrices of the lattice, and the exact intersection of two
//! segments.

pub mod fraction;
pub mod laws;
pub mod matrix;
pub mod vector;

pub use fraction::Fraction;
pub use matrix::Matrix;
pub use vector::Intersection;
pub use vector::Vector;
