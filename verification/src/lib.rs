//! Dense vectors and matrices over a generic number type, with element-wise
//! and scalar arithmetic, the matrix product, transpose, reshape and trace,
//! and a Gauss-Seidel solver for linear systems.

/// The element types
pub mod common;

/// The primitive integers as element types
pub mod integers;

/// A 1D Vector type
pub mod vector;

/// What a matrix is, as a mathematical value
pub mod matrix_view;

/// A 2D Matrix type
pub mod matrix;

/// An iterative solver for linear systems
pub mod solver;

/// Laws of matrix arithmetic
pub mod algebra;
