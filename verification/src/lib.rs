//! A dense, row-major matrix container with verified construction,
//! access, elementwise and linear-algebraic arithmetic, and text
//! rendering.
//!
//! Construction and the storage accessors work for any copyable
//! element type. The arithmetic operations and the renderer are
//! provided for `i64` matrices, with contracts that pin every entry
//! of their results; laws relating the operations are proved in
//! `laws`.

pub mod laws;
pub mod matrix;
pub mod render;

pub use crate::matrix::Matrix;
