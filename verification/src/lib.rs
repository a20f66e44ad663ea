//! An estimate of the spectral norm of the infinite matrix whose entry in row
//! `i` and column `j` is `1 / ((i + j)(i + j + 1) / 2 + i + 1)`, by power
//! iteration on a leading block of it. The matrix is never stored: its
//! entries are worked out where they are needed.
//!
//! The library is written for any kind of number. Its callers bring the
//! numbers and the arithmetic on them; the library decides which operations
//! are made, on what, and in which order.

pub mod chunks;
pub mod determinism;
pub mod dimension;
pub mod fold;
pub mod matrix;
pub mod multiply;
pub mod pair;
pub mod power;
