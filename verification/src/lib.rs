//! Tropical (max-plus and min-plus) semirings over the extended number line,
//! together with dense matrix addition and multiplication in each semiring.
//!
//! Scalar "addition" is the maximum (or minimum) of the two operands and
//! scalar "multiplication" is their ordinary sum; the additive identity is
//! the corresponding infinity and the multiplicative identity is zero.
//! Matrices are dense rectangular arrays of scalars, and matrix
//! multiplication is the usual row-by-column product with (max, +) or
//! (min, +) in place of (+, x).
//!
//! A scalar holds an exact point of the extended number line — a finite
//! 64-bit integer, an infinity, or the indeterminate value — and the
//! operations mirror IEEE-754 arithmetic on the extended reals: maximum
//! and minimum ignore an indeterminate operand, a sum propagates it, the
//! opposite infinities sum to it, and a finite sum that leaves the
//! representable range becomes the infinity of its sign.

use vstd::prelude::*;

pub mod extended;
pub mod max_plus;
pub mod min_plus;

pub use extended::Extended;
pub use max_plus::MaxTropical;
pub use max_plus::MaxMatrix;
pub use max_plus::max_tropical_mat_add;
pub use max_plus::max_tropical_mat_add_checked;
pub use max_plus::max_tropical_mat_mul;
pub use max_plus::max_tropical_mat_mul_checked;
pub use min_plus::MinTropical;
pub use min_plus::MinMatrix;
pub use min_plus::min_tropical_mat_add;
pub use min_plus::min_tropical_mat_add_checked;
pub use min_plus::min_tropical_mat_mul;
pub use min_plus::min_tropical_mat_mul_checked;

verus! {

/// The shapes of two matrices that an operation refused to combine:
/// either the two shapes of an elementwise addition that were not equal,
/// or the shapes of a product whose inner dimensions did not agree.
#[derive(Clone, Copy, Debug, PartialEq, Eq, Structural)]
pub struct DimensionMismatch {
    pub lhs_rows: usize,
    pub lhs_cols: usize,
    pub rhs_rows: usize,
    pub rhs_cols: usize,
}

} // verus!
