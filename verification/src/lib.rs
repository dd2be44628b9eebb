//! Fast approximate inverse square root on IEEE 754 bit patterns.
//!
//! The bit trick and its Newton step run on `Binary32`, a binary32 value held
//! as its 32-bit pattern, with every operation specified as the exact result
//! rounded to nearest, ties to even. `QSqrt` offers the operation for
//! `Binary32`, for `Binary64` (with a range check) and for the integer types.
//!
//! The modules, from the ground up:
//! - `power`: powers of two and digit counts;
//! - `rounding`: what rounding to binary32 means, and the function that
//!   does it; `sticky`, `monotone` and `nearest` hold what is proved of it:
//!   that it sees values and not representations, keeps their order, and
//!   gives the nearest representable value;
//! - `binary32`, `binary64`: the two formats, with product, difference,
//!   conversion from integers, range check and narrowing;
//! - `qsqrt`: the inverse square root itself and the trait `QSqrt`;
//! - `theorems`: identities of the arithmetic and of the conversions;
//! - `known_values`: the results at four and at one;
//! - `bounds`, `finite`: the result is positive and finite on every finite
//!   input that is not negative;
//! - `interval`, `pieces`, `accuracy`: the result is within two percent of
//!   the true inverse square root on every positive normal input.
pub mod accuracy;
pub mod binary32;
pub mod binary64;
pub mod bounds;
pub mod finite;
pub mod interval;
pub mod known_values;
pub mod monotone;
pub mod nearest;
pub mod pieces;
pub mod power;
pub mod qsqrt;
pub mod rounding;
pub mod sticky;
pub mod theorems;

pub use crate::binary32::Binary32;
pub use crate::binary64::Binary64;
pub use crate::qsqrt::{QSqrt, QSqrtError};
