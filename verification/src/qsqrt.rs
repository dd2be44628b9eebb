//! The fast inverse square root: an initial estimate read off the bit
//! pattern, refined by one Newton step, offered for binary32, binary64 and
//! the integer types.
use crate::accuracy::{
    lemma_binary64_within_two_percent, lemma_integer_within_two_percent, lemma_within_two_percent,
};
use crate::binary32::{Binary32, HALF_BITS, THREE_HALVES_BITS};
use crate::binary64::{scaled_64, Binary64};
use crate::finite::{
    is_positive_finite, lemma_of_int_finite, lemma_result_finite_and_positive,
};
use crate::interval::within_two_percent;
use crate::theorems::lemma_in_range_narrows_to_finite;
use vstd::arithmetic::power2::pow2;
use vstd::prelude::*;

verus! {

/// The constant from which half the input's bit pattern is subtracted.
pub const MAGIC: u32 = 0x5f37_59df;

/// Why an inverse square root could not be computed.
#[derive(Debug)]
pub enum QSqrtError {
    /// The magnitude of the input is beyond the binary32 range.
    Overflow,
}

/// The initial estimate: the pattern `MAGIC - bits / 2`, taken modulo
/// `2^32` where half the input's pattern exceeds the constant (inputs from
/// about -0.23 downwards).
pub open spec fn initial_estimate(y: Binary32) -> Binary32 {
    let half = y.bits / 2;
    Binary32 {
        bits: if half <= MAGIC {
            (MAGIC - half) as u32
        } else {
            (MAGIC + 0x1_0000_0000 - half) as u32
        },
    }
}

/// One Newton step on the estimate `y0` for the input `y`:
/// `y0 * (3/2 - ((y * 1/2) * y0) * y0)`, each operation correctly rounded.
pub open spec fn newton_step(y: Binary32, y0: Binary32) -> Binary32 {
    let x2 = y.product(Binary32 { bits: HALF_BITS });
    y0.product(Binary32 { bits: THREE_HALVES_BITS }.difference(x2.product(y0).product(y0)))
}

/// The approximate inverse square root of `y`: the initial estimate after
/// one Newton step.
pub open spec fn inverse_sqrt_of(y: Binary32) -> Binary32 {
    newton_step(y, initial_estimate(y))
}

/// Reads the initial estimate off the bit pattern of `y`.
pub fn estimate(y: Binary32) -> (y0: Binary32)
    ensures
        y0 == initial_estimate(y),
{
    let bits = y.bits;
    assert(bits >> 1 == bits / 2) by (bit_vector);
    Binary32 { bits: MAGIC.wrapping_sub(bits >> 1) }
}

/// Refines the estimate `y0` for the input `y` by one Newton step.
pub fn refine(y: Binary32, y0: Binary32) -> (y1: Binary32)
    ensures
        y1 == newton_step(y, y0),
{
    let x2 = y.multiply(Binary32 { bits: HALF_BITS });
    let three_halves = Binary32 { bits: THREE_HALVES_BITS };
    y0.multiply(three_halves.subtract(x2.multiply(y0).multiply(y0)))
}

/// The fast inverse square root, for every type that converts to binary32.
///
/// The trait fixes the result exactly. What the result is worth, each
/// implementation states for itself: on inputs that are not negative the
/// result is a positive finite value, and on positive normal inputs it is
/// within two percent of the true inverse square root.
pub trait QSqrt {
    type Output;

    /// The inputs on which the computation succeeds.
    spec fn in_range(&self) -> bool;

    /// The result on an input in range.
    spec fn inverse_sqrt(&self) -> Self::Output;

    /// Computes the fast inverse square root of `self`.
    fn fast_inverse_sqrt(&self) -> (r: Result<Self::Output, QSqrtError>)
        ensures
            self.in_range() ==> r == Ok::<Self::Output, QSqrtError>(self.inverse_sqrt()),
            !self.in_range() ==> r == Err::<Self::Output, QSqrtError>(QSqrtError::Overflow),
    ;

    /// Like `fast_inverse_sqrt`, for inputs known to be in range. Code that
    /// is not verified and calls this out of range meets a panic.
    fn fast_inverse_sqrt_unchecked(&self) -> (r: Self::Output)
        requires
            self.in_range(),
        ensures
            r == self.inverse_sqrt(),
    {
        match self.fast_inverse_sqrt() {
            Ok(value) => value,
            Err(_) => vstd::pervasive::unreached(),
        }
    }
}

impl QSqrt for Binary32 {
    type Output = Binary32;

    open spec fn in_range(&self) -> bool {
        true
    }

    open spec fn inverse_sqrt(&self) -> Binary32 {
        inverse_sqrt_of(*self)
    }

    fn fast_inverse_sqrt(&self) -> (r: Result<Binary32, QSqrtError>)
        ensures
            self.is_finite() && !self.is_negative() ==> is_positive_finite(self.inverse_sqrt()),
            0x80_0000 <= self.bits <= 0x7f7f_ffff ==> within_two_percent(*self),
    {
        proof {
            if self.is_finite() && !self.is_negative() {
                lemma_result_finite_and_positive(*self);
            }
            if 0x80_0000 <= self.bits <= 0x7f7f_ffff {
                lemma_within_two_percent(*self);
            }
        }
        Ok(refine(*self, estimate(*self)))
    }
}

impl QSqrt for Binary64 {
    type Output = Binary32;

    open spec fn in_range(&self) -> bool {
        self.fits_binary32()
    }

    open spec fn inverse_sqrt(&self) -> Binary32 {
        inverse_sqrt_of(self.narrowed())
    }

    fn fast_inverse_sqrt(&self) -> (r: Result<Binary32, QSqrtError>)
        ensures
            self.fits_binary32() && !self.is_negative() ==> is_positive_finite(
                self.inverse_sqrt(),
            ),
            self.fits_binary32() && !self.is_negative() && scaled_64(self.magnitude()) >= pow2(948)
                ==> within_two_percent(self.narrowed()),
    {
        proof {
            if self.fits_binary32() && !self.is_negative() {
                lemma_in_range_narrows_to_finite(*self);
                lemma_result_finite_and_positive(self.narrowed());
                if scaled_64(self.magnitude()) >= pow2(948) {
                    lemma_binary64_within_two_percent(*self);
                }
            }
        }
        if self.in_binary32_range() {
            self.narrow().fast_inverse_sqrt()
        } else {
            Err(QSqrtError::Overflow)
        }
    }
}

impl QSqrt for u64 {
    type Output = Binary32;

    open spec fn in_range(&self) -> bool {
        true
    }

    open spec fn inverse_sqrt(&self) -> Binary32 {
        inverse_sqrt_of(Binary32::of_int(*self as int))
    }

    fn fast_inverse_sqrt(&self) -> (r: Result<Binary32, QSqrtError>)
        ensures
            is_positive_finite(self.inverse_sqrt()),
            *self >= 1 ==> within_two_percent(Binary32::of_int(*self as int)),
    {
        proof {
            lemma_of_int_finite(*self as int);
            lemma_result_finite_and_positive(Binary32::of_int(*self as int));
            if *self >= 1 {
                lemma_integer_within_two_percent(*self as int);
            }
        }
        Binary32::from_u64(*self).fast_inverse_sqrt()
    }
}

impl QSqrt for u32 {
    type Output = Binary32;

    open spec fn in_range(&self) -> bool {
        true
    }

    open spec fn inverse_sqrt(&self) -> Binary32 {
        inverse_sqrt_of(Binary32::of_int(*self as int))
    }

    fn fast_inverse_sqrt(&self) -> (r: Result<Binary32, QSqrtError>)
        ensures
            is_positive_finite(self.inverse_sqrt()),
            *self >= 1 ==> within_two_percent(Binary32::of_int(*self as int)),
    {
        proof {
            lemma_of_int_finite(*self as int);
            lemma_result_finite_and_positive(Binary32::of_int(*self as int));
            if *self >= 1 {
                lemma_integer_within_two_percent(*self as int);
            }
        }
        Binary32::from_u64(*self as u64).fast_inverse_sqrt()
    }
}

impl QSqrt for u16 {
    type Output = Binary32;

    open spec fn in_range(&self) -> bool {
        true
    }

    open spec fn inverse_sqrt(&self) -> Binary32 {
        inverse_sqrt_of(Binary32::of_int(*self as int))
    }

    fn fast_inverse_sqrt(&self) -> (r: Result<Binary32, QSqrtError>)
        ensures
            is_positive_finite(self.inverse_sqrt()),
            *self >= 1 ==> within_two_percent(Binary32::of_int(*self as int)),
    {
        proof {
            lemma_of_int_finite(*self as int);
            lemma_result_finite_and_positive(Binary32::of_int(*self as int));
            if *self >= 1 {
                lemma_integer_within_two_percent(*self as int);
            }
        }
        Binary32::from_u64(*self as u64).fast_inverse_sqrt()
    }
}

impl QSqrt for u8 {
    type Output = Binary32;

    open spec fn in_range(&self) -> bool {
        true
    }

    open spec fn inverse_sqrt(&self) -> Binary32 {
        inverse_sqrt_of(Binary32::of_int(*self as int))
    }

    fn fast_inverse_sqrt(&self) -> (r: Result<Binary32, QSqrtError>)
        ensures
            is_positive_finite(self.inverse_sqrt()),
            *self >= 1 ==> within_two_percent(Binary32::of_int(*self as int)),
    {
        proof {
            lemma_of_int_finite(*self as int);
            lemma_result_finite_and_positive(Binary32::of_int(*self as int));
            if *self >= 1 {
                lemma_integer_within_two_percent(*self as int);
            }
        }
        Binary32::from_u64(*self as u64).fast_inverse_sqrt()
    }
}

impl QSqrt for usize {
    type Output = Binary32;

    open spec fn in_range(&self) -> bool {
        true
    }

    open spec fn inverse_sqrt(&self) -> Binary32 {
        inverse_sqrt_of(Binary32::of_int(*self as int))
    }

    fn fast_inverse_sqrt(&self) -> (r: Result<Binary32, QSqrtError>)
        ensures
            is_positive_finite(self.inverse_sqrt()),
            *self >= 1 ==> within_two_percent(Binary32::of_int(*self as int)),
    {
        proof {
            lemma_of_int_finite(*self as int);
            lemma_result_finite_and_positive(Binary32::of_int(*self as int));
            if *self >= 1 {
                lemma_integer_within_two_percent(*self as int);
            }
        }
        Binary32::from_u64(*self as u64).fast_inverse_sqrt()
    }
}

impl QSqrt for i64 {
    type Output = Binary32;

    open spec fn in_range(&self) -> bool {
        true
    }

    open spec fn inverse_sqrt(&self) -> Binary32 {
        inverse_sqrt_of(Binary32::of_int(*self as int))
    }

    fn fast_inverse_sqrt(&self) -> (r: Result<Binary32, QSqrtError>)
        ensures
            *self >= 0 ==> is_positive_finite(self.inverse_sqrt()),
            *self >= 1 ==> within_two_percent(Binary32::of_int(*self as int)),
    {
        proof {
            if *self >= 0 {
                lemma_of_int_finite(*self as int);
                lemma_result_finite_and_positive(Binary32::of_int(*self as int));
            }
            if *self >= 1 {
                lemma_integer_within_two_percent(*self as int);
            }
        }
        Binary32::from_i64(*self).fast_inverse_sqrt()
    }
}

impl QSqrt for i32 {
    type Output = Binary32;

    open spec fn in_range(&self) -> bool {
        true
    }

    open spec fn inverse_sqrt(&self) -> Binary32 {
        inverse_sqrt_of(Binary32::of_int(*self as int))
    }

    fn fast_inverse_sqrt(&self) -> (r: Result<Binary32, QSqrtError>)
        ensures
            *self >= 0 ==> is_positive_finite(self.inverse_sqrt()),
            *self >= 1 ==> within_two_percent(Binary32::of_int(*self as int)),
    {
        proof {
            if *self >= 0 {
                lemma_of_int_finite(*self as int);
                lemma_result_finite_and_positive(Binary32::of_int(*self as int));
            }
            if *self >= 1 {
                lemma_integer_within_two_percent(*self as int);
            }
        }
        Binary32::from_i64(*self as i64).fast_inverse_sqrt()
    }
}

impl QSqrt for i16 {
    type Output = Binary32;

    open spec fn in_range(&self) -> bool {
        true
    }

    open spec fn inverse_sqrt(&self) -> Binary32 {
        inverse_sqrt_of(Binary32::of_int(*self as int))
    }

    fn fast_inverse_sqrt(&self) -> (r: Result<Binary32, QSqrtError>)
        ensures
            *self >= 0 ==> is_positive_finite(self.inverse_sqrt()),
            *self >= 1 ==> within_two_percent(Binary32::of_int(*self as int)),
    {
        proof {
            if *self >= 0 {
                lemma_of_int_finite(*self as int);
                lemma_result_finite_and_positive(Binary32::of_int(*self as int));
            }
            if *self >= 1 {
                lemma_integer_within_two_percent(*self as int);
            }
        }
        Binary32::from_i64(*self as i64).fast_inverse_sqrt()
    }
}

impl QSqrt for i8 {
    type Output = Binary32;

    open spec fn in_range(&self) -> bool {
        true
    }

    open spec fn inverse_sqrt(&self) -> Binary32 {
        inverse_sqrt_of(Binary32::of_int(*self as int))
    }

    fn fast_inverse_sqrt(&self) -> (r: Result<Binary32, QSqrtError>)
        ensures
            *self >= 0 ==> is_positive_finite(self.inverse_sqrt()),
            *self >= 1 ==> within_two_percent(Binary32::of_int(*self as int)),
    {
        proof {
            if *self >= 0 {
                lemma_of_int_finite(*self as int);
                lemma_result_finite_and_positive(Binary32::of_int(*self as int));
            }
            if *self >= 1 {
                lemma_integer_within_two_percent(*self as int);
            }
        }
        Binary32::from_i64(*self as i64).fast_inverse_sqrt()
    }
}

impl QSqrt for isize {
    type Output = Binary32;

    open spec fn in_range(&self) -> bool {
        true
    }

    open spec fn inverse_sqrt(&self) -> Binary32 {
        inverse_sqrt_of(Binary32::of_int(*self as int))
    }

    fn fast_inverse_sqrt(&self) -> (r: Result<Binary32, QSqrtError>)
        ensures
            *self >= 0 ==> is_positive_finite(self.inverse_sqrt()),
            *self >= 1 ==> within_two_percent(Binary32::of_int(*self as int)),
    {
        proof {
            if *self >= 0 {
                lemma_of_int_finite(*self as int);
                lemma_result_finite_and_positive(Binary32::of_int(*self as int));
            }
            if *self >= 1 {
                lemma_integer_within_two_percent(*self as int);
            }
        }
        Binary32::from_i64(*self as i64).fast_inverse_sqrt()
    }
}

} // verus!
