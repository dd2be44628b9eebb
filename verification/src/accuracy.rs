//! On every positive normal input the result is within two percent of the
//! true inverse square root.
use crate::binary32::Binary32;
use crate::binary64::{exponent_64, scaled_64, significand_64, Binary64};
use crate::interval::within_two_percent;
use crate::monotone::{lemma_binade_bounds, lemma_round_monotone, lemma_round_monotone_aligned};
use crate::pieces::lemma_every_piece;
use crate::power::lemma_bit_length_below;
use crate::qsqrt::{inverse_sqrt_of, QSqrt};
use crate::rounding::{lemma_round_normal, round_magnitude};
use crate::theorems::{lemma_in_range_narrows_to_finite, lemma_small_integer_converts_exactly};
use vstd::arithmetic::power2::{lemma2_to64, lemma_pow2_adds, lemma_pow2_pos, pow2};
use vstd::prelude::*;

verus! {

/// On every positive normal input `y` the result `r` is within two percent
/// of the inverse square root: it is positive and finite, and `r^2 * y`
/// lies strictly between `0.98^2` and `1.02^2`.
pub proof fn lemma_within_two_percent(y: Binary32)
    requires
        0x80_0000 <= y.bits <= 0x7f7f_ffff,
    ensures
        within_two_percent(y),
        y.inverse_sqrt() == inverse_sqrt_of(y),
{
    lemma_every_piece(y);
}

/// An integer from one to `2^64 - 1` converts to a positive normal value,
/// so the result for it is within two percent of the inverse square root
/// of that value.
pub proof fn lemma_integer_within_two_percent(n: int)
    requires
        1 <= n <= u64::MAX,
    ensures
        0x3f80_0000 <= Binary32::of_int(n).bits <= 0x7f7f_ffff,
        within_two_percent(Binary32::of_int(n)),
{
    let r = round_magnitude(n as nat, 0);
    assert(round_magnitude(1, 0) == 0x3f80_0000) by {
        lemma2_to64();
        lemma_round_normal(1, 0, 1);
    }
    lemma_round_monotone_aligned(1, n as nat, 0);
    assert(r <= 0x5f80_0000) by {
        lemma2_to64();
        lemma_bit_length_below(n as nat, 64);
        lemma_binade_bounds(n as nat, 0);
    }
    assert(Binary32::of_int(n).bits == r);
    lemma_every_piece(Binary32::of_int(n));
}

/// An integer `n` from one to `2^24 - 1` converts exactly, so the result
/// `r` is within two percent of the inverse square root of `n` itself:
/// `0.98^2 < r^2 * n < 1.02^2`, with `r` counted in units of `2^-149`.
pub proof fn lemma_small_integer_within_two_percent(n: int)
    requires
        1 <= n < 0x100_0000,
    ensures
        ({
            let r = inverse_sqrt_of(Binary32::of_int(n)).scaled();
            9604 * pow2(298) < 10000 * (r * r * n) < 10404 * pow2(298)
        }),
{
    let y = Binary32::of_int(n);
    let r = inverse_sqrt_of(y).scaled();
    lemma_integer_within_two_percent(n);
    lemma_small_integer_converts_exactly(n);
    lemma_pow2_adds(298, 149);
    lemma_pow2_pos(149);
    let unit = pow2(149);
    let whole = pow2(298);
    assert(r * r * (n * unit) == (r * r * n) * unit) by (nonlinear_arith);
    assert(9604 * whole < 10000 * (r * r * n)) by (nonlinear_arith)
        requires
            9604 * (whole * unit) < 10000 * ((r * r * n) * unit),
            unit > 0,
    ;
    assert(10000 * (r * r * n) < 10404 * whole) by (nonlinear_arith)
        requires
            10000 * ((r * r * n) * unit) < 10404 * (whole * unit),
            unit > 0,
    ;
}

/// A binary64 input in range that is at least `2^-126` narrows to a
/// positive normal value, so the result for it is within two percent of the
/// inverse square root of that value.
pub proof fn lemma_binary64_within_two_percent(x: Binary64)
    requires
        x.fits_binary32(),
        !x.is_negative(),
        scaled_64(x.magnitude()) >= pow2(948),
    ensures
        0x80_0000 <= x.narrowed().bits <= 0x7f7f_ffff,
        within_two_percent(x.narrowed()),
        x.inverse_sqrt() == inverse_sqrt_of(x.narrowed()),
{
    let m = x.magnitude();
    let r = round_magnitude(significand_64(m), exponent_64(m));
    lemma_in_range_narrows_to_finite(x);
    assert(round_magnitude(1, -126) == 0x80_0000) by {
        lemma2_to64();
        lemma_round_normal(1, -126, 1);
    }
    assert(1 * pow2(948) == pow2(948));
    lemma_round_monotone(1, -126, significand_64(m), exponent_64(m), -1074);
    crate::monotone::lemma_binade_bounds_total(significand_64(m), exponent_64(m));
    assert(x.narrowed().bits == r);
    lemma_every_piece(x.narrowed());
}

} // verus!
