//! On every finite input that is not negative the inverse square root is a
//! positive finite value: the steps of the computation neither overflow nor
//! cancel.
//!
//! The initial estimate `y0` is a positive normal value. With the input `y`
//! bounded by the end of its binade and `y0` by the start of the
//! corresponding range, the term `((y / 2) * y0) * y0` is at most one, so
//! the factor `3/2 - term` lies between one half and three halves.
use crate::binary32::{Binary32, HALF_BITS, THREE_HALVES_BITS};
use crate::binary64::Binary64;
use crate::bounds::{
    at_least, at_most, lemma_at_most_coarser, lemma_at_most_pattern, lemma_magnitude_monotone,
    lemma_product_at_most, lemma_product_monotone, lemma_round_scaled, lemma_scaled_monotone,
};
use crate::known_values::lemma_product_value;
use crate::monotone::{lemma_binade_bounds, lemma_round_monotone_aligned};
use crate::power::{lemma_bit_length_below, lemma_bit_length_unique};
use crate::qsqrt::{initial_estimate, inverse_sqrt_of, QSqrt, MAGIC};
use crate::theorems::lemma_in_range_narrows_to_finite;
use vstd::arithmetic::power2::{
    lemma2_to64, lemma2_to64_rest, lemma_pow2_adds, lemma_pow2_pos, pow2,
};
use vstd::prelude::*;

verus! {

/// The term that the Newton step subtracts from three halves.
pub open spec fn newton_term(y: Binary32) -> Binary32 {
    let y0 = initial_estimate(y);
    y.product(Binary32::of_bits(HALF_BITS)).product(y0).product(y0)
}

/// The value is finite, not negative and at most one.
pub open spec fn within_unit(t: Binary32) -> bool {
    t.is_finite() && !t.is_negative() && t.magnitude() <= 0x3f80_0000
}

/// One half is `1 * 2^-1`.
pub proof fn lemma_half_bounds()
    ensures
        at_most(Binary32::of_bits(HALF_BITS), 1, -1),
        at_least(Binary32::of_bits(HALF_BITS), 1, -1),
        !Binary32::of_bits(HALF_BITS).is_negative(),
{
    lemma2_to64();
    let half = Binary32::of_bits(HALF_BITS);
    assert(half.significand() == 0x80_0000 && half.exponent() == -24);
    lemma_pow2_adds(23, 125);
}

/// A value of at most `n * 2^-23` with `n <= 2^23` is at most one.
proof fn lemma_at_most_unit(t: Binary32, n: nat)
    requires
        at_most(t, n, -23),
        n <= 0x80_0000,
    ensures
        t.magnitude() <= 0x3f80_0000,
{
    let one = Binary32::one();
    assert(one.significand() == 0x80_0000 && one.exponent() == -23);
    assert(n * pow2(126) <= 0x80_0000 * pow2(126)) by (nonlinear_arith)
        requires
            n <= 0x80_0000,
    ;
    lemma_magnitude_monotone(t, one);
}

/// The initial estimate of a finite input that is not negative: a positive
/// normal pattern, `MAGIC` less half the input's pattern.
pub proof fn lemma_estimate_range(y: Binary32)
    requires
        y.is_finite(),
        !y.is_negative(),
    ensures
        initial_estimate(y).bits == MAGIC - y.bits / 2,
        0x1f77_59e0 <= initial_estimate(y).bits <= MAGIC,
        initial_estimate(y).magnitude() == initial_estimate(y).bits,
        !initial_estimate(y).is_negative(),
{
}

/// Inputs in the lower part of a binade with an even exponent field `2 * a`.
proof fn lemma_term_even_low(y: Binary32, a: nat)
    requires
        a <= 127,
        a * 0x100_0000 <= y.bits <= a * 0x100_0000 + 0x6e_b3bf,
    ensures
        within_unit(newton_term(y)),
{
    lemma2_to64();
    let half = Binary32::of_bits(HALF_BITS);
    let y0 = initial_estimate(y);
    assert(y.magnitude() == y.bits);
    if a == 0 {
        lemma_at_most_pattern(y, y);
        lemma_at_most_coarser(y, y.significand(), -149, 0xeec, 11);
    } else {
        let end = Binary32::with_sign(false, a * 0x100_0000 + 0x6e_b3bf);
        assert(end.magnitude() == (2 * a) * 0x80_0000 + 0x6e_b3bf);
        assert(end.magnitude() / 0x80_0000 == 2 * a);
        assert(end.magnitude() % 0x80_0000 == 0x6e_b3bf);
        lemma_at_most_pattern(y, end);
        lemma_at_most_coarser(y, 0xee_b3bf, 2 * a - 150, 0xeec, 12);
    }
    assert(at_most(y, 0xeec, 2 * a - 138));
    lemma_half_bounds();
    lemma_bit_length_unique(0xeec, 11);
    lemma_product_at_most(y, half, 0xeec, 2 * a - 138, 1, -1);
    let x2 = y.product(half);
    lemma_estimate_range(y);
    let start = Binary32::with_sign(false, ((190 - a) * 0x80_0000 + 0x37_59df) as nat);
    assert(start.magnitude() == (190 - a) * 0x80_0000 + 0x37_59df);
    assert(start.magnitude() / 0x80_0000 == 190 - a);
    assert(start.magnitude() % 0x80_0000 == 0x37_59df);
    lemma_at_most_pattern(y0, start);
    lemma_at_most_coarser(y0, 0xb7_59df, 40 - a, 0xb76, 12);
    assert(0xeec * 0xb76 == 0xab_04c8) by (nonlinear_arith);
    lemma_bit_length_unique(0xab_04c8, 23);
    lemma_product_at_most(x2, y0, 0xeec, 2 * a - 139, 0xb76, 52 - a);
    let t1 = x2.product(y0);
    lemma_at_most_coarser(t1, 0xab_04c8, a - 87, 0xab1, 12);
    assert(0xab1 * 0xb76 == 0x7a_8896) by (nonlinear_arith);
    lemma_bit_length_unique(0x7a_8896, 22);
    lemma_product_at_most(t1, y0, 0xab1, a - 75, 0xb76, 52 - a);
    lemma_at_most_unit(t1.product(y0), 0x7a_8896);
}

/// Inputs in the upper part of a binade with an even exponent field `2 * a`.
proof fn lemma_term_even_high(y: Binary32, a: nat)
    requires
        a <= 127,
        a * 0x100_0000 + 0x6e_b3c0 <= y.bits <= a * 0x100_0000 + 0x7f_ffff,
    ensures
        within_unit(newton_term(y)),
{
    lemma2_to64();
    let half = Binary32::of_bits(HALF_BITS);
    let y0 = initial_estimate(y);
    assert(y.magnitude() == y.bits);
    if a == 0 {
        lemma_at_most_pattern(y, y);
        lemma_at_most_coarser(y, y.significand(), -149, 1, 23);
    } else {
        let end = Binary32::with_sign(false, a * 0x100_0000 + 0x7f_ffff);
        assert(end.magnitude() == (2 * a) * 0x80_0000 + 0x7f_ffff);
        assert(end.magnitude() / 0x80_0000 == 2 * a);
        assert(end.magnitude() % 0x80_0000 == 0x7f_ffff);
        lemma_at_most_pattern(y, end);
        lemma_at_most_coarser(y, 0xff_ffff, 2 * a - 150, 1, 24);
    }
    assert(at_most(y, 1, 2 * a - 126));
    lemma_half_bounds();
    lemma_bit_length_unique(1, 0);
    lemma_product_at_most(y, half, 1, 2 * a - 126, 1, -1);
    let x2 = y.product(half);
    lemma_estimate_range(y);
    let start = Binary32::with_sign(false, ((189 - a) * 0x80_0000 + 0x7f_ffff) as nat);
    assert(start.magnitude() == (189 - a) * 0x80_0000 + 0x7f_ffff);
    assert(start.magnitude() / 0x80_0000 == 189 - a);
    assert(start.magnitude() % 0x80_0000 == 0x7f_ffff);
    lemma_at_most_pattern(y0, start);
    lemma_at_most_coarser(y0, 0xff_ffff, 39 - a, 1, 24);
    lemma_product_at_most(x2, y0, 1, 2 * a - 127, 1, 63 - a);
    let t1 = x2.product(y0);
    lemma_product_at_most(t1, y0, 1, a - 64, 1, 63 - a);
    let t2 = t1.product(y0);
    lemma_pow2_adds(22, 126);
    assert(at_most(t2, 0x40_0000, -23));
    lemma_at_most_unit(t2, 0x40_0000);
}

/// Inputs with an odd exponent field `2 * a + 1`.
proof fn lemma_term_odd(y: Binary32, a: nat)
    requires
        a <= 126,
        a * 0x100_0000 + 0x80_0000 <= y.bits <= a * 0x100_0000 + 0xff_ffff,
    ensures
        within_unit(newton_term(y)),
{
    lemma2_to64();
    let half = Binary32::of_bits(HALF_BITS);
    let y0 = initial_estimate(y);
    assert(y.magnitude() == y.bits);
    let end = Binary32::with_sign(false, a * 0x100_0000 + 0xff_ffff);
    assert(end.magnitude() == (2 * a + 1) * 0x80_0000 + 0x7f_ffff);
    assert(end.magnitude() / 0x80_0000 == 2 * a + 1);
    assert(end.magnitude() % 0x80_0000 == 0x7f_ffff);
    lemma_at_most_pattern(y, end);
    lemma_at_most_coarser(y, 0xff_ffff, 2 * a - 149, 1, 24);
    lemma_half_bounds();
    lemma_bit_length_unique(1, 0);
    lemma_product_at_most(y, half, 1, 2 * a - 125, 1, -1);
    let x2 = y.product(half);
    lemma_estimate_range(y);
    let start = Binary32::with_sign(false, ((189 - a) * 0x80_0000 + 0x77_59df) as nat);
    assert(start.magnitude() == (189 - a) * 0x80_0000 + 0x77_59df);
    assert(start.magnitude() / 0x80_0000 == 189 - a);
    assert(start.magnitude() % 0x80_0000 == 0x77_59df);
    lemma_at_most_pattern(y0, start);
    lemma_at_most_coarser(y0, 0xf7_59df, 39 - a, 0xf76, 12);
    lemma_bit_length_unique(0xf76, 11);
    lemma_product_at_most(x2, y0, 1, 2 * a - 126, 0xf76, 51 - a);
    let t1 = x2.product(y0);
    assert(0xf76 * 0xf76 == 0xef_0a64) by (nonlinear_arith);
    lemma_bit_length_unique(0xef_0a64, 23);
    lemma_product_at_most(t1, y0, 0xf76, a - 75, 0xf76, 51 - a);
    let t2 = t1.product(y0);
    lemma_at_most_coarser(t2, 0xef_0a64, -24, 0x77_8532, 1);
    lemma_at_most_unit(t2, 0x77_8532);
}

/// On a finite input that is not negative, the term that the Newton step
/// subtracts from three halves is at most one.
pub proof fn lemma_term_within_unit(y: Binary32)
    requires
        y.is_finite(),
        !y.is_negative(),
    ensures
        within_unit(newton_term(y)),
{
    let a = (y.bits / 0x100_0000) as nat;
    let rest = y.bits % 0x100_0000;
    if rest <= 0x6e_b3bf {
        lemma_term_even_low(y, a);
    } else if rest <= 0x7f_ffff {
        lemma_term_even_high(y, a);
    } else {
        lemma_term_odd(y, a);
    }
}

/// Three halves less a value from zero to one lies from one half to three
/// halves.
pub proof fn lemma_correction_range(t: Binary32)
    requires
        within_unit(t),
    ensures
        ({
            let d = Binary32::of_bits(THREE_HALVES_BITS).difference(t);
            !d.is_negative() && 0x3f00_0000 <= d.magnitude() <= 0x3fc0_0000
        }),
{
    lemma2_to64();
    let three_halves = Binary32::of_bits(THREE_HALVES_BITS);
    let half = Binary32::of_bits(HALF_BITS);
    let one = Binary32::one();
    assert(three_halves.significand() == 0xc0_0000 && three_halves.exponent() == -23);
    assert(one.significand() == 0x80_0000 && one.exponent() == -23);
    assert(half.significand() == 0x80_0000 && half.exponent() == -24);
    lemma_pow2_adds(1, 125);
    lemma_pow2_pos(125);
    lemma_scaled_monotone(t, one);
    let exact = (three_halves.scaled() - t.scaled()) as nat;
    assert(half.scaled() <= exact <= three_halves.scaled());
    lemma_round_monotone_aligned(half.scaled(), exact, -149);
    lemma_round_monotone_aligned(exact, three_halves.scaled(), -149);
    lemma_round_scaled(half);
    lemma_round_scaled(three_halves);
}

/// The products at the two ends of the result's range.
proof fn lemma_end_products()
    ensures
        Binary32::of_bits(0x1f77_59e0).product(Binary32::of_bits(0x3f00_0000)).magnitude()
            == 0x1ef7_59e0,
        Binary32::of_bits(0x5f37_59df).product(Binary32::of_bits(0x3fc0_0000)).magnitude()
            == 0x5f89_8367,
{
    lemma2_to64();
    lemma2_to64_rest();
    let a = Binary32::of_bits(0x1f77_59e0);
    let b = Binary32::of_bits(0x3f00_0000);
    let c = Binary32::of_bits(0x5f37_59df);
    let d = Binary32::of_bits(0x3fc0_0000);
    assert(a.significand() == 0xf7_59e0 && a.exponent() == -88);
    assert(b.significand() == 0x80_0000 && b.exponent() == -24);
    assert(c.significand() == 0xb7_59df && c.exponent() == 40);
    assert(d.significand() == 0xc0_0000 && d.exponent() == -23);
    assert(0xf7_59e0 * 0x80_0000 == 0x7bac_f000_0000) by (nonlinear_arith);
    assert(0xb7_59df * 0xc0_0000 == 0x8983_6740_0000) by (nonlinear_arith);
    lemma_product_value(a, b, 0x7bac_f000_0000, 47, Binary32::of_bits(0x1ef7_59e0));
    lemma_product_value(c, d, 0x8983_6740_0000, 48, Binary32::of_bits(0x5f89_8367));
}

/// The estimate times the factor: a positive finite value.
proof fn lemma_corrected_estimate(y0: Binary32, d: Binary32)
    requires
        0x1f77_59e0 <= y0.bits <= MAGIC,
        !d.is_negative(),
        0x3f00_0000 <= d.magnitude() <= 0x3fc0_0000,
    ensures
        !y0.product(d).is_negative(),
        0x1ef7_59e0 <= y0.product(d).magnitude() <= 0x5f89_8367,
{
    let low = Binary32::of_bits(0x1f77_59e0);
    let half = Binary32::of_bits(0x3f00_0000);
    let high = Binary32::of_bits(0x5f37_59df);
    let three_halves = Binary32::of_bits(0x3fc0_0000);
    assert(y0.magnitude() == y0.bits);
    assert(low.magnitude() == 0x1f77_59e0 && half.magnitude() == 0x3f00_0000);
    assert(high.magnitude() == 0x5f37_59df && three_halves.magnitude() == 0x3fc0_0000);
    lemma_end_products();
    lemma_product_monotone(y0, d, high, three_halves);
    lemma_product_monotone(low, half, y0, d);
}

/// On every finite input that is not negative the result is finite and
/// positive: its pattern lies between `0x1ef759e0` (about 2.6e-20) and
/// `0x5f898367` (about 2.0e19).
pub proof fn lemma_result_finite_and_positive(y: Binary32)
    requires
        y.is_finite(),
        !y.is_negative(),
    ensures
        inverse_sqrt_of(y).is_finite(),
        !inverse_sqrt_of(y).is_negative(),
        0x1ef7_59e0 <= inverse_sqrt_of(y).magnitude() <= 0x5f89_8367,
{
    let y0 = initial_estimate(y);
    let t = newton_term(y);
    let d = Binary32::of_bits(THREE_HALVES_BITS).difference(t);
    lemma_estimate_range(y);
    lemma_term_within_unit(y);
    lemma_correction_range(t);
    lemma_corrected_estimate(y0, d);
    assert(inverse_sqrt_of(y) == y0.product(d));
}

/// The value is finite and greater than zero.
pub open spec fn is_positive_finite(r: Binary32) -> bool {
    r.is_finite() && !r.is_negative() && r.magnitude() > 0
}

/// An integer from zero to `2^64 - 1` converts to a finite value that is
/// not negative.
pub proof fn lemma_of_int_finite(n: int)
    requires
        0 <= n <= u64::MAX,
    ensures
        Binary32::of_int(n).is_finite(),
        !Binary32::of_int(n).is_negative(),
{
    lemma2_to64();
    if n > 0 {
        lemma_bit_length_below(n as nat, 64);
        lemma_binade_bounds(n as nat, 0);
    }
}

/// Every unsigned integer gives a positive finite result.
pub proof fn lemma_unsigned_results_positive(a: u8, b: u16, c: u32, d: u64, e: usize)
    ensures
        is_positive_finite(a.inverse_sqrt()),
        is_positive_finite(b.inverse_sqrt()),
        is_positive_finite(c.inverse_sqrt()),
        is_positive_finite(d.inverse_sqrt()),
        is_positive_finite(e.inverse_sqrt()),
{
    lemma_of_int_finite(a as int);
    lemma_of_int_finite(b as int);
    lemma_of_int_finite(c as int);
    lemma_of_int_finite(d as int);
    lemma_of_int_finite(e as int);
    lemma_result_finite_and_positive(Binary32::of_int(a as int));
    lemma_result_finite_and_positive(Binary32::of_int(b as int));
    lemma_result_finite_and_positive(Binary32::of_int(c as int));
    lemma_result_finite_and_positive(Binary32::of_int(d as int));
    lemma_result_finite_and_positive(Binary32::of_int(e as int));
}

/// Every signed integer that is not negative gives a positive finite result.
pub proof fn lemma_signed_results_positive(a: i8, b: i16, c: i32, d: i64, e: isize)
    requires
        a >= 0,
        b >= 0,
        c >= 0,
        d >= 0,
        e >= 0,
    ensures
        is_positive_finite(a.inverse_sqrt()),
        is_positive_finite(b.inverse_sqrt()),
        is_positive_finite(c.inverse_sqrt()),
        is_positive_finite(d.inverse_sqrt()),
        is_positive_finite(e.inverse_sqrt()),
{
    lemma_of_int_finite(a as int);
    lemma_of_int_finite(b as int);
    lemma_of_int_finite(c as int);
    lemma_of_int_finite(d as int);
    lemma_of_int_finite(e as int);
    lemma_result_finite_and_positive(Binary32::of_int(a as int));
    lemma_result_finite_and_positive(Binary32::of_int(b as int));
    lemma_result_finite_and_positive(Binary32::of_int(c as int));
    lemma_result_finite_and_positive(Binary32::of_int(d as int));
    lemma_result_finite_and_positive(Binary32::of_int(e as int));
}

/// Every binary32 and every binary64 input in range that is not negative
/// gives a positive finite result.
pub proof fn lemma_binary_results_positive(x: Binary32, w: Binary64)
    requires
        x.is_finite(),
        !x.is_negative(),
        w.fits_binary32(),
        !w.is_negative(),
    ensures
        is_positive_finite(x.inverse_sqrt()),
        is_positive_finite(w.inverse_sqrt()),
{
    lemma_result_finite_and_positive(x);
    lemma_in_range_narrows_to_finite(w);
    lemma_result_finite_and_positive(w.narrowed());
}

} // verus!
