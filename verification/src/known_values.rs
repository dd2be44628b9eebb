//! The inverse square root at the inputs four and one, evaluated step by
//! step: the results are the patterns `0x3eff910f` (about 0.49915) and
//! `0x3f7f910f` (about 0.99831), in every input type.
use crate::binary32::{Binary32, HALF_BITS, THREE_HALVES_BITS};
use crate::binary64::{
    lemma_binary32_max_scaled, lemma_scaled_64_increases, Binary64, BINARY32_MAX_AS_BINARY64,
};
use crate::qsqrt::{initial_estimate, inverse_sqrt_of, QSqrt};
use crate::rounding::{lemma_round_normal, round_half_even};
use crate::sticky::lemma_round_magnitude_scaled;
use vstd::arithmetic::power2::{
    lemma2_to64, lemma2_to64_rest, lemma_pow2_adds, lemma_pow2_pos, pow2,
};
use vstd::prelude::*;

verus! {

/// The product of two finite values whose exact product `n * 2^e` has
/// `len > 24` digits and lies in the normal range.
pub proof fn lemma_product_value(a: Binary32, b: Binary32, n: nat, len: nat, expected: Binary32)
    requires
        a.is_finite(),
        b.is_finite(),
        n == a.significand() * b.significand(),
        len > 24,
        pow2((len - 1) as nat) <= n < pow2(len),
        -126 <= len - 1 + a.exponent() + b.exponent() < 128,
        expected == Binary32::with_sign(
            a.is_negative() != b.is_negative(),
            ((len + a.exponent() + b.exponent() + 125) * 0x80_0000 + round_half_even(
                n,
                pow2((len - 24) as nat),
            )) as nat,
        ),
    ensures
        a.product(b) == expected,
{
    lemma_round_normal(n, a.exponent() + b.exponent(), len);
}

/// The difference of two finite values where it is positive and equals
/// `n * 2^(j - 149)` with `n` of `len > 24` digits, in the normal range.
proof fn lemma_difference_value(
    a: Binary32,
    b: Binary32,
    n: nat,
    j: nat,
    len: nat,
    expected: Binary32,
)
    requires
        a.is_finite(),
        b.is_finite(),
        a.signed_scaled() - b.signed_scaled() == n * pow2(j),
        len > 24,
        pow2((len - 1) as nat) <= n < pow2(len),
        -126 <= len - 1 + j - 149 < 128,
        expected == Binary32::with_sign(
            false,
            ((len + j - 24) * 0x80_0000 + round_half_even(n, pow2((len - 24) as nat))) as nat,
        ),
    ensures
        a.difference(b) == expected,
{
    lemma_pow2_pos(j);
    lemma_pow2_pos((len - 1) as nat);
    assert(n * pow2(j) > 0) by (nonlinear_arith)
        requires
            n > 0,
            pow2(j) > 0,
    ;
    lemma_round_magnitude_scaled(n, j - 149, j);
    lemma_round_normal(n, j - 149, len);
}

/// The Newton step shared by the inputs four and one: in both, `y / 2 * y0`
/// is one of the patterns `0x3f7759df` and `0x3ef759df` and `y0` the other.
proof fn lemma_shared_step(t1: Binary32, y0: Binary32)
    requires
        t1.bits == 0x3f77_59df && y0.bits == 0x3ef7_59df || t1.bits == 0x3ef7_59df && y0.bits
            == 0x3f77_59df,
    ensures
        Binary32::of_bits(THREE_HALVES_BITS).difference(t1.product(y0)) == Binary32::of_bits(
            0x3f84_405d,
        ),
{
    lemma2_to64();
    lemma2_to64_rest();
    let t2 = Binary32::of_bits(0x3eee_fe8c);
    let three_halves = Binary32::of_bits(THREE_HALVES_BITS);
    assert(t1.significand() == 0xf7_59df && y0.significand() == 0xf7_59df);
    assert(t1.exponent() + y0.exponent() == -49);
    assert(0xf7_59df * 0xf7_59df == 0xeefe_8bde_d041) by (nonlinear_arith);
    lemma_product_value(t1, y0, 0xeefe_8bde_d041, 48, t2);
    assert(three_halves.significand() == 0xc0_0000 && three_halves.exponent() == -23);
    assert(t2.significand() == 0xee_fe8c && t2.exponent() == -25);
    lemma_pow2_adds(2, 124);
    lemma_difference_value(three_halves, t2, 0x211_0174, 124, 26, Binary32::of_bits(0x3f84_405d));
}

/// Halving four and one.
proof fn lemma_halved()
    ensures
        Binary32::of_bits(0x4080_0000).product(Binary32::of_bits(HALF_BITS)) == Binary32::of_bits(
            0x4000_0000,
        ),
        Binary32::of_bits(0x3f80_0000).product(Binary32::of_bits(HALF_BITS)) == Binary32::of_bits(
            0x3f00_0000,
        ),
{
    lemma2_to64();
    lemma2_to64_rest();
    let half = Binary32::of_bits(HALF_BITS);
    let four = Binary32::of_bits(0x4080_0000);
    let one = Binary32::of_bits(0x3f80_0000);
    assert(half.significand() == 0x80_0000 && half.exponent() == -24);
    assert(four.significand() == 0x80_0000 && four.exponent() == -21);
    assert(one.significand() == 0x80_0000 && one.exponent() == -23);
    assert(0x80_0000 * 0x80_0000 == 0x4000_0000_0000) by (nonlinear_arith);
    lemma_product_value(four, half, 0x4000_0000_0000, 47, Binary32::of_bits(0x4000_0000));
    lemma_product_value(one, half, 0x4000_0000_0000, 47, Binary32::of_bits(0x3f00_0000));
}

/// Half the input times the initial estimate, for four and for one.
proof fn lemma_first_products()
    ensures
        Binary32::of_bits(0x4000_0000).product(Binary32::of_bits(0x3ef7_59df)) == Binary32::of_bits(
            0x3f77_59df,
        ),
        Binary32::of_bits(0x3f00_0000).product(Binary32::of_bits(0x3f77_59df)) == Binary32::of_bits(
            0x3ef7_59df,
        ),
{
    lemma2_to64();
    lemma2_to64_rest();
    let two = Binary32::of_bits(0x4000_0000);
    let half = Binary32::of_bits(0x3f00_0000);
    let low = Binary32::of_bits(0x3ef7_59df);
    let high = Binary32::of_bits(0x3f77_59df);
    assert(two.significand() == 0x80_0000 && two.exponent() == -22);
    assert(half.significand() == 0x80_0000 && half.exponent() == -24);
    assert(low.significand() == 0xf7_59df && low.exponent() == -25);
    assert(high.significand() == 0xf7_59df && high.exponent() == -24);
    assert(0x80_0000 * 0xf7_59df == 0x7bac_ef80_0000) by (nonlinear_arith);
    lemma_product_value(two, low, 0x7bac_ef80_0000, 47, high);
    lemma_product_value(half, high, 0x7bac_ef80_0000, 47, low);
}

/// The initial estimate times the corrected factor, for four and for one.
proof fn lemma_last_products()
    ensures
        Binary32::of_bits(0x3ef7_59df).product(Binary32::of_bits(0x3f84_405d)) == Binary32::of_bits(
            0x3eff_910f,
        ),
        Binary32::of_bits(0x3f77_59df).product(Binary32::of_bits(0x3f84_405d)) == Binary32::of_bits(
            0x3f7f_910f,
        ),
{
    lemma2_to64();
    lemma2_to64_rest();
    let low = Binary32::of_bits(0x3ef7_59df);
    let high = Binary32::of_bits(0x3f77_59df);
    let d = Binary32::of_bits(0x3f84_405d);
    assert(low.significand() == 0xf7_59df && low.exponent() == -25);
    assert(high.significand() == 0xf7_59df && high.exponent() == -24);
    assert(d.significand() == 0x84_405d && d.exponent() == -23);
    assert(0xf7_59df * 0x84_405d == 0x7fc8_874f_6603) by (nonlinear_arith);
    lemma_product_value(low, d, 0x7fc8_874f_6603, 47, Binary32::of_bits(0x3eff_910f));
    lemma_product_value(high, d, 0x7fc8_874f_6603, 47, Binary32::of_bits(0x3f7f_910f));
}

/// The two results as values: `0xff910f * 2^-25` and `0xff910f * 2^-24`.
proof fn lemma_result_values()
    ensures
        Binary32::of_bits(0x3eff_910f).scaled() == 0xff_910f * pow2(124),
        Binary32::of_bits(0x3f7f_910f).scaled() == 0xff_910f * pow2(125),
        pow2(149) == 0x200_0000 * pow2(124),
        pow2(149) == 0x100_0000 * pow2(125),
        pow2(124) > 0,
        pow2(125) > 0,
{
    lemma2_to64();
    let a = Binary32::of_bits(0x3eff_910f);
    let b = Binary32::of_bits(0x3f7f_910f);
    assert(a.significand() == 0xff_910f && a.exponent() == -25);
    assert(b.significand() == 0xff_910f && b.exponent() == -24);
    lemma_pow2_adds(25, 124);
    lemma_pow2_adds(24, 125);
    lemma_pow2_pos(124);
    lemma_pow2_pos(125);
}

/// At four the result is the pattern `0x3eff910f`, a positive finite value
/// strictly between 0.49 and 0.51.
pub proof fn lemma_inverse_sqrt_of_four()
    ensures
        ({
            let r = inverse_sqrt_of(Binary32::of_bits(0x4080_0000));
            &&& r == Binary32::of_bits(0x3eff_910f)
            &&& r.is_finite()
            &&& !r.is_negative()
            &&& 49 * pow2(149) < 100 * r.scaled() < 51 * pow2(149)
        }),
{
    let y = Binary32::of_bits(0x4080_0000);
    let y0 = Binary32::of_bits(0x3ef7_59df);
    let t1 = Binary32::of_bits(0x3f77_59df);
    assert(initial_estimate(y) == y0);
    lemma_halved();
    lemma_first_products();
    lemma_shared_step(t1, y0);
    lemma_last_products();
    lemma_result_values();
}

/// At one the result is the pattern `0x3f7f910f`, a positive finite value
/// strictly between 0.95 and 1.05.
pub proof fn lemma_inverse_sqrt_of_one()
    ensures
        ({
            let r = inverse_sqrt_of(Binary32::of_bits(0x3f80_0000));
            &&& r == Binary32::of_bits(0x3f7f_910f)
            &&& r.is_finite()
            &&& !r.is_negative()
            &&& 95 * pow2(149) < 100 * r.scaled() < 105 * pow2(149)
        }),
{
    let y = Binary32::of_bits(0x3f80_0000);
    let y0 = Binary32::of_bits(0x3f77_59df);
    let t1 = Binary32::of_bits(0x3ef7_59df);
    assert(initial_estimate(y) == y0);
    lemma_halved();
    lemma_first_products();
    lemma_shared_step(t1, y0);
    lemma_last_products();
    lemma_result_values();
}

/// The integers four and one convert to the patterns of 4.0 and 1.0.
pub proof fn lemma_four_and_one_convert()
    ensures
        Binary32::of_int(4) == Binary32::of_bits(0x4080_0000),
        Binary32::of_int(1) == Binary32::of_bits(0x3f80_0000),
{
    lemma2_to64();
    lemma_round_normal(4, 0, 3);
    lemma_round_normal(1, 0, 1);
}

/// The binary64 pattern of 4.0 is in range and narrows to the binary32
/// pattern of 4.0.
pub proof fn lemma_four_narrows()
    ensures
        Binary64::of_bits(0x4010_0000_0000_0000).fits_binary32(),
        Binary64::of_bits(0x4010_0000_0000_0000).narrowed() == Binary32::of_bits(0x4080_0000),
{
    lemma2_to64();
    lemma2_to64_rest();
    let x = Binary64::of_bits(0x4010_0000_0000_0000);
    assert(x.magnitude() == 0x4010_0000_0000_0000);
    lemma_binary32_max_scaled();
    lemma_scaled_64_increases(x.magnitude(), BINARY32_MAX_AS_BINARY64 as nat);
    lemma_round_normal(0x10_0000_0000_0000, -50, 53);
}

/// Four, in every input type, gives the pattern `0x3eff910f`.
pub proof fn lemma_four_in_every_type()
    ensures
        Binary32::of_bits(0x4080_0000).inverse_sqrt() == Binary32::of_bits(0x3eff_910f),
        Binary64::of_bits(0x4010_0000_0000_0000).in_range(),
        Binary64::of_bits(0x4010_0000_0000_0000).inverse_sqrt() == Binary32::of_bits(0x3eff_910f),
        4u8.inverse_sqrt() == Binary32::of_bits(0x3eff_910f),
        4u16.inverse_sqrt() == Binary32::of_bits(0x3eff_910f),
        4u32.inverse_sqrt() == Binary32::of_bits(0x3eff_910f),
        4u64.inverse_sqrt() == Binary32::of_bits(0x3eff_910f),
        4usize.inverse_sqrt() == Binary32::of_bits(0x3eff_910f),
        4i8.inverse_sqrt() == Binary32::of_bits(0x3eff_910f),
        4i16.inverse_sqrt() == Binary32::of_bits(0x3eff_910f),
        4i32.inverse_sqrt() == Binary32::of_bits(0x3eff_910f),
        4i64.inverse_sqrt() == Binary32::of_bits(0x3eff_910f),
        4isize.inverse_sqrt() == Binary32::of_bits(0x3eff_910f),
{
    lemma_inverse_sqrt_of_four();
    lemma_four_and_one_convert();
    lemma_four_narrows();
}

/// One, in every integer type, gives the pattern `0x3f7f910f`, as the
/// binary32 value one does.
pub proof fn lemma_one_in_every_type()
    ensures
        Binary32::of_bits(0x3f80_0000).inverse_sqrt() == Binary32::of_bits(0x3f7f_910f),
        1u8.inverse_sqrt() == Binary32::of_bits(0x3f7f_910f),
        1u16.inverse_sqrt() == Binary32::of_bits(0x3f7f_910f),
        1u32.inverse_sqrt() == Binary32::of_bits(0x3f7f_910f),
        1u64.inverse_sqrt() == Binary32::of_bits(0x3f7f_910f),
        1usize.inverse_sqrt() == Binary32::of_bits(0x3f7f_910f),
        1i8.inverse_sqrt() == Binary32::of_bits(0x3f7f_910f),
        1i16.inverse_sqrt() == Binary32::of_bits(0x3f7f_910f),
        1i32.inverse_sqrt() == Binary32::of_bits(0x3f7f_910f),
        1i64.inverse_sqrt() == Binary32::of_bits(0x3f7f_910f),
        1isize.inverse_sqrt() == Binary32::of_bits(0x3f7f_910f),
{
    lemma_inverse_sqrt_of_one();
    lemma_four_and_one_convert();
}

} // verus!
