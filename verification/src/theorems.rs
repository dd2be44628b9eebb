//! What holds of the arithmetic and of the inverse square root as a whole.
use crate::binary32::Binary32;
use crate::binary64::{exponent_64, significand_64, Binary64};
use crate::monotone::lemma_round_monotone;
use crate::power::{
    bit_length, lemma_bit_length_below, lemma_bit_length_bounds, lemma_bit_length_unique,
};
use crate::qsqrt::QSqrt;
use crate::rounding::{
    lemma_round_normal, quantum_exponent, round_magnitude, INFINITY_MAGNITUDE,
};
use crate::sticky::lemma_round_magnitude_scaled;
use vstd::arithmetic::power2::{lemma2_to64, lemma_pow2_adds, lemma_pow2_pos, pow2};
use vstd::prelude::*;

verus! {

/// A pattern is its sign bit plus its magnitude.
pub proof fn lemma_sign_and_magnitude(x: Binary32)
    ensures
        x == Binary32::with_sign(x.is_negative(), x.magnitude()),
{
}

/// A representable value rounds to itself: rounding the decoded significand
/// and exponent of a finite value gives back its magnitude.
pub proof fn lemma_round_decoded(x: Binary32)
    requires
        x.is_finite(),
    ensures
        round_magnitude(x.significand(), x.exponent()) == x.magnitude(),
{
    lemma2_to64();
    let m = x.magnitude();
    if m == 0 {
    } else if m < 0x80_0000 {
        lemma_bit_length_below(m, 23);
        lemma_bit_length_bounds(m);
        assert(m * pow2(0) == m);
    } else {
        let sig = x.significand();
        lemma_bit_length_unique(sig, 23);
        assert(sig * pow2(0) == sig);
    }
}

/// A value that needs at most 24 significant bits and lies in the exponent
/// range is converted without error: the result is finite and encodes
/// `n * 2^e` exactly.
pub proof fn lemma_round_exact(n: nat, e: int)
    requires
        0 < n < 0x100_0000,
        -149 <= e,
        bit_length(n) + e <= 128,
    ensures
        round_magnitude(n, e) < INFINITY_MAGNITUDE,
        Binary32::with_sign(false, round_magnitude(n, e)).scaled() == n * pow2((e + 149) as nat),
{
    lemma2_to64();
    lemma_bit_length_bounds(n);
    lemma_bit_length_below(n, 24);
    let len = bit_length(n);
    let top = len - 1 + e;
    let q = quantum_exponent(top);
    let k = (e - q) as nat;
    let m = n * pow2(k);
    lemma_pow2_pos(k);
    lemma_pow2_adds((len - 1) as nat, k);
    lemma_pow2_adds(len, k);
    assert(pow2((len - 1) as nat) * pow2(k) <= m < pow2(len) * pow2(k)) by (nonlinear_arith)
        requires
            pow2((len - 1) as nat) <= n < pow2(len),
            m == n * pow2(k),
            pow2(k) > 0,
    ;
    if top < -126 {
        crate::power::lemma_pow2_monotone(len + k, 23);
        assert(m * pow2(0) == m);
    } else {
        assert(len + k == 24);
        let r = Binary32::with_sign(false, round_magnitude(n, e));
        assert(round_magnitude(n, e) == (q + 149) * 0x80_0000 + m);
        assert(r.magnitude() == (q + 150) * 0x80_0000 + (m - 0x80_0000));
        assert(r.magnitude() / 0x80_0000 == q + 150);
        assert(r.magnitude() % 0x80_0000 == m - 0x80_0000);
        lemma_pow2_adds(k, (q + 149) as nat);
        assert((n * pow2(k)) * pow2((q + 149) as nat) == n * (pow2(k) * pow2((q + 149) as nat)))
            by (nonlinear_arith);
    }
}

/// The product does not depend on the order of its factors.
pub proof fn lemma_product_commutes(a: Binary32, b: Binary32)
    ensures
        a.product(b) == b.product(a),
{
    assert(a.significand() * b.significand() == b.significand() * a.significand())
        by (nonlinear_arith);
}

/// One is neutral for the product: every number times one is itself.
pub proof fn lemma_product_with_one(x: Binary32)
    requires
        !x.is_nan(),
    ensures
        x.product(Binary32::one()) == x,
{
    lemma2_to64();
    let one = Binary32::one();
    assert(one.magnitude() == 0x3f80_0000);
    assert(one.significand() == 0x80_0000);
    assert(one.exponent() == -23);
    lemma_sign_and_magnitude(x);
    if x.is_finite() {
        lemma_round_decoded(x);
        lemma_round_magnitude_scaled(x.significand(), x.exponent(), 23);
    }
}

/// Subtracting positive zero changes no number.
pub proof fn lemma_difference_with_zero(x: Binary32)
    requires
        !x.is_nan(),
    ensures
        x.difference(Binary32::zero()) == x,
{
    lemma2_to64();
    let zero = Binary32::zero();
    assert(zero.magnitude() == 0);
    assert(zero.scaled() == 0) by {
        assert(0 * pow2((zero.exponent() + 149) as nat) == 0);
    }
    lemma_sign_and_magnitude(x);
    if x.is_finite() {
        let k = (x.exponent() + 149) as nat;
        lemma_pow2_pos(k);
        lemma_round_decoded(x);
        lemma_round_magnitude_scaled(x.significand(), x.exponent(), k);
        assert(x.significand() > 0 ==> x.significand() * pow2(k) > 0) by (nonlinear_arith)
            requires
                pow2(k) > 0,
        ;
        assert(x.significand() == 0 ==> x.significand() * pow2(k) == 0) by (nonlinear_arith);
    }
}

/// An integer of at most 24 significant bits converts without error: the
/// result is finite, has the integer's sign and encodes its absolute value.
pub proof fn lemma_small_integer_converts_exactly(n: int)
    requires
        -0x100_0000 < n < 0x100_0000,
        n != 0,
    ensures
        Binary32::of_int(n).is_finite(),
        Binary32::of_int(n).is_negative() == (n < 0),
        Binary32::of_int(n).signed_scaled() == n * pow2(149),
{
    let a = if n < 0 {
        (-n) as nat
    } else {
        n as nat
    };
    lemma2_to64();
    lemma_bit_length_below(a, 24);
    lemma_round_exact(a, 0);
    assert((-a) * pow2(149) == -(a * pow2(149))) by (nonlinear_arith);
}

/// A binary64 value in range narrows to a finite binary32 value: the largest
/// finite value at most.
pub proof fn lemma_in_range_narrows_to_finite(x: Binary64)
    requires
        x.fits_binary32(),
    ensures
        x.narrowed().is_finite(),
        x.narrowed().magnitude() <= 0x7f7f_ffff,
        x.narrowed().is_negative() == x.is_negative(),
{
    lemma2_to64();
    let m = x.magnitude();
    lemma_round_monotone(significand_64(m), exponent_64(m), 0xff_ffff, 104, -1074);
    lemma_round_normal(0xff_ffff, 104, 24);
    assert(0xff_ffff * pow2(0) == 0xff_ffff);
}

/// Every integer type takes the binary32 path: the result for an integer is
/// the result for the binary32 value nearest to it.
pub proof fn lemma_integers_take_the_binary32_path(
    a: u8,
    b: u16,
    c: u32,
    d: u64,
    e: usize,
    f: i8,
    g: i16,
    h: i32,
    i: i64,
    j: isize,
)
    ensures
        a.in_range() && a.inverse_sqrt() == Binary32::of_int(a as int).inverse_sqrt(),
        b.in_range() && b.inverse_sqrt() == Binary32::of_int(b as int).inverse_sqrt(),
        c.in_range() && c.inverse_sqrt() == Binary32::of_int(c as int).inverse_sqrt(),
        d.in_range() && d.inverse_sqrt() == Binary32::of_int(d as int).inverse_sqrt(),
        e.in_range() && e.inverse_sqrt() == Binary32::of_int(e as int).inverse_sqrt(),
        f.in_range() && f.inverse_sqrt() == Binary32::of_int(f as int).inverse_sqrt(),
        g.in_range() && g.inverse_sqrt() == Binary32::of_int(g as int).inverse_sqrt(),
        h.in_range() && h.inverse_sqrt() == Binary32::of_int(h as int).inverse_sqrt(),
        i.in_range() && i.inverse_sqrt() == Binary32::of_int(i as int).inverse_sqrt(),
        j.in_range() && j.inverse_sqrt() == Binary32::of_int(j as int).inverse_sqrt(),
{
}

} // verus!
