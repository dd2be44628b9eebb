//! Rounding keeps the order of values, and finite patterns are ordered as
//! the values they encode.
use crate::binary32::Binary32;
use crate::power::{bit_length, lemma_bit_length_bounds, lemma_pow2_monotone};
use crate::rounding::{
    quantum_exponent, round_half_even, round_magnitude, scale_round, INFINITY_MAGNITUDE,
};
use crate::sticky::lemma_round_magnitude_scaled;
use vstd::arithmetic::div_mod::{lemma_div_is_ordered, lemma_fundamental_div_mod, lemma_mod_bound};
use vstd::arithmetic::power2::{
    lemma2_to64, lemma_pow2_adds, lemma_pow2_pos, lemma_pow2_unfold, pow2,
};
use vstd::prelude::*;

verus! {

/// The rounded quotient grows with the numerator.
pub proof fn lemma_round_half_even_monotone(a: nat, b: nat, d: nat)
    requires
        a <= b,
        d > 0,
    ensures
        round_half_even(a, d) <= round_half_even(b, d),
{
    lemma_div_is_ordered(a as int, b as int, d as int);
    lemma_fundamental_div_mod(a as int, d as int);
    lemma_fundamental_div_mod(b as int, d as int);
    lemma_mod_bound(a as int, d as int);
    lemma_mod_bound(b as int, d as int);
    let qa = a / d;
    let qb = b / d;
    if qa == qb {
        assert(d * qa == d * qb);
    }
}

/// The rounded quotient of a numerator in `[lo * d, hi * d]` lies in `[lo, hi]`.
pub proof fn lemma_round_half_even_between(n: nat, d: nat, lo: nat, hi: nat)
    requires
        d > 0,
        lo * d <= n <= hi * d,
    ensures
        lo <= round_half_even(n, d) <= hi,
{
    lemma_round_half_even_monotone(lo * d, n, d);
    lemma_round_half_even_monotone(n, hi * d, d);
    crate::sticky::lemma_div_mod_unique(lo * d, d, lo, 0);
    crate::sticky::lemma_div_mod_unique(hi * d, d, hi, 0);
}

/// The rounded count of quanta grows with the integer.
pub proof fn lemma_scale_round_monotone(a: nat, b: nat, k: int)
    requires
        a <= b,
    ensures
        scale_round(a, k) <= scale_round(b, k),
{
    if k >= 0 {
        let p = pow2(k as nat);
        assert(a * p <= b * p) by (nonlinear_arith)
            requires
                a <= b,
        ;
    } else {
        lemma_pow2_pos((-k) as nat);
        lemma_round_half_even_monotone(a, b, pow2((-k) as nat));
    }
}

/// The count of quanta of a value in a binade: from `2^23` to `2^24` in the
/// normal range, up to `2^23` in the subnormal range.
pub proof fn lemma_quanta_bounds(n: nat, e: int)
    requires
        n > 0,
    ensures
        ({
            let top = bit_length(n) - 1 + e;
            let m = scale_round(n, e - quantum_exponent(top));
            &&& top >= -126 ==> 0x80_0000 <= m <= 0x100_0000
            &&& top < -126 ==> m <= 0x80_0000
        }),
{
    lemma2_to64();
    lemma_bit_length_bounds(n);
    let len = bit_length(n);
    let top = len - 1 + e;
    let k = e - quantum_exponent(top);
    let lo = pow2((len - 1) as nat);
    let hi = pow2(len);
    if k >= 0 {
        let p = pow2(k as nat);
        lemma_pow2_pos(k as nat);
        lemma_pow2_adds((len - 1) as nat, k as nat);
        lemma_pow2_adds(len, k as nat);
        assert(lo * p <= n * p < hi * p) by (nonlinear_arith)
            requires
                lo <= n < hi,
                p > 0,
        ;
        if top < -126 {
            lemma_pow2_monotone(len + k as nat, 23);
        }
    } else {
        let d = pow2((-k) as nat);
        lemma_pow2_pos((-k) as nat);
        if top >= -126 {
            lemma_pow2_adds(23, (-k) as nat);
            lemma_pow2_adds(24, (-k) as nat);
            lemma_round_half_even_between(n, d, 0x80_0000, 0x100_0000);
        } else {
            lemma_pow2_adds(23, (-k) as nat);
            lemma_pow2_monotone(len, (23 - k) as nat);
            assert(0 * d == 0);
            lemma_round_half_even_between(n, d, 0, 0x80_0000);
        }
    }
}

/// The pattern of a rounded value by its binade: between the patterns of
/// the two powers of two around it.
pub proof fn lemma_binade_bounds(n: nat, e: int)
    requires
        n > 0,
    ensures
        ({
            let top = bit_length(n) - 1 + e;
            let r = round_magnitude(n, e);
            &&& r <= INFINITY_MAGNITUDE
            &&& top >= 128 ==> r == INFINITY_MAGNITUDE
            &&& -126 <= top < 128 ==> (top + 127) * 0x80_0000 <= r <= (top + 128) * 0x80_0000
            &&& top < -126 ==> r <= 0x80_0000
        }),
{
    lemma_quanta_bounds(n, e);
}

/// A rounding result is never beyond the pattern of infinity.
pub proof fn lemma_binade_bounds_total(n: nat, e: int)
    ensures
        round_magnitude(n, e) <= INFINITY_MAGNITUDE,
{
    if n > 0 {
        lemma_binade_bounds(n, e);
    }
}

/// Rounding keeps the order of two values given at one exponent.
pub proof fn lemma_round_monotone_aligned(a: nat, b: nat, e: int)
    requires
        a <= b,
    ensures
        round_magnitude(a, e) <= round_magnitude(b, e),
{
    if a > 0 {
        lemma_binade_bounds(a, e);
        lemma_binade_bounds(b, e);
        lemma_bit_length_bounds(a);
        lemma_bit_length_bounds(b);
        let la = bit_length(a);
        let lb = bit_length(b);
        if la > lb {
            lemma_pow2_monotone(lb, (la - 1) as nat);
        }
        if la == lb {
            let top = la - 1 + e;
            if top < 128 {
                lemma_scale_round_monotone(a, b, e - quantum_exponent(top));
            }
        } else {
            let ta = la - 1 + e;
            let tb = lb - 1 + e;
            assert(ta + 1 <= tb);
            if tb < -126 {
                lemma_scale_round_monotone(a, b, e + 149);
            } else if ta >= -126 && tb < 128 {
                assert((ta + 128) * 0x80_0000 <= (tb + 127) * 0x80_0000);
            }
        }
    }
}

/// Rounding keeps the order of values: where `a * 2^ea <= b * 2^eb`, both
/// brought to a common exponent `c`, the first rounds to a pattern that is
/// not larger.
pub proof fn lemma_round_monotone(a: nat, ea: int, b: nat, eb: int, c: int)
    requires
        c <= ea,
        c <= eb,
        a * pow2((ea - c) as nat) <= b * pow2((eb - c) as nat),
    ensures
        round_magnitude(a, ea) <= round_magnitude(b, eb),
{
    lemma_round_magnitude_scaled(a, ea, (ea - c) as nat);
    lemma_round_magnitude_scaled(b, eb, (eb - c) as nat);
    lemma_round_monotone_aligned(a * pow2((ea - c) as nat), b * pow2((eb - c) as nat), c);
}

/// Finite patterns are ordered as the values they encode.
pub proof fn lemma_scaled_increases(a: Binary32, b: Binary32)
    requires
        a.magnitude() < b.magnitude() < INFINITY_MAGNITUDE,
    ensures
        a.scaled() < b.scaled(),
{
    lemma2_to64();
    let sa = a.significand();
    let sb = b.significand();
    let ka = (a.exponent() + 149) as nat;
    let kb = (b.exponent() + 149) as nat;
    lemma_pow2_pos(ka);
    lemma_pow2_pos(kb);
    if ka == kb {
        assert(sa * pow2(ka) < sb * pow2(ka)) by (nonlinear_arith)
            requires
                sa < sb,
                pow2(ka) > 0,
        ;
    } else {
        lemma_pow2_unfold(ka + 1);
        lemma_pow2_monotone(ka + 1, kb);
        assert(sa * pow2(ka) < 0x80_0000 * pow2(kb)) by (nonlinear_arith)
            requires
                sa < 0x100_0000,
                2 * pow2(ka) <= pow2(kb),
                pow2(ka) > 0,
        ;
        assert(0x80_0000 * pow2(kb) <= sb * pow2(kb)) by (nonlinear_arith)
            requires
                0x80_0000 <= sb,
        ;
    }
}

} // verus!
