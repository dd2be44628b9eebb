//! Rounding gives the nearest representable value, and at a tie the one
//! with the even pattern.
use crate::binary32::Binary32;
use crate::monotone::{
    lemma_binade_bounds, lemma_quanta_bounds, lemma_round_monotone, lemma_scaled_increases,
};
use crate::power::{bit_length, lemma_bit_length_bounds};
use crate::rounding::{
    lemma_round_normal, quantum_exponent, round_half_even, round_magnitude, scale_round,
    INFINITY_MAGNITUDE,
};
use crate::sticky::{lemma_div_mod_unique, lemma_round_magnitude_scaled};
use vstd::arithmetic::div_mod::{lemma_fundamental_div_mod, lemma_mod_bound};
use vstd::arithmetic::power2::{
    lemma2_to64, lemma_pow2_adds, lemma_pow2_pos, lemma_pow2_unfold, pow2,
};
use vstd::prelude::*;

verus! {

/// Absolute difference of two integers.
pub open spec fn gap(a: int, b: int) -> nat {
    if a >= b {
        (a - b) as nat
    } else {
        (b - a) as nat
    }
}

/// Distance between `n * 2^e` and the absolute value of the finite `x`,
/// counted in units of `2^e` or of `2^-149`, whichever is finer.
pub open spec fn distance(n: nat, e: int, x: Binary32) -> nat {
    if e <= -149 {
        gap(n as int, (x.scaled() * pow2((-149 - e) as nat)) as int)
    } else {
        gap((n * pow2((e + 149) as nat)) as int, x.scaled() as int)
    }
}

/// No multiple of `d` is closer to `n` than the rounded quotient times `d`,
/// and where another multiple is as close, the rounded quotient is even.
pub proof fn lemma_round_half_even_nearest(n: nat, d: nat, j: nat)
    requires
        d > 0,
    ensures
        gap(n as int, (round_half_even(n, d) * d) as int) <= gap(n as int, (j * d) as int),
        j != round_half_even(n, d) && gap(n as int, (round_half_even(n, d) * d) as int) == gap(
            n as int,
            (j * d) as int,
        ) ==> round_half_even(n, d) % 2 == 0,
{
    let q = n / d;
    let r = n % d;
    let m = round_half_even(n, d);
    lemma_fundamental_div_mod(n as int, d as int);
    lemma_mod_bound(n as int, d as int);
    assert(q * d == d * q && (q + 1) * d == d * q + d) by (nonlinear_arith);
    if j <= q {
        assert(j * d <= q * d) by (nonlinear_arith)
            requires
                j <= q,
        ;
        if j < q {
            assert(j * d + d <= q * d) by (nonlinear_arith)
                requires
                    j + 1 <= q,
            ;
        }
    } else {
        assert(j * d >= (q + 1) * d) by (nonlinear_arith)
            requires
                j >= q + 1,
        ;
        if j > q + 1 {
            assert(j * d >= (q + 1) * d + d) by (nonlinear_arith)
                requires
                    j >= q + 2,
            ;
        }
    }
}

/// The value that a finite rounding result encodes is the rounded count of
/// quanta times the quantum.
pub proof fn lemma_rounded_value(n: nat, e: int)
    requires
        n > 0,
        round_magnitude(n, e) < INFINITY_MAGNITUDE,
    ensures
        ({
            let q = quantum_exponent(bit_length(n) - 1 + e);
            Binary32::with_sign(false, round_magnitude(n, e)).scaled() == scale_round(n, e - q)
                * pow2((q + 149) as nat)
        }),
{
    lemma2_to64();
    lemma_quanta_bounds(n, e);
    let top = bit_length(n) - 1 + e;
    let q = quantum_exponent(top);
    let m = scale_round(n, e - q);
    let r = round_magnitude(n, e);
    let x = Binary32::with_sign(false, r);
    assert(x.magnitude() == r);
    if top < -126 {
        assert(r == m);
    } else if m < 0x100_0000 {
        assert(r == (q + 150) * 0x80_0000 + (m - 0x80_0000));
        assert(r / 0x80_0000 == q + 150);
        assert(r % 0x80_0000 == m - 0x80_0000);
    } else {
        assert(r == (q + 151) * 0x80_0000);
        assert(r / 0x80_0000 == q + 151);
        assert(r % 0x80_0000 == 0);
        lemma_pow2_unfold((q + 150) as nat);
        assert(0x80_0000 * (2 * pow2((q + 149) as nat)) == 0x100_0000 * pow2((q + 149) as nat))
            by (nonlinear_arith);
    }
}

/// The nearest-value property for a value given at an exponent of at most -149.
proof fn lemma_nearest_fine(n: nat, e: int, u: Binary32)
    requires
        e <= -149,
        round_magnitude(n, e) < INFINITY_MAGNITUDE,
        u.is_finite(),
    ensures
        ({
            let r = Binary32::with_sign(false, round_magnitude(n, e));
            &&& distance(n, e, r) <= distance(n, e, u)
            &&& distance(n, e, r) == distance(n, e, u) && u.magnitude() != r.magnitude()
                ==> round_magnitude(n, e) % 2 == 0
        }),
{
    lemma2_to64();
    let r = Binary32::with_sign(false, round_magnitude(n, e));
    assert(r.magnitude() == round_magnitude(n, e));
    let unit = pow2((-149 - e) as nat);
    lemma_pow2_pos((-149 - e) as nat);
    if n == 0 {
        assert(r.scaled() == 0) by {
            assert(0 * pow2((r.exponent() + 149) as nat) == 0);
        }
        assert(0 * unit == 0);
        if u.magnitude() != 0 {
            lemma_scaled_increases(r, u);
            assert(u.scaled() * unit > 0) by (nonlinear_arith)
                requires
                    u.scaled() > 0,
                    unit > 0,
            ;
        }
    } else {
        lemma_bit_length_bounds(n);
        lemma_quanta_bounds(n, e);
        lemma_rounded_value(n, e);
        let len = bit_length(n);
        let top = len - 1 + e;
        let q = quantum_exponent(top);
        let s = (q - e) as nat;
        let d = pow2(s);
        lemma_pow2_pos(s);
        let m = scale_round(n, e - q);
        // The count of quanta is the rounded quotient by `d`, also for `d == 1`.
        if s == 0 {
            lemma_div_mod_unique(n, 1, n, 0);
            assert(n * pow2(0) == n);
        }
        assert(m == round_half_even(n, d));
        // The result, in units of `2^e`, is `m * d`.
        lemma_pow2_adds((q + 149) as nat, (-149 - e) as nat);
        assert((m * pow2((q + 149) as nat)) * unit == m * (pow2((q + 149) as nat) * unit))
            by (nonlinear_arith);
        assert(r.scaled() * unit == m * d);
        let su = u.significand();
        let eu = u.exponent();
        let lift = pow2((eu + 149) as nat);
        lemma_pow2_adds((eu + 149) as nat, (-149 - e) as nat);
        assert((su * lift) * unit == su * (lift * unit)) by (nonlinear_arith);
        assert(u.scaled() * unit == su * pow2((eu - e) as nat));
        if eu >= q {
            let j = su * pow2((eu - q) as nat);
            lemma_pow2_adds((eu - q) as nat, s);
            assert(j * d == su * (pow2((eu - q) as nat) * d)) by (nonlinear_arith)
                requires
                    j == su * pow2((eu - q) as nat),
            ;
            lemma_round_half_even_nearest(n, d, j);
            if j == m && u.magnitude() != r.magnitude() {
                if u.magnitude() < r.magnitude() {
                    lemma_scaled_increases(u, r);
                } else {
                    lemma_scaled_increases(r, u);
                }
                assert(u.scaled() * unit != r.scaled() * unit) by (nonlinear_arith)
                    requires
                        u.scaled() != r.scaled(),
                        unit > 0,
                ;
            }
        } else {
            // `u` lies below the binade of `n`, whose lower end is a multiple of `d`.
            lemma_pow2_adds(23, s);
            lemma_pow2_unfold((q - e) as nat);
            crate::power::lemma_pow2_monotone((eu - e) as nat, (q - e - 1) as nat);
            lemma_pow2_pos((eu - e) as nat);
            assert(su * pow2((eu - e) as nat) < 0x80_0000 * d) by (nonlinear_arith)
                requires
                    su < 0x100_0000,
                    2 * pow2((eu - e) as nat) <= d,
                    pow2((eu - e) as nat) > 0,
            ;
            lemma_round_half_even_nearest(n, d, 0x80_0000);
        }
    }
}

/// Rounding gives the nearest representable value. Where the result is
/// finite, no finite `u` is closer to `n * 2^e` than it; and where some `u`
/// of another magnitude is as close, the result has the even pattern.
pub proof fn lemma_round_is_nearest(n: nat, e: int, u: Binary32)
    requires
        round_magnitude(n, e) < INFINITY_MAGNITUDE,
        u.is_finite(),
    ensures
        ({
            let r = Binary32::with_sign(false, round_magnitude(n, e));
            &&& distance(n, e, r) <= distance(n, e, u)
            &&& distance(n, e, r) == distance(n, e, u) && u.magnitude() != r.magnitude()
                ==> round_magnitude(n, e) % 2 == 0
        }),
{
    if e <= -149 {
        lemma_nearest_fine(n, e, u);
    } else {
        lemma2_to64();
        let lifted = n * pow2((e + 149) as nat);
        lemma_round_magnitude_scaled(n, e, (e + 149) as nat);
        lemma_nearest_fine(lifted, -149, u);
        let r = Binary32::with_sign(false, round_magnitude(n, e));
        assert(r.scaled() * pow2(0) == r.scaled());
        assert(u.scaled() * pow2(0) == u.scaled());
    }
}

/// A numerator strictly below the midpoint `(2 * a + 1) * h` of two
/// multiples of `2 * h` does not round beyond the lower one.
proof fn lemma_round_half_even_below_midpoint(n: nat, h: nat, a: nat)
    requires
        h > 0,
        n < (2 * a + 1) * h,
    ensures
        round_half_even(n, 2 * h) <= a,
{
    let d = 2 * h;
    let q = n / d;
    let r = n % d;
    lemma_fundamental_div_mod(n as int, d as int);
    lemma_mod_bound(n as int, d as int);
    assert((2 * a + 1) * h == a * d + h) by (nonlinear_arith)
        requires
            d == 2 * h,
    ;
    if q >= a {
        assert(d * q >= d * a) by (nonlinear_arith)
            requires
                q >= a,
        ;
        assert(d * a == a * d) by (nonlinear_arith);
        if q > a {
            assert(d * q >= d * a + d) by (nonlinear_arith)
                requires
                    q >= a + 1,
            ;
        }
    }
}

/// Rounding overflows exactly from the midpoint between the largest finite
/// value and `2^128` on: `n * 2^e` rounds to infinity if and only if it is
/// at least `(2^25 - 1) * 2^103`. Both sides are brought to the common
/// exponent `c`.
pub proof fn lemma_round_overflows(n: nat, e: int, c: int)
    requires
        c <= e,
        c <= 103,
    ensures
        round_magnitude(n, e) == INFINITY_MAGNITUDE <==> n * pow2((e - c) as nat) >= 0x1ff_ffff
            * pow2((103 - c) as nat),
{
    lemma2_to64();
    let lifted = n * pow2((e - c) as nat);
    let h = pow2((103 - c) as nat);
    lemma_pow2_pos((103 - c) as nat);
    lemma_round_magnitude_scaled(n, e, (e - c) as nat);
    lemma_round_normal(0x1ff_ffff, 103, 25);
    assert(round_half_even(0x1ff_ffff, 2) == 0x100_0000);
    if lifted >= 0x1ff_ffff * h {
        lemma_round_monotone(0x1ff_ffff, 103, n, e, c);
        if n > 0 {
            lemma_binade_bounds(n, e);
        }
    } else if lifted > 0 {
        lemma_binade_bounds(lifted, c);
        lemma_bit_length_bounds(lifted);
        let len = bit_length(lifted);
        let top = len - 1 + c;
        lemma_pow2_adds(25, (103 - c) as nat);
        assert(0x1ff_ffff * h < 0x200_0000 * h) by (nonlinear_arith)
            requires
                h > 0,
        ;
        if top >= 128 {
            crate::power::lemma_pow2_monotone((128 - c) as nat, (len - 1) as nat);
        }
        if top == 127 {
            lemma_pow2_unfold((104 - c) as nat);
            lemma_round_half_even_below_midpoint(lifted, h, 0xff_ffff);
        }
    }
}

} // verus!
