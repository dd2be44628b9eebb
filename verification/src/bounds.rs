//! Upper bounds on values, carried through products: a value known to be at
//! most `n * 2^e` with a short `n` keeps such a bound when it is multiplied.
use crate::binary32::Binary32;
use crate::monotone::{lemma_round_monotone, lemma_scaled_increases};
use crate::power::bit_length;
use crate::rounding::{round_magnitude, INFINITY_MAGNITUDE};
use crate::sticky::lemma_round_magnitude_scaled;
use crate::theorems::{lemma_round_decoded, lemma_round_exact};
use vstd::arithmetic::power2::{lemma_pow2_adds, pow2};
use vstd::prelude::*;

verus! {

/// The finite value `x` is at most `n * 2^e` in absolute value.
pub open spec fn at_most(x: Binary32, n: nat, e: int) -> bool {
    &&& x.is_finite()
    &&& e >= -149
    &&& x.scaled() <= n * pow2((e + 149) as nat)
}

/// The finite value `x` is at least `n * 2^e` in absolute value.
pub open spec fn at_least(x: Binary32, n: nat, e: int) -> bool {
    &&& x.is_finite()
    &&& e >= -149
    &&& x.scaled() >= n * pow2((e + 149) as nat)
}

/// Finite patterns of which one is not larger encode values of which that
/// one is not larger.
pub proof fn lemma_scaled_monotone(a: Binary32, b: Binary32)
    requires
        a.magnitude() <= b.magnitude() < INFINITY_MAGNITUDE,
    ensures
        a.scaled() <= b.scaled(),
{
    if a.magnitude() < b.magnitude() {
        lemma_scaled_increases(a, b);
    }
}

/// Finite values of which one is not larger have patterns of which that one
/// is not larger.
pub proof fn lemma_magnitude_monotone(a: Binary32, b: Binary32)
    requires
        a.is_finite(),
        b.is_finite(),
        a.scaled() <= b.scaled(),
    ensures
        a.magnitude() <= b.magnitude(),
{
    if b.magnitude() < a.magnitude() {
        lemma_scaled_increases(b, a);
    }
}

/// Rounding the exact count of units of a finite value gives the value back.
pub proof fn lemma_round_scaled(x: Binary32)
    requires
        x.is_finite(),
    ensures
        round_magnitude(x.scaled(), -149) == x.magnitude(),
{
    lemma_round_decoded(x);
    lemma_round_magnitude_scaled(x.significand(), x.exponent(), (x.exponent() + 149) as nat);
}

/// A value is at most what a pattern that is not smaller encodes.
pub proof fn lemma_at_most_pattern(x: Binary32, p: Binary32)
    requires
        x.magnitude() <= p.magnitude() < INFINITY_MAGNITUDE,
    ensures
        at_most(x, p.significand(), p.exponent()),
{
    lemma_scaled_monotone(x, p);
}

/// A bound may be replaced by a larger one with fewer digits.
pub proof fn lemma_at_most_coarser(x: Binary32, n: nat, e: int, m: nat, k: nat)
    requires
        at_most(x, n, e),
        n <= m * pow2(k),
    ensures
        at_most(x, m, e + k),
{
    let unit = pow2((e + 149) as nat);
    lemma_pow2_adds(k, (e + 149) as nat);
    assert(n * unit <= m * (pow2(k) * unit)) by (nonlinear_arith)
        requires
            n <= m * pow2(k),
    ;
}

/// A value is at least what a pattern that is not larger encodes.
pub proof fn lemma_at_least_pattern(x: Binary32, p: Binary32)
    requires
        p.magnitude() <= x.magnitude() < INFINITY_MAGNITUDE,
    ensures
        at_least(x, p.significand(), p.exponent()),
{
    lemma_scaled_monotone(p, x);
}

/// A lower bound may be replaced by a smaller one with fewer digits.
pub proof fn lemma_at_least_coarser(x: Binary32, n: nat, e: int, m: nat, k: nat)
    requires
        at_least(x, n, e),
        m * pow2(k) <= n,
    ensures
        at_least(x, m, e + k),
{
    let unit = pow2((e + 149) as nat);
    lemma_pow2_adds(k, (e + 149) as nat);
    assert(m * (pow2(k) * unit) <= n * unit) by (nonlinear_arith)
        requires
            m * pow2(k) <= n,
    ;
}

/// The product of two values bounded from below is bounded from below by
/// the product of the bounds, where that product has at most 24 digits and
/// is in range, and the product of the values is finite.
pub proof fn lemma_product_at_least(a: Binary32, b: Binary32, na: nat, ea: int, nb: nat, eb: int)
    requires
        at_least(a, na, ea),
        at_least(b, nb, eb),
        a.product(b).is_finite(),
        0 < na * nb < 0x100_0000,
        bit_length(na * nb) + ea + eb <= 128,
        ea + eb >= -149,
    ensures
        at_least(a.product(b), na * nb, ea + eb),
{
    let sa = a.significand();
    let sb = b.significand();
    let xa = a.exponent();
    let xb = b.exponent();
    let pa = pow2((xa + 149) as nat);
    let pb = pow2((xb + 149) as nat);
    let qa = pow2((ea + 149) as nat);
    let qb = pow2((eb + 149) as nat);
    lemma_pow2_adds((xa + 149) as nat, (xb + 149) as nat);
    lemma_pow2_adds((ea + 149) as nat, (eb + 149) as nat);
    assert((na * nb) * (qa * qb) <= (sa * sb) * (pa * pb)) by (nonlinear_arith)
        requires
            na * qa <= sa * pa,
            nb * qb <= sb * pb,
    ;
    lemma_round_monotone(na * nb, ea + eb, sa * sb, xa + xb, -298);
    lemma_round_exact(na * nb, ea + eb);
    let p = a.product(b);
    let bound = Binary32::with_sign(false, round_magnitude(na * nb, ea + eb));
    assert(bound.magnitude() == round_magnitude(na * nb, ea + eb));
    crate::monotone::lemma_binade_bounds_total(sa * sb, xa + xb);
    assert(p.magnitude() == round_magnitude(sa * sb, xa + xb));
    lemma_scaled_monotone(bound, p);
}

/// The product of two bounded values is bounded by the product of the
/// bounds, where that product has at most 24 digits and is in range.
pub proof fn lemma_product_at_most(a: Binary32, b: Binary32, na: nat, ea: int, nb: nat, eb: int)
    requires
        at_most(a, na, ea),
        at_most(b, nb, eb),
        0 < na * nb < 0x100_0000,
        bit_length(na * nb) + ea + eb <= 128,
        ea + eb >= -149,
    ensures
        at_most(a.product(b), na * nb, ea + eb),
        a.product(b).is_negative() == (a.is_negative() != b.is_negative()),
{
    let sa = a.significand();
    let sb = b.significand();
    let xa = a.exponent();
    let xb = b.exponent();
    let pa = pow2((xa + 149) as nat);
    let pb = pow2((xb + 149) as nat);
    let qa = pow2((ea + 149) as nat);
    let qb = pow2((eb + 149) as nat);
    lemma_pow2_adds((xa + 149) as nat, (xb + 149) as nat);
    lemma_pow2_adds((ea + 149) as nat, (eb + 149) as nat);
    assert((sa * sb) * (pa * pb) <= (na * nb) * (qa * qb)) by (nonlinear_arith)
        requires
            sa * pa <= na * qa,
            sb * pb <= nb * qb,
    ;
    lemma_round_monotone(sa * sb, xa + xb, na * nb, ea + eb, -298);
    lemma_round_exact(na * nb, ea + eb);
    let p = a.product(b);
    let bound = Binary32::with_sign(false, round_magnitude(na * nb, ea + eb));
    assert(bound.magnitude() == round_magnitude(na * nb, ea + eb));
    assert(p.magnitude() == round_magnitude(sa * sb, xa + xb));
    lemma_scaled_monotone(p, bound);
}

/// The product grows with the magnitudes of its factors.
pub proof fn lemma_product_monotone(a: Binary32, b: Binary32, c: Binary32, d: Binary32)
    requires
        a.magnitude() <= c.magnitude() < INFINITY_MAGNITUDE,
        b.magnitude() <= d.magnitude() < INFINITY_MAGNITUDE,
        c.product(d).is_finite(),
    ensures
        a.product(b).magnitude() <= c.product(d).magnitude(),
        a.product(b).is_negative() == (a.is_negative() != b.is_negative()),
{
    lemma_scaled_monotone(a, c);
    lemma_scaled_monotone(b, d);
    let sa = a.significand();
    let sb = b.significand();
    let sc = c.significand();
    let sd = d.significand();
    let pa = pow2((a.exponent() + 149) as nat);
    let pb = pow2((b.exponent() + 149) as nat);
    let pc = pow2((c.exponent() + 149) as nat);
    let pd = pow2((d.exponent() + 149) as nat);
    lemma_pow2_adds((a.exponent() + 149) as nat, (b.exponent() + 149) as nat);
    lemma_pow2_adds((c.exponent() + 149) as nat, (d.exponent() + 149) as nat);
    assert((sa * sb) * (pa * pb) <= (sc * sd) * (pc * pd)) by (nonlinear_arith)
        requires
            sa * pa <= sc * pc,
            sb * pb <= sd * pd,
    ;
    lemma_round_monotone(
        sa * sb,
        a.exponent() + b.exponent(),
        sc * sd,
        c.exponent() + d.exponent(),
        -298,
    );
    crate::monotone::lemma_binade_bounds_total(sa * sb, a.exponent() + b.exponent());
    crate::monotone::lemma_binade_bounds_total(sc * sd, c.exponent() + d.exponent());
}

} // verus!
