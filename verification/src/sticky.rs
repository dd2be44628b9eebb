//! Two facts that let a correctly rounded result be computed from less than
//! the exact value: rounding does not depend on how a value is split into
//! integer and power of two, and below the rounding position only "zero or
//! not" matters.
use crate::power::{
    bit_length, lemma_bit_length_above, lemma_bit_length_bounds, lemma_bit_length_shift,
    lemma_bit_length_unique,
};
use crate::rounding::{quantum_exponent, round_half_even, round_magnitude, scale_round};
use vstd::arithmetic::div_mod::{
    lemma_fundamental_div_mod, lemma_fundamental_div_mod_converse, lemma_mod_bound,
};
use vstd::arithmetic::power2::{
    lemma2_to64, lemma_pow2_adds, lemma_pow2_pos, lemma_pow2_unfold, pow2,
};
use vstd::prelude::*;

verus! {

/// Quotient and remainder are what any split with a small remainder names.
pub proof fn lemma_div_mod_unique(x: nat, d: nat, q: nat, r: nat)
    requires
        d > 0,
        r < d,
        x == q * d + r,
    ensures
        x / d == q,
        x % d == r,
{
    lemma_fundamental_div_mod_converse(x as int, d as int, q as int, r as int);
}

/// Scaling numerator and denominator alike does not change the rounded quotient.
pub proof fn lemma_round_half_even_scaled(n: nat, d: nat, p: nat)
    requires
        d > 0,
        p > 0,
    ensures
        round_half_even(n * p, d * p) == round_half_even(n, d),
{
    let q = n / d;
    let r = n % d;
    lemma_fundamental_div_mod(n as int, d as int);
    lemma_mod_bound(n as int, d as int);
    assert(n * p == q * (d * p) + r * p) by (nonlinear_arith)
        requires
            n == d * q + r,
    ;
    assert(r * p < d * p && d * p > 0) by (nonlinear_arith)
        requires
            r < d,
            p > 0,
    ;
    lemma_div_mod_unique(n * p, d * p, q, r * p);
    assert((2 * (r * p) > d * p) == (2 * r > d) && (2 * (r * p) == d * p) == (2 * r == d))
        by (nonlinear_arith)
        requires
            p > 0,
    ;
}

/// Moving a factor `2^j` from the exponent into the integer does not change
/// the rounded count of quanta.
pub proof fn lemma_scale_round_scaled(n: nat, k: int, j: nat)
    ensures
        scale_round(n * pow2(j), k - j) == scale_round(n, k),
{
    let p = pow2(j);
    lemma_pow2_pos(j);
    if k - j >= 0 {
        let s = pow2((k - j) as nat);
        lemma_pow2_adds(j, (k - j) as nat);
        assert((n * p) * s == n * (p * s)) by (nonlinear_arith);
    } else if k >= 0 {
        let d = pow2((j - k) as nat);
        let f = pow2(k as nat);
        lemma_pow2_adds(k as nat, (j - k) as nat);
        lemma_pow2_pos((j - k) as nat);
        assert(n * p == (n * f) * d + 0) by (nonlinear_arith)
            requires
                p == f * d,
        ;
        lemma_div_mod_unique(n * p, d, n * f, 0);
    } else {
        let d = pow2((-k) as nat);
        lemma_pow2_pos((-k) as nat);
        lemma_pow2_adds((-k) as nat, j);
        lemma_round_half_even_scaled(n, d, p);
    }
}

/// Rounding sees the value, not its representation: `n * 2^j` at exponent
/// `e - j` rounds as `n` at exponent `e`.
pub proof fn lemma_round_magnitude_scaled(n: nat, e: int, j: nat)
    ensures
        round_magnitude(n * pow2(j), e - j) == round_magnitude(n, e),
{
    let p = pow2(j);
    lemma_pow2_pos(j);
    if n == 0 {
        assert(n * p == 0) by (nonlinear_arith)
            requires
                n == 0,
        ;
    } else {
        assert(n * p > 0) by (nonlinear_arith)
            requires
                n > 0,
                p > 0,
        ;
        lemma_bit_length_shift(n, j);
        let top = bit_length(n) - 1 + e;
        if top < 128 {
            lemma_scale_round_scaled(n, e - quantum_exponent(top), j);
        }
    }
}

/// Dividing by `t * m` with `m` even: a nonzero remainder below `t` cannot
/// make a tie, so only the part above it decides the direction.
pub proof fn lemma_round_half_even_sticky(h: nat, m: nat, t: nat, r: nat)
    requires
        m >= 2,
        m % 2 == 0,
        0 < r < t,
    ensures
        round_half_even(h * t + r, t * m) == if h % m >= m / 2 {
            h / m + 1
        } else {
            h / m
        },
{
    let u = h / m;
    let v = h % m;
    let w = m / 2;
    lemma_fundamental_div_mod(h as int, m as int);
    lemma_mod_bound(h as int, m as int);
    let big = v * t + r;
    assert(h * t + r == u * (t * m) + big) by (nonlinear_arith)
        requires
            h == m * u + v,
            big == v * t + r,
    ;
    assert(big < t * m) by (nonlinear_arith)
        requires
            v < m,
            r < t,
            big == v * t + r,
    ;
    lemma_div_mod_unique(h * t + r, t * m, u, big);
    if v >= w {
        assert(2 * big > t * m) by (nonlinear_arith)
            requires
                v >= w,
                m == 2 * w,
                r > 0,
                big == v * t + r,
        ;
    } else {
        assert(2 * big < t * m) by (nonlinear_arith)
            requires
                v + 1 <= w,
                m == 2 * w,
                r < t,
                big == v * t + r,
        ;
    }
}

/// What every value strictly inside the cell `(h * 2^c, (h + 1) * 2^c)`
/// rounds to, written over `h` and `c` alone.
spec fn cell_magnitude(h: nat, c: int) -> nat {
    let top = bit_length(h) - 1 + c;
    if top >= 128 {
        0x7f80_0000
    } else {
        let q = quantum_exponent(top);
        let m = pow2((q - c) as nat);
        ((q + 149) * 0x80_0000 + if h % m >= m / 2 {
            h / m + 1
        } else {
            h / m
        }) as nat
    }
}

proof fn lemma_cell_magnitude(h: nat, c: int, n: nat, e: int)
    requires
        h >= 0x200_0000,
        e < c,
        h * pow2((c - e) as nat) < n < (h + 1) * pow2((c - e) as nat),
    ensures
        round_magnitude(n, e) == cell_magnitude(h, c),
{
    lemma2_to64();
    let gap = (c - e) as nat;
    let t = pow2(gap);
    let len = bit_length(h);
    lemma_bit_length_bounds(h);
    lemma_bit_length_above(h, 25);
    let lo = pow2((len - 1) as nat);
    let hi = pow2(len);
    lemma_pow2_pos(gap);
    lemma_pow2_adds((len - 1) as nat, gap);
    lemma_pow2_adds(len, gap);
    assert(lo * t <= h * t && (h + 1) * t <= hi * t) by (nonlinear_arith)
        requires
            lo <= h,
            h + 1 <= hi,
            t > 0,
    ;
    lemma_bit_length_unique(n, (len - 1 + gap) as nat);
    let top = len - 1 + c;
    if top < 128 {
        let q = quantum_exponent(top);
        let m = pow2((q - c) as nat);
        lemma_pow2_unfold((q - c) as nat);
        lemma_pow2_pos((q - c - 1) as nat);
        lemma_pow2_adds(gap, (q - c) as nat);
        let r = (n - h * t) as nat;
        assert((h + 1) * t == h * t + t) by (nonlinear_arith);
        lemma_round_half_even_sticky(h, m, t, r);
    }
}

/// Below the rounding position only "zero or not" matters: with at least 26
/// significant bits in `h`, every value strictly between `h * 2^c` and
/// `(h + 1) * 2^c` rounds as the midpoint `(2 * h + 1) * 2^(c - 1)` does.
pub proof fn lemma_round_within_cell(h: nat, c: int, n: nat, e: int)
    requires
        h >= 0x200_0000,
        e < c,
        h * pow2((c - e) as nat) < n < (h + 1) * pow2((c - e) as nat),
    ensures
        round_magnitude(n, e) == round_magnitude(2 * h + 1, c - 1),
{
    lemma2_to64();
    lemma_cell_magnitude(h, c, n, e);
    assert(h * 2 < 2 * h + 1 < (h + 1) * 2);
    lemma_cell_magnitude(h, c, 2 * h + 1, c - 1);
}

} // verus!
