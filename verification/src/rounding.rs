//! Rounding of a dyadic value `n * 2^e` to the nearest binary32 magnitude,
//! ties going to the even neighbour.
//!
//! A magnitude is a binary32 bit pattern without its sign bit. Magnitudes of
//! finite values grow with the values they encode, so the pattern that
//! follows the largest finite one, `INFINITY_MAGNITUDE`, stands for overflow.
use crate::power::{
    bit_length, bit_length_u64, lemma_bit_length_bounds, lemma_bit_length_unique,
    lemma_pow2_monotone, pow2_u64,
};
use vstd::arithmetic::div_mod::{lemma_basic_div, lemma_small_mod};
use vstd::arithmetic::power2::{
    lemma2_to64, lemma_pow2_adds, lemma_pow2_pos, lemma_pow2_unfold, pow2,
};
use vstd::prelude::*;

verus! {

/// Magnitude of an infinity: exponent field all ones, fraction zero.
pub const INFINITY_MAGNITUDE: u32 = 0x7f80_0000;

/// Nearest integer to `n / d`, a tie going to the even neighbour.
pub open spec fn round_half_even(n: nat, d: nat) -> nat {
    let q = n / d;
    let r = n % d;
    if 2 * r > d || (2 * r == d && q % 2 == 1) {
        q + 1
    } else {
        q
    }
}

/// Nearest integer to `n * 2^k`, a tie going to the even neighbour.
pub open spec fn scale_round(n: nat, k: int) -> nat {
    if k >= 0 {
        n * pow2(k as nat)
    } else {
        round_half_even(n, pow2((-k) as nat))
    }
}

/// Exponent of the unit in the last place for values `v` with
/// `floor(log2(v)) == top`: 23 below `top` in the normal range, fixed at
/// -149 in the subnormal range.
pub open spec fn quantum_exponent(top: int) -> int {
    if top < -126 {
        -149
    } else {
        top - 23
    }
}

/// Magnitude of the binary32 value nearest to `n * 2^e`, ties to even;
/// `INFINITY_MAGNITUDE` where the value rounds beyond the largest finite one.
///
/// With `q` the quantum exponent, the value is rounded to an integer count
/// `m` of quanta, and the pattern is `(q + 149) * 2^23 + m`: in the normal
/// range `m` carries the implicit leading bit into the exponent field, and a
/// count that rounds up to `2^24` carries into the next binade.
pub open spec fn round_magnitude(n: nat, e: int) -> nat {
    if n == 0 {
        0
    } else {
        let top = bit_length(n) - 1 + e;
        if top >= 128 {
            0x7f80_0000
        } else {
            let q = quantum_exponent(top);
            ((q + 149) * 0x80_0000 + scale_round(n, e - q)) as nat
        }
    }
}

/// In the normal range the pattern is read off the digit count `len` of
/// `n`: the exponent field from `len + e`, the rest from `n` rounded to 24
/// digits.
pub proof fn lemma_round_normal(n: nat, e: int, len: nat)
    requires
        len >= 1,
        pow2((len - 1) as nat) <= n < pow2(len),
        -126 <= len - 1 + e < 128,
    ensures
        round_magnitude(n, e) == (len + e + 125) * 0x80_0000 + scale_round(n, 24 - len),
{
    lemma_pow2_pos((len - 1) as nat);
    lemma_bit_length_unique(n, (len - 1) as nat);
}

/// `n / 2^s` rounded to the nearest integer, ties to even.
pub fn divide_round_u64(n: u64, s: u64) -> (m: u64)
    ensures
        m == round_half_even(n as nat, pow2(s as nat)),
        m <= n as nat / pow2(s as nat) + 1,
{
    proof {
        lemma2_to64();
        lemma_pow2_pos(s as nat);
    }
    if s == 0 {
        assert(pow2(s as nat) == 1);
        assert(n as nat / 1 == n && n as nat % 1 == 0);
        n
    } else if s > 64 {
        proof {
            lemma_pow2_monotone(65, s as nat);
            lemma_pow2_unfold(65);
            lemma_basic_div(n as int, pow2(s as nat) as int);
            lemma_small_mod(n as nat, pow2(s as nat));
        }
        0
    } else if s == 64 {
        proof {
            lemma_basic_div(n as int, pow2(64) as int);
            lemma_small_mod(n as nat, pow2(64));
        }
        if n > 0x8000_0000_0000_0000 {
            1
        } else {
            0
        }
    } else {
        let d = pow2_u64(s as u32);
        proof {
            lemma_pow2_unfold(s as nat);
            lemma_pow2_pos((s - 1) as nat);
            assert(n / d <= n / 2) by (nonlinear_arith)
                requires
                    d >= 2,
            ;
        }
        let q = n / d;
        let r = n % d;
        let half = d / 2;
        if r > half || (r == half && q % 2 == 1) {
            q + 1
        } else {
            q
        }
    }
}

/// Rounds `sig * 2^exp` to the nearest binary32 magnitude, ties to even.
pub fn round_to_magnitude(sig: u64, exp: i32) -> (bits: u32)
    ensures
        bits == round_magnitude(sig as nat, exp as int),
        bits <= INFINITY_MAGNITUDE,
{
    if sig == 0 {
        return 0;
    }
    let len = bit_length_u64(sig);
    let top: i64 = len as i64 - 1 + exp as i64;
    if top >= 128 {
        return INFINITY_MAGNITUDE;
    }
    let q: i64 = if top < -126 {
        -149
    } else {
        top - 23
    };
    let k: i64 = exp as i64 - q;
    proof {
        lemma_bit_length_bounds(sig as nat);
        lemma2_to64();
    }
    let m: u64 = if k >= 0 {
        proof {
            let p = pow2(k as nat);
            lemma_pow2_pos(k as nat);
            lemma_pow2_adds(len as nat, k as nat);
            lemma_pow2_monotone((len + k) as nat, 24);
            assert(sig * p < pow2(len as nat) * p) by (nonlinear_arith)
                requires
                    sig < pow2(len as nat),
                    p > 0,
            ;
        }
        sig * pow2_u64(k as u32)
    } else {
        let s: u64 = (-k) as u64;
        proof {
            let d = pow2(s as nat);
            lemma_pow2_pos(s as nat);
            lemma_pow2_adds(s as nat, 24);
            lemma_pow2_monotone(len as nat, (s + 24) as nat);
            assert((sig as nat) / d < pow2(24)) by (nonlinear_arith)
                requires
                    sig < d * pow2(24),
                    d > 0,
            ;
        }
        divide_round_u64(sig, s)
    };
    ((q + 149) as u32) * 0x80_0000 + (m as u32)
}

} // verus!
