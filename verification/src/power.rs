//! Powers of two and binary digit counts, in ghost and in executable form.
use vstd::arithmetic::power2::{
    lemma2_to64, lemma_pow2_adds, lemma_pow2_pos, lemma_pow2_strictly_increases,
    lemma_pow2_unfold, pow2,
};
use vstd::prelude::*;

verus! {

/// Number of binary digits of `n`: zero for zero, otherwise one more than the
/// floor of the base-two logarithm.
pub open spec fn bit_length(n: nat) -> nat
    decreases n,
{
    if n == 0 {
        0
    } else {
        1 + bit_length(n / 2)
    }
}

/// A positive `n` lies between the two powers of two that its digit count names.
pub proof fn lemma_bit_length_bounds(n: nat)
    requires
        n > 0,
    ensures
        bit_length(n) >= 1,
        pow2((bit_length(n) - 1) as nat) <= n < pow2(bit_length(n)),
    decreases n,
{
    lemma2_to64();
    if n == 1 {
        assert(bit_length(0) == 0);
        assert(bit_length(1) == 1 + bit_length(0));
    } else {
        lemma_bit_length_bounds(n / 2);
        let l = bit_length(n / 2);
        if l > 1 {
            lemma_pow2_unfold(l);
        }
        lemma_pow2_unfold(l + 1);
    }
}

/// `pow2` is monotone.
pub proof fn lemma_pow2_monotone(a: nat, b: nat)
    requires
        a <= b,
    ensures
        pow2(a) <= pow2(b),
{
    if a < b {
        lemma_pow2_strictly_increases(a, b);
    }
}

/// The digit count is the only `l + 1` with `2^l <= n < 2^(l + 1)`.
pub proof fn lemma_bit_length_unique(n: nat, l: nat)
    requires
        pow2(l) <= n < pow2(l + 1),
    ensures
        bit_length(n) == l + 1,
{
    lemma_pow2_pos(l);
    lemma_bit_length_bounds(n);
    let b = bit_length(n);
    if b > l + 1 {
        lemma_pow2_monotone(l + 1, (b - 1) as nat);
    }
    if b < l + 1 {
        lemma_pow2_monotone(b, l);
    }
}

/// A value below `2^k` has at most `k` digits.
pub proof fn lemma_bit_length_below(n: nat, k: nat)
    requires
        n < pow2(k),
    ensures
        bit_length(n) <= k,
{
    if n > 0 {
        lemma_bit_length_bounds(n);
        if bit_length(n) > k {
            lemma_pow2_monotone(k, (bit_length(n) - 1) as nat);
        }
    }
}

/// A value of at least `2^k` has more than `k` digits.
pub proof fn lemma_bit_length_above(n: nat, k: nat)
    requires
        pow2(k) <= n,
    ensures
        bit_length(n) > k,
{
    lemma_pow2_pos(k);
    lemma_bit_length_bounds(n);
    if bit_length(n) <= k {
        lemma_pow2_monotone(bit_length(n), k);
    }
}

/// Multiplying by `2^j` appends `j` digits.
pub proof fn lemma_bit_length_shift(n: nat, j: nat)
    requires
        n > 0,
    ensures
        bit_length(n * pow2(j)) == bit_length(n) + j,
{
    lemma_bit_length_bounds(n);
    let b = bit_length(n);
    let lo = pow2((b - 1) as nat);
    let hi = pow2(b);
    let p = pow2(j);
    lemma_pow2_pos(j);
    lemma_pow2_adds((b - 1) as nat, j);
    lemma_pow2_adds(b, j);
    assert(lo * p <= n * p < hi * p) by (nonlinear_arith)
        requires
            lo <= n < hi,
            p > 0,
    ;
    lemma_bit_length_unique(n * p, (b - 1 + j) as nat);
}

/// Binary digit count of a machine word.
pub fn bit_length_u64(n: u64) -> (len: u32)
    ensures
        len == bit_length(n as nat),
        len <= 64,
{
    let mut rest: u64 = n;
    let mut len: u32 = 0;
    proof {
        lemma2_to64();
    }
    while rest > 0
        invariant
            len <= 64,
            rest < pow2((64 - len) as nat),
            bit_length(n as nat) == len + bit_length(rest as nat),
        decreases rest,
    {
        proof {
            if len == 64 {
                lemma2_to64();
            } else {
                lemma_pow2_unfold((64 - len) as nat);
            }
        }
        rest = rest / 2;
        len = len + 1;
    }
    len
}

/// `2^k` as a machine word.
pub fn pow2_u64(k: u32) -> (p: u64)
    requires
        k < 64,
    ensures
        p == pow2(k as nat),
        p > 0,
{
    proof {
        vstd::bits::lemma_u64_pow2_no_overflow(k as nat);
        vstd::bits::lemma_u64_shl_is_mul(1u64, k as u64);
    }
    1u64 << k
}

} // verus!
