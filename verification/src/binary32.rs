//! IEEE 754 binary32 values held as bit patterns, with the arithmetic the
//! inverse square root needs: correctly rounded product and difference, and
//! conversion from integers.
//!
//! A finite pattern encodes `(-1)^sign * significand * 2^exponent` with an
//! integer significand below `2^24` and an exponent from -149 to 104. Every
//! operation is specified as the exact result over these integers, rounded to
//! the nearest representable value with ties to even.
use crate::power::{lemma_pow2_monotone, pow2_u64};
use crate::rounding::{round_magnitude, round_to_magnitude, INFINITY_MAGNITUDE};
use crate::sticky::{lemma_round_magnitude_scaled, lemma_round_within_cell};
use vstd::arithmetic::power2::{lemma2_to64, lemma_pow2_adds, lemma_pow2_pos, pow2};
use vstd::prelude::*;

verus! {

/// The sign bit of a binary32 pattern.
pub const SIGN_BIT: u32 = 0x8000_0000;

/// The hidden leading bit of a normal significand, `2^23`.
pub const HIDDEN_BIT: u32 = 0x80_0000;

/// The quiet not-a-number pattern that every invalid operation returns.
pub const QUIET_NAN_BITS: u32 = 0x7fc0_0000;

/// The pattern of one half.
pub const HALF_BITS: u32 = 0x3f00_0000;

/// The pattern of three halves.
pub const THREE_HALVES_BITS: u32 = 0x3fc0_0000;

/// A binary32 value, identified with its 32-bit pattern.
#[derive(Clone, Copy, Debug, PartialEq, Eq, Structural)]
pub struct Binary32 {
    pub bits: u32,
}

impl Binary32 {
    /// The sign bit is set (true of negative zero and of some not-a-numbers too).
    pub open spec fn is_negative(self) -> bool {
        self.bits >= SIGN_BIT
    }

    /// The pattern without its sign bit.
    pub open spec fn magnitude(self) -> nat {
        (self.bits % SIGN_BIT) as nat
    }

    /// Not a number: exponent field all ones, fraction not zero.
    pub open spec fn is_nan(self) -> bool {
        self.magnitude() > INFINITY_MAGNITUDE
    }

    /// Positive or negative infinity.
    pub open spec fn is_infinite(self) -> bool {
        self.magnitude() == INFINITY_MAGNITUDE
    }

    /// Zero, subnormal or normal.
    pub open spec fn is_finite(self) -> bool {
        self.magnitude() < INFINITY_MAGNITUDE
    }

    /// Positive or negative zero.
    pub open spec fn is_zero(self) -> bool {
        self.magnitude() == 0
    }

    /// Integer significand of a finite value: the fraction field, with the
    /// hidden bit added in the normal range.
    pub open spec fn significand(self) -> nat {
        let m = self.magnitude();
        if m < HIDDEN_BIT {
            m
        } else {
            (HIDDEN_BIT + m % (HIDDEN_BIT as nat)) as nat
        }
    }

    /// Exponent of a finite value, so that its absolute value is
    /// `significand * 2^exponent`.
    pub open spec fn exponent(self) -> int {
        let m = self.magnitude();
        if m < HIDDEN_BIT {
            -149
        } else {
            m / (HIDDEN_BIT as nat) - 150
        }
    }

    /// The value with the given sign and magnitude.
    pub open spec fn with_sign(negative: bool, magnitude: nat) -> Binary32 {
        Binary32 {
            bits: if negative {
                (SIGN_BIT + magnitude) as u32
            } else {
                magnitude as u32
            },
        }
    }

    /// The value with the given pattern.
    pub open spec fn of_bits(bits: u32) -> Binary32 {
        Binary32 { bits }
    }

    /// The quiet not-a-number that invalid operations return.
    pub open spec fn quiet_nan() -> Binary32 {
        Binary32 { bits: QUIET_NAN_BITS }
    }

    /// Positive zero.
    pub open spec fn zero() -> Binary32 {
        Binary32 { bits: 0 }
    }

    /// The value one.
    pub open spec fn one() -> Binary32 {
        Binary32 { bits: 0x3f80_0000 }
    }

    /// The correctly rounded product: not-a-number where an operand is one
    /// or where zero meets infinity, otherwise infinity where an operand is
    /// infinite, otherwise the exact product of the two values rounded to
    /// nearest, ties to even. The sign is the exclusive or of the signs.
    pub open spec fn product(self, rhs: Binary32) -> Binary32 {
        let negative = self.is_negative() != rhs.is_negative();
        if self.is_nan() || rhs.is_nan() {
            Binary32::quiet_nan()
        } else if self.is_infinite() || rhs.is_infinite() {
            if self.is_zero() || rhs.is_zero() {
                Binary32::quiet_nan()
            } else {
                Binary32::with_sign(negative, INFINITY_MAGNITUDE as nat)
            }
        } else {
            Binary32::with_sign(
                negative,
                round_magnitude(
                    self.significand() * rhs.significand(),
                    self.exponent() + rhs.exponent(),
                ),
            )
        }
    }

    /// Absolute value of a finite value, counted in units of `2^-149`, the
    /// smallest positive value.
    pub open spec fn scaled(self) -> nat {
        self.significand() * pow2((self.exponent() + 149) as nat)
    }

    /// A finite value counted in units of `2^-149`.
    pub open spec fn signed_scaled(self) -> int {
        if self.is_negative() {
            -(self.scaled() as int)
        } else {
            self.scaled() as int
        }
    }

    /// The value nearest to `d * 2^-149`, ties to even, for `d` other than zero.
    pub open spec fn of_scaled(d: int) -> Binary32 {
        if d >= 0 {
            Binary32::with_sign(false, round_magnitude(d as nat, -149))
        } else {
            Binary32::with_sign(true, round_magnitude((-d) as nat, -149))
        }
    }

    /// The correctly rounded difference `self - rhs`: not-a-number where an
    /// operand is one or where two infinities of one sign meet, otherwise the
    /// infinite operand (that of `rhs` negated), otherwise the exact
    /// difference rounded to nearest, ties to even. An exact zero is positive
    /// unless `self` is negative zero and `rhs` positive zero.
    pub open spec fn difference(self, rhs: Binary32) -> Binary32 {
        if self.is_nan() || rhs.is_nan() {
            Binary32::quiet_nan()
        } else if self.is_infinite() {
            if rhs.is_infinite() && self.is_negative() == rhs.is_negative() {
                Binary32::quiet_nan()
            } else {
                self
            }
        } else if rhs.is_infinite() {
            Binary32::with_sign(!rhs.is_negative(), INFINITY_MAGNITUDE as nat)
        } else {
            let d = self.signed_scaled() - rhs.signed_scaled();
            if d == 0 {
                Binary32::with_sign(self.is_negative() && !rhs.is_negative(), 0)
            } else {
                Binary32::of_scaled(d)
            }
        }
    }

    /// The binary32 value nearest to the integer `n`, ties to even.
    pub open spec fn of_int(n: int) -> Binary32 {
        if n >= 0 {
            Binary32::with_sign(false, round_magnitude(n as nat, 0))
        } else {
            Binary32::with_sign(true, round_magnitude((-n) as nat, 0))
        }
    }

    /// Assembles a value from a sign and a magnitude.
    pub fn from_parts(negative: bool, magnitude: u32) -> (r: Binary32)
        requires
            magnitude < SIGN_BIT,
        ensures
            r == Binary32::with_sign(negative, magnitude as nat),
            r.is_negative() == negative,
            r.magnitude() == magnitude,
    {
        if negative {
            Binary32 { bits: SIGN_BIT + magnitude }
        } else {
            Binary32 { bits: magnitude }
        }
    }

    /// Whether the sign bit is set.
    pub fn sign(self) -> (negative: bool)
        ensures
            negative == self.is_negative(),
    {
        self.bits >= SIGN_BIT
    }

    /// The pattern without its sign bit.
    pub fn abs_bits(self) -> (m: u32)
        ensures
            m == self.magnitude(),
            m < SIGN_BIT,
    {
        self.bits % SIGN_BIT
    }

    /// Significand and exponent of a finite value.
    pub fn decode(self) -> (parts: (u32, i32))
        requires
            self.is_finite(),
        ensures
            parts.0 == self.significand(),
            parts.1 == self.exponent(),
            parts.0 < 0x100_0000,
            -149 <= parts.1 <= 104,
            parts.1 > -149 ==> parts.0 >= HIDDEN_BIT,
    {
        let m = self.abs_bits();
        if m < HIDDEN_BIT {
            (m, -149)
        } else {
            (HIDDEN_BIT + m % HIDDEN_BIT, (m / HIDDEN_BIT) as i32 - 150)
        }
    }

    /// Multiplies two values, rounding to nearest with ties to even.
    pub fn multiply(self, rhs: Binary32) -> (r: Binary32)
        ensures
            r == self.product(rhs),
    {
        let negative = self.sign() != rhs.sign();
        let ma = self.abs_bits();
        let mb = rhs.abs_bits();
        if ma > INFINITY_MAGNITUDE || mb > INFINITY_MAGNITUDE {
            Binary32 { bits: QUIET_NAN_BITS }
        } else if ma == INFINITY_MAGNITUDE || mb == INFINITY_MAGNITUDE {
            if ma == 0 || mb == 0 {
                Binary32 { bits: QUIET_NAN_BITS }
            } else {
                Binary32::from_parts(negative, INFINITY_MAGNITUDE)
            }
        } else {
            let (sa, ea) = self.decode();
            let (sb, eb) = rhs.decode();
            assert(sa * sb < 0x100_0000 * 0x100_0000) by (nonlinear_arith)
                requires
                    sa < 0x100_0000,
                    sb < 0x100_0000,
            ;
            let sig: u64 = (sa as u64) * (sb as u64);
            Binary32::from_parts(negative, round_to_magnitude(sig, ea + eb))
        }
    }

    /// Subtracts `rhs`, rounding to nearest with ties to even.
    pub fn subtract(self, rhs: Binary32) -> (r: Binary32)
        ensures
            r == self.difference(rhs),
    {
        let ma = self.abs_bits();
        let mb = rhs.abs_bits();
        if ma > INFINITY_MAGNITUDE || mb > INFINITY_MAGNITUDE {
            Binary32 { bits: QUIET_NAN_BITS }
        } else if ma == INFINITY_MAGNITUDE {
            if mb == INFINITY_MAGNITUDE && self.sign() == rhs.sign() {
                Binary32 { bits: QUIET_NAN_BITS }
            } else {
                self
            }
        } else if mb == INFINITY_MAGNITUDE {
            Binary32::from_parts(!rhs.sign(), INFINITY_MAGNITUDE)
        } else {
            let (sa, ea) = self.decode();
            let (sb, eb) = rhs.decode();
            if ea >= eb {
                sum_aligned(self.sign(), sa, ea, !rhs.sign(), sb, eb)
            } else {
                sum_aligned(!rhs.sign(), sb, eb, self.sign(), sa, ea)
            }
        }
    }

    /// Converts an unsigned integer, rounding to nearest with ties to even.
    pub fn from_u64(n: u64) -> (r: Binary32)
        ensures
            r == Binary32::of_int(n as int),
    {
        Binary32::from_parts(false, round_to_magnitude(n, 0))
    }

    /// Converts a signed integer, rounding to nearest with ties to even.
    pub fn from_i64(n: i64) -> (r: Binary32)
        ensures
            r == Binary32::of_int(n as int),
    {
        if n >= 0 {
            Binary32::from_parts(false, round_to_magnitude(n as u64, 0))
        } else {
            let abs: u64 = ((-(n + 1)) as u64) + 1;
            Binary32::from_parts(true, round_to_magnitude(abs, 0))
        }
    }
}

/// `s * 2^e` counted in units of `2^-149`, with its sign.
pub open spec fn signed_units(negative: bool, s: nat, e: int) -> int {
    let units = s * pow2((e + 149) as nat);
    if negative {
        -(units as int)
    } else {
        units as int
    }
}

/// The correctly rounded sum of two signed values `s * 2^e`. An exact zero
/// is negative only where both terms are.
pub open spec fn rounded_sum(na: bool, sa: nat, ea: int, nb: bool, sb: nat, eb: int) -> Binary32 {
    let d = signed_units(na, sa, ea) + signed_units(nb, sb, eb);
    if d == 0 {
        Binary32::with_sign(na && nb, 0)
    } else {
        Binary32::of_scaled(d)
    }
}

/// The value with the given sign nearest to `n * 2^e`.
pub open spec fn rounded(negative: bool, n: nat, e: int) -> Binary32 {
    Binary32::with_sign(negative, round_magnitude(n, e))
}

/// A sum of two terms of one sign is the sum of the magnitudes under that sign.
proof fn lemma_sum_same_sign(negative: bool, big: nat, ea: int, sb: nat, eb: int)
    requires
        -149 <= eb <= ea,
    ensures
        rounded_sum(negative, big, ea, negative, sb, eb) == rounded(
            negative,
            big * pow2((ea - eb) as nat) + sb,
            eb,
        ),
{
    let unit = pow2((eb + 149) as nat);
    let lift = pow2((ea - eb) as nat);
    let total = big * lift + sb;
    lemma_pow2_pos((eb + 149) as nat);
    lemma_pow2_adds((ea - eb) as nat, (eb + 149) as nat);
    assert(big * (lift * unit) + sb * unit == total * unit) by (nonlinear_arith)
        requires
            total == big * lift + sb,
    ;
    assert(total > 0 ==> total * unit > 0) by (nonlinear_arith)
        requires
            unit > 0,
    ;
    assert(total == 0 ==> total * unit == 0) by (nonlinear_arith);
    lemma_round_magnitude_scaled(total, eb, (eb + 149) as nat);
}

/// A sum of two terms of opposite signs is the difference of the magnitudes
/// under the sign of the larger, and positive zero where they cancel.
proof fn lemma_sum_opposite_signs(na: bool, big: nat, ea: int, sb: nat, eb: int)
    requires
        -149 <= eb <= ea,
    ensures
        ({
            let lifted = big * pow2((ea - eb) as nat);
            rounded_sum(na, big, ea, !na, sb, eb) == if lifted > sb {
                rounded(na, (lifted - sb) as nat, eb)
            } else if lifted < sb {
                rounded(!na, (sb - lifted) as nat, eb)
            } else {
                Binary32::with_sign(false, 0)
            }
        }),
{
    let unit = pow2((eb + 149) as nat);
    let lift = pow2((ea - eb) as nat);
    let lifted = big * lift;
    lemma_pow2_pos((eb + 149) as nat);
    lemma_pow2_adds((ea - eb) as nat, (eb + 149) as nat);
    assert(big * (lift * unit) == lifted * unit) by (nonlinear_arith)
        requires
            lifted == big * lift,
    ;
    if lifted > sb {
        let rest = (lifted - sb) as nat;
        assert(lifted * unit - sb * unit == rest * unit && rest * unit > 0) by (nonlinear_arith)
            requires
                rest == lifted - sb,
                rest > 0,
                unit > 0,
        ;
        lemma_round_magnitude_scaled(rest, eb, (eb + 149) as nat);
    } else if lifted < sb {
        let rest = (sb - lifted) as nat;
        assert(sb * unit - lifted * unit == rest * unit && rest * unit > 0) by (nonlinear_arith)
            requires
                rest == sb - lifted,
                rest > 0,
                unit > 0,
        ;
        lemma_round_magnitude_scaled(rest, eb, (eb + 149) as nat);
    }
}

/// Largest exponent gap at which the term of higher exponent is still
/// brought to the lower exponent exactly, within 62 bits.
pub const EXACT_GAP: u32 = 38;

/// A nonzero second term more than `EXACT_GAP` exponents below a normal
/// first term lies within a quarter of the first term's last place. There
/// only its presence and its sign matter, so a sixteenth of that place may
/// stand for it.
proof fn lemma_sum_far(na: bool, sa: nat, ea: int, nb: bool, sb: nat, eb: int)
    requires
        0x80_0000 <= sa,
        0 < sb < 0x100_0000,
        -149 <= eb,
        eb + EXACT_GAP < ea,
    ensures
        rounded_sum(na, sa, ea, nb, sb, eb) == rounded(
            na,
            if na == nb {
                16 * sa + 1
            } else {
                (16 * sa - 1) as nat
            },
            ea - 4,
        ),
{
    lemma2_to64();
    let unit = pow2((eb + 149) as nat);
    let cell = pow2((ea + 146) as nat);
    let x = sa * pow2((ea + 149) as nat);
    let y = sb * unit;
    lemma_pow2_pos((eb + 149) as nat);
    lemma_pow2_pos((ea + 146) as nat);
    lemma_pow2_adds(3, (ea + 146) as nat);
    lemma_pow2_adds(24, (eb + 149) as nat);
    lemma_pow2_monotone((eb + 173) as nat, (ea + 146) as nat);
    assert(x == (8 * sa) * cell && x >= cell) by (nonlinear_arith)
        requires
            x == sa * (8 * cell),
            sa >= 1,
            cell > 0,
    ;
    assert(0 < y < cell) by (nonlinear_arith)
        requires
            y == sb * unit,
            0 < sb < 0x100_0000,
            0x100_0000 * unit <= cell,
            unit > 0,
    ;
    if na == nb {
        let h = 8 * sa;
        assert((h + 1) * cell == x + cell) by (nonlinear_arith)
            requires
                x == h * cell,
        ;
        lemma_round_within_cell(h, ea - 3, x + y, -149);
    } else {
        let h = (8 * sa - 1) as nat;
        assert(h * cell == x - cell && (h + 1) * cell == x) by (nonlinear_arith)
            requires
                x == (8 * sa) * cell,
                h == 8 * sa - 1,
        ;
        lemma_round_within_cell(h, ea - 3, (x - y) as nat, -149);
    }
}

/// Adds two signed values given by significand and exponent, the first with
/// the exponent that is not lower. Close exponents are aligned and added
/// exactly; further apart the second term is replaced as `lemma_sum_far`
/// allows.
fn sum_aligned(na: bool, sa: u32, ea: i32, nb: bool, sb: u32, eb: i32) -> (r: Binary32)
    requires
        sa < 0x100_0000,
        sb < 0x100_0000,
        -149 <= eb <= ea <= 104,
        ea > -149 ==> sa >= HIDDEN_BIT,
    ensures
        r == rounded_sum(na, sa as nat, ea as int, nb, sb as nat, eb as int),
{
    let gap: u32 = (ea - eb) as u32;
    if gap <= EXACT_GAP {
        proof {
            lemma2_to64();
            vstd::arithmetic::power2::lemma2_to64_rest();
            lemma_pow2_monotone(gap as nat, 38);
            assert(sa * pow2(gap as nat) < 0x100_0000 * 0x40_0000_0000) by (nonlinear_arith)
                requires
                    sa < 0x100_0000,
                    pow2(gap as nat) <= 0x40_0000_0000,
            ;
        }
        let big: u64 = (sa as u64) * pow2_u64(gap);
        let small: u64 = sb as u64;
        if na == nb {
            proof {
                lemma_sum_same_sign(na, sa as nat, ea as int, sb as nat, eb as int);
            }
            Binary32::from_parts(na, round_to_magnitude(big + small, eb))
        } else {
            proof {
                lemma_sum_opposite_signs(na, sa as nat, ea as int, sb as nat, eb as int);
            }
            if big > small {
                Binary32::from_parts(na, round_to_magnitude(big - small, eb))
            } else if big < small {
                Binary32::from_parts(nb, round_to_magnitude(small - big, eb))
            } else {
                Binary32::from_parts(false, 0)
            }
        }
    } else if sb == 0 {
        proof {
            lemma_sum_same_sign(na, sa as nat, ea as int, 0, ea as int);
            lemma2_to64();
            assert(sa as nat * 1 + 0 == sa as nat);
            assert(0 * pow2((eb + 149) as nat) == 0 && 0 * pow2((ea + 149) as nat) == 0);
        }
        Binary32::from_parts(na, round_to_magnitude(sa as u64, ea))
    } else {
        proof {
            lemma_sum_far(na, sa as nat, ea as int, nb, sb as nat, eb as int);
        }
        if na == nb {
            Binary32::from_parts(na, round_to_magnitude(16 * (sa as u64) + 1, ea - 4))
        } else {
            Binary32::from_parts(na, round_to_magnitude(16 * (sa as u64) - 1, ea - 4))
        }
    }
}

} // verus!
