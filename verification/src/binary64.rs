//! IEEE 754 binary64 values held as bit patterns: the test for the binary32
//! range and the correctly rounded narrowing to binary32.
//!
//! A finite pattern encodes `(-1)^sign * significand * 2^exponent` with an
//! integer significand below `2^53` and an exponent from -1074 to 971.
use crate::binary32::Binary32;
use crate::power::lemma_pow2_monotone;
use crate::rounding::{round_magnitude, round_to_magnitude, INFINITY_MAGNITUDE};
use vstd::arithmetic::power2::{
    lemma2_to64, lemma_pow2_adds, lemma_pow2_pos, lemma_pow2_unfold, pow2,
};
use vstd::prelude::*;

verus! {

/// The sign bit of a binary64 pattern.
pub const SIGN_BIT_64: u64 = 0x8000_0000_0000_0000;

/// The hidden leading bit of a normal binary64 significand, `2^52`.
pub const HIDDEN_BIT_64: u64 = 0x10_0000_0000_0000;

/// Magnitude of a binary64 infinity.
pub const INFINITY_MAGNITUDE_64: u64 = 0x7ff0_0000_0000_0000;

/// The binary64 pattern of the largest finite binary32 value,
/// `(2^24 - 1) * 2^104`.
pub const BINARY32_MAX_AS_BINARY64: u64 = 0x47ef_ffff_e000_0000;

/// A binary64 value, identified with its 64-bit pattern.
#[derive(Clone, Copy, Debug, PartialEq, Eq, Structural)]
pub struct Binary64 {
    pub bits: u64,
}

/// Significand of the finite binary64 magnitude `m`.
pub open spec fn significand_64(m: nat) -> nat {
    if m < HIDDEN_BIT_64 {
        m
    } else {
        (HIDDEN_BIT_64 + m % (HIDDEN_BIT_64 as nat)) as nat
    }
}

/// Exponent of the finite binary64 magnitude `m`.
pub open spec fn exponent_64(m: nat) -> int {
    if m < HIDDEN_BIT_64 {
        -1074
    } else {
        m / (HIDDEN_BIT_64 as nat) - 1075
    }
}

/// Value of the finite binary64 magnitude `m`, counted in units of `2^-1074`.
pub open spec fn scaled_64(m: nat) -> nat {
    significand_64(m) * pow2((exponent_64(m) + 1074) as nat)
}

/// Finite binary64 magnitudes are ordered as the values they encode.
pub proof fn lemma_scaled_64_increases(a: nat, b: nat)
    requires
        a < b < INFINITY_MAGNITUDE_64,
    ensures
        scaled_64(a) < scaled_64(b),
{
    lemma2_to64();
    let sa = significand_64(a);
    let sb = significand_64(b);
    let ka = (exponent_64(a) + 1074) as nat;
    let kb = (exponent_64(b) + 1074) as nat;
    lemma_pow2_pos(ka);
    lemma_pow2_pos(kb);
    if ka == kb {
        assert(sa * pow2(ka) < sb * pow2(ka)) by (nonlinear_arith)
            requires
                sa < sb,
                pow2(ka) > 0,
        ;
    } else {
        lemma_pow2_unfold(ka + 1);
        lemma_pow2_monotone(ka + 1, kb);
        assert(sa * pow2(ka) < 0x10_0000_0000_0000 * pow2(kb)) by (nonlinear_arith)
            requires
                sa < 0x20_0000_0000_0000,
                2 * pow2(ka) <= pow2(kb),
                pow2(ka) > 0,
        ;
        assert(0x10_0000_0000_0000 * pow2(kb) <= sb * pow2(kb)) by (nonlinear_arith)
            requires
                0x10_0000_0000_0000 <= sb,
        ;
    }
}

/// The pattern `BINARY32_MAX_AS_BINARY64` encodes `(2^24 - 1) * 2^104`.
pub proof fn lemma_binary32_max_scaled()
    ensures
        scaled_64(BINARY32_MAX_AS_BINARY64 as nat) == 0xff_ffff * pow2(1178),
{
    lemma2_to64();
    let m = BINARY32_MAX_AS_BINARY64 as nat;
    assert(m / 0x10_0000_0000_0000 == 1150);
    assert(m % 0x10_0000_0000_0000 == 0xf_ffff_e000_0000);
    assert(significand_64(m) == 0xff_ffff * 0x2000_0000);
    lemma_pow2_adds(29, 1149);
    assert((0xff_ffff * 0x2000_0000) * pow2(1149) == 0xff_ffff * (0x2000_0000 * pow2(1149)))
        by (nonlinear_arith);
}

impl Binary64 {
    /// The value with the given pattern.
    pub open spec fn of_bits(bits: u64) -> Binary64 {
        Binary64 { bits }
    }

    /// The sign bit is set.
    pub open spec fn is_negative(self) -> bool {
        self.bits >= SIGN_BIT_64
    }

    /// The pattern without its sign bit.
    pub open spec fn magnitude(self) -> nat {
        (self.bits % SIGN_BIT_64) as nat
    }

    /// Not a number.
    pub open spec fn is_nan(self) -> bool {
        self.magnitude() > INFINITY_MAGNITUDE_64
    }

    /// Positive or negative infinity.
    pub open spec fn is_infinite(self) -> bool {
        self.magnitude() == INFINITY_MAGNITUDE_64
    }

    /// Zero, subnormal or normal.
    pub open spec fn is_finite(self) -> bool {
        self.magnitude() < INFINITY_MAGNITUDE_64
    }

    /// The value is a number whose absolute value is at most the largest
    /// finite binary32 value, `(2^24 - 1) * 2^104`; both sides are counted
    /// in units of `2^-1074`.
    pub open spec fn fits_binary32(self) -> bool {
        self.is_finite() && scaled_64(self.magnitude()) <= 0xff_ffff * pow2(1178)
    }

    /// The binary32 value nearest to this one, ties to even: not-a-number
    /// and the infinities keep their kind, and a finite value beyond the
    /// binary32 range becomes an infinity.
    pub open spec fn narrowed(self) -> Binary32 {
        if self.is_nan() {
            Binary32::quiet_nan()
        } else if self.is_infinite() {
            Binary32::with_sign(self.is_negative(), INFINITY_MAGNITUDE as nat)
        } else {
            Binary32::with_sign(
                self.is_negative(),
                round_magnitude(significand_64(self.magnitude()), exponent_64(self.magnitude())),
            )
        }
    }

    /// Whether the sign bit is set.
    pub fn sign(self) -> (negative: bool)
        ensures
            negative == self.is_negative(),
    {
        self.bits >= SIGN_BIT_64
    }

    /// The pattern without its sign bit.
    pub fn abs_bits(self) -> (m: u64)
        ensures
            m == self.magnitude(),
            m < SIGN_BIT_64,
    {
        self.bits % SIGN_BIT_64
    }

    /// Whether the value lies between the most negative and the largest
    /// finite binary32 value, both included.
    pub fn in_binary32_range(self) -> (fits: bool)
        ensures
            fits == self.fits_binary32(),
    {
        let m = self.abs_bits();
        proof {
            lemma_binary32_max_scaled();
            if m < BINARY32_MAX_AS_BINARY64 {
                lemma_scaled_64_increases(m as nat, BINARY32_MAX_AS_BINARY64 as nat);
            }
            if BINARY32_MAX_AS_BINARY64 < m && m < INFINITY_MAGNITUDE_64 {
                lemma_scaled_64_increases(BINARY32_MAX_AS_BINARY64 as nat, m as nat);
            }
        }
        m <= BINARY32_MAX_AS_BINARY64
    }

    /// Narrows to binary32, rounding to nearest with ties to even.
    pub fn narrow(self) -> (r: Binary32)
        ensures
            r == self.narrowed(),
    {
        let m = self.abs_bits();
        if m > INFINITY_MAGNITUDE_64 {
            Binary32 { bits: crate::binary32::QUIET_NAN_BITS }
        } else if m == INFINITY_MAGNITUDE_64 {
            Binary32::from_parts(self.sign(), INFINITY_MAGNITUDE)
        } else if m < HIDDEN_BIT_64 {
            Binary32::from_parts(self.sign(), round_to_magnitude(m, -1074))
        } else {
            let sig: u64 = HIDDEN_BIT_64 + m % HIDDEN_BIT_64;
            let exp: i32 = (m / HIDDEN_BIT_64) as i32 - 1075;
            Binary32::from_parts(self.sign(), round_to_magnitude(sig, exp))
        }
    }
}

} // verus!
