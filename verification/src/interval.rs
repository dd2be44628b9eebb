//! Interval arithmetic on the Newton step, by which the result is shown to
//! be within two percent of the true inverse square root.
//!
//! Two neighbouring binades of inputs, one with an even and one with an odd
//! exponent field, are cut into pieces. On a piece the input and the initial
//! estimate lie between bounds of twelve digits, and such bounds are carried
//! through the Newton step: products of upper bounds bound products from
//! above, products of lower bounds from below, and the difference from three
//! halves swaps the two. A `Piece` holds the bounds, `Piece::holds` the
//! relations between them that the steps need; both are plain arithmetic on
//! constants.
use crate::binary32::{Binary32, HALF_BITS, THREE_HALVES_BITS};
use crate::bounds::{
    at_least, at_most, lemma_at_least_coarser, lemma_at_least_pattern, lemma_at_most_coarser,
    lemma_at_most_pattern, lemma_product_at_least, lemma_product_at_most, lemma_scaled_monotone,
};
use crate::finite::{
    lemma_correction_range, lemma_estimate_range, lemma_half_bounds, lemma_term_within_unit,
    newton_term, within_unit,
};
use crate::monotone::lemma_round_monotone_aligned;
use crate::power::{lemma_bit_length_below, lemma_pow2_monotone};
use crate::qsqrt::{initial_estimate, inverse_sqrt_of, MAGIC};
use crate::rounding::round_magnitude;
use crate::sticky::lemma_round_magnitude_scaled;
use crate::theorems::lemma_round_exact;
use vstd::arithmetic::power2::{lemma2_to64, lemma_pow2_adds, lemma_pow2_pos, pow2};
use vstd::prelude::*;

verus! {

/// The result for `y` is finite and positive, and its square times `y`
/// lies strictly between `0.98^2` and `1.02^2`: the result times the square
/// root of `y` is within two percent of one. Values are counted in units of
/// `2^-149`, so that the product of three of them has the unit `2^-447`.
pub open spec fn within_two_percent(y: Binary32) -> bool {
    let r = inverse_sqrt_of(y);
    &&& r.is_finite()
    &&& !r.is_negative()
    &&& 9604 * pow2(447) < 10000 * (r.scaled() * r.scaled() * y.scaled())
    &&& 10000 * (r.scaled() * r.scaled() * y.scaled()) < 10404 * pow2(447)
}

/// Bounds for the inputs whose pattern is `a * 2^24 + rest` with `rest`
/// from `lo` to `hi`. Each bound is a count of at most twelve digits with
/// the number of digits that were dropped to reach it. `y` bounds the
/// input, `z` the initial estimate, `u` half the input times the estimate,
/// `t` that product times the estimate, and `d` three halves less `t`; `r`
/// is the product of the bounds `z` and `d`, which bounds the result, and
/// `q` its square.
pub struct Piece {
    pub lo: nat,
    pub hi: nat,
    pub y_hi: nat,
    pub y_hi_k: nat,
    pub y_lo: nat,
    pub y_lo_k: nat,
    pub z_hi: nat,
    pub z_hi_k: nat,
    pub z_lo: nat,
    pub z_lo_k: nat,
    pub u_hi: nat,
    pub u_hi_k: nat,
    pub u_lo: nat,
    pub u_lo_k: nat,
    pub t_hi: nat,
    pub t_hi_k: nat,
    pub t_lo: nat,
    pub t_lo_k: nat,
    pub d_hi: nat,
    pub d_hi_k: nat,
    pub d_lo: nat,
    pub d_lo_k: nat,
    pub r_hi: nat,
    pub r_lo: nat,
    pub q_hi: nat,
    pub q_lo: nat,
}

impl Piece {
    /// Zero in the binade with the even exponent field, one in the other.
    pub open spec fn half(self) -> int {
        (self.hi / 0x80_0000) as int
    }

    /// Exponent of the upper bound of the input.
    pub open spec fn y_hi_e(self, a: int) -> int {
        self.half() - 150 + self.y_hi_k + 2 * a
    }

    /// Exponent of the lower bound of the input.
    pub open spec fn y_lo_e(self, a: int) -> int {
        self.half() - 150 + self.y_lo_k + 2 * a
    }

    /// Exponent of the upper bound of the estimate.
    pub open spec fn z_hi_e(self, a: int) -> int {
        (MAGIC - self.lo / 2) / 0x80_0000 - 150 + self.z_hi_k - a
    }

    /// Exponent of the lower bound of the estimate.
    pub open spec fn z_lo_e(self, a: int) -> int {
        (MAGIC - self.hi / 2) / 0x80_0000 - 150 + self.z_lo_k - a
    }

    /// Exponent of the upper bound of the first product.
    pub open spec fn u_hi_e(self, a: int) -> int {
        self.y_hi_e(a) - 1 + self.z_hi_e(a) + self.u_hi_k
    }

    /// Exponent of the lower bound of the first product.
    pub open spec fn u_lo_e(self, a: int) -> int {
        self.y_lo_e(a) - 1 + self.z_lo_e(a) + self.u_lo_k
    }

    /// Exponent of the upper bound of the term.
    pub open spec fn t_hi_e(self) -> int {
        self.u_hi_e(0) + self.z_hi_e(0) + self.t_hi_k
    }

    /// Exponent of the lower bound of the term.
    pub open spec fn t_lo_e(self) -> int {
        self.u_lo_e(0) + self.z_lo_e(0) + self.t_lo_k
    }

    /// Exponent of the upper bound of the factor.
    pub open spec fn d_hi_e(self) -> int {
        self.t_lo_e() + self.d_hi_k
    }

    /// Exponent of the lower bound of the factor.
    pub open spec fn d_lo_e(self) -> int {
        self.t_hi_e() + self.d_lo_k
    }

    /// The bounds of the input and of the estimate are bounds of the two
    /// ends of the piece.
    pub open spec fn holds_of_inputs(self) -> bool {
        &&& self.lo <= self.hi < 0x100_0000
        &&& self.lo / 0x80_0000 == self.hi / 0x80_0000
        &&& 11 <= self.y_hi_k <= 12 && 11 <= self.y_lo_k <= 12
        &&& 11 <= self.z_hi_k <= 12 && 11 <= self.z_lo_k <= 12
        &&& self.y_hi <= 0x1000 && self.z_hi <= 0x1000
        &&& 0 < self.y_lo <= 0x1000 && 0 < self.z_lo <= 0x1000
        &&& 0x80_0000 + self.hi % 0x80_0000 <= self.y_hi * pow2(self.y_hi_k)
        &&& self.y_lo * pow2(self.y_lo_k) <= 0x80_0000 + self.lo % 0x80_0000
        &&& 0x80_0000 + (MAGIC - self.lo / 2) % 0x80_0000 <= self.z_hi * pow2(self.z_hi_k)
        &&& self.z_lo * pow2(self.z_lo_k) <= 0x80_0000 + (MAGIC - self.hi / 2) % 0x80_0000
    }

    /// The bounds of the two products are bounds of the products of the
    /// bounds, which stay within 24 digits.
    pub open spec fn holds_of_products(self) -> bool {
        &&& 10 <= self.u_hi_k <= 12 && 10 <= self.u_lo_k <= 12
        &&& 10 <= self.t_hi_k <= 12 && 10 <= self.t_lo_k <= 12
        &&& self.u_hi <= 0x1000 && self.t_hi <= 0x1000
        &&& 0 < self.u_lo <= 0x1000 && 0 < self.t_lo <= 0x1000
        &&& 0 < self.y_hi * self.z_hi < 0x100_0000
        &&& 0 < self.y_lo * self.z_lo < 0x100_0000
        &&& self.y_hi * self.z_hi <= self.u_hi * pow2(self.u_hi_k)
        &&& self.u_lo * pow2(self.u_lo_k) <= self.y_lo * self.z_lo
        &&& 0 < self.u_hi * self.z_hi < 0x100_0000
        &&& 0 < self.u_lo * self.z_lo < 0x100_0000
        &&& self.u_hi * self.z_hi <= self.t_hi * pow2(self.t_hi_k)
        &&& self.t_lo * pow2(self.t_lo_k) <= self.u_lo * self.z_lo
        &&& -22 <= self.t_hi_e() <= -1
        &&& -22 <= self.t_lo_e() <= -1
    }

    /// The bounds of the factor are bounds of three halves less the bounds
    /// of the term, and the bounds of the result, squared and multiplied by
    /// those of the input, are within two percent of one.
    pub open spec fn holds_of_result(self) -> bool {
        &&& self.d_hi_k <= 12 && self.d_lo_k <= 12
        &&& self.d_hi <= 0x1000 && 0 < self.d_lo <= 0x1000
        &&& self.t_hi < 3 * pow2((-1 - self.t_hi_e()) as nat)
        &&& self.t_lo < 3 * pow2((-1 - self.t_lo_e()) as nat)
        &&& 3 * pow2((-1 - self.t_lo_e()) as nat) - self.t_lo <= self.d_hi * pow2(self.d_hi_k)
        &&& self.d_lo * pow2(self.d_lo_k) <= 3 * pow2((-1 - self.t_hi_e()) as nat) - self.t_hi
        &&& self.r_hi == self.z_hi * self.d_hi
        &&& self.r_lo == self.z_lo * self.d_lo
        &&& 0 < self.r_hi < 0x100_0000
        &&& 0 < self.r_lo < 0x100_0000
        &&& self.q_hi == self.r_hi * self.r_hi
        &&& self.q_lo == self.r_lo * self.r_lo
        &&& 0 <= self.slack_hi() <= 63
        &&& 0 <= self.slack_lo() <= 63
        &&& 10000 * (self.q_hi * self.y_hi) < 10404 * pow2(self.slack_hi() as nat)
        &&& 9604 * pow2(self.slack_lo() as nat) < 10000 * (self.q_lo * self.y_lo)
    }

    /// The exponent by which the square of the upper bound of the result
    /// times that of the input falls short of one.
    pub open spec fn slack_hi(self) -> int {
        -(2 * (self.z_hi_e(0) + self.d_hi_e()) + self.y_hi_e(0))
    }

    /// The same for the lower bounds.
    pub open spec fn slack_lo(self) -> int {
        -(2 * (self.z_lo_e(0) + self.d_lo_e()) + self.y_lo_e(0))
    }

    /// All relations between the bounds.
    pub open spec fn holds(self) -> bool {
        self.holds_of_inputs() && self.holds_of_products() && self.holds_of_result()
    }

    /// The normal input `y` lies in the piece, in the pair of binades
    /// numbered `a`.
    pub open spec fn places(self, y: Binary32, a: nat) -> bool {
        &&& 1 <= 2 * a + self.half() <= 254
        &&& a * 0x100_0000 + self.lo <= y.bits <= a * 0x100_0000 + self.hi
    }
}

/// Three halves less a value from zero to one: the pattern is the exact
/// difference, rounded.
proof fn lemma_factor_exact(t: Binary32)
    requires
        within_unit(t),
    ensures
        t.scaled() < Binary32::of_bits(THREE_HALVES_BITS).scaled(),
        Binary32::of_bits(THREE_HALVES_BITS).scaled() == 3 * pow2(148),
        Binary32::of_bits(THREE_HALVES_BITS).difference(t).magnitude() == round_magnitude(
            (Binary32::of_bits(THREE_HALVES_BITS).scaled() - t.scaled()) as nat,
            -149,
        ),
{
    lemma2_to64();
    let three_halves = Binary32::of_bits(THREE_HALVES_BITS);
    let one = Binary32::one();
    assert(three_halves.significand() == 0xc0_0000 && three_halves.exponent() == -23);
    assert(one.significand() == 0x80_0000 && one.exponent() == -23);
    lemma_pow2_adds(22, 126);
    lemma_pow2_pos(126);
    assert(0xc0_0000 * pow2(126) == 3 * (0x40_0000 * pow2(126))) by (nonlinear_arith);
    lemma_scaled_monotone(t, one);
    let exact = (three_halves.scaled() - t.scaled()) as nat;
    crate::monotone::lemma_binade_bounds_total(exact, -149);
}

/// Three halves less a value bounded from below is bounded from above.
proof fn lemma_factor_at_most(t: Binary32, n: nat, e: int)
    requires
        within_unit(t),
        at_least(t, n, e),
        -22 <= e <= -1,
        n < 3 * pow2((-1 - e) as nat),
    ensures
        at_most(
            Binary32::of_bits(THREE_HALVES_BITS).difference(t),
            (3 * pow2((-1 - e) as nat) - n) as nat,
            e,
        ),
{
    lemma2_to64();
    let three_halves = Binary32::of_bits(THREE_HALVES_BITS);
    let d = three_halves.difference(t);
    let lift = pow2((-1 - e) as nat);
    let unit = pow2((e + 149) as nat);
    let m = (3 * lift - n) as nat;
    lemma_pow2_adds((-1 - e) as nat, (e + 149) as nat);
    lemma_pow2_monotone((-1 - e) as nat, 21);
    assert(m * unit == 3 * (lift * unit) - n * unit) by (nonlinear_arith)
        requires
            m == 3 * lift - n,
    ;
    lemma_correction_range(t);
    lemma_factor_exact(t);
    let exact = (three_halves.scaled() - t.scaled()) as nat;
    assert(exact <= m * unit);
    lemma_round_monotone_aligned(exact, m * unit, -149);
    lemma_round_magnitude_scaled(m, e, (e + 149) as nat);
    lemma_bit_length_below(m, 24);
    lemma_round_exact(m, e);
    let bound = Binary32::with_sign(false, round_magnitude(m, e));
    assert(bound.magnitude() == round_magnitude(m, e));
    assert(d.magnitude() == round_magnitude(exact, -149));
    lemma_scaled_monotone(d, bound);
}

/// Three halves less a value bounded from above is bounded from below.
proof fn lemma_factor_at_least(t: Binary32, n: nat, e: int)
    requires
        within_unit(t),
        at_most(t, n, e),
        -22 <= e <= -1,
        n < 3 * pow2((-1 - e) as nat),
    ensures
        at_least(
            Binary32::of_bits(THREE_HALVES_BITS).difference(t),
            (3 * pow2((-1 - e) as nat) - n) as nat,
            e,
        ),
{
    lemma2_to64();
    let three_halves = Binary32::of_bits(THREE_HALVES_BITS);
    let d = three_halves.difference(t);
    let lift = pow2((-1 - e) as nat);
    let unit = pow2((e + 149) as nat);
    let m = (3 * lift - n) as nat;
    lemma_pow2_adds((-1 - e) as nat, (e + 149) as nat);
    lemma_pow2_monotone((-1 - e) as nat, 21);
    assert(m * unit == 3 * (lift * unit) - n * unit) by (nonlinear_arith)
        requires
            m == 3 * lift - n,
    ;
    lemma_correction_range(t);
    lemma_factor_exact(t);
    let exact = (three_halves.scaled() - t.scaled()) as nat;
    assert(m * unit <= exact);
    lemma_round_monotone_aligned(m * unit, exact, -149);
    lemma_round_magnitude_scaled(m, e, (e + 149) as nat);
    lemma_bit_length_below(m, 24);
    lemma_round_exact(m, e);
    let bound = Binary32::with_sign(false, round_magnitude(m, e));
    assert(bound.magnitude() == round_magnitude(m, e));
    assert(d.magnitude() == round_magnitude(exact, -149));
    lemma_scaled_monotone(bound, d);
}

/// A pattern with an exponent field from 1 to 254 decodes with the hidden bit.
proof fn lemma_decode_normal(field: nat, fraction: nat)
    requires
        1 <= field <= 254,
        fraction < 0x80_0000,
    ensures
        ({
            let x = Binary32::with_sign(false, field * 0x80_0000 + fraction);
            &&& x.magnitude() == field * 0x80_0000 + fraction
            &&& x.is_finite()
            &&& x.significand() == 0x80_0000 + fraction
            &&& x.exponent() == field - 150
        }),
{
    let m = field * 0x80_0000 + fraction;
    let x = Binary32::with_sign(false, m);
    assert(x.magnitude() == m);
    assert(m / 0x80_0000 == field);
    assert(m % 0x80_0000 == fraction);
}

/// The bounds of a piece hold of the input.
proof fn lemma_piece_input(y: Binary32, a: nat, p: Piece)
    requires
        p.holds_of_inputs(),
        p.places(y, a),
    ensures
        at_most(y, p.y_hi, p.y_hi_e(a as int)),
        at_least(y, p.y_lo, p.y_lo_e(a as int)),
        y.is_finite() && !y.is_negative(),
{
    let field = (2 * a + p.half()) as nat;
    assert(y.magnitude() == y.bits);
    lemma_decode_normal(field, p.hi % 0x80_0000);
    lemma_decode_normal(field, p.lo % 0x80_0000);
    let end = Binary32::with_sign(false, field * 0x80_0000 + p.hi % 0x80_0000);
    let start = Binary32::with_sign(false, field * 0x80_0000 + p.lo % 0x80_0000);
    lemma_at_most_pattern(y, end);
    lemma_at_most_coarser(y, end.significand(), end.exponent(), p.y_hi, p.y_hi_k);
    lemma_at_least_pattern(y, start);
    lemma_at_least_coarser(y, start.significand(), start.exponent(), p.y_lo, p.y_lo_k);
}

/// The bounds of a piece hold of the initial estimate.
proof fn lemma_piece_estimate(y: Binary32, a: nat, p: Piece)
    requires
        p.holds_of_inputs(),
        p.places(y, a),
    ensures
        at_most(initial_estimate(y), p.z_hi, p.z_hi_e(a as int)),
        at_least(initial_estimate(y), p.z_lo, p.z_lo_e(a as int)),
        !initial_estimate(y).is_negative(),
{
    let y0 = initial_estimate(y);
    assert(y.magnitude() == y.bits);
    lemma_estimate_range(y);
    let top = (MAGIC - p.lo / 2) as nat;
    let bottom = (MAGIC - p.hi / 2) as nat;
    let top_field = (top / 0x80_0000 - a) as nat;
    let bottom_field = (bottom / 0x80_0000 - a) as nat;
    lemma_decode_normal(top_field, top % 0x80_0000);
    lemma_decode_normal(bottom_field, bottom % 0x80_0000);
    let high = Binary32::with_sign(false, top_field * 0x80_0000 + top % 0x80_0000);
    let low = Binary32::with_sign(false, bottom_field * 0x80_0000 + bottom % 0x80_0000);
    assert(high.magnitude() == top - a * 0x80_0000);
    assert(low.magnitude() == bottom - a * 0x80_0000);
    lemma_at_most_pattern(y0, high);
    lemma_at_most_coarser(y0, high.significand(), high.exponent(), p.z_hi, p.z_hi_k);
    lemma_at_least_pattern(y0, low);
    lemma_at_least_coarser(y0, low.significand(), low.exponent(), p.z_lo, p.z_lo_k);
}

/// The bounds of a piece hold of half the input times the estimate.
proof fn lemma_piece_first_product(y: Binary32, a: nat, p: Piece)
    requires
        p.holds_of_inputs(),
        p.holds_of_products(),
        p.places(y, a),
    ensures
        ({
            let t1 = y.product(Binary32::of_bits(HALF_BITS)).product(initial_estimate(y));
            &&& at_most(t1, p.u_hi, p.u_hi_e(a as int))
            &&& at_least(t1, p.u_lo, p.u_lo_e(a as int))
        }),
{
    let half = Binary32::of_bits(HALF_BITS);
    let y0 = initial_estimate(y);
    let k = a as int;
    lemma_piece_input(y, a, p);
    lemma_piece_estimate(y, a, p);
    lemma_half_bounds();
    lemma2_to64();
    lemma_bit_length_below(p.y_hi, 13);
    lemma_bit_length_below(p.y_lo, 13);
    assert(p.y_hi * 1 == p.y_hi && p.y_lo * 1 == p.y_lo);
    assert(p.y_hi > 0) by (nonlinear_arith)
        requires
            0 < p.y_hi * p.z_hi,
    ;
    lemma_product_at_most(y, half, p.y_hi, p.y_hi_e(k), 1, -1);
    lemma_product_at_least(y, half, p.y_lo, p.y_lo_e(k), 1, -1);
    let x2 = y.product(half);
    lemma_bit_length_below(p.y_hi * p.z_hi, 24);
    lemma_bit_length_below(p.y_lo * p.z_lo, 24);
    lemma_product_at_most(x2, y0, p.y_hi, p.y_hi_e(k) - 1, p.z_hi, p.z_hi_e(k));
    lemma_product_at_least(x2, y0, p.y_lo, p.y_lo_e(k) - 1, p.z_lo, p.z_lo_e(k));
    let t1 = x2.product(y0);
    lemma_at_most_coarser(t1, p.y_hi * p.z_hi, p.y_hi_e(k) - 1 + p.z_hi_e(k), p.u_hi, p.u_hi_k);
    lemma_at_least_coarser(t1, p.y_lo * p.z_lo, p.y_lo_e(k) - 1 + p.z_lo_e(k), p.u_lo, p.u_lo_k);
}

/// The bounds of a piece hold of the term of the Newton step.
proof fn lemma_piece_term(y: Binary32, a: nat, p: Piece)
    requires
        p.holds_of_inputs(),
        p.holds_of_products(),
        p.places(y, a),
    ensures
        at_most(newton_term(y), p.t_hi, p.t_hi_e()),
        at_least(newton_term(y), p.t_lo, p.t_lo_e()),
{
    let half = Binary32::of_bits(HALF_BITS);
    let y0 = initial_estimate(y);
    let k = a as int;
    lemma_piece_estimate(y, a, p);
    lemma_piece_first_product(y, a, p);
    lemma2_to64();
    let t1 = y.product(half).product(y0);
    lemma_bit_length_below(p.u_hi * p.z_hi, 24);
    lemma_bit_length_below(p.u_lo * p.z_lo, 24);
    lemma_product_at_most(t1, y0, p.u_hi, p.u_hi_e(k), p.z_hi, p.z_hi_e(k));
    lemma_product_at_least(t1, y0, p.u_lo, p.u_lo_e(k), p.z_lo, p.z_lo_e(k));
    let t2 = t1.product(y0);
    lemma_at_most_coarser(t2, p.u_hi * p.z_hi, p.u_hi_e(k) + p.z_hi_e(k), p.t_hi, p.t_hi_k);
    lemma_at_least_coarser(t2, p.u_lo * p.z_lo, p.u_lo_e(k) + p.z_lo_e(k), p.t_lo, p.t_lo_k);
}

/// The bounds of a piece hold of the result.
proof fn lemma_piece_result(y: Binary32, a: nat, p: Piece)
    requires
        p.holds(),
        p.places(y, a),
    ensures
        at_most(inverse_sqrt_of(y), p.r_hi, p.z_hi_e(a as int) + p.d_hi_e()),
        at_least(inverse_sqrt_of(y), p.r_lo, p.z_lo_e(a as int) + p.d_lo_e()),
        !inverse_sqrt_of(y).is_negative(),
{
    let y0 = initial_estimate(y);
    let t = newton_term(y);
    let d = Binary32::of_bits(THREE_HALVES_BITS).difference(t);
    let k = a as int;
    lemma2_to64();
    lemma_piece_input(y, a, p);
    lemma_piece_estimate(y, a, p);
    lemma_piece_term(y, a, p);
    lemma_term_within_unit(y);
    lemma_correction_range(t);
    lemma_factor_at_most(t, p.t_lo, p.t_lo_e());
    lemma_factor_at_least(t, p.t_hi, p.t_hi_e());
    let most = (3 * pow2((-1 - p.t_lo_e()) as nat) - p.t_lo) as nat;
    let least = (3 * pow2((-1 - p.t_hi_e()) as nat) - p.t_hi) as nat;
    lemma_at_most_coarser(d, most, p.t_lo_e(), p.d_hi, p.d_hi_k);
    lemma_at_least_coarser(d, least, p.t_hi_e(), p.d_lo, p.d_lo_k);
    lemma_bit_length_below(p.z_hi * p.d_hi, 24);
    lemma_bit_length_below(p.z_lo * p.d_lo, 24);
    lemma_product_at_most(y0, d, p.z_hi, p.z_hi_e(k), p.d_hi, p.d_hi_e());
    lemma_product_at_least(y0, d, p.z_lo, p.z_lo_e(k), p.d_lo, p.d_lo_e());
    assert(inverse_sqrt_of(y) == y0.product(d));
}

/// Where `r <= rn * 2^re` and `y <= yn * 2^ye`, a bound on `rn^2 * yn`
/// gives one on `r^2 * y`; the values are counts of units of `2^-149`.
proof fn lemma_square_times_below(r: nat, y: nat, rn: nat, re: int, yn: nat, ye: int, slack: nat)
    requires
        re >= -149,
        ye >= -149,
        r <= rn * pow2((re + 149) as nat),
        y <= yn * pow2((ye + 149) as nat),
        2 * re + ye + slack == 0,
        10000 * (rn * rn * yn) < 10404 * pow2(slack),
    ensures
        10000 * (r * r * y) < 10404 * pow2(447),
{
    let p = pow2((re + 149) as nat);
    let q = pow2((ye + 149) as nat);
    let w = pow2((447 - slack) as nat);
    lemma_pow2_adds((re + 149) as nat, (re + 149) as nat);
    lemma_pow2_adds((2 * re + 298) as nat, (ye + 149) as nat);
    lemma_pow2_adds((447 - slack) as nat, slack);
    lemma_pow2_pos((447 - slack) as nat);
    assert(w == (p * p) * q);
    assert(r * r * y <= (rn * p) * (rn * p) * (yn * q)) by (nonlinear_arith)
        requires
            r <= rn * p,
            y <= yn * q,
    ;
    assert((rn * p) * (rn * p) * (yn * q) == (rn * rn * yn) * ((p * p) * q)) by (nonlinear_arith);
    assert(10000 * ((rn * rn * yn) * w) < 10404 * (w * pow2(slack))) by (nonlinear_arith)
        requires
            10000 * (rn * rn * yn) < 10404 * pow2(slack),
            w > 0,
    ;
}

/// Where `r >= rn * 2^re` and `y >= yn * 2^ye`, a bound on `rn^2 * yn`
/// gives one on `r^2 * y`.
proof fn lemma_square_times_above(r: nat, y: nat, rn: nat, re: int, yn: nat, ye: int, slack: nat)
    requires
        re >= -149,
        ye >= -149,
        r >= rn * pow2((re + 149) as nat),
        y >= yn * pow2((ye + 149) as nat),
        2 * re + ye + slack == 0,
        9604 * pow2(slack) < 10000 * (rn * rn * yn),
    ensures
        9604 * pow2(447) < 10000 * (r * r * y),
{
    let p = pow2((re + 149) as nat);
    let q = pow2((ye + 149) as nat);
    let w = pow2((447 - slack) as nat);
    lemma_pow2_adds((re + 149) as nat, (re + 149) as nat);
    lemma_pow2_adds((2 * re + 298) as nat, (ye + 149) as nat);
    lemma_pow2_adds((447 - slack) as nat, slack);
    lemma_pow2_pos((447 - slack) as nat);
    assert(w == (p * p) * q);
    assert(r * r * y >= (rn * p) * (rn * p) * (yn * q)) by (nonlinear_arith)
        requires
            r >= rn * p,
            y >= yn * q,
    ;
    assert((rn * p) * (rn * p) * (yn * q) == (rn * rn * yn) * ((p * p) * q)) by (nonlinear_arith);
    assert(9604 * (w * pow2(slack)) < 10000 * ((rn * rn * yn) * w)) by (nonlinear_arith)
        requires
            9604 * pow2(slack) < 10000 * (rn * rn * yn),
            w > 0,
    ;
}

/// On a piece whose bounds hold, the result is within two percent.
pub proof fn lemma_piece(y: Binary32, a: nat, p: Piece)
    requires
        p.holds(),
        p.places(y, a),
    ensures
        within_two_percent(y),
{
    let r = inverse_sqrt_of(y);
    let k = a as int;
    lemma_piece_input(y, a, p);
    lemma_piece_result(y, a, p);
    lemma_square_times_below(
        r.scaled(),
        y.scaled(),
        p.r_hi,
        p.z_hi_e(k) + p.d_hi_e(),
        p.y_hi,
        p.y_hi_e(k),
        p.slack_hi() as nat,
    );
    lemma_square_times_above(
        r.scaled(),
        y.scaled(),
        p.r_lo,
        p.z_lo_e(k) + p.d_lo_e(),
        p.y_lo,
        p.y_lo_e(k),
        p.slack_lo() as nat,
    );
}

} // verus!
