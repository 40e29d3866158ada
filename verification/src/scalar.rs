//! Real numbers carried as IEEE-754 binary64 bit patterns.
//!
//! The library never does arithmetic on a scalar. It classifies it, orders it,
//! changes its sign and reads its integer part, all of which are exact on the
//! bit pattern. Arithmetic is the caller's business.
//!
//! A finite pattern stands for a whole number of units of `2^-1074`, with a
//! sign. The laws at the end of the file show that the order of the patterns
//! is the order of these numbers, and that the integer part is theirs.

use vstd::prelude::*;
use vstd::arithmetic::div_mod::{lemma_basic_div, lemma_div_denominator, lemma_div_multiples_vanish};
use vstd::arithmetic::mul::lemma_mul_inequality;
use vstd::arithmetic::power2::{
    lemma2_to64, lemma2_to64_rest, lemma_pow2_adds, lemma_pow2_pos, lemma_pow2_strictly_increases, lemma_pow2_unfold,
    pow2,
};

verus! {

/// The sign bit of a pattern.
pub const SIGN_BIT: u64 = 0x8000_0000_0000_0000;

/// The pattern of positive infinity. A larger magnitude is not a number.
pub const INFINITY_BITS: u64 = 0x7ff0_0000_0000_0000;

/// The pattern of the number one.
pub const ONE_BITS: u64 = 0x3ff0_0000_0000_0000;

/// The pattern of the number minus one.
pub const MINUS_ONE_BITS: u64 = 0xbff0_0000_0000_0000;

/// Two to the power 52: the number of patterns that share one exponent.
pub const FRACTION_SPAN: u64 = 0x10_0000_0000_0000;

/// The exponent field of the patterns in `[1, 2)`.
pub const EXPONENT_BIAS: u64 = 1023;

/// The exponent field of the patterns whose last fraction bit counts one.
pub const EXPONENT_UNIT: u64 = 1075;

/// A real number, or one of the two infinities, or no number at all, as the
/// binary64 pattern that stands for it.
#[derive(Clone, Copy, Debug, PartialEq, Eq, Structural)]
pub struct Scalar {
    pub bits: u64,
}

impl Scalar {
    /// The pattern with its sign bit cleared.
    pub open spec fn magnitude(self) -> int {
        if self.bits >= SIGN_BIT {
            self.bits - SIGN_BIT
        } else {
            self.bits as int
        }
    }

    /// Whether the sign bit is set.
    pub open spec fn sign_bit(self) -> bool {
        self.bits >= SIGN_BIT
    }

    /// Whether the pattern stands for no number.
    pub open spec fn spec_is_nan(self) -> bool {
        self.magnitude() > INFINITY_BITS
    }

    /// Whether the pattern stands for a real number, which leaves out the
    /// infinities and what is no number.
    pub open spec fn spec_is_finite(self) -> bool {
        self.magnitude() < INFINITY_BITS
    }

    /// Whether the pattern is one of the two zeros.
    pub open spec fn spec_is_zero(self) -> bool {
        self.magnitude() == 0
    }

    /// The place of the scalar on the number line: an integer that grows
    /// strictly with the value that the pattern stands for. Both zeros have
    /// rank 0. It orders every pattern but those that are no number.
    pub open spec fn rank(self) -> int {
        if self.sign_bit() {
            -self.magnitude()
        } else {
            self.magnitude()
        }
    }

    /// `self < other` as numbers; false when either is no number.
    pub open spec fn spec_lt(self, other: Scalar) -> bool {
        !self.spec_is_nan() && !other.spec_is_nan() && self.rank() < other.rank()
    }

    /// `self > other` as numbers; false when either is no number.
    pub open spec fn spec_gt(self, other: Scalar) -> bool {
        other.spec_lt(self)
    }

    /// `self == other` as numbers: the two zeros are equal, and what is no
    /// number equals nothing.
    pub open spec fn spec_same(self, other: Scalar) -> bool {
        !self.spec_is_nan() && !other.spec_is_nan() && self.rank() == other.rank()
    }

    /// `self > 0`.
    pub open spec fn spec_is_positive(self) -> bool {
        !self.spec_is_nan() && self.rank() > 0
    }

    /// `self < 0`.
    pub open spec fn spec_is_negative(self) -> bool {
        !self.spec_is_nan() && self.rank() < 0
    }

    /// The absolute value: the same pattern without its sign.
    pub open spec fn spec_abs(self) -> Scalar {
        Scalar { bits: self.magnitude() as u64 }
    }

    /// The negation: the same pattern with the other sign.
    pub open spec fn spec_neg(self) -> Scalar {
        if self.sign_bit() {
            Scalar { bits: (self.bits - SIGN_BIT) as u64 }
        } else {
            Scalar { bits: (self.bits + SIGN_BIT) as u64 }
        }
    }

    /// The sign of a scalar: one above zero, zero at either zero, minus one
    /// below zero. The comparison with zero is exact. What is no number is
    /// neither zero nor above it, and gets minus one.
    pub open spec fn spec_sign(self) -> Scalar {
        if self.spec_is_zero() {
            Scalar { bits: 0 }
        } else if self.spec_is_positive() {
            Scalar { bits: ONE_BITS }
        } else {
            Scalar { bits: MINUS_ONE_BITS }
        }
    }

    /// The larger of the scalar and zero, where zero is the positive zero.
    pub open spec fn spec_clamp(self) -> Scalar {
        if self.spec_is_positive() {
            self
        } else {
            Scalar { bits: 0 }
        }
    }

    /// The soft threshold of `self`, given `excess`, the amount by which the
    /// absolute value of `self` exceeds the threshold:
    /// `sign(self) * max(excess, 0)`. A zero result is the positive zero.
    pub open spec fn spec_shrink(self, excess: Scalar) -> Scalar {
        if !excess.spec_is_positive() {
            Scalar { bits: 0 }
        } else if self.spec_is_positive() {
            excess
        } else if self.spec_is_negative() {
            excess.spec_neg()
        } else {
            Scalar { bits: 0 }
        }
    }

    /// The exponent field of the pattern.
    pub open spec fn exponent(self) -> int {
        self.magnitude() / (FRACTION_SPAN as int)
    }

    /// The significand of a pattern whose exponent field is not zero: the
    /// fraction field with the leading one put before it.
    pub open spec fn significand(self) -> int {
        FRACTION_SPAN + self.magnitude() % (FRACTION_SPAN as int)
    }

    /// The absolute value of a finite scalar, counted in units of `2^-1074`,
    /// the least number above zero that a pattern stands for. A pattern with
    /// the exponent field zero stands for as many units as its fraction
    /// field says, and any other for `significand * 2^(exponent - 1)` units.
    pub open spec fn units(self) -> int {
        if self.exponent() == 0 {
            self.magnitude() % (FRACTION_SPAN as int)
        } else {
            self.significand() * pow2((self.exponent() - 1) as nat)
        }
    }

    /// The integer part of the absolute value of a finite scalar: the value is
    /// `significand * 2^(exponent - 1075)`, cut off below one.
    pub open spec fn whole(self) -> int {
        if self.exponent() < EXPONENT_BIAS {
            0
        } else if self.exponent() <= EXPONENT_UNIT {
            self.significand() / (pow2((EXPONENT_UNIT - self.exponent()) as nat) as int)
        } else {
            self.significand() * pow2((self.exponent() - EXPONENT_UNIT) as nat)
        }
    }

    /// The scalar read as a count of at most `cap`: its integer part where it
    /// is a positive real number, `cap` where that is larger or the scalar is
    /// positive infinity, and 0 where it is negative, zero or no number.
    pub open spec fn spec_count(self, cap: nat) -> nat {
        if !self.spec_is_positive() {
            0
        } else if !self.spec_is_finite() {
            cap
        } else if self.whole() >= cap {
            cap
        } else {
            self.whole() as nat
        }
    }

    /// The scalar with the given pattern.
    pub fn from_bits(bits: u64) -> (s: Scalar)
        ensures
            s.bits == bits,
    {
        Scalar { bits }
    }

    /// The pattern of the scalar.
    pub fn to_bits(self) -> (bits: u64)
        ensures
            bits == self.bits,
    {
        self.bits
    }

    /// The positive zero.
    pub fn zero() -> (s: Scalar)
        ensures
            s.bits == 0,
    {
        Scalar { bits: 0 }
    }

    /// The number one.
    pub fn one() -> (s: Scalar)
        ensures
            s.bits == ONE_BITS,
    {
        Scalar { bits: ONE_BITS }
    }

    /// The number minus one.
    pub fn minus_one() -> (s: Scalar)
        ensures
            s.bits == MINUS_ONE_BITS,
    {
        Scalar { bits: MINUS_ONE_BITS }
    }

    fn magnitude_bits(self) -> (m: u64)
        ensures
            m == self.magnitude(),
            m < SIGN_BIT,
    {
        if self.bits >= SIGN_BIT {
            self.bits - SIGN_BIT
        } else {
            self.bits
        }
    }

    /// Whether the scalar is no number.
    #[verifier::when_used_as_spec(spec_is_nan)]
    pub fn is_nan(self) -> (b: bool)
        ensures
            b == self.spec_is_nan(),
    {
        self.magnitude_bits() > INFINITY_BITS
    }

    /// Whether the scalar is a real number.
    #[verifier::when_used_as_spec(spec_is_finite)]
    pub fn is_finite(self) -> (b: bool)
        ensures
            b == self.spec_is_finite(),
    {
        self.magnitude_bits() < INFINITY_BITS
    }

    /// Whether the scalar is zero, of either sign.
    #[verifier::when_used_as_spec(spec_is_zero)]
    pub fn is_zero(self) -> (b: bool)
        ensures
            b == self.spec_is_zero(),
    {
        self.magnitude_bits() == 0
    }

    /// Whether the scalar is greater than zero.
    #[verifier::when_used_as_spec(spec_is_positive)]
    pub fn is_positive(self) -> (b: bool)
        ensures
            b == self.spec_is_positive(),
    {
        0 < self.bits && self.bits <= INFINITY_BITS
    }

    /// Whether the scalar is less than zero.
    #[verifier::when_used_as_spec(spec_is_negative)]
    pub fn is_negative(self) -> (b: bool)
        ensures
            b == self.spec_is_negative(),
    {
        self.bits > SIGN_BIT && self.bits - SIGN_BIT <= INFINITY_BITS
    }

    /// Whether `self < other` as numbers.
    #[verifier::when_used_as_spec(spec_lt)]
    pub fn lt(self, other: Scalar) -> (b: bool)
        ensures
            b == self.spec_lt(other),
    {
        if self.is_nan() || other.is_nan() {
            return false;
        }
        let a: u64 = self.magnitude_bits();
        let c: u64 = other.magnitude_bits();
        if self.bits >= SIGN_BIT {
            if other.bits >= SIGN_BIT {
                a > c
            } else {
                a > 0 || c > 0
            }
        } else {
            if other.bits >= SIGN_BIT {
                false
            } else {
                a < c
            }
        }
    }

    /// Whether `self > other` as numbers.
    #[verifier::when_used_as_spec(spec_gt)]
    pub fn gt(self, other: Scalar) -> (b: bool)
        ensures
            b == self.spec_gt(other),
    {
        other.lt(self)
    }

    /// Whether `self == other` as numbers.
    #[verifier::when_used_as_spec(spec_same)]
    pub fn same(self, other: Scalar) -> (b: bool)
        ensures
            b == self.spec_same(other),
    {
        if self.is_nan() || other.is_nan() {
            return false;
        }
        let a: u64 = self.magnitude_bits();
        let c: u64 = other.magnitude_bits();
        if a == 0 && c == 0 {
            true
        } else {
            self.bits == other.bits
        }
    }

    /// The absolute value.
    #[verifier::when_used_as_spec(spec_abs)]
    pub fn abs(self) -> (s: Scalar)
        ensures
            s == self.spec_abs(),
    {
        Scalar { bits: self.magnitude_bits() }
    }

    /// The negation.
    #[verifier::when_used_as_spec(spec_neg)]
    pub fn neg(self) -> (s: Scalar)
        ensures
            s == self.spec_neg(),
    {
        if self.bits >= SIGN_BIT {
            Scalar { bits: self.bits - SIGN_BIT }
        } else {
            Scalar { bits: self.bits + SIGN_BIT }
        }
    }

    /// The sign: one, zero or minus one.
    #[verifier::when_used_as_spec(spec_sign)]
    pub fn sign(self) -> (s: Scalar)
        ensures
            s == self.spec_sign(),
    {
        if self.is_zero() {
            Scalar::zero()
        } else if self.is_positive() {
            Scalar::one()
        } else {
            Scalar::minus_one()
        }
    }

    /// The soft threshold of `self`, where `excess` is the absolute value of
    /// `self` less the threshold.
    #[verifier::when_used_as_spec(spec_shrink)]
    pub fn shrink(self, excess: Scalar) -> (s: Scalar)
        ensures
            s == self.spec_shrink(excess),
    {
        if !excess.is_positive() {
            Scalar::zero()
        } else if self.is_positive() {
            excess
        } else if self.is_negative() {
            excess.neg()
        } else {
            Scalar::zero()
        }
    }

    /// The scalar read as a count of at most `cap`.
    pub fn count(self, cap: usize) -> (k: usize)
        ensures
            k == self.spec_count(cap as nat),
    {
        if !self.is_positive() {
            return 0;
        }
        if !self.is_finite() {
            return cap;
        }
        let exponent: u64 = self.bits / FRACTION_SPAN;
        let significand: u64 = FRACTION_SPAN + self.bits % FRACTION_SPAN;
        if exponent < EXPONENT_BIAS {
            return 0;
        }
        if exponent <= EXPONENT_UNIT {
            let shift: u64 = EXPONENT_UNIT - exponent;
            let mut quotient: u64 = significand;
            let mut done: u64 = 0;
            proof {
                lemma2_to64();
            }
            while done < shift
                invariant
                    done <= shift,
                    quotient == significand as int / (pow2(done as nat) as int),
                decreases shift - done,
            {
                proof {
                    lemma_pow2_pos(done as nat);
                    lemma_pow2_unfold((done + 1) as nat);
                    lemma_div_denominator(significand as int, pow2(done as nat) as int, 2);
                }
                quotient = quotient / 2;
                done = done + 1;
            }
            if quotient >= cap as u64 {
                cap
            } else {
                quotient as usize
            }
        } else {
            let shift: u64 = exponent - EXPONENT_UNIT;
            let mut product: u64 = significand;
            let mut done: u64 = 0;
            proof {
                lemma2_to64();
            }
            while done < shift
                invariant
                    done <= shift,
                    self.spec_is_positive(),
                    self.spec_is_finite(),
                    self.exponent() > EXPONENT_UNIT,
                    shift == self.exponent() - EXPONENT_UNIT,
                    significand == self.significand(),
                    significand >= 1,
                    product == significand * pow2(done as nat),
                decreases shift - done,
            {
                proof {
                    lemma_pow2_pos(done as nat);
                    lemma_pow2_pos(shift as nat);
                    if done < shift {
                        lemma_pow2_strictly_increases(done as nat, shift as nat);
                    }
                    lemma_mul_inequality(pow2(done as nat) as int, pow2(shift as nat) as int, significand as int);
                    assert(product <= self.whole()) by (nonlinear_arith)
                        requires
                            product == significand * pow2(done as nat),
                            pow2(done as nat) * significand <= pow2(shift as nat) * significand,
                            self.whole() == significand * pow2(shift as nat),
                    ;
                }
                if product >= cap as u64 {
                    return cap;
                }
                if product > u64::MAX / 2 {
                    proof {
                        lemma_pow2_unfold((done + 1) as nat);
                        if done + 1 < shift {
                            lemma_pow2_strictly_increases((done + 1) as nat, shift as nat);
                        }
                        lemma_mul_inequality(pow2((done + 1) as nat) as int, pow2(shift as nat) as int, significand as int);
                        assert(2 * product <= self.whole()) by (nonlinear_arith)
                            requires
                                product == significand * pow2(done as nat),
                                pow2((done + 1) as nat) == 2 * pow2(done as nat),
                                pow2((done + 1) as nat) * significand <= pow2(shift as nat) * significand,
                                self.whole() == significand * pow2(shift as nat),
                        ;
                    }
                    return cap;
                }
                proof {
                    lemma_pow2_unfold((done + 1) as nat);
                    assert(2 * product == significand * pow2((done + 1) as nat)) by (nonlinear_arith)
                        requires
                            product == significand * pow2(done as nat),
                            pow2((done + 1) as nat) == 2 * pow2(done as nat),
                    ;
                }
                product = product * 2;
                done = done + 1;
            }
            if product >= cap as u64 {
                cap
            } else {
                product as usize
            }
        }
    }
}

/// The soft threshold is the sign of the number times the larger of the
/// excess and zero: that larger one where the sign is one, its negation
/// where the number is below zero, and zero where the sign is zero.
pub proof fn lemma_shrink_is_sign_times_clamp(v: Scalar, excess: Scalar)
    ensures
        v.spec_sign().bits == ONE_BITS ==> v.spec_shrink(excess) == excess.spec_clamp(),
        v.spec_is_negative() ==> v.spec_shrink(excess).spec_same(excess.spec_clamp().spec_neg()),
        v.spec_sign().bits == 0 ==> v.spec_shrink(excess).bits == 0,
{
}

/// The soft threshold of zero is zero. That of a number whose absolute
/// value is the threshold, so that the excess is zero, is zero. That of a
/// number above zero with an excess above zero is the excess, and that of a
/// number below zero is the negated excess: twice the threshold gives the
/// threshold, and minus twice the threshold gives minus the threshold.
pub proof fn lemma_shrink_cases(v: Scalar, excess: Scalar)
    ensures
        v.spec_is_zero() ==> v.spec_shrink(excess).bits == 0,
        excess.spec_is_zero() ==> v.spec_shrink(excess).bits == 0,
        v.spec_is_positive() && excess.spec_is_positive() ==> v.spec_shrink(excess) == excess,
        v.spec_is_negative() && excess.spec_is_positive() ==> v.spec_shrink(excess) == excess.spec_neg(),
{
}

/// With a threshold of zero the excess of a number is its absolute value,
/// and the soft threshold gives the number back: the same value, and the
/// same pattern unless the number is the negative zero.
pub proof fn lemma_shrink_by_zero(v: Scalar)
    requires
        !v.spec_is_nan(),
    ensures
        v.spec_shrink(v.spec_abs()).spec_same(v),
        v.bits != SIGN_BIT ==> v.spec_shrink(v.spec_abs()) == v,
{
}

/// The integer part of a real number above one is at least one.
pub proof fn lemma_whole_above_one(x: Scalar)
    requires
        !x.spec_is_nan(),
        x.rank() > ONE_BITS,
        x.spec_is_finite(),
    ensures
        x.whole() >= 1,
{
    lemma2_to64();
    lemma2_to64_rest();
    let e: int = x.exponent();
    assert(e >= 1023);
    if e <= EXPONENT_UNIT {
        let shift = (EXPONENT_UNIT - e) as nat;
        assert(shift <= 52);
        if shift < 52 {
            lemma_pow2_strictly_increases(shift, 52);
        }
        let d: int = pow2(shift) as int;
        assert(0 < d <= FRACTION_SPAN);
        assert(x.significand() >= d);
        assert(x.significand() / d >= 1) by (nonlinear_arith)
            requires
                0 < d <= x.significand(),
        ;
    } else {
        let shift = (e - EXPONENT_UNIT) as nat;
        lemma_pow2_pos(shift);
        assert(x.significand() * pow2(shift) >= 1) by (nonlinear_arith)
            requires
                x.significand() >= 1,
                pow2(shift) >= 1,
        ;
    }
}


/// Of two finite scalars, the one with the larger magnitude stands for the
/// larger absolute value.
proof fn lemma_units_increase(a: Scalar, b: Scalar)
    requires
        a.spec_is_finite(),
        b.spec_is_finite(),
        a.magnitude() < b.magnitude(),
    ensures
        a.units() < b.units(),
{
    lemma2_to64();
    let span: int = FRACTION_SPAN as int;
    let ea: int = a.exponent();
    let eb: int = b.exponent();
    let fa: int = a.magnitude() % span;
    let fb: int = b.magnitude() % span;
    assert(a.magnitude() == ea * span + fa);
    assert(b.magnitude() == eb * span + fb);
    assert(ea <= eb);
    if ea == eb {
        if ea > 0 {
            let p: int = pow2((ea - 1) as nat) as int;
            lemma_pow2_pos((ea - 1) as nat);
            assert((span + fa) * p < (span + fb) * p) by (nonlinear_arith)
                requires
                    fa < fb,
                    p > 0,
            ;
        }
    } else {
        let pb: int = pow2((eb - 1) as nat) as int;
        lemma_pow2_pos((eb - 1) as nat);
        if ea == 0 {
            assert(fa < (span + fb) * pb) by (nonlinear_arith)
                requires
                    0 <= fa < span,
                    0 <= fb,
                    pb >= 1,
            ;
        } else {
            let pa: int = pow2((ea - 1) as nat) as int;
            lemma_pow2_pos((ea - 1) as nat);
            lemma_pow2_unfold(ea as nat);
            if ea < eb - 1 {
                lemma_pow2_strictly_increases(ea as nat, (eb - 1) as nat);
            }
            assert(2 * pa <= pb);
            assert((span + fa) * pa < (span + fb) * pb) by (nonlinear_arith)
                requires
                    0 <= fa < span,
                    0 <= fb,
                    0 < pa,
                    2 * pa <= pb,
            ;
        }
    }
}

/// The order of the patterns is the order of the numbers they stand for:
/// of two finite scalars, one has the smaller magnitude exactly if it has
/// the smaller absolute value, and they have the same magnitude exactly if
/// they have the same absolute value.
pub proof fn lemma_magnitude_orders_units(a: Scalar, b: Scalar)
    requires
        a.spec_is_finite(),
        b.spec_is_finite(),
    ensures
        a.magnitude() < b.magnitude() <==> a.units() < b.units(),
        a.magnitude() == b.magnitude() <==> a.units() == b.units(),
{
    if a.magnitude() < b.magnitude() {
        lemma_units_increase(a, b);
    }
    if b.magnitude() < a.magnitude() {
        lemma_units_increase(b, a);
    }
}

/// The integer part of a finite scalar is its absolute value cut off below
/// one: the number of units, divided by the `2^1074` units that make one.
pub proof fn lemma_whole_is_floor(x: Scalar)
    requires
        x.spec_is_finite(),
    ensures
        x.whole() == x.units() / (pow2(1074) as int),
{
    lemma2_to64();
    lemma2_to64_rest();
    let span: int = FRACTION_SPAN as int;
    let e: int = x.exponent();
    let f: int = x.magnitude() % span;
    let m: int = x.significand();
    let one: int = pow2(1074) as int;
    lemma_pow2_pos(1074);
    assert(0 <= e <= 2046);
    if e == 0 {
        lemma_pow2_strictly_increases(52, 1074);
        lemma_basic_div(f, one);
    } else if e < EXPONENT_BIAS {
        let p: int = pow2((e - 1) as nat) as int;
        lemma_pow2_pos((e - 1) as nat);
        lemma_pow2_adds(53, (e - 1) as nat);
        if e + 52 < 1074 {
            lemma_pow2_strictly_increases((e + 52) as nat, 1074);
        }
        assert(pow2((53 + (e - 1)) as nat) <= one);
        assert(m * p < one) by (nonlinear_arith)
            requires
                0 <= m < 2 * span,
                p > 0,
                (2 * span) * p <= one,
        ;
        lemma_basic_div(m * p, one);
    } else if e <= EXPONENT_UNIT {
        let p: int = pow2((e - 1) as nat) as int;
        let q: int = pow2((EXPONENT_UNIT - e) as nat) as int;
        lemma_pow2_pos((e - 1) as nat);
        lemma_pow2_pos((EXPONENT_UNIT - e) as nat);
        lemma_pow2_adds((e - 1) as nat, (EXPONENT_UNIT - e) as nat);
        assert(one == p * q);
        lemma_div_multiples_vanish(m, p);
        assert(m * p == p * m) by (nonlinear_arith);
        lemma_div_denominator(m * p, p, q);
    } else {
        let p: int = pow2((e - 1) as nat) as int;
        let q: int = pow2((e - EXPONENT_UNIT) as nat) as int;
        lemma_pow2_adds((e - EXPONENT_UNIT) as nat, 1074);
        assert(p == q * one);
        assert(m * p == one * (m * q)) by (nonlinear_arith)
            requires
                p == q * one,
        ;
        lemma_div_multiples_vanish(m * q, one);
    }
}

} // verus!
