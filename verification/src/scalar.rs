//! Double-precision numbers as bit patterns.
//!
//! The renderer's arithmetic is done outside this crate. What comes back is held
//! here as the 64 bits of an IEEE 754 binary64 value, and everything the renderer
//! decides from a number (which of two is smaller, whether one is positive, which
//! byte a colour channel becomes) is computed from those bits with integers.
use vstd::prelude::*;
use vstd::arithmetic::div_mod::{
    lemma_div_denominator, lemma_div_is_ordered, lemma_div_is_ordered_by_denominator,
    lemma_fundamental_div_mod,
};
use vstd::arithmetic::power2::{
    lemma2_to64, lemma2_to64_rest, lemma_pow2_adds, lemma_pow2_pos, lemma_pow2_strictly_increases, pow2,
};
use vstd::bits::lemma_u64_shr_is_div;

verus! {

/// The bit that holds the sign.
pub const SIGN_BIT: u64 = 0x8000_0000_0000_0000;

/// The bits of positive infinity: every exponent bit set, no fraction bit.
pub const INFINITY_BITS: u64 = 0x7ff0_0000_0000_0000;

/// The bits of the largest finite number.
pub const GREATEST_FINITE_BITS: u64 = 0x7fef_ffff_ffff_ffff;

/// The bits of `1.0`.
pub const ONE_BITS: u64 = 0x3ff0_0000_0000_0000;

/// Two to the power 52: the weight of the leading one that normal numbers leave
/// out of their fraction field.
pub const HIDDEN_BIT: u64 = 0x0010_0000_0000_0000;

/// The exponent field of `1.0`.
pub const EXPONENT_BIAS: u64 = 1023;

/// A double-precision number, held as its IEEE 754 binary64 bit pattern.
///
/// `==` on two scalars compares the bit patterns: it tells `0.0` from `-0.0` and
/// finds a NaN equal to itself. To compare as numbers, use [`Scalar::lt`] and its
/// companions.
#[derive(Clone, Copy, Debug, PartialEq, Eq, Structural)]
pub struct Scalar {
    pub bits: u64,
}

impl Scalar {
    /// The bits without the sign bit.
    pub open spec fn magnitude(self) -> int {
        if self.bits >= SIGN_BIT {
            self.bits - SIGN_BIT
        } else {
            self.bits as int
        }
    }

    /// Whether the sign bit is set.
    pub open spec fn sign(self) -> bool {
        self.bits >= SIGN_BIT
    }

    /// Whether the bits encode no number at all.
    pub open spec fn nan(self) -> bool {
        self.magnitude() > INFINITY_BITS
    }

    /// The place of a number on the number line, as an integer.
    ///
    /// Among the bit patterns that are not NaN, a larger magnitude field means a
    /// number further from zero, so the signed magnitude orders them as their
    /// values do. Both zeros have rank 0.
    pub open spec fn rank(self) -> int {
        if self.sign() {
            -self.magnitude()
        } else {
            self.magnitude()
        }
    }

    /// `self < other` as numbers. False as soon as either is NaN.
    pub open spec fn below(self, other: Scalar) -> bool {
        !self.nan() && !other.nan() && self.rank() < other.rank()
    }

    /// `self <= other` as numbers. False as soon as either is NaN.
    pub open spec fn at_most(self, other: Scalar) -> bool {
        !self.nan() && !other.nan() && self.rank() <= other.rank()
    }

    /// `0 < self` as numbers.
    pub open spec fn positive(self) -> bool {
        Scalar::zero().below(self)
    }

    /// `0 <= self < 1`: what a uniform draw from the unit interval satisfies.
    pub open spec fn unit_draw(self) -> bool {
        Scalar::zero().at_most(self) && self.below(Scalar::one())
    }

    /// `lo < self < hi` as numbers.
    pub open spec fn strictly_between(self, lo: Scalar, hi: Scalar) -> bool {
        lo.below(self) && self.below(hi)
    }

    /// The number with the opposite sign.
    pub open spec fn negated(self) -> Scalar {
        if self.bits >= SIGN_BIT {
            Scalar { bits: (self.bits - SIGN_BIT) as u64 }
        } else {
            Scalar { bits: (self.bits + SIGN_BIT) as u64 }
        }
    }

    /// The exponent field: the eleven bits after the sign.
    pub open spec fn exponent_field(self) -> int {
        self.magnitude() / (HIDDEN_BIT as int)
    }

    /// The fraction field: the low 52 bits.
    pub open spec fn fraction_field(self) -> int {
        self.magnitude() % (HIDDEN_BIT as int)
    }

    /// The number cut down to a byte: its integer part, held to `0..=255`, and 0
    /// for NaN.
    ///
    /// A normal number with exponent field `e` and fraction field `f` has the
    /// value `(2^52 + f) * 2^(e - 1075)`. Below `e = 1023` that is less than one;
    /// from `e = 1031` on it is at least 256. In between, the integer part is the
    /// quotient of `2^52 + f` by `2^(1075 - e)`.
    pub open spec fn byte(self) -> int {
        if self.nan() || self.sign() || self.exponent_field() < EXPONENT_BIAS {
            0
        } else if self.exponent_field() >= EXPONENT_BIAS + 8 {
            255
        } else {
            (HIDDEN_BIT + self.fraction_field()) / (pow2(
                (EXPONENT_BIAS + 52 - self.exponent_field()) as nat,
            ) as int)
        }
    }

    /// The scalar with the given bit pattern.
    pub fn from_bits(bits: u64) -> (s: Scalar)
        ensures
            s.bits == bits,
    {
        Scalar { bits }
    }

    /// The bit pattern.
    pub fn to_bits(&self) -> (bits: u64)
        ensures
            bits == self.bits,
    {
        self.bits
    }

    /// `0.0`, for contracts.
    pub open spec fn spec_zero() -> Scalar {
        Scalar { bits: 0 }
    }

    /// `1.0`, for contracts.
    pub open spec fn spec_one() -> Scalar {
        Scalar { bits: ONE_BITS }
    }

    /// The largest finite number, for contracts.
    pub open spec fn spec_greatest_finite() -> Scalar {
        Scalar { bits: GREATEST_FINITE_BITS }
    }

    /// `0.0`.
    #[verifier::when_used_as_spec(spec_zero)]
    pub fn zero() -> (s: Scalar)
        ensures
            s == Scalar::spec_zero(),
    {
        Scalar { bits: 0 }
    }

    /// `1.0`.
    #[verifier::when_used_as_spec(spec_one)]
    pub fn one() -> (s: Scalar)
        ensures
            s == Scalar::spec_one(),
    {
        Scalar { bits: ONE_BITS }
    }

    /// The largest finite number.
    #[verifier::when_used_as_spec(spec_greatest_finite)]
    pub fn greatest_finite() -> (s: Scalar)
        ensures
            s == Scalar::spec_greatest_finite(),
    {
        Scalar { bits: GREATEST_FINITE_BITS }
    }

    fn magnitude_bits(&self) -> (m: u64)
        ensures
            m == self.magnitude(),
    {
        if self.bits >= SIGN_BIT {
            self.bits - SIGN_BIT
        } else {
            self.bits
        }
    }

    /// Whether the sign bit is set.
    pub fn is_sign_negative(&self) -> (r: bool)
        ensures
            r == self.sign(),
    {
        self.bits >= SIGN_BIT
    }

    /// Whether the bits encode no number.
    pub fn is_nan(&self) -> (r: bool)
        ensures
            r == self.nan(),
    {
        self.magnitude_bits() > INFINITY_BITS
    }

    /// `self < other` as numbers.
    pub fn lt(&self, other: &Scalar) -> (r: bool)
        ensures
            r == self.below(*other),
    {
        if self.is_nan() || other.is_nan() {
            return false;
        }
        let a: u64 = self.magnitude_bits();
        let b: u64 = other.magnitude_bits();
        if self.is_sign_negative() {
            if other.is_sign_negative() {
                b < a
            } else {
                a != 0 || b != 0
            }
        } else {
            if other.is_sign_negative() {
                false
            } else {
                a < b
            }
        }
    }

    /// `self > other` as numbers.
    pub fn gt(&self, other: &Scalar) -> (r: bool)
        ensures
            r == other.below(*self),
    {
        other.lt(self)
    }

    /// `self <= other` as numbers.
    pub fn le(&self, other: &Scalar) -> (r: bool)
        ensures
            r == self.at_most(*other),
    {
        if self.is_nan() || other.is_nan() {
            return false;
        }
        !other.lt(self)
    }

    /// `self >= other` as numbers.
    pub fn ge(&self, other: &Scalar) -> (r: bool)
        ensures
            r == other.at_most(*self),
    {
        other.le(self)
    }

    /// `self > 0` as numbers.
    pub fn is_positive(&self) -> (r: bool)
        ensures
            r == self.positive(),
    {
        Scalar::zero().lt(self)
    }

    /// `-self`: the same magnitude with the sign bit flipped.
    pub fn neg(&self) -> (r: Scalar)
        ensures
            r == self.negated(),
    {
        if self.bits >= SIGN_BIT {
            Scalar { bits: self.bits - SIGN_BIT }
        } else {
            Scalar { bits: self.bits + SIGN_BIT }
        }
    }

    /// The byte that a colour channel becomes: the integer part of the number,
    /// held to `0..=255`, and 0 for NaN.
    pub fn to_byte(&self) -> (b: u8)
        ensures
            b == self.byte(),
    {
        if self.is_nan() || self.is_sign_negative() {
            return 0;
        }
        let m: u64 = self.magnitude_bits();
        let e: u64 = m / HIDDEN_BIT;
        let f: u64 = m % HIDDEN_BIT;
        if e < EXPONENT_BIAS {
            0
        } else if e >= EXPONENT_BIAS + 8 {
            255
        } else {
            let shift: u64 = EXPONENT_BIAS + 52 - e;
            let whole: u64 = (HIDDEN_BIT + f) >> shift;
            proof {
                lemma_u64_shr_is_div((HIDDEN_BIT + f) as u64, shift);
                lemma2_to64();
                lemma2_to64_rest();
                lemma_quotient_below_256((HIDDEN_BIT + f) as int, shift as nat);
            }
            whole as u8
        }
    }
}

/// A number below `2^53` divided by `2^45` or more leaves less than 256.
proof fn lemma_quotient_below_256(x: int, shift: nat)
    requires
        0 <= x < 2 * HIDDEN_BIT,
        45 <= shift <= 52,
    ensures
        0 <= x / (pow2(shift) as int) < 256,
{
    lemma2_to64();
    lemma2_to64_rest();
    let d: int = pow2(shift) as int;
    assert(d >= 0x2000_0000_0000) by {
        if shift == 45 {
        } else if shift == 46 {
        } else if shift == 47 {
        } else if shift == 48 {
        } else if shift == 49 {
        } else if shift == 50 {
        } else if shift == 51 {
        } else {
        }
    }
    assert(0 <= x / d < 256) by (nonlinear_arith)
        requires
            0 <= x < 0x20_0000_0000_0000,
            d >= 0x2000_0000_0000,
    ;
}

/// A byte is a byte: the integer part held to `0..=255`.
pub proof fn lemma_byte_bounds(s: Scalar)
    ensures
        0 <= s.byte() <= 255,
{
    if !s.nan() && !s.sign() && EXPONENT_BIAS <= s.exponent_field() < EXPONENT_BIAS + 8 {
        lemma_quotient_below_256(
            HIDDEN_BIT + s.fraction_field(),
            (EXPONENT_BIAS + 52 - s.exponent_field()) as nat,
        );
    }
}

/// Cutting down to a byte keeps the order: a number that is not larger does not
/// become a larger byte.
pub proof fn lemma_byte_monotone(a: Scalar, b: Scalar)
    requires
        a.at_most(b),
    ensures
        a.byte() <= b.byte(),
{
    lemma_byte_bounds(a);
    lemma_byte_bounds(b);
    let h: int = HIDDEN_BIT as int;
    let ea: int = a.exponent_field();
    let eb: int = b.exponent_field();
    if a.sign() {
    } else if b.sign() {
        assert(a.magnitude() == 0);
    } else if ea < EXPONENT_BIAS {
    } else {
        lemma_div_is_ordered(a.magnitude(), b.magnitude(), h);
        lemma_fundamental_div_mod(a.magnitude(), h);
        lemma_fundamental_div_mod(b.magnitude(), h);
        if eb < EXPONENT_BIAS + 8 {
            let sa: nat = (EXPONENT_BIAS + 52 - ea) as nat;
            let sb: nat = (EXPONENT_BIAS + 52 - eb) as nat;
            let da: int = pow2(sa) as int;
            let db: int = pow2(sb) as int;
            let xa: int = h + a.fraction_field();
            let xb: int = h + b.fraction_field();
            lemma_pow2_pos(sa);
            lemma_pow2_pos(sb);
            if ea == eb {
                assert(h * ea == h * eb);
                lemma_div_is_ordered(xa, xb, db);
            } else {
                let gap: nat = (sa - sb) as nat;
                lemma_pow2_adds(sb, gap);
                lemma_pow2_strictly_increases(0, gap);
                lemma2_to64();
                assert(da >= 2 * db) by (nonlinear_arith)
                    requires
                        da == db * (pow2(gap) as int),
                        pow2(gap) >= 2,
                        db > 0,
                ;
                lemma_div_is_ordered_by_denominator(xa, 2 * db, da);
                lemma_div_denominator(xa, 2, db);
                lemma_div_is_ordered(xa / 2, h, db);
                lemma_div_is_ordered(h, xb, db);
            }
        }
    }
}

/// Negating twice gives the number back, and negating turns the order around.
pub proof fn lemma_negation(a: Scalar, b: Scalar)
    ensures
        a.negated().negated() == a,
        a.negated().nan() == a.nan(),
        !a.nan() ==> a.negated().rank() == -a.rank(),
        a.below(b) <==> b.negated().below(a.negated()),
{
}

/// The order of the numbers: nothing is below itself, the order is transitive,
/// and of two numbers that differ one is below the other.
pub proof fn lemma_order(a: Scalar, b: Scalar, c: Scalar)
    ensures
        !a.below(a),
        a.below(b) && b.below(c) ==> a.below(c),
        a.below(b) && b.at_most(c) ==> a.below(c),
        a.at_most(b) && b.below(c) ==> a.below(c),
        a.below(b) ==> !b.below(a) && a.at_most(b),
        !a.nan() && !b.nan() ==> a.below(b) || b.at_most(a),
        a.at_most(b) && b.at_most(a) ==> a.rank() == b.rank(),
{
}

} // verus!
