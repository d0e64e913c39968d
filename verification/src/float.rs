//! Binary floating-point quantities (rates, factors, averages) held by their bit pattern.
//!
//! The library decides by comparing such quantities and passes them on unchanged.
//! Arithmetic on them is left to the caller, who converts with `to_bits` and `from_bits`.

use vstd::arithmetic::power2::{
    lemma_pow2_adds, lemma_pow2_pos, lemma_pow2_strictly_increases, pow2,
};
use vstd::prelude::*;

verus! {

/// Weight of the sign bit.
pub const SIGN: u64 = 0x8000_0000_0000_0000;

/// Bit pattern of positive infinity; a larger magnitude is not a number.
pub const INFINITY: u64 = 0x7ff0_0000_0000_0000;

/// Weight of the lowest exponent bit.
pub const FRACTION: u64 = 0x10_0000_0000_0000;

/// The bit pattern of one tenth, rounded to nearest.
pub const ONE_TENTH: u64 = 0x3fb9_9999_9999_999a;

/// The bit pattern of one thousandth, rounded to nearest.
pub const ONE_THOUSANDTH: u64 = 0x3f50_624d_d2f1_a9fc;

/// The bit pattern of 500.
pub const FIVE_HUNDRED: u64 = 0x407f_4000_0000_0000;

/// The bit pattern of 1000.
pub const ONE_THOUSAND: u64 = 0x408f_4000_0000_0000;

/// The bit pattern of 10000.
pub const TEN_THOUSAND: u64 = 0x40c3_8800_0000_0000;

/// An IEEE 754 binary64 quantity.
#[derive(Clone, Copy, Debug, PartialEq, Eq, Structural)]
pub struct Float {
    /// Sign, exponent and fraction, as the standard lays them out.
    pub bits: u64,
}

/// The magnitude that the low 63 bits stand for, in units of the smallest
/// positive quantity, 2^-1074. An infinity counts as 2^1024.
pub open spec fn magnitude(low: int) -> int {
    let exponent = low / (FRACTION as int);
    let fraction = low % (FRACTION as int);
    if exponent == 0 {
        fraction
    } else {
        (FRACTION + fraction) * pow2((exponent - 1) as nat)
    }
}

/// The whole number `n` in units of 2^-1074.
pub open spec fn whole(n: int) -> int {
    n * pow2(1074)
}

impl Float {
    /// The bits without the sign.
    pub open spec fn low(self) -> int {
        if self.bits >= SIGN {
            self.bits - SIGN
        } else {
            self.bits as int
        }
    }

    /// Whether the pattern is not a number.
    pub open spec fn is_nan(self) -> bool {
        self.low() > INFINITY
    }

    /// The quantity in units of 2^-1074.
    pub open spec fn units(self) -> int {
        if self.bits >= SIGN {
            -magnitude(self.low())
        } else {
            magnitude(self.low())
        }
    }

    /// The order of the standard: nothing compares with what is not a number.
    pub open spec fn at_most(self, other: Float) -> bool {
        &&& !self.is_nan()
        &&& !other.is_nan()
        &&& self.units() <= other.units()
    }

    /// The strict order of the standard.
    pub open spec fn below(self, other: Float) -> bool {
        &&& !self.is_nan()
        &&& !other.is_nan()
        &&& self.units() < other.units()
    }
}

/// A larger pattern stands for a larger magnitude.
proof fn lemma_magnitude_step(a: int, b: int)
    requires
        0 <= a < b,
    ensures
        0 <= magnitude(a) < magnitude(b),
{
    let f = FRACTION as int;
    let (ea, ma) = (a / f, a % f);
    let (eb, mb) = (b / f, b % f);
    assert(a == ea * f + ma && b == eb * f + mb && 0 <= ma < f && 0 <= mb < f && ea >= 0);
    assert(ea <= eb);
    if ea > 0 {
        lemma_pow2_pos((ea - 1) as nat);
        assert((f + ma) * pow2((ea - 1) as nat) >= 0) by (nonlinear_arith)
            requires
                f + ma >= 0,
                pow2((ea - 1) as nat) > 0,
        ;
    }
    if ea == eb {
        assert(ma < mb);
        if ea > 0 {
            assert((f + ma) * pow2((ea - 1) as nat) < (f + mb) * pow2((ea - 1) as nat))
                by (nonlinear_arith)
                requires
                    ma < mb,
                    pow2((ea - 1) as nat) > 0,
            ;
        }
    } else {
        let p = pow2((eb - 1) as nat) as int;
        lemma_pow2_pos((eb - 1) as nat);
        if ea == 0 {
            assert((f + mb) * p >= f) by (nonlinear_arith)
                requires
                    p >= 1,
                    mb >= 0,
                    f > 0,
            ;
        } else {
            let q = pow2((ea - 1) as nat) as int;
            assert(2 * q <= p) by {
                lemma_pow2_adds(1, (ea - 1) as nat);
                vstd::arithmetic::power2::lemma2_to64();
                if ea < eb - 1 {
                    lemma_pow2_strictly_increases(ea as nat, (eb - 1) as nat);
                }
            }
            assert((f + ma) * q < (f + mb) * p) by (nonlinear_arith)
                requires
                    0 <= ma < f,
                    0 <= mb,
                    q > 0,
                    2 * q <= p,
            ;
        }
    }
}

/// The order of the quantities is the order of the patterns.
proof fn lemma_units_order(a: Float, b: Float)
    ensures
        a.bits < SIGN ==> a.units() >= 0,
        a.bits >= SIGN ==> a.units() <= 0,
        a.units() == 0 <==> a.low() == 0,
        a.low() < b.low() ==> magnitude(a.low()) < magnitude(b.low()),
        a.low() > b.low() ==> magnitude(a.low()) > magnitude(b.low()),
{
    assert(magnitude(0) == 0);
    if a.low() > 0 {
        lemma_magnitude_step(0, a.low());
    }
    if a.low() < b.low() {
        lemma_magnitude_step(a.low(), b.low());
    }
    if b.low() < a.low() {
        lemma_magnitude_step(b.low(), a.low());
    }
}

impl Float {
    /// The quantity with the given bit pattern.
    pub fn from_bits(bits: u64) -> (r: Float)
        ensures
            r.bits == bits,
    {
        Float { bits }
    }

    /// The bits without the sign.
    fn low_bits(self) -> (r: u64)
        ensures
            r == self.low(),
    {
        if self.bits >= SIGN {
            self.bits - SIGN
        } else {
            self.bits
        }
    }

    /// `self <= other`.
    pub fn le(self, other: Float) -> (r: bool)
        ensures
            r == self.at_most(other),
    {
        let a: u64 = self.low_bits();
        let b: u64 = other.low_bits();
        proof {
            lemma_units_order(self, other);
            lemma_units_order(other, self);
        }
        if a > INFINITY || b > INFINITY {
            false
        } else if self.bits >= SIGN {
            if other.bits >= SIGN {
                a >= b
            } else {
                true
            }
        } else if other.bits >= SIGN {
            a == 0 && b == 0
        } else {
            a <= b
        }
    }

    /// `self < other`.
    pub fn lt(self, other: Float) -> (r: bool)
        ensures
            r == self.below(other),
    {
        self.le(other) && !other.le(self)
    }

    /// The larger of the two; `other` where `self` is not a number.
    pub fn max(self, other: Float) -> (r: Float)
        ensures
            r == (if self.is_nan() || self.below(other) {
                other
            } else {
                self
            }),
    {
        if self.low_bits() > INFINITY || self.lt(other) {
            other
        } else {
            self
        }
    }

    /// `self`, or zero where it is below zero or not a number.
    pub open spec fn spec_or_zero(self) -> Float {
        if self.is_nan() || self.units() < 0 {
            Float { bits: 0 }
        } else {
            self
        }
    }

    /// `self`, or zero where it is below zero or not a number.
    pub fn or_zero(self) -> (r: Float)
        ensures
            r == self.spec_or_zero(),
            !r.is_nan(),
            r.units() >= 0,
    {
        let zero: Float = Float { bits: 0 };
        proof {
            assert(magnitude(0) == 0);
        }
        self.max(zero)
    }

    /// `self` held to the range from `low` to `high`; what is not a number stays so.
    pub fn clamp(self, low: Float, high: Float) -> (r: Float)
        requires
            low.at_most(high),
        ensures
            r == (if self.below(low) {
                low
            } else if high.below(self) {
                high
            } else {
                self
            }),
            !self.is_nan() ==> low.at_most(r) && r.at_most(high),
    {
        if self.lt(low) {
            low
        } else if high.lt(self) {
            high
        } else {
            self
        }
    }
}

/// Positive quantities are ordered as their patterns are.
pub proof fn lemma_positive_order(a: Float, b: Float)
    requires
        0 < a.bits <= b.bits <= INFINITY,
    ensures
        0 < a.units(),
        a.at_most(b),
{
    assert(INFINITY < SIGN);
    lemma_units_order(a, b);
}

/// A pattern that spells the whole number `n` has the value `n`.
pub proof fn lemma_whole(bits: u64, n: int, shift: nat)
    requires
        bits < INFINITY,
        bits / FRACTION >= 1,
        shift + bits / FRACTION == 1075,
        FRACTION + bits % FRACTION == n * pow2(shift),
    ensures
        (Float { bits }).units() == whole(n),
{
    let e = (bits / FRACTION) as int;
    lemma_pow2_adds(shift, (e - 1) as nat);
    assert((n * pow2(shift)) * pow2((e - 1) as nat) == n * (pow2(shift) * pow2((e - 1) as nat)))
        by (nonlinear_arith);
}

// ---------------------------------------------------------------------------
// The order in terms of the patterns
// ---------------------------------------------------------------------------

/// The order in terms of the patterns: up to the pattern of infinity it is the order of the
/// patterns; behind the sign bit it is turned round; whatever has the sign is at most what has
/// not; the two zeros are equal; and what is not a number compares with nothing.
pub proof fn law_order_of_patterns(a: Float, b: Float, le: bool, lt: bool, back: bool)
    requires
        call_ensures(Float::le, (a, b), le),
        call_ensures(Float::lt, (a, b), lt),
        call_ensures(Float::le, (b, a), back),
    ensures
        a.bits <= 0x7ff0_0000_0000_0000 && b.bits <= 0x7ff0_0000_0000_0000 ==> le == (a.bits
            <= b.bits),
        0x8000_0000_0000_0000 <= a.bits <= 0xfff0_0000_0000_0000 && 0x8000_0000_0000_0000 <= b.bits
            <= 0xfff0_0000_0000_0000 ==> le == (a.bits >= b.bits),
        0x8000_0000_0000_0000 <= a.bits <= 0xfff0_0000_0000_0000 && b.bits
            <= 0x7ff0_0000_0000_0000 ==> le,
        a.bits <= 0x7ff0_0000_0000_0000 && 0x8000_0000_0000_0000 <= b.bits
            <= 0xfff0_0000_0000_0000 ==> le == (a.bits == 0 && b.bits == 0x8000_0000_0000_0000),
        0x7ff0_0000_0000_0000 < a.bits < 0x8000_0000_0000_0000 || a.bits > 0xfff0_0000_0000_0000
            ==> !le,
        0x7ff0_0000_0000_0000 < b.bits < 0x8000_0000_0000_0000 || b.bits > 0xfff0_0000_0000_0000
            ==> !le,
        lt == (le && !back),
{
    lemma_units_order(a, b);
    lemma_units_order(b, a);
}

/// A quantity is above zero just where its pattern is neither zero nor beyond infinity.
pub proof fn law_positive(a: Float)
    ensures
        !a.is_nan() && a.units() > 0 <==> 0 < a.bits <= 0x7ff0_0000_0000_0000,
        (Float { bits: 0 }).below(a) <==> 0 < a.bits <= 0x7ff0_0000_0000_0000,
        a.spec_or_zero().units() > 0 <==> 0 < a.bits <= 0x7ff0_0000_0000_0000,
        !a.is_nan() && a.units() <= 0 <==> a.bits == 0 || 0x8000_0000_0000_0000 <= a.bits
            <= 0xfff0_0000_0000_0000,
{
    lemma_units_order(a, Float { bits: 0 });
    assert(magnitude(0) == 0);
}

/// Above a quantity without the sign are the larger patterns up to infinity.
pub proof fn law_below(a: Float, b: Float)
    requires
        a.bits <= 0x7ff0_0000_0000_0000,
    ensures
        a.below(b) <==> a.bits < b.bits <= 0x7ff0_0000_0000_0000,
        !b.is_nan() && b.units() > a.units() <==> a.bits < b.bits <= 0x7ff0_0000_0000_0000,
{
    lemma_units_order(a, b);
    lemma_units_order(b, a);
}

/// A quantity without the sign stays as it is; one below zero, or not a number, becomes zero.
pub proof fn law_or_zero(a: Float, r: Float)
    requires
        r == a.spec_or_zero(),
    ensures
        a.bits <= 0x7ff0_0000_0000_0000 ==> r.bits == a.bits,
        a.bits > 0x7ff0_0000_0000_0000 && a.bits != 0x8000_0000_0000_0000 ==> r.bits == 0,
        a.bits == 0x8000_0000_0000_0000 ==> r.bits == 0 || r.bits == 0x8000_0000_0000_0000,
{
    lemma_units_order(a, a);
}

/// What [`Float::or_zero`], [`Float::max`] and [`Float::from_bits`] give, in terms of the
/// patterns.
pub proof fn law_larger_pattern(a: Float, b: Float, bits: u64, r: Float)
    ensures
        call_ensures(Float::or_zero, (a,), r) ==> {
            &&& a.bits <= 0x7ff0_0000_0000_0000 ==> r.bits == a.bits
            &&& a.bits > 0x7ff0_0000_0000_0000 && a.bits != 0x8000_0000_0000_0000 ==> r.bits == 0
            &&& a.bits == 0x8000_0000_0000_0000 ==> r.bits == 0 || r.bits == 0x8000_0000_0000_0000
        },
        call_ensures(Float::max, (a, b), r) ==> {
            &&& r == a || r == b
            &&& a.bits <= 0x7ff0_0000_0000_0000 && b.bits <= 0x7ff0_0000_0000_0000 ==> r.bits
                >= a.bits && r.bits >= b.bits
            &&& a.bits > 0x8000_0000_0000_0000 && b.bits <= 0x7ff0_0000_0000_0000 ==> r == b
            &&& a.bits <= 0x7ff0_0000_0000_0000 && b.bits > 0x8000_0000_0000_0000 ==> r == a
            &&& 0x7ff0_0000_0000_0000 < a.bits < 0x8000_0000_0000_0000 ==> r == b
            &&& 0x8000_0000_0000_0000 <= a.bits <= 0xfff0_0000_0000_0000 && 0x8000_0000_0000_0000
                <= b.bits <= 0xfff0_0000_0000_0000 ==> r.bits <= a.bits && r.bits <= b.bits
        },
        call_ensures(Float::from_bits, (bits,), r) ==> r.bits == bits,
{
    lemma_units_order(a, b);
    lemma_units_order(b, a);
}

/// A quantity held to a range above zero is in it, and stays as it is where it was; below the
/// range it becomes the lower bound, above it the upper one; what is not a number stays so.
pub proof fn law_clamp(a: Float, low: Float, high: Float, r: Float)
    requires
        0 < low.bits <= high.bits <= 0x7ff0_0000_0000_0000,
        call_ensures(Float::clamp, (a, low, high), r),
    ensures
        low.bits <= a.bits <= high.bits ==> r == a,
        a.bits < low.bits || 0x8000_0000_0000_0000 <= a.bits <= 0xfff0_0000_0000_0000 ==> r == low,
        high.bits < a.bits <= 0x7ff0_0000_0000_0000 ==> r == high,
        0x7ff0_0000_0000_0000 < a.bits < 0x8000_0000_0000_0000 || a.bits > 0xfff0_0000_0000_0000
            ==> r == a,
{
    lemma_units_order(a, low);
    lemma_units_order(low, a);
    lemma_units_order(a, high);
    lemma_units_order(high, a);
}

/// Equal quantities above zero have the same pattern.
pub proof fn law_equal_quantities(a: Float, b: Float)
    requires
        !a.is_nan(),
        0 < b.bits <= 0x7ff0_0000_0000_0000,
        a.units() == b.units(),
    ensures
        a.bits == b.bits,
{
    lemma_units_order(a, b);
    lemma_units_order(b, a);
}

} // verus!
