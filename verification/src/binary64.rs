//! IEEE 754 binary64 numbers, held as their bit patterns and compared as numbers.
//!
//! Scores, weights and temperatures are binary64 numbers. The selection rules only ever compare
//! them; the arithmetic that produces them belongs to the caller.

use vstd::arithmetic::power2::*;
use vstd::prelude::*;

verus! {

/// The weight of the sign bit.
pub const SIGN_WEIGHT: u64 = 0x8000_0000_0000_0000;

/// The magnitude of an infinity; every larger magnitude is a NaN.
pub const INFINITE_MAGNITUDE: u64 = 0x7ff0_0000_0000_0000;

/// The number of fraction patterns, two to the power of 52.
pub const FRACTION_PATTERNS: u64 = 0x0010_0000_0000_0000;

/// A binary64 number as its 64-bit pattern.
///
/// `==` compares patterns. [`Binary64::same_number`] and [`Binary64::less_than`] compare numbers:
/// there the two zeros are equal, and a NaN is neither equal to nor below anything.
#[derive(Clone, Copy, Debug, PartialEq, Eq, Structural)]
pub struct Binary64 {
    pub bits: u64,
}

/// The pattern of one.
pub const ONE_BITS: u64 = 0x3ff0_0000_0000_0000;

/// The pattern of positive infinity.
pub const INFINITY_BITS: u64 = 0x7ff0_0000_0000_0000;

/// The pattern of negative infinity.
pub const NEG_INFINITY_BITS: u64 = 0xfff0_0000_0000_0000;

impl Binary64 {
    /// Whether the sign bit is set.
    pub open spec fn is_negative(self) -> bool {
        self.bits >= SIGN_WEIGHT
    }

    /// The pattern without its sign bit.
    pub open spec fn magnitude(self) -> int {
        if self.is_negative() {
            self.bits - SIGN_WEIGHT
        } else {
            self.bits as int
        }
    }

    /// Whether the pattern is one of the NaNs.
    pub open spec fn nan(self) -> bool {
        self.magnitude() > INFINITE_MAGNITUDE
    }

    /// The place of the number among all binary64 numbers; both zeros have place zero.
    pub open spec fn rank(self) -> int {
        if self.is_negative() {
            -self.magnitude()
        } else {
            self.magnitude()
        }
    }

    /// Numeric `self == 0`.
    pub open spec fn zero(self) -> bool {
        self.magnitude() == 0
    }

    /// Numeric `self == other`.
    pub open spec fn num_eq(self, other: Binary64) -> bool {
        !self.nan() && !other.nan() && self.rank() == other.rank()
    }

    /// Numeric `self < other`.
    pub open spec fn num_lt(self, other: Binary64) -> bool {
        !self.nan() && !other.nan() && self.rank() < other.rank()
    }

    /// Numeric `self <= other`.
    pub open spec fn num_le(self, other: Binary64) -> bool {
        !self.nan() && !other.nan() && self.rank() <= other.rank()
    }

    /// The number itself, in units of the smallest positive binary64 number.
    ///
    /// With biased exponent `e` and fraction `f`, that is `f` for `e == 0` and
    /// `(2^52 + f) * 2^(e - 1)` above; the formula also gives each infinity a value beyond every
    /// finite one.
    pub open spec fn value(self) -> int {
        if self.is_negative() {
            -magnitude_value(self.magnitude())
        } else {
            magnitude_value(self.magnitude())
        }
    }

    pub fn from_bits(bits: u64) -> (number: Binary64)
        ensures
            number.bits == bits,
    {
        Binary64 { bits }
    }

    pub fn to_bits(self) -> (bits: u64)
        ensures
            bits == self.bits,
    {
        self.bits
    }

    fn magnitude_bits(self) -> (magnitude: u64)
        ensures
            magnitude == self.magnitude(),
    {
        if self.bits >= SIGN_WEIGHT {
            self.bits - SIGN_WEIGHT
        } else {
            self.bits
        }
    }

    pub fn is_nan(self) -> (nan: bool)
        ensures
            nan == self.nan(),
    {
        self.magnitude_bits() > INFINITE_MAGNITUDE
    }

    /// Numeric `self < other`.
    pub fn less_than(self, other: Binary64) -> (less: bool)
        ensures
            less == self.num_lt(other),
    {
        if self.is_nan() || other.is_nan() {
            return false;
        }
        let left: u64 = self.magnitude_bits();
        let right: u64 = other.magnitude_bits();
        if self.bits < SIGN_WEIGHT {
            other.bits < SIGN_WEIGHT && left < right
        } else if other.bits < SIGN_WEIGHT {
            left != 0 || right != 0
        } else {
            right < left
        }
    }

    /// Numeric `self == other`.
    pub fn same_number(self, other: Binary64) -> (same: bool)
        ensures
            same == self.num_eq(other),
    {
        if self.is_nan() || other.is_nan() {
            return false;
        }
        self.bits == other.bits || (self.magnitude_bits() == 0 && other.magnitude_bits() == 0)
    }

    /// Numeric `self <= other`.
    pub fn at_most(self, other: Binary64) -> (at_most: bool)
        ensures
            at_most == self.num_le(other),
    {
        self.less_than(other) || self.same_number(other)
    }

    /// Numeric `self == 0`.
    pub fn is_zero(self) -> (zero: bool)
        ensures
            zero == self.zero(),
    {
        self.magnitude_bits() == 0
    }
}

/// The value that a magnitude stands for, in units of the smallest positive number.
pub open spec fn magnitude_value(magnitude: int) -> int {
    let exponent = magnitude / FRACTION_PATTERNS as int;
    let fraction = magnitude % FRACTION_PATTERNS as int;
    if exponent <= 0 {
        fraction
    } else {
        (FRACTION_PATTERNS + fraction) * pow2((exponent - 1) as nat)
    }
}

proof fn lemma_magnitude_value_step(magnitude: int)
    requires
        0 <= magnitude,
    ensures
        magnitude_value(magnitude) < magnitude_value(magnitude + 1),
{
    let patterns = FRACTION_PATTERNS as int;
    let exponent = magnitude / patterns;
    let fraction = magnitude % patterns;
    if exponent > 0 {
        lemma_pow2_pos((exponent - 1) as nat);
    }
    if fraction + 1 < patterns {
        assert((magnitude + 1) / patterns == exponent && (magnitude + 1) % patterns == fraction + 1)
            by (nonlinear_arith)
            requires
                exponent == magnitude / patterns,
                fraction == magnitude % patterns,
                fraction + 1 < patterns,
                0 <= magnitude,
                patterns == 0x0010_0000_0000_0000,
        ;
        if exponent > 0 {
            let scale = pow2((exponent - 1) as nat) as int;
            assert((patterns + fraction) * scale < (patterns + fraction + 1) * scale)
                by (nonlinear_arith)
                requires
                    scale > 0,
            ;
        }
    } else {
        assert((magnitude + 1) / patterns == exponent + 1 && (magnitude + 1) % patterns == 0)
            by (nonlinear_arith)
            requires
                exponent == magnitude / patterns,
                fraction == magnitude % patterns,
                fraction + 1 == patterns,
                0 <= magnitude,
                patterns == 0x0010_0000_0000_0000,
        ;
        lemma_pow2_pos(exponent as nat);
        let scale = pow2(exponent as nat) as int;
        if exponent > 0 {
            lemma_pow2_unfold(exponent as nat);
            let half = pow2((exponent - 1) as nat) as int;
            assert((patterns + fraction) * half < patterns * scale) by (nonlinear_arith)
                requires
                    scale == 2 * half,
                    half > 0,
                    fraction + 1 == patterns,
            ;
        } else {
            assert(patterns * scale >= patterns) by (nonlinear_arith)
                requires
                    scale >= 1,
                    patterns > 0,
            ;
        }
    }
}

proof fn lemma_magnitude_value_increases(low: int, high: int)
    requires
        0 <= low < high,
    ensures
        magnitude_value(low) < magnitude_value(high),
    decreases high - low,
{
    lemma_magnitude_value_step(high - 1);
    if low < high - 1 {
        lemma_magnitude_value_increases(low, high - 1);
    }
}

/// Comparing ranks is comparing numbers: of two patterns that are not NaNs, the one of the smaller
/// rank stands for the smaller number, and patterns of one rank stand for one number.
pub proof fn law_rank_orders_numbers(a: Binary64, b: Binary64)
    requires
        !a.nan(),
        !b.nan(),
    ensures
        a.num_lt(b) <==> a.value() < b.value(),
        a.num_eq(b) <==> a.value() == b.value(),
        a.num_le(b) <==> a.value() <= b.value(),
{
    let m = a.magnitude();
    let n = b.magnitude();
    if m < n {
        lemma_magnitude_value_increases(m, n);
    }
    if n < m {
        lemma_magnitude_value_increases(n, m);
    }
    if m > 0 {
        lemma_magnitude_value_increases(0, m);
    }
    if n > 0 {
        lemma_magnitude_value_increases(0, n);
    }
    assert(magnitude_value(0) == 0);
}

/// Which patterns are which numbers, and how they compare. Among patterns without the sign bit the
/// larger pattern is the larger number, among those with it the smaller number; a number with the sign
/// bit is below every number without it, except that the two zeros are equal.
pub proof fn law_patterns_compare_as_numbers(a: Binary64, b: Binary64)
    ensures
        a.nan() <==> 0x7ff0_0000_0000_0000 < a.bits < 0x8000_0000_0000_0000 || a.bits
            > 0xfff0_0000_0000_0000,
        a.zero() <==> a.bits == 0 || a.bits == 0x8000_0000_0000_0000,
        !a.nan() && !b.nan() && a.bits < 0x8000_0000_0000_0000 && b.bits < 0x8000_0000_0000_0000 ==> {
            &&& a.num_lt(b) <==> a.bits < b.bits
            &&& a.num_eq(b) <==> a.bits == b.bits
            &&& a.num_le(b) <==> a.bits <= b.bits
        },
        !a.nan() && !b.nan() && a.bits >= 0x8000_0000_0000_0000 && b.bits >= 0x8000_0000_0000_0000 ==> {
            &&& a.num_lt(b) <==> a.bits > b.bits
            &&& a.num_eq(b) <==> a.bits == b.bits
            &&& a.num_le(b) <==> a.bits >= b.bits
        },
        !a.nan() && !b.nan() && a.bits >= 0x8000_0000_0000_0000 && b.bits < 0x8000_0000_0000_0000 ==> {
            let zeros = a.bits == 0x8000_0000_0000_0000 && b.bits == 0;
            &&& a.num_lt(b) <==> !zeros
            &&& a.num_eq(b) <==> zeros
            &&& a.num_le(b)
            &&& !b.num_lt(a)
            &&& b.num_eq(a) <==> zeros
            &&& b.num_le(a) <==> zeros
        },
        a.nan() || b.nan() ==> !a.num_lt(b) && !a.num_eq(b) && !a.num_le(b),
        ONE_BITS == 0x3ff0_0000_0000_0000,
        INFINITY_BITS == 0x7ff0_0000_0000_0000,
        NEG_INFINITY_BITS == 0xfff0_0000_0000_0000,
{
}

/// Of two numbers that are not NaNs exactly one of below, equal and above holds, and a NaN is
/// neither equal to nor below anything, itself included.
pub proof fn law_comparisons_are_exclusive(a: Binary64, b: Binary64)
    ensures
        !a.nan() && !b.nan() ==> (a.num_lt(b) || a.num_eq(b) || b.num_lt(a)),
        !(a.num_lt(b) && a.num_eq(b)),
        !(a.num_lt(b) && b.num_lt(a)),
        a.num_le(b) <==> a.num_lt(b) || a.num_eq(b),
        a.nan() ==> !a.num_lt(b) && !b.num_lt(a) && !a.num_eq(b) && !b.num_eq(a),
{
}

} // verus!
