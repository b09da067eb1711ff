//! Double-precision measurements, held by their bit patterns.

use vstd::prelude::*;

verus! {

/// Weight of the sign bit of a 64-bit pattern.
pub const SIGN_WEIGHT: u64 = 0x8000_0000_0000_0000;

/// Pattern of positive infinity; a larger magnitude is not a number.
pub const INFINITE_MAGNITUDE: u64 = 0x7FF0_0000_0000_0000;

/// A double-precision measurement (a cost, a ratio, a mean sample difference).
///
/// The rules of this crate only ever compare measurements, so a measurement is
/// carried as its IEEE 754 bit pattern and compared as the standard orders such
/// values: both zeros are equal, and a value that is not a number is neither
/// above, below nor equal to anything.
#[derive(Debug, Clone, Copy, PartialEq, Eq, Structural)]
pub struct Measure {
    /// IEEE 754 binary64 pattern.
    pub bits: u64,
}

impl Measure {
    /// The pattern without its sign.
    pub open spec fn magnitude(self) -> int {
        if self.bits < SIGN_WEIGHT {
            self.bits as int
        } else {
            self.bits - SIGN_WEIGHT
        }
    }

    /// Whether the pattern stands for no number.
    pub open spec fn is_nan(self) -> bool {
        self.magnitude() > INFINITE_MAGNITUDE
    }

    /// Position of a number among all numbers: magnitudes of equal sign are
    /// ordered as their patterns, and both zeros stand at 0.
    pub open spec fn rank(self) -> int {
        if self.bits < SIGN_WEIGHT {
            self.magnitude()
        } else {
            -self.magnitude()
        }
    }

    /// `self <= other`.
    pub open spec fn le(self, other: Measure) -> bool {
        !self.is_nan() && !other.is_nan() && self.rank() <= other.rank()
    }

    /// `self < other`.
    pub open spec fn lt(self, other: Measure) -> bool {
        !self.is_nan() && !other.is_nan() && self.rank() < other.rank()
    }

    /// `self == other`.
    pub open spec fn same(self, other: Measure) -> bool {
        !self.is_nan() && !other.is_nan() && self.rank() == other.rank()
    }

    /// Whether `self <= other`.
    pub fn at_most(&self, other: Measure) -> (holds: bool)
        ensures
            holds == self.le(other),
    {
        let (low_negative, low) = self.split();
        let (high_negative, high) = other.split();
        if low > INFINITE_MAGNITUDE || high > INFINITE_MAGNITUDE {
            return false;
        }
        if low_negative {
            if high_negative {
                low >= high
            } else {
                true
            }
        } else if high_negative {
            low == 0 && high == 0
        } else {
            low <= high
        }
    }

    /// Whether `self >= other`.
    pub fn at_least(&self, other: Measure) -> (holds: bool)
        ensures
            holds == other.le(*self),
    {
        other.at_most(*self)
    }

    /// Whether `self < other`.
    pub fn below(&self, other: Measure) -> (holds: bool)
        ensures
            holds == self.lt(other),
    {
        self.at_most(other) && !other.at_most(*self)
    }

    /// Whether `self > other`.
    pub fn above(&self, other: Measure) -> (holds: bool)
        ensures
            holds == other.lt(*self),
    {
        other.below(*self)
    }

    /// Whether `self == other`.
    pub fn equals(&self, other: Measure) -> (holds: bool)
        ensures
            holds == self.same(other),
    {
        self.at_most(other) && other.at_most(*self)
    }

    /// The smaller of two measurements. One that is no number gives way to the other.
    pub fn lower_of(&self, other: Measure) -> (low: Measure)
        ensures
            low == if other.is_nan() {
                *self
            } else if self.is_nan() || other.lt(*self) {
                other
            } else {
                *self
            },
    {
        let (_, other_magnitude) = other.split();
        let (_, magnitude) = self.split();
        if other_magnitude > INFINITE_MAGNITUDE {
            *self
        } else if magnitude > INFINITE_MAGNITUDE || other.below(*self) {
            other
        } else {
            *self
        }
    }

    /// The larger of two measurements. One that is no number gives way to the other.
    pub fn higher_of(&self, other: Measure) -> (high: Measure)
        ensures
            high == if other.is_nan() {
                *self
            } else if self.is_nan() || self.lt(other) {
                other
            } else {
                *self
            },
    {
        let (_, other_magnitude) = other.split();
        let (_, magnitude) = self.split();
        if other_magnitude > INFINITE_MAGNITUDE {
            *self
        } else if magnitude > INFINITE_MAGNITUDE || self.below(other) {
            other
        } else {
            *self
        }
    }

    /// Position of a number among all numbers.
    pub fn position(&self) -> (position: i64)
        requires
            !self.is_nan(),
        ensures
            position == self.rank(),
    {
        let (negative, magnitude) = self.split();
        if negative {
            -(magnitude as i64)
        } else {
            magnitude as i64
        }
    }

    /// The sign and the magnitude of the pattern.
    fn split(&self) -> (parts: (bool, u64))
        ensures
            parts.0 == (self.bits >= SIGN_WEIGHT),
            parts.1 == self.magnitude(),
    {
        if self.bits < SIGN_WEIGHT {
            (false, self.bits)
        } else {
            (true, self.bits - SIGN_WEIGHT)
        }
    }
}

/// The measurement with the given pattern.
pub open spec fn pattern_of(bits: u64) -> Measure {
    Measure { bits }
}

/// The measurement with the given pattern.
#[verifier::when_used_as_spec(pattern_of)]
pub fn double(bits: u64) -> (measure: Measure)
    ensures
        measure == pattern_of(bits),
{
    Measure { bits }
}

/// 0.0
pub const ZERO: u64 = 0;

/// Two numbers are always comparable, and the comparison is a total preorder.
pub proof fn numbers_are_totally_ordered(a: Measure, b: Measure, c: Measure)
    requires
        !a.is_nan(),
        !b.is_nan(),
        !c.is_nan(),
    ensures
        a.le(a),
        a.le(b) || b.le(a),
        a.lt(b) == !b.le(a),
        a.le(b) && b.le(c) ==> a.le(c),
{
}

/// Comparisons go by the values that the patterns stand for. Patterns of one sign are
/// ordered by their bits, upwards without the sign bit and downwards with it; what has the
/// sign bit is at most what has it not; both zeros are equal; and a pattern beyond infinity
/// is in no order with any other.
pub proof fn patterns_are_ordered_as_doubles(a: Measure, b: Measure)
    ensures
        a.bits < 0x8000_0000_0000_0000 && b.bits < 0x8000_0000_0000_0000 && a.bits
            <= 0x7FF0_0000_0000_0000 && b.bits <= 0x7FF0_0000_0000_0000 ==> {
            &&& a.le(b) == (a.bits <= b.bits)
            &&& a.lt(b) == (a.bits < b.bits)
            &&& a.same(b) == (a.bits == b.bits)
        },
        0x8000_0000_0000_0000 <= a.bits <= 0xFFF0_0000_0000_0000 && 0x8000_0000_0000_0000 <= b.bits
            <= 0xFFF0_0000_0000_0000 ==> {
            &&& a.le(b) == (b.bits <= a.bits)
            &&& a.lt(b) == (b.bits < a.bits)
            &&& a.same(b) == (a.bits == b.bits)
        },
        0x8000_0000_0000_0000 <= a.bits <= 0xFFF0_0000_0000_0000 && b.bits <= 0x7FF0_0000_0000_0000
            ==> {
            &&& a.le(b)
            &&& a.lt(b) == !(a.bits == 0x8000_0000_0000_0000 && b.bits == 0)
            &&& b.le(a) == (a.bits == 0x8000_0000_0000_0000 && b.bits == 0)
            &&& !b.lt(a)
            &&& a.same(b) == (a.bits == 0x8000_0000_0000_0000 && b.bits == 0)
            &&& b.same(a) == (a.bits == 0x8000_0000_0000_0000 && b.bits == 0)
        },
        (0x7FF0_0000_0000_0000 < a.bits < 0x8000_0000_0000_0000 || 0xFFF0_0000_0000_0000 < a.bits)
            ==> {
            &&& !a.le(b) && !a.lt(b) && !a.same(b)
            &&& !b.le(a) && !b.lt(a) && !b.same(a)
            &&& a.is_nan()
        },
        a.bits <= 0x7FF0_0000_0000_0000 || 0x8000_0000_0000_0000 <= a.bits <= 0xFFF0_0000_0000_0000
            ==> !a.is_nan(),
{
}

} // verus!
