//! Single-precision numbers, by their bits.

use vstd::prelude::*;

verus! {

/// The bits of the number one.
pub const ONE_BITS: u32 = 0x3f80_0000;

/// A single-precision number as its 32 bits: a sign, an exponent and a fraction, from the highest
/// bit down.
#[derive(Debug, Clone, Copy, PartialEq, Eq, Structural)]
pub struct Single {
    pub bits: u32,
}

/// Whether the bits are those of no number.
pub open spec fn not_a_number(s: Single) -> bool {
    s.bits % 0x8000_0000 > 0x7f80_0000
}

/// Numbers are ordered as these integers: the bits without the sign, with the sign in front. Both
/// zeros give the same.
pub open spec fn order_key(s: Single) -> int {
    if s.bits >= 0x8000_0000 {
        0x8000_0000 - s.bits
    } else {
        s.bits as int
    }
}

/// Whether one number is at least another. No number is so compared to what is none.
pub open spec fn reaches(a: Single, b: Single) -> bool {
    !not_a_number(a) && !not_a_number(b) && order_key(a) >= order_key(b)
}

/// Whether a number is above zero and finite.
pub open spec fn positive_and_finite(s: Single) -> bool {
    0 < s.bits < 0x7f80_0000
}

/// The larger of two numbers; what is no number is passed over.
pub open spec fn larger(a: Single, b: Single) -> Single {
    if not_a_number(a) {
        b
    } else if not_a_number(b) || order_key(a) >= order_key(b) {
        a
    } else {
        b
    }
}

impl Single {
    /// The number one.
    pub fn one() -> (r: Self)
        ensures
            r.bits == ONE_BITS,
    {
        Self { bits: ONE_BITS }
    }

    /// Whether the bits are those of no number.
    pub fn is_nan(self) -> (r: bool)
        ensures
            r == not_a_number(self),
    {
        self.bits % 0x8000_0000 > 0x7f80_0000
    }

    fn key(self) -> (r: i64)
        ensures
            r == order_key(self),
    {
        if self.bits >= 0x8000_0000 {
            0x8000_0000 - self.bits as i64
        } else {
            self.bits as i64
        }
    }

    /// Whether this number is at least another.
    pub fn at_least(self, other: Self) -> (r: bool)
        ensures
            r == reaches(self, other),
    {
        !self.is_nan() && !other.is_nan() && self.key() >= other.key()
    }

    /// Whether this number is above zero and finite.
    pub fn is_positive_and_finite(self) -> (r: bool)
        ensures
            r == positive_and_finite(self),
    {
        0 < self.bits && self.bits < 0x7f80_0000
    }

    /// The larger of two numbers.
    pub fn max(self, other: Self) -> (r: Self)
        ensures
            r == larger(self, other),
    {
        if self.is_nan() {
            other
        } else if other.is_nan() || self.key() >= other.key() {
            self
        } else {
            other
        }
    }
}

/// Numbers that are not negative are ordered as their bits are; negative ones the other way round,
/// below all others. What is no number reaches nothing, and nothing reaches it.
pub proof fn numbers_are_ordered_by_their_bits(a: Single, b: Single)
    ensures
        a.bits <= 0x7f80_0000 && b.bits <= 0x7f80_0000 ==> (reaches(a, b) <==> a.bits >= b.bits),
        0x8000_0000 <= a.bits <= 0xff80_0000 && 0x8000_0000 <= b.bits <= 0xff80_0000 ==> (reaches(
            a,
            b,
        ) <==> a.bits <= b.bits),
        a.bits <= 0x7f80_0000 && 0x8000_0000 <= b.bits <= 0xff80_0000 ==> reaches(a, b),
        0x8000_0000 < a.bits <= 0xff80_0000 && b.bits <= 0x7f80_0000 ==> !reaches(a, b),
        0x7f80_0000 < a.bits < 0x8000_0000 || a.bits > 0xff80_0000 ==> !reaches(a, b) && !reaches(
            b,
            a,
        ),
{
}

/// The larger of two numbers is one of them and reaches both.
pub proof fn the_larger_reaches_both(a: Single, b: Single)
    ensures
        larger(a, b) == a || larger(a, b) == b,
        !not_a_number(a) && !not_a_number(b) ==> reaches(larger(a, b), a) && reaches(
            larger(a, b),
            b,
        ),
        not_a_number(a) ==> larger(a, b) == b,
        not_a_number(b) && !not_a_number(a) ==> larger(a, b) == a,
{
}

/// A number is above zero and finite exactly if it does not reach infinity, zero does not reach it,
/// and it is one.
pub proof fn usable_numbers_lie_between(s: Single)
    ensures
        positive_and_finite(s) <==> !not_a_number(s) && !reaches(Single { bits: 0 }, s) && !reaches(
            s,
            Single { bits: 0x7f80_0000 },
        ),
{
}

} // verus!
