//! Amounts of money, carried as the bit pattern of a double-precision number
//! and compared exactly as such numbers compare.
use vstd::prelude::*;

verus! {

/// An amount in US dollars: the 64 bits of an IEEE 754 double.
#[derive(Debug, Clone, Copy)]
pub struct Usd {
    pub bits: u64,
}

/// The bits below the sign bit.
pub open spec fn magnitude(bits: u64) -> int {
    if bits >= 0x8000_0000_0000_0000 {
        bits - 0x8000_0000_0000_0000
    } else {
        bits as int
    }
}

/// Whether the bits stand for no number at all.
pub open spec fn not_a_number(bits: u64) -> bool {
    magnitude(bits) > 0x7ff0_0000_0000_0000
}

/// An integer that orders the numbers as their values order them; both zeros
/// share the integer zero.
pub open spec fn rank(bits: u64) -> int {
    if bits >= 0x8000_0000_0000_0000 {
        -magnitude(bits)
    } else {
        magnitude(bits)
    }
}

/// An integer that orders all bit patterns, the two zeros and those that are no
/// number among them.
pub open spec fn total_rank(bits: u64) -> int {
    if bits >= 0x8000_0000_0000_0000 {
        -magnitude(bits) - 1
    } else {
        magnitude(bits)
    }
}

impl Usd {
    /// Whether the amount is a number.
    pub open spec fn numeric(self) -> bool {
        !not_a_number(self.bits)
    }

    /// `self < other` of the two values; never so when either is no number.
    pub open spec fn less(self, other: Usd) -> bool {
        self.numeric() && other.numeric() && rank(self.bits) < rank(other.bits)
    }

    /// `self <= other` of the two values; never so when either is no number.
    pub open spec fn within(self, other: Usd) -> bool {
        self.numeric() && other.numeric() && rank(self.bits) <= rank(other.bits)
    }

    /// `self < 0`.
    pub open spec fn negative(self) -> bool {
        self.numeric() && rank(self.bits) < 0
    }

    /// `self > 0`.
    pub open spec fn positive(self) -> bool {
        self.numeric() && rank(self.bits) > 0
    }

    /// The amount zero.
    pub fn zero() -> (r: Usd)
        ensures
            r.bits == 0,
    {
        Usd { bits: 0 }
    }

    fn magnitude_bits(&self) -> (r: u64)
        ensures
            r == magnitude(self.bits),
    {
        if self.bits >= 0x8000_0000_0000_0000 {
            self.bits - 0x8000_0000_0000_0000
        } else {
            self.bits
        }
    }

    fn rank_of(&self) -> (r: i128)
        ensures
            r == rank(self.bits),
    {
        let m: u64 = self.magnitude_bits();
        if self.bits >= 0x8000_0000_0000_0000 {
            -(m as i128)
        } else {
            m as i128
        }
    }

    /// Whether the amount is a number.
    pub fn is_numeric(&self) -> (r: bool)
        ensures
            r == self.numeric(),
    {
        self.magnitude_bits() <= 0x7ff0_0000_0000_0000
    }

    /// Whether the amount is below the other.
    pub fn is_less(&self, other: &Usd) -> (r: bool)
        ensures
            r == self.less(*other),
    {
        self.is_numeric() && other.is_numeric() && self.rank_of() < other.rank_of()
    }

    /// Whether the amount is at most the other.
    pub fn is_within(&self, other: &Usd) -> (r: bool)
        ensures
            r == self.within(*other),
    {
        self.is_numeric() && other.is_numeric() && self.rank_of() <= other.rank_of()
    }

    /// Whether the amount stands before the other among all bit patterns.
    pub fn is_before(&self, other: &Usd) -> (r: bool)
        ensures
            r == (total_rank(self.bits) < total_rank(other.bits)),
    {
        let a: u64 = self.magnitude_bits();
        let b: u64 = other.magnitude_bits();
        if self.bits >= 0x8000_0000_0000_0000 {
            other.bits < 0x8000_0000_0000_0000 || b < a
        } else {
            other.bits < 0x8000_0000_0000_0000 && a < b
        }
    }

    /// Whether the amount is below zero.
    pub fn is_negative(&self) -> (r: bool)
        ensures
            r == self.negative(),
    {
        self.is_numeric() && self.rank_of() < 0
    }

    /// Whether the amount is above zero.
    pub fn is_positive(&self) -> (r: bool)
        ensures
            r == self.positive(),
    {
        self.is_numeric() && self.rank_of() > 0
    }

    /// The amount without its sign.
    pub fn abs(&self) -> (r: Usd)
        ensures
            r.bits == magnitude(self.bits),
    {
        Usd { bits: self.magnitude_bits() }
    }
}

/// Amounts compare as the numbers do that their bits stand for: from zero up to infinity
/// with growing bits, below zero the other way round, everything below zero before
/// everything above it, and the two zeros alike. What is no number compares to nothing.
pub proof fn law_amounts_compare_as_numbers(a: Usd, b: Usd)
    ensures
        a.bits < b.bits <= 0x7ff0_0000_0000_0000 ==> a.less(b) && a.within(b) && !b.less(a)
            && !b.within(a),
        0x8000_0000_0000_0000 <= a.bits < b.bits <= 0xfff0_0000_0000_0000 ==> b.less(a) && b.within(
            a,
        ) && !a.less(b) && !a.within(b),
        0x8000_0000_0000_0000 < a.bits <= 0xfff0_0000_0000_0000 && b.bits <= 0x7ff0_0000_0000_0000
            ==> a.less(b) && a.within(b) && !b.less(a) && !b.within(a),
        a.bits == 0 && b.bits == 0x8000_0000_0000_0000 ==> a.within(b) && b.within(a) && !a.less(b)
            && !b.less(a),
        a.bits == b.bits && a.numeric() ==> a.within(b) && !a.less(b),
        a.numeric() <==> a.bits <= 0x7ff0_0000_0000_0000 || 0x8000_0000_0000_0000 <= a.bits
            <= 0xfff0_0000_0000_0000,
        !a.numeric() || !b.numeric() ==> !a.less(b) && !a.within(b),
        a.positive() <==> 0 < a.bits <= 0x7ff0_0000_0000_0000,
        a.negative() <==> 0x8000_0000_0000_0000 < a.bits <= 0xfff0_0000_0000_0000,
{
}

/// In the order of all amounts, which breaks every tie, a number that is less comes
/// first, the zero below zero comes before the other, and different bits never tie.
pub proof fn law_all_amounts_are_ordered(a: Usd, b: Usd)
    ensures
        a.less(b) ==> total_rank(a.bits) < total_rank(b.bits),
        a.bits == 0x8000_0000_0000_0000 && b.bits == 0 ==> total_rank(a.bits) < total_rank(b.bits),
        total_rank(a.bits) == total_rank(b.bits) <==> a.bits == b.bits,
{
}

} // verus!
