//! IEEE 754 single-precision numbers, held by their bit patterns.
//!
//! The recorder stores gains, radii and normalised coordinates in single
//! precision. Its rules only compare and clamp them, and both are decided by
//! the bits: below the sign bit the patterns count the magnitudes upwards.

use vstd::prelude::*;

verus! {

/// A single-precision number. `bits` is what `f32::to_bits` gives.
#[derive(Debug, Clone, Copy, PartialEq, Eq, Structural)]
pub struct F32 {
    pub bits: u32,
}

impl F32 {
    /// The pattern below the sign bit: larger means farther from zero.
    pub open spec fn magnitude(self) -> int {
        if self.bits < 0x8000_0000 {
            self.bits as int
        } else {
            self.bits - 0x8000_0000
        }
    }

    /// Not a number.
    pub open spec fn nan(self) -> bool {
        self.magnitude() > 0x7f80_0000
    }

    /// Orders the numbers: `x <= y` as numbers just where the ranks are so.
    /// Both zeros have rank 0.
    pub open spec fn rank(self) -> int {
        if self.bits < 0x8000_0000 {
            self.magnitude()
        } else {
            -self.magnitude()
        }
    }

    /// The comparison `self < other` of single-precision numbers.
    pub open spec fn below(self, other: F32) -> bool {
        !self.nan() && !other.nan() && self.rank() < other.rank()
    }

    /// The comparison `self <= other` of single-precision numbers.
    pub open spec fn at_most(self, other: F32) -> bool {
        !self.nan() && !other.nan() && self.rank() <= other.rank()
    }

    /// `self` limited to the range from `lo` to `hi`; what is no number stays.
    pub open spec fn clamped(self, lo: F32, hi: F32) -> F32 {
        if self.below(lo) {
            lo
        } else if hi.below(self) {
            hi
        } else {
            self
        }
    }

    /// The larger of two numbers; what is no number gives way.
    pub open spec fn larger(self, other: F32) -> F32 {
        if self.nan() {
            other
        } else if other.nan() || other.rank() <= self.rank() {
            self
        } else {
            other
        }
    }

    fn exec_magnitude(self) -> (m: u32)
        ensures
            m == self.magnitude(),
    {
        if self.bits < 0x8000_0000 {
            self.bits
        } else {
            self.bits - 0x8000_0000
        }
    }

    /// Is this not a number?
    pub fn is_nan(self) -> (r: bool)
        ensures
            r == self.nan(),
    {
        self.exec_magnitude() > 0x7f80_0000
    }

    fn exec_rank(self) -> (k: i64)
        ensures
            k == self.rank(),
    {
        if self.bits < 0x8000_0000 {
            self.exec_magnitude() as i64
        } else {
            -(self.exec_magnitude() as i64)
        }
    }

    /// `self < other`.
    pub fn less(self, other: F32) -> (r: bool)
        ensures
            r == self.below(other),
    {
        !self.is_nan() && !other.is_nan() && self.exec_rank() < other.exec_rank()
    }

    /// `lo <= self && self <= hi`.
    pub fn within(self, lo: F32, hi: F32) -> (r: bool)
        ensures
            r == (lo.at_most(self) && self.at_most(hi)),
    {
        !self.is_nan() && !lo.is_nan() && !hi.is_nan() && lo.exec_rank() <= self.exec_rank()
            && self.exec_rank() <= hi.exec_rank()
    }

    /// The larger of two numbers.
    pub fn max_of(self, other: F32) -> (r: F32)
        ensures
            r == self.larger(other),
    {
        if self.is_nan() {
            other
        } else if other.is_nan() || other.exec_rank() <= self.exec_rank() {
            self
        } else {
            other
        }
    }

    /// `self` limited to the range from `lo` to `hi`.
    pub fn clamp_to(self, lo: F32, hi: F32) -> (r: F32)
        ensures
            r == self.clamped(lo, hi),
    {
        if self.less(lo) {
            lo
        } else if hi.less(self) {
            hi
        } else {
            self
        }
    }
}

/// The bits of the number 0.
pub const ZERO_BITS: u32 = 0;

/// The bits of the number 1.
pub const ONE_BITS: u32 = 0x3f80_0000;

/// A number limited to a range lies in the range, and limiting it again
/// changes nothing.
pub proof fn law_clamp(x: F32, lo: F32, hi: F32)
    requires
        lo.at_most(hi),
    ensures
        !x.nan() ==> lo.at_most(x.clamped(lo, hi)) && x.clamped(lo, hi).at_most(hi),
        x.nan() ==> x.clamped(lo, hi) == x,
        lo.at_most(x) && x.at_most(hi) ==> x.clamped(lo, hi) == x,
        x.clamped(lo, hi).clamped(lo, hi) == x.clamped(lo, hi),
{
}

// ---------------------------------------------------------------------------
// What holds on every input
// ---------------------------------------------------------------------------

/// The order of numbers by their bits: below 2^31 a number is positive and grows with
/// its bits, above it is negative and falls with them; the two zeros are equal, and a
/// number whose exponent is all ones with anything behind it compares with nothing.
pub proof fn law_order_of_bits(a: F32, b: F32)
    ensures
        a.bits <= 0x7f80_0000 && b.bits <= 0x7f80_0000 ==> (a.below(b) <==> a.bits < b.bits),
        0x8000_0000 <= a.bits <= 0xff80_0000 && 0x8000_0000 <= b.bits <= 0xff80_0000 ==> (a.below(b)
            <==> a.bits > b.bits),
        0x8000_0000 <= a.bits <= 0xff80_0000 && b.bits <= 0x7f80_0000 ==> (a.below(b) <==> !(a.bits
            == 0x8000_0000 && b.bits == 0)),
        a.bits <= 0x7f80_0000 && 0x8000_0000 <= b.bits <= 0xff80_0000 ==> !a.below(b),
        a.nan() <==> (0x7f80_0000 < a.bits < 0x8000_0000 || a.bits > 0xff80_0000),
        a.nan() || b.nan() ==> !a.below(b) && !a.at_most(b) && !b.below(a),
        !a.nan() && !b.nan() ==> (a.at_most(b) <==> !b.below(a)),
{
}

/// The larger of two numbers is one of them and not below either.
pub proof fn law_larger(a: F32, b: F32)
    ensures
        a.larger(b) == a || a.larger(b) == b,
        !a.nan() && !b.nan() ==> a.at_most(a.larger(b)) && b.at_most(a.larger(b)),
        a.nan() ==> a.larger(b) == b,
        b.nan() && !a.nan() ==> a.larger(b) == a,
{
}

/// Limiting moves a number to the nearer end, and only where it is out of range.
pub proof fn law_limited(x: F32, lo: F32, hi: F32)
    requires
        lo.at_most(hi),
    ensures
        x.below(lo) ==> x.clamped(lo, hi) == lo,
        hi.below(x) ==> x.clamped(lo, hi) == hi,
        !x.below(lo) && !hi.below(x) ==> x.clamped(lo, hi) == x,
{
}

} // verus!
