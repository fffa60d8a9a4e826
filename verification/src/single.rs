//! IEEE 754 single-precision values, held as their bit patterns.
//!
//! Parameters, presets and meters carry single-precision numbers. What the
//! library decides about one of them is whether it is finite, how it orders
//! against another, and where it lies in a range; each of those is a question
//! about the bit pattern, and is answered here with integers. Arithmetic on the
//! values belongs to the code around the library.

use vstd::prelude::*;

verus! {

/// The bit pattern of positive infinity: every finite magnitude lies below it
/// and every not-a-number magnitude above it.
pub const INFINITY_BITS: u32 = 0x7f80_0000;

/// The weight of the sign bit.
pub const SIGN_BIT: u32 = 0x8000_0000;

/// A single-precision value.
#[derive(Clone, Copy, Debug, PartialEq, Eq, Structural)]
pub struct Single {
    /// Sign, exponent and fraction, as IEEE 754 lays them out.
    pub bits: u32,
}

impl Single {
    /// The value without its sign, as an integer that grows with it.
    pub open spec fn magnitude(self) -> int {
        (self.bits % SIGN_BIT) as int
    }

    pub open spec fn negative(self) -> bool {
        self.bits >= SIGN_BIT
    }

    pub open spec fn finite(self) -> bool {
        self.magnitude() < INFINITY_BITS
    }

    pub open spec fn nan(self) -> bool {
        self.magnitude() > INFINITY_BITS
    }

    /// Where a value stands among all values that are numbers. The two zeros
    /// share a rank, and two numbers compare as their ranks do.
    pub open spec fn rank(self) -> int {
        if self.negative() {
            -self.magnitude()
        } else {
            self.magnitude()
        }
    }

    /// `self < other`, which is false as soon as either is not a number.
    pub open spec fn below(self, other: Single) -> bool {
        !self.nan() && !other.nan() && self.rank() < other.rank()
    }

    /// `self == other`, which is false as soon as either is not a number.
    pub open spec fn same(self, other: Single) -> bool {
        !self.nan() && !other.nan() && self.rank() == other.rank()
    }

    /// `lo <= self <= hi`.
    pub open spec fn within(self, lo: Single, hi: Single) -> bool {
        !self.nan() && lo.rank() <= self.rank() <= hi.rank()
    }

    /// The value itself inside the range, the nearer end outside it. What is
    /// not a number stays as it is.
    pub open spec fn clamped(self, lo: Single, hi: Single) -> Single {
        if self.below(lo) {
            lo
        } else if hi.below(self) {
            hi
        } else {
            self
        }
    }

    /// The value itself when it is finite, the fallback otherwise.
    pub open spec fn or_fallback(self, fallback: Single) -> Single {
        if self.finite() {
            self
        } else {
            fallback
        }
    }

    pub fn is_finite(self) -> (r: bool)
        ensures
            r == self.finite(),
    {
        self.bits % SIGN_BIT < INFINITY_BITS
    }

    pub fn is_nan(self) -> (r: bool)
        ensures
            r == self.nan(),
    {
        self.bits % SIGN_BIT > INFINITY_BITS
    }

    fn order_key(self) -> (r: i64)
        ensures
            r == self.rank(),
    {
        let magnitude: i64 = (self.bits % SIGN_BIT) as i64;
        if self.bits >= SIGN_BIT {
            -magnitude
        } else {
            magnitude
        }
    }

    /// Is this value less than `other`?
    pub fn lt(self, other: Single) -> (r: bool)
        ensures
            r == self.below(other),
    {
        !self.is_nan() && !other.is_nan() && self.order_key() < other.order_key()
    }

    /// Do the two values compare equal?
    pub fn equals(self, other: Single) -> (r: bool)
        ensures
            r == self.same(other),
    {
        !self.is_nan() && !other.is_nan() && self.order_key() == other.order_key()
    }

    /// Restrict a value to a range.
    pub fn clamp(self, lo: Single, hi: Single) -> (r: Single)
        requires
            !lo.nan(),
            !hi.nan(),
            lo.rank() <= hi.rank(),
        ensures
            r == self.clamped(lo, hi),
            !self.nan() ==> r.within(lo, hi),
    {
        if self.lt(lo) {
            lo
        } else if hi.lt(self) {
            hi
        } else {
            self
        }
    }

    /// The larger of two values; a value that is not a number gives way to the
    /// other one.
    pub fn max(self, other: Single) -> (r: Single)
        ensures
            r == (if self.nan() || self.below(other) {
                other
            } else {
                self
            }),
    {
        if self.is_nan() || self.lt(other) {
            other
        } else {
            self
        }
    }
}

/// A value read from outside: itself when finite, the fallback otherwise.
pub fn finite(v: Single, fallback: Single) -> (r: Single)
    ensures
        r == v.or_fallback(fallback),
{
    if v.is_finite() {
        v
    } else {
        fallback
    }
}

impl Single {
    /// A value is finite unless its exponent is all ones, and then it is infinite
    /// when its fraction is zero and not a number when it is not.
    pub proof fn the_exponent_tells(self)
        ensures
            self.finite() <==> self.bits / 0x80_0000 % 0x100 != 0xff,
            self.nan() <==> self.bits / 0x80_0000 % 0x100 == 0xff && self.bits % 0x80_0000 != 0,
    {
        let b = self.bits;
        assert(b % 0x8000_0000 < 0x7f80_0000 <==> b / 0x80_0000 % 0x100 != 0xff) by (bit_vector);
        assert(b % 0x8000_0000 > 0x7f80_0000 <==> b / 0x80_0000 % 0x100 == 0xff && b % 0x80_0000
            != 0) by (bit_vector);
    }

    /// Numbers are ordered as their values are: a value without the sign bit is not
    /// below zero, and grows with its bits; with the sign bit it shrinks with them;
    /// and the two zeros are the same.
    pub proof fn bits_order_as_values(self, other: Single)
        requires
            !self.nan(),
            !other.nan(),
        ensures
            self.bits < 0x8000_0000 && other.bits < 0x8000_0000 ==> (self.below(other) <==> self.bits
                < other.bits),
            self.bits >= 0x8000_0000 && other.bits >= 0x8000_0000 ==> (self.below(other)
                <==> other.bits < self.bits),
            self.bits > 0x8000_0000 && other.bits < 0x8000_0000 ==> self.below(other),
            self.bits < 0x8000_0000 && other.bits >= 0x8000_0000 ==> !self.below(other),
            self.bits == 0x8000_0000 && other.bits == 0 ==> self.same(other),
            self.below(other) ==> !other.below(self) && !self.same(other),
            !self.below(other) && !other.below(self) ==> self.same(other),
    {
    }

    /// What is not a number is below nothing, above nothing, and the same as nothing.
    pub proof fn not_a_number_compares_as_nothing(self, other: Single)
        requires
            self.nan() || other.nan(),
        ensures
            !self.below(other),
            !other.below(self),
            !self.same(other),
    {
    }

    /// A restricted number is in the range, is itself if it was there already, and
    /// is otherwise the end it was past.
    pub proof fn clamping_lands_in_the_range(self, lo: Single, hi: Single)
        requires
            !self.nan(),
            !lo.nan(),
            !hi.nan(),
            lo.rank() <= hi.rank(),
        ensures
            !self.clamped(lo, hi).below(lo),
            !hi.below(self.clamped(lo, hi)),
            !self.below(lo) && !hi.below(self) ==> self.clamped(lo, hi) == self,
            self.below(lo) ==> self.clamped(lo, hi) == lo,
            hi.below(self) ==> self.clamped(lo, hi) == hi,
    {
    }
}

/// A number doubled so many times.
pub open spec fn doubled(x: int, times: nat) -> int
    decreases times,
{
    if times == 0 {
        x
    } else {
        2 * doubled(x, (times - 1) as nat)
    }
}

impl Single {
    /// Does this value stand for a whole number? Zero is all zero bits. Any other is
    /// its fraction with a leading one, which the exponent scales: at 150 it counts
    /// ones, and each step down halves it.
    pub open spec fn stands_for(self, n: int) -> bool {
        let exponent = self.bits / 0x80_0000 % 0x100;
        let scaled = self.bits % 0x80_0000 + 0x80_0000;
        if n == 0 {
            self.bits == 0
        } else {
            &&& self.bits >= 0x8000_0000 <==> n < 0
            &&& 126 < exponent <= 150
            &&& scaled == doubled(
                if n < 0 {
                    -n
                } else {
                    n
                },
                (150 - exponent) as nat,
            )
        }
    }
}

} // verus!
