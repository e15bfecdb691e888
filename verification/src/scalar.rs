//! Integer types that can serve as coordinates and grid cells.

use crate::arith::{abs, trunc_div, trunc_rem, with_sign};
use vstd::prelude::*;

mod signed;
mod unsigned;

verus! {

/// A fixed-width integer type, seen as the mathematical integers between two limits.
pub trait Scalar: Copy + Sized {
    /// The integer that the value stands for.
    spec fn as_int(self) -> int;

    /// The value that stands for `v`, where `v` lies within the limits.
    spec fn from_int(v: int) -> Self;

    /// The smallest integer the type holds.
    spec fn lowest() -> int;

    /// The largest integer the type holds.
    spec fn highest() -> int;

    /// Every value lies within the limits.
    proof fn lemma_in_range(self)
        ensures
            Self::lowest() <= self.as_int() <= Self::highest(),
    ;

    /// The limits are those of a machine integer of at most 128 bits: the lower limit
    /// is zero, or lies one further from zero than the upper limit.
    proof fn lemma_limits()
        ensures
            Self::lowest() == 0 || Self::lowest() == -Self::highest() - 1,
            -0x8000_0000_0000_0000_0000_0000_0000_0000 <= Self::lowest(),
            127 <= Self::highest() <= 0xffff_ffff_ffff_ffff_ffff_ffff_ffff_ffff,
    ;

    /// A value is determined by the integer it stands for.
    proof fn lemma_from_as_int(self)
        ensures
            Self::from_int(self.as_int()) == self,
    ;

    /// Every integer within the limits is the value of some member of the type.
    proof fn lemma_as_from_int(v: int)
        requires
            Self::lowest() <= v <= Self::highest(),
        ensures
            Self::from_int(v).as_int() == v,
    ;

    /// The number zero.
    fn zero() -> (r: Self)
        ensures
            r.as_int() == 0,
    ;

    /// The number one.
    fn one() -> (r: Self)
        ensures
            r.as_int() == 1,
    ;

    /// The sum, where the type can hold it.
    fn plus(self, rhs: Self) -> (r: Self)
        requires
            Self::lowest() <= self.as_int() + rhs.as_int() <= Self::highest(),
        ensures
            r.as_int() == self.as_int() + rhs.as_int(),
    ;

    /// The difference, where the type can hold it.
    fn minus(self, rhs: Self) -> (r: Self)
        requires
            Self::lowest() <= self.as_int() - rhs.as_int() <= Self::highest(),
        ensures
            r.as_int() == self.as_int() - rhs.as_int(),
    ;

    /// The product, where the type can hold it.
    fn times(self, rhs: Self) -> (r: Self)
        requires
            Self::lowest() <= self.as_int() * rhs.as_int() <= Self::highest(),
        ensures
            r.as_int() == self.as_int() * rhs.as_int(),
    ;

    /// The quotient, rounded towards zero. The divisor is not zero, and the type can
    /// hold the quotient: only the lowest number divided by minus one is too large.
    fn quotient(self, rhs: Self) -> (r: Self)
        requires
            rhs.as_int() != 0,
            Self::lowest() <= trunc_div(self.as_int(), rhs.as_int()) <= Self::highest(),
        ensures
            r.as_int() == trunc_div(self.as_int(), rhs.as_int()),
    ;

    /// The remainder of the division that rounds towards zero, on the same terms as
    /// the quotient.
    fn remainder(self, rhs: Self) -> (r: Self)
        requires
            rhs.as_int() != 0,
            Self::lowest() <= trunc_div(self.as_int(), rhs.as_int()) <= Self::highest(),
        ensures
            r.as_int() == trunc_rem(self.as_int(), rhs.as_int()),
    ;

    /// Whether `self` is the smaller number.
    fn is_less(self, rhs: Self) -> (b: bool)
        ensures
            b == (self.as_int() < rhs.as_int()),
    ;

    /// Whether this is the number zero.
    fn is_zero(self) -> (b: bool)
        ensures
            b == (self.as_int() == 0),
    ;

    /// Whether the number lies below zero.
    fn is_negative(self) -> (b: bool)
        ensures
            b == (self.as_int() < 0),
    ;

    /// The size of the number, without its sign.
    fn magnitude(self) -> (m: u128)
        ensures
            m == abs(self.as_int()),
    ;

    /// The number of the given sign and size, if the type can hold it.
    fn from_magnitude(negative: bool, m: u128) -> (r: Option<Self>)
        ensures
            match r {
                Some(v) => v.as_int() == with_sign(negative, m as int),
                None => !(Self::lowest() <= with_sign(negative, m as int) <= Self::highest()),
            },
    ;
}

/// A scalar whose limits are those of two's complement: one more below zero than above.
pub trait SignedScalar: Scalar {
    /// The lower limit lies one further from zero than the upper limit.
    proof fn lemma_signed_limits()
        ensures
            Self::lowest() == -Self::highest() - 1,
    ;

    /// The absolute value. The lowest number has none that the type can hold.
    fn abs_value(self) -> (r: Self)
        requires
            self.as_int() != Self::lowest(),
        ensures
            r.as_int() == abs(self.as_int()),
    ;
}

/// A scalar that holds no negative number.
pub trait UnsignedScalar: Scalar {
    /// The lower limit is zero.
    proof fn lemma_unsigned_limits()
        ensures
            Self::lowest() == 0,
    ;
}

/// Whether the integer `v` can be held by the type `T`.
pub open spec fn fits<T: Scalar>(v: int) -> bool {
    T::lowest() <= v <= T::highest()
}

} // verus!
