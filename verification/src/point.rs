//! A point of the plane with integer coordinates, on the screen convention:
//! `x` grows to the right and `y` grows downwards, so that "up" takes one from `y`.
//!
//! The coordinates are machine integers, and nothing here wraps around or saturates:
//! an operation is offered where its result lies within the limits of the coordinate
//! type, and each contract says so. The one failure that is reported at run time is
//! division by zero.

use crate::error::DivideByZero;
use crate::arith::{abs, trunc_div};
use crate::scalar::{fits, Scalar, SignedScalar, UnsignedScalar};
use crate::text::{decimal, push_decimal};
use std::ops::{Add, AddAssign, Div, Mul, MulAssign, Sub, SubAssign};
use vstd::prelude::*;
use vstd::std_specs::ops::{AddSpecImpl, DivSpecImpl, MulSpecImpl, SubSpecImpl};
use vstd::string::StringExecFns;

verus! {

/// The position in the plane that a [`Point`] stands for.
pub struct Coords {
    pub x: int,
    pub y: int,
}

impl Coords {
    /// The sum, coordinate by coordinate.
    pub open spec fn plus(self, rhs: Coords) -> Coords {
        Coords { x: self.x + rhs.x, y: self.y + rhs.y }
    }

    /// The difference, coordinate by coordinate.
    pub open spec fn minus(self, rhs: Coords) -> Coords {
        Coords { x: self.x - rhs.x, y: self.y - rhs.y }
    }

    /// Both coordinates multiplied by `k`.
    pub open spec fn scaled(self, k: int) -> Coords {
        Coords { x: self.x * k, y: self.y * k }
    }

    /// Both coordinates divided by `k`, each rounded towards zero.
    pub open spec fn divided(self, k: int) -> Coords {
        Coords { x: trunc_div(self.x, k), y: trunc_div(self.y, k) }
    }

    /// One step up: `y` is one less.
    pub open spec fn up(self) -> Coords {
        Coords { x: self.x, y: self.y - 1 }
    }

    /// One step down: `y` is one more.
    pub open spec fn down(self) -> Coords {
        Coords { x: self.x, y: self.y + 1 }
    }

    /// One step to the left: `x` is one less.
    pub open spec fn left(self) -> Coords {
        Coords { x: self.x - 1, y: self.y }
    }

    /// One step to the right: `x` is one more.
    pub open spec fn right(self) -> Coords {
        Coords { x: self.x + 1, y: self.y }
    }

    /// The position as it is written: both coordinates in decimal digits, in round
    /// brackets, with a comma and one blank between them.
    pub open spec fn text(self) -> Seq<char> {
        seq!['('] + decimal(self.x) + seq![',', ' '] + decimal(self.y) + seq![')']
    }

    /// Number of unit steps along the axes that lead from `self` to `rhs`.
    pub open spec fn manhattan(self, rhs: Coords) -> int {
        abs(rhs.x - self.x) + abs(rhs.y - self.y)
    }

    /// Number of steps from `self` to `rhs` where a diagonal step counts as one.
    pub open spec fn chebyshev(self, rhs: Coords) -> int {
        if abs(rhs.x - self.x) >= abs(rhs.y - self.y) {
            abs(rhs.x - self.x)
        } else {
            abs(rhs.y - self.y)
        }
    }
}

/// A point of the plane. Points are plain values: two are equal where both coordinates
/// are, and they are ordered by `x` first and by `y` where the `x` are equal.
#[derive(Debug, Eq, PartialEq, Ord, Copy, Hash)]
pub struct Point<T> {
    pub x: T,
    pub y: T,
}

/// A point with coordinates of 32 bits.
pub type PointI32 = Point<i32>;

/// A point with coordinates of 64 bits.
pub type PointI64 = Point<i64>;

/// A point with coordinates of 128 bits.
pub type PointI128 = Point<i128>;

impl<T: Copy> Clone for Point<T> {
    /// The same point once more.
    fn clone(&self) -> (p: Self)
        ensures
            p == *self,
    {
        *self
    }
}

impl<T: Scalar> View for Point<T> {
    type V = Coords;

    open spec fn view(&self) -> Coords {
        Coords { x: self.x.as_int(), y: self.y.as_int() }
    }
}

impl<T> Point<T> {
    /// The point with the coordinates `x` and `y`.
    pub fn new(x: T, y: T) -> (p: Self)
        ensures
            p.x == x,
            p.y == y,
    {
        Point { x, y }
    }
}

impl<T: Scalar> Default for Point<T> {
    /// The origin.
    fn default() -> (p: Self)
        ensures
            p@ == (Coords { x: 0, y: 0 }),
    {
        Point { x: T::zero(), y: T::zero() }
    }
}

impl<T: Scalar> Point<T> {
    /// The point that stands for `c`, where both coordinates of `c` fit in `T`.
    pub open spec fn at(c: Coords) -> Self {
        Point { x: T::from_int(c.x), y: T::from_int(c.y) }
    }

    /// Whether both coordinates of `c` fit in `T`.
    pub open spec fn holds(c: Coords) -> bool {
        fits::<T>(c.x) && fits::<T>(c.y)
    }

    /// A point is the only one at its position.
    pub proof fn lemma_at_view(self)
        ensures
            Self::at(self@) == self,
            Self::holds(self@),
    {
        self.x.lemma_from_as_int();
        self.y.lemma_from_as_int();
        self.x.lemma_in_range();
        self.y.lemma_in_range();
    }

    /// Every position within the limits of `T` has its point.
    pub proof fn lemma_view_at(c: Coords)
        requires
            Self::holds(c),
        ensures
            Self::at(c)@ == c,
    {
        T::lemma_as_from_int(c.x);
        T::lemma_as_from_int(c.y);
    }

    /// What division by `k` gives: the quotient, or the report that `k` is zero.
    pub open spec fn quotient(self, k: T) -> Result<Point<T>, DivideByZero> {
        if k.as_int() == 0 {
            Err(DivideByZero)
        } else {
            Ok(Self::at(self@.divided(k.as_int())))
        }
    }
}

impl<T: Scalar> AddSpecImpl for Point<T> {
    open spec fn obeys_add_spec() -> bool {
        true
    }

    open spec fn add_req(self, rhs: Point<T>) -> bool {
        Self::holds(self@.plus(rhs@))
    }

    open spec fn add_spec(self, rhs: Point<T>) -> Point<T> {
        Self::at(self@.plus(rhs@))
    }
}

impl<T: Scalar> Add for Point<T> {
    type Output = Point<T>;

    /// The sum of two points, coordinate by coordinate. Both sums have to lie within
    /// the limits of `T`.
    fn add(self, rhs: Point<T>) -> (r: Point<T>)
        ensures
            r@ == self@.plus(rhs@),
    {
        let r = Point { x: self.x.plus(rhs.x), y: self.y.plus(rhs.y) };
        proof {
            r.lemma_at_view();
        }
        r
    }
}

impl<T: Scalar> SubSpecImpl for Point<T> {
    open spec fn obeys_sub_spec() -> bool {
        true
    }

    open spec fn sub_req(self, rhs: Point<T>) -> bool {
        Self::holds(self@.minus(rhs@))
    }

    open spec fn sub_spec(self, rhs: Point<T>) -> Point<T> {
        Self::at(self@.minus(rhs@))
    }
}

impl<T: Scalar> Sub for Point<T> {
    type Output = Point<T>;

    /// The difference of two points, coordinate by coordinate. Both differences have
    /// to lie within the limits of `T`.
    fn sub(self, rhs: Point<T>) -> (r: Point<T>)
        ensures
            r@ == self@.minus(rhs@),
    {
        let r = Point { x: self.x.minus(rhs.x), y: self.y.minus(rhs.y) };
        proof {
            r.lemma_at_view();
        }
        r
    }
}

impl<T: Scalar> MulSpecImpl<T> for Point<T> {
    open spec fn obeys_mul_spec() -> bool {
        true
    }

    open spec fn mul_req(self, rhs: T) -> bool {
        Self::holds(self@.scaled(rhs.as_int()))
    }

    open spec fn mul_spec(self, rhs: T) -> Point<T> {
        Self::at(self@.scaled(rhs.as_int()))
    }
}

impl<T: Scalar> Mul<T> for Point<T> {
    type Output = Point<T>;

    /// The point with both coordinates multiplied by `rhs`. Both products have to lie
    /// within the limits of `T`.
    fn mul(self, rhs: T) -> (r: Point<T>)
        ensures
            r@ == self@.scaled(rhs.as_int()),
    {
        let r = Point { x: self.x.times(rhs), y: self.y.times(rhs) };
        proof {
            r.lemma_at_view();
        }
        r
    }
}

impl<T: Scalar> DivSpecImpl<T> for Point<T> {
    open spec fn obeys_div_spec() -> bool {
        true
    }

    /// Only the quotient of the lowest number by minus one is out of reach.
    open spec fn div_req(self, rhs: T) -> bool {
        rhs.as_int() != 0 ==> Self::holds(self@.divided(rhs.as_int()))
    }

    open spec fn div_spec(self, rhs: T) -> Result<Point<T>, DivideByZero> {
        self.quotient(rhs)
    }
}

impl<T: Scalar> Div<T> for Point<T> {
    type Output = Result<Point<T>, DivideByZero>;

    /// The point with both coordinates divided by `rhs`, each quotient rounded towards
    /// zero. Division by zero is reported and gives no point.
    fn div(self, rhs: T) -> (r: Result<Point<T>, DivideByZero>)
        ensures
            r is Err <==> rhs.as_int() == 0,
            r matches Ok(p) ==> p@ == self@.divided(rhs.as_int()),
    {
        if rhs.is_zero() {
            return Err(DivideByZero);
        }
        let p = Point { x: self.x.quotient(rhs), y: self.y.quotient(rhs) };
        proof {
            p.lemma_at_view();
        }
        Ok(p)
    }
}

impl<T: Scalar> AddAssign for Point<T> {
    /// Adds `rhs` to the point.
    fn add_assign(&mut self, rhs: Point<T>)
        requires
            Self::holds(old(self)@.plus(rhs@)),
        ensures
            final(self)@ == old(self)@.plus(rhs@),
    {
        self.x = self.x.plus(rhs.x);
        self.y = self.y.plus(rhs.y);
    }
}

impl<T: Scalar> SubAssign for Point<T> {
    /// Takes `rhs` from the point.
    fn sub_assign(&mut self, rhs: Point<T>)
        requires
            Self::holds(old(self)@.minus(rhs@)),
        ensures
            final(self)@ == old(self)@.minus(rhs@),
    {
        self.x = self.x.minus(rhs.x);
        self.y = self.y.minus(rhs.y);
    }
}

impl<T: Scalar> MulAssign<T> for Point<T> {
    /// Multiplies both coordinates by `rhs`.
    fn mul_assign(&mut self, rhs: T)
        requires
            Self::holds(old(self)@.scaled(rhs.as_int())),
        ensures
            final(self)@ == old(self)@.scaled(rhs.as_int()),
    {
        self.x = self.x.times(rhs);
        self.y = self.y.times(rhs);
    }
}

impl<T: Scalar> Point<T> {
    /// The point as it is written, `(x, y)`.
    pub fn to_string(&self) -> (s: String)
        ensures
            s@ == self@.text(),
    {
        proof {
            reveal_strlit("(");
            reveal_strlit(", ");
            reveal_strlit(")");
        }
        let mut s = String::new();
        s.append("(");
        push_decimal(&mut s, self.x);
        s.append(", ");
        push_decimal(&mut s, self.y);
        s.append(")");
        assert(s@ =~= self@.text());
        s
    }

    /// Divides the point in place. With a zero divisor the point is left as it was.
    pub fn div_assign(&mut self, rhs: T) -> (r: Result<(), DivideByZero>)
        requires
            rhs.as_int() != 0 ==> Self::holds(old(self)@.divided(rhs.as_int())),
        ensures
            r is Err <==> rhs.as_int() == 0,
            r is Err ==> *final(self) == *old(self),
            r is Ok ==> final(self)@ == old(self)@.divided(rhs.as_int()),
    {
        if rhs.is_zero() {
            return Err(DivideByZero);
        }
        self.x = self.x.quotient(rhs);
        self.y = self.y.quotient(rhs);
        Ok(())
    }

    /// Moves the point one step up, to the next smaller `y`.
    pub fn move_up(&mut self)
        requires
            Self::holds(old(self)@.up()),
        ensures
            final(self)@ == old(self)@.up(),
    {
        self.y = self.y.minus(T::one());
    }

    /// Moves the point one step down, to the next larger `y`.
    pub fn move_down(&mut self)
        requires
            Self::holds(old(self)@.down()),
        ensures
            final(self)@ == old(self)@.down(),
    {
        self.y = self.y.plus(T::one());
    }

    /// Moves the point one step to the left, to the next smaller `x`.
    pub fn move_left(&mut self)
        requires
            Self::holds(old(self)@.left()),
        ensures
            final(self)@ == old(self)@.left(),
    {
        self.x = self.x.minus(T::one());
    }

    /// Moves the point one step to the right, to the next larger `x`.
    pub fn move_right(&mut self)
        requires
            Self::holds(old(self)@.right()),
        ensures
            final(self)@ == old(self)@.right(),
    {
        self.x = self.x.plus(T::one());
    }

    /// The point one step up, at the next smaller `y`.
    pub fn up(&self) -> (p: Point<T>)
        requires
            Self::holds(self@.up()),
        ensures
            p@ == self@.up(),
    {
        Point { x: self.x, y: self.y.minus(T::one()) }
    }

    /// The point one step down, at the next larger `y`.
    pub fn down(&self) -> (p: Point<T>)
        requires
            Self::holds(self@.down()),
        ensures
            p@ == self@.down(),
    {
        Point { x: self.x, y: self.y.plus(T::one()) }
    }

    /// The point one step to the left, at the next smaller `x`.
    pub fn left(&self) -> (p: Point<T>)
        requires
            Self::holds(self@.left()),
        ensures
            p@ == self@.left(),
    {
        Point { x: self.x.minus(T::one()), y: self.y }
    }

    /// The point one step to the right, at the next larger `x`.
    pub fn right(&self) -> (p: Point<T>)
        requires
            Self::holds(self@.right()),
        ensures
            p@ == self@.right(),
    {
        Point { x: self.x.plus(T::one()), y: self.y }
    }

    /// The four points one step away, in the order up, down, left, right.
    pub fn neighbors(&self) -> (n: [Point<T>; 4])
        requires
            Self::holds(self@.up()),
            Self::holds(self@.down()),
            Self::holds(self@.left()),
            Self::holds(self@.right()),
        ensures
            n[0]@ == self@.up(),
            n[1]@ == self@.down(),
            n[2]@ == self@.left(),
            n[3]@ == self@.right(),
    {
        [self.up(), self.down(), self.left(), self.right()]
    }
}

/// Distance along the axes, from the absolute values of the two differences.
pub fn manhattan<T: SignedScalar>(lhs: &Point<T>, rhs: &Point<T>) -> (d: T)
    requires
        lhs@.manhattan(rhs@) <= T::highest(),
    ensures
        d.as_int() == lhs@.manhattan(rhs@),
{
    proof {
        T::lemma_signed_limits();
    }
    let dx = rhs.x.minus(lhs.x).abs_value();
    let dy = rhs.y.minus(lhs.y).abs_value();
    dx.plus(dy)
}

/// Distance along the axes for coordinates without sign: on each axis the smaller
/// coordinate is taken from the larger, so that no difference goes below zero.
pub fn manhattan_unsigned<T: UnsignedScalar>(lhs: &Point<T>, rhs: &Point<T>) -> (d: T)
    requires
        lhs@.manhattan(rhs@) <= T::highest(),
    ensures
        d.as_int() == lhs@.manhattan(rhs@),
{
    proof {
        T::lemma_unsigned_limits();
        lhs.lemma_at_view();
        rhs.lemma_at_view();
    }
    let dx = if lhs.x.is_less(rhs.x) {
        rhs.x.minus(lhs.x)
    } else {
        lhs.x.minus(rhs.x)
    };
    let dy = if lhs.y.is_less(rhs.y) {
        rhs.y.minus(lhs.y)
    } else {
        lhs.y.minus(rhs.y)
    };
    dx.plus(dy)
}

/// The larger of the absolute values of the two differences.
pub fn chebyshev<T: SignedScalar>(lhs: &Point<T>, rhs: &Point<T>) -> (d: T)
    requires
        lhs@.chebyshev(rhs@) <= T::highest(),
    ensures
        d.as_int() == lhs@.chebyshev(rhs@),
{
    proof {
        T::lemma_signed_limits();
    }
    let dx = rhs.x.minus(lhs.x).abs_value();
    let dy = rhs.y.minus(lhs.y).abs_value();
    if dx.is_less(dy) {
        dy
    } else {
        dx
    }
}

/// The larger of the two differences, for coordinates without sign.
pub fn chebyshev_unsigned<T: UnsignedScalar>(lhs: &Point<T>, rhs: &Point<T>) -> (d: T)
    ensures
        d.as_int() == lhs@.chebyshev(rhs@),
{
    proof {
        T::lemma_unsigned_limits();
        lhs.lemma_at_view();
        rhs.lemma_at_view();
    }
    let dx = if lhs.x.is_less(rhs.x) {
        rhs.x.minus(lhs.x)
    } else {
        lhs.x.minus(rhs.x)
    };
    let dy = if lhs.y.is_less(rhs.y) {
        rhs.y.minus(lhs.y)
    } else {
        lhs.y.minus(rhs.y)
    };
    if dx.is_less(dy) {
        dy
    } else {
        dx
    }
}

} // verus!
