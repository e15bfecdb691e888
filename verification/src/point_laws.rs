//! What holds of the arithmetic, the distances and the order of points, whatever the
//! points.

use crate::arith::lemma_trunc_div_of_product;
use crate::error::DivideByZero;
use crate::point::{Coords, Point};
use crate::scalar::Scalar;
use std::cmp::Ordering;
use vstd::prelude::*;
use vstd::std_specs::cmp::PartialOrdSpec;
use vstd::std_specs::ops::{AddSpec, DivSpec, MulSpec, SubSpec};

verus! {

/// Two points at one position are the same point.
pub proof fn lemma_same_position<T: Scalar>(a: Point<T>, b: Point<T>)
    requires
        a@ == b@,
    ensures
        a == b,
{
    a.lemma_at_view();
    b.lemma_at_view();
}

/// The order of the two points does not matter to their sum: where one sum can be
/// formed the other can, and they are the same point.
pub proof fn lemma_add_commutes<T: Scalar>(a: Point<T>, b: Point<T>)
    ensures
        a.add_req(b) == b.add_req(a),
        a@.plus(b@) == b@.plus(a@),
        a.add_spec(b) == b.add_spec(a),
{
}

/// Taking away what was added leads back: where `a + b` can be formed, `b` can be
/// taken from it, and `a` is what is left.
pub proof fn lemma_add_then_sub<T: Scalar>(a: Point<T>, b: Point<T>)
    requires
        a.add_req(b),
    ensures
        a.add_spec(b).sub_req(b),
        a.add_spec(b).sub_spec(b) == a,
{
    Point::<T>::lemma_view_at(a@.plus(b@));
    a.lemma_at_view();
    assert(a@.plus(b@).minus(b@) == a@);
}

/// A step up and a step down lead back to where one was.
pub proof fn lemma_up_then_down<T: Scalar>(a: Point<T>, above: Point<T>, back: Point<T>)
    requires
        above@ == a@.up(),
        back@ == above@.down(),
    ensures
        back == a,
{
    lemma_same_position(back, a);
}

/// A step to the left and a step to the right lead back to where one was.
pub proof fn lemma_left_then_right<T: Scalar>(a: Point<T>, beside: Point<T>, back: Point<T>)
    requires
        beside@ == a@.left(),
        back@ == beside@.right(),
    ensures
        back == a,
{
    lemma_same_position(back, a);
}

/// Dividing by what was multiplied with leads back: where `a * k` can be formed and
/// `k` is not zero, the division succeeds and gives `a`.
pub proof fn lemma_mul_then_div<T: Scalar>(a: Point<T>, k: T)
    requires
        k.as_int() != 0,
        a.mul_req(k),
    ensures
        a.mul_spec(k).div_req(k),
        a.mul_spec(k).div_spec(k) == Ok::<Point<T>, DivideByZero>(a),
{
    Point::<T>::lemma_view_at(a@.scaled(k.as_int()));
    a.lemma_at_view();
    lemma_trunc_div_of_product(a@.x, k.as_int());
    lemma_trunc_div_of_product(a@.y, k.as_int());
    assert(a@.scaled(k.as_int()).divided(k.as_int()) == a@);
}

/// Division by zero is reported, whatever the point.
pub proof fn lemma_div_by_zero<T: Scalar>(a: Point<T>, k: T)
    requires
        k.as_int() == 0,
    ensures
        a.div_req(k),
        a.div_spec(k) == Err::<Point<T>, DivideByZero>(DivideByZero),
{
}

/// The distance along the axes is the same in both directions.
pub proof fn lemma_manhattan_symmetric(a: Coords, b: Coords)
    ensures
        a.manhattan(b) == b.manhattan(a),
{
}

/// The distance with diagonal steps is the same in both directions.
pub proof fn lemma_chebyshev_symmetric(a: Coords, b: Coords)
    ensures
        a.chebyshev(b) == b.chebyshev(a),
{
}

/// The distance with diagonal steps is never negative and never longer than the
/// distance along the axes.
pub proof fn lemma_chebyshev_bounds(a: Coords, b: Coords)
    ensures
        0 <= a.chebyshev(b) <= a.manhattan(b),
{
}

/// How the integer `a` stands to the integer `b`.
pub open spec fn order_of(a: int, b: int) -> Ordering {
    if a < b {
        Ordering::Less
    } else if a == b {
        Ordering::Equal
    } else {
        Ordering::Greater
    }
}

/// How the position `a` stands to the position `b`: as their `x` do, and as their `y`
/// do where the `x` are equal.
pub open spec fn order_of_positions(a: Coords, b: Coords) -> Ordering {
    if a.x == b.x {
        order_of(a.y, b.y)
    } else {
        order_of(a.x, b.x)
    }
}

/// Whether the values of `T` compare as the integers that they stand for.
pub open spec fn compares_as_integers<T: Scalar + PartialOrd>() -> bool {
    &&& T::obeys_partial_cmp_spec()
    &&& forall|a: T, b: T| #[trigger] a.partial_cmp_spec(&b) == Some(order_of(a.as_int(), b.as_int()))
}

/// Points are ordered as their positions are, whenever their coordinates compare as
/// integers: any two points compare, and the order is that of `x`, then of `y`.
pub proof fn lemma_ordered_by_position<T: Scalar + PartialOrd>(a: Point<T>, b: Point<T>)
    requires
        compares_as_integers::<T>(),
    ensures
        Point::<T>::obeys_partial_cmp_spec(),
        a.partial_cmp_spec(&b) == Some(order_of_positions(a@, b@)),
{
    assert(a.x.partial_cmp_spec(&b.x) == Some(order_of(a.x.as_int(), b.x.as_int())));
    assert(a.y.partial_cmp_spec(&b.y) == Some(order_of(a.y.as_int(), b.y.as_int())));
}

/// The machine integers compare as integers, signed and unsigned, of every width.
pub proof fn lemma_machine_integers_compare()
    ensures
        compares_as_integers::<i8>(),
        compares_as_integers::<i16>(),
        compares_as_integers::<i32>(),
        compares_as_integers::<i64>(),
        compares_as_integers::<i128>(),
        compares_as_integers::<isize>(),
        compares_as_integers::<u8>(),
        compares_as_integers::<u16>(),
        compares_as_integers::<u32>(),
        compares_as_integers::<u64>(),
        compares_as_integers::<u128>(),
        compares_as_integers::<usize>(),
{
}

} // verus!
