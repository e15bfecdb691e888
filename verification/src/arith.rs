//! Whole numbers as the machine divides them, rounding towards zero, and the remainder
//! that keeps between zero and the divisor.

use vstd::arithmetic::div_mod::{
    lemma_fundamental_div_mod, lemma_fundamental_div_mod_converse, lemma_mod_bound,
};
use vstd::prelude::*;

verus! {

/// Absolute value of an integer.
pub open spec fn abs(v: int) -> int {
    if v < 0 {
        -v
    } else {
        v
    }
}

/// The integer of the given size, below zero where `negative` says so.
pub open spec fn with_sign(negative: bool, size: int) -> int {
    if negative {
        -size
    } else {
        size
    }
}

/// Quotient of `a` by `b` rounded towards zero, as machine division rounds.
pub open spec fn trunc_div(a: int, b: int) -> int {
    if a >= 0 {
        a / b
    } else {
        -((-a) / b)
    }
}

/// Remainder that goes with [`trunc_div`]: zero, or of the sign of `a`.
pub open spec fn trunc_rem(a: int, b: int) -> int {
    if a >= 0 {
        a % b
    } else {
        -((-a) % b)
    }
}

/// The remainder of `a` by `b` that lies between zero and `b`: never negative for a
/// positive `b`, never positive for a negative one.
pub open spec fn floor_mod(a: int, b: int) -> int {
    if b > 0 {
        a % b
    } else {
        -((-a) % (-b))
    }
}

/// The remainder of `a` by `b`, with `b` added to it, reduced by `b` once more.
pub open spec fn twice_reduced(a: int, b: int) -> int {
    trunc_rem(trunc_rem(a, b) + b, b)
}

/// The quotient by a negative number is the opposite of that by its opposite, and the
/// remainder is the same.
proof fn lemma_negative_divisor(x: int, b: int)
    requires
        b < 0,
    ensures
        x / b == -(x / (-b)),
        x % b == x % (-b),
{
    let c = -b;
    lemma_fundamental_div_mod(x, c);
    lemma_mod_bound(x, c);
    let q = x / c;
    let r = x % c;
    assert(x / b == -q && x % b == r) by (nonlinear_arith)
        requires
            b < 0,
            c == -b,
            0 <= r < c,
            x == c * q + r,
    ;
}

/// A number from zero up to `m` is its own remainder by `m`, and `m` leaves none.
proof fn lemma_small(x: int, m: int)
    requires
        0 < m,
    ensures
        0 <= x < m ==> x % m == x,
        x == m ==> x % m == 0,
{
    if 0 <= x < m {
        lemma_fundamental_div_mod_converse(x, m, 0, x);
    }
    if x == m {
        lemma_fundamental_div_mod_converse(x, m, 1, 0);
    }
}

/// Adding the divisor leaves the remainder as it was.
proof fn lemma_mod_shift(x: int, m: int)
    requires
        0 < m,
    ensures
        (x + m) % m == x % m,
{
    lemma_fundamental_div_mod(x, m);
    lemma_mod_bound(x, m);
    let q = x / m;
    let r = x % m;
    assert(x + m == (q + 1) * m + r) by (nonlinear_arith)
        requires
            x == m * q + r,
    ;
    lemma_fundamental_div_mod_converse(x + m, m, q + 1, r);
}

/// The remainders of a number and of its opposite add up to the divisor, unless both
/// are zero.
proof fn lemma_mod_opposite(x: int, m: int)
    requires
        0 < m,
    ensures
        x % m == 0 ==> (-x) % m == 0,
        x % m != 0 ==> (-x) % m == m - x % m,
{
    lemma_fundamental_div_mod(x, m);
    lemma_mod_bound(x, m);
    let q = x / m;
    let r = x % m;
    if r == 0 {
        assert(-x == (-q) * m + 0) by (nonlinear_arith)
            requires
                x == m * q + r,
                r == 0,
        ;
        lemma_fundamental_div_mod_converse(-x, m, -q, 0);
    } else {
        assert(-x == (-q - 1) * m + (m - r)) by (nonlinear_arith)
            requires
                x == m * q + r,
        ;
        lemma_fundamental_div_mod_converse(-x, m, -q - 1, m - r);
    }
}

/// Dividing by minus one changes the sign and leaves no remainder.
pub proof fn lemma_minus_one(a: int)
    ensures
        trunc_div(a, -1) == -a,
        trunc_rem(a, -1) == 0,
{
    lemma_negative_divisor(a, -1);
    lemma_negative_divisor(-a, -1);
}

/// A quotient that is rounded towards zero is no larger in size than what was divided,
/// at most half of it where the divisor is not one or minus one, and has the sign that
/// the signs of the two numbers give it.
pub proof fn lemma_trunc_div_bounds(a: int, b: int)
    requires
        b != 0,
    ensures
        abs(trunc_div(a, b)) <= abs(a),
        abs(b) >= 2 ==> 2 * abs(trunc_div(a, b)) <= abs(a),
        (a >= 0) == (b > 0) ==> trunc_div(a, b) >= 0,
        (a >= 0) != (b > 0) ==> trunc_div(a, b) <= 0,
{
    let y = abs(a);
    let c = abs(b);
    if b < 0 {
        lemma_negative_divisor(y, b);
    }
    lemma_fundamental_div_mod(y, c);
    lemma_mod_bound(y, c);
    let q = y / c;
    let r = y % c;
    assert(0 <= q <= y && (c >= 2 ==> 2 * q <= y)) by (nonlinear_arith)
        requires
            0 < c,
            0 <= y,
            0 <= r < c,
            y == c * q + r,
    ;
}

/// Dividing a product by one of its factors gives the other.
pub proof fn lemma_trunc_div_of_product(x: int, k: int)
    requires
        k != 0,
    ensures
        trunc_div(x * k, k) == x,
{
    let a = x * k;
    let c = abs(k);
    let y = abs(a);
    let z = abs(x);
    assert(y == z * c + 0 && (a > 0 ==> (x > 0) == (k > 0)) && (a < 0 ==> (x > 0) != (k > 0)) && (a
        == 0 ==> x == 0)) by (nonlinear_arith)
        requires
            a == x * k,
            k != 0,
            c == abs(k),
            y == abs(a),
            z == abs(x),
    ;
    lemma_fundamental_div_mod_converse(y, c, z, 0);
    if k < 0 {
        lemma_negative_divisor(y, k);
    }
}

/// Reducing twice gives the remainder that lies between zero and the divisor.
pub proof fn lemma_twice_reduced(a: int, b: int)
    requires
        b != 0,
    ensures
        twice_reduced(a, b) == floor_mod(a, b),
        b > 0 ==> 0 <= floor_mod(a, b) < b && floor_mod(a, b) == a % b,
        b < 0 ==> b < floor_mod(a, b) <= 0,
{
    let c = abs(b);
    let once = trunc_rem(a, b) + b;
    if b < 0 {
        lemma_negative_divisor(a, b);
        lemma_negative_divisor(-a, b);
        lemma_negative_divisor(once, b);
        lemma_negative_divisor(-once, b);
    }
    lemma_mod_bound(a, c);
    lemma_mod_bound(-a, c);
    lemma_mod_opposite(a, c);
    let first = abs(trunc_rem(a, b));
    lemma_small(first, c);
    lemma_mod_shift(first, c);
    lemma_small(once, c);
    lemma_small(-once, c);
}

} // verus!
