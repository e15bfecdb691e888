//! The signed machine integers as scalars.

use crate::arith::lemma_minus_one;
use crate::scalar::{Scalar, SignedScalar};
use vstd::prelude::*;

verus! {

impl Scalar for i8 {
    open spec fn as_int(self) -> int {
        self as int
    }

    open spec fn from_int(v: int) -> Self {
        v as i8
    }

    open spec fn lowest() -> int {
        i8::MIN as int
    }

    open spec fn highest() -> int {
        i8::MAX as int
    }

    proof fn lemma_in_range(self) {
    }

    proof fn lemma_limits() {
    }

    proof fn lemma_from_as_int(self) {
    }

    proof fn lemma_as_from_int(v: int) {
    }

    fn zero() -> (r: Self) {
        0
    }

    fn one() -> (r: Self) {
        1
    }

    fn plus(self, rhs: Self) -> (r: Self) {
        self + rhs
    }

    fn minus(self, rhs: Self) -> (r: Self) {
        self - rhs
    }

    fn times(self, rhs: Self) -> (r: Self) {
        self * rhs
    }

    fn quotient(self, rhs: Self) -> (r: Self) {
        proof {
            lemma_minus_one(self as int);
        }
        self / rhs
    }

    fn remainder(self, rhs: Self) -> (r: Self) {
        proof {
            lemma_minus_one(self as int);
        }
        self % rhs
    }

    fn is_less(self, rhs: Self) -> (b: bool) {
        self < rhs
    }

    fn is_zero(self) -> (b: bool) {
        self == 0
    }

    fn is_negative(self) -> (b: bool) {
        self < 0
    }

    fn magnitude(self) -> (m: u128) {
        if self < 0 {
            (-(self as i128)) as u128
        } else {
            self as u128
        }
    }

    fn from_magnitude(negative: bool, m: u128) -> (r: Option<Self>) {
        if negative {
            if m <= (i8::MAX as u128) + 1 {
                Some((-(m as i128)) as i8)
            } else {
                None
            }
        } else if m <= i8::MAX as u128 {
            Some(m as i8)
        } else {
            None
        }
    }
}

impl SignedScalar for i8 {
    proof fn lemma_signed_limits() {
    }

    fn abs_value(self) -> (r: Self) {
        if self < 0 {
            -self
        } else {
            self
        }
    }
}

impl Scalar for i16 {
    open spec fn as_int(self) -> int {
        self as int
    }

    open spec fn from_int(v: int) -> Self {
        v as i16
    }

    open spec fn lowest() -> int {
        i16::MIN as int
    }

    open spec fn highest() -> int {
        i16::MAX as int
    }

    proof fn lemma_in_range(self) {
    }

    proof fn lemma_limits() {
    }

    proof fn lemma_from_as_int(self) {
    }

    proof fn lemma_as_from_int(v: int) {
    }

    fn zero() -> (r: Self) {
        0
    }

    fn one() -> (r: Self) {
        1
    }

    fn plus(self, rhs: Self) -> (r: Self) {
        self + rhs
    }

    fn minus(self, rhs: Self) -> (r: Self) {
        self - rhs
    }

    fn times(self, rhs: Self) -> (r: Self) {
        self * rhs
    }

    fn quotient(self, rhs: Self) -> (r: Self) {
        proof {
            lemma_minus_one(self as int);
        }
        self / rhs
    }

    fn remainder(self, rhs: Self) -> (r: Self) {
        proof {
            lemma_minus_one(self as int);
        }
        self % rhs
    }

    fn is_less(self, rhs: Self) -> (b: bool) {
        self < rhs
    }

    fn is_zero(self) -> (b: bool) {
        self == 0
    }

    fn is_negative(self) -> (b: bool) {
        self < 0
    }

    fn magnitude(self) -> (m: u128) {
        if self < 0 {
            (-(self as i128)) as u128
        } else {
            self as u128
        }
    }

    fn from_magnitude(negative: bool, m: u128) -> (r: Option<Self>) {
        if negative {
            if m <= (i16::MAX as u128) + 1 {
                Some((-(m as i128)) as i16)
            } else {
                None
            }
        } else if m <= i16::MAX as u128 {
            Some(m as i16)
        } else {
            None
        }
    }
}

impl SignedScalar for i16 {
    proof fn lemma_signed_limits() {
    }

    fn abs_value(self) -> (r: Self) {
        if self < 0 {
            -self
        } else {
            self
        }
    }
}

impl Scalar for i32 {
    open spec fn as_int(self) -> int {
        self as int
    }

    open spec fn from_int(v: int) -> Self {
        v as i32
    }

    open spec fn lowest() -> int {
        i32::MIN as int
    }

    open spec fn highest() -> int {
        i32::MAX as int
    }

    proof fn lemma_in_range(self) {
    }

    proof fn lemma_limits() {
    }

    proof fn lemma_from_as_int(self) {
    }

    proof fn lemma_as_from_int(v: int) {
    }

    fn zero() -> (r: Self) {
        0
    }

    fn one() -> (r: Self) {
        1
    }

    fn plus(self, rhs: Self) -> (r: Self) {
        self + rhs
    }

    fn minus(self, rhs: Self) -> (r: Self) {
        self - rhs
    }

    fn times(self, rhs: Self) -> (r: Self) {
        self * rhs
    }

    fn quotient(self, rhs: Self) -> (r: Self) {
        proof {
            lemma_minus_one(self as int);
        }
        self / rhs
    }

    fn remainder(self, rhs: Self) -> (r: Self) {
        proof {
            lemma_minus_one(self as int);
        }
        self % rhs
    }

    fn is_less(self, rhs: Self) -> (b: bool) {
        self < rhs
    }

    fn is_zero(self) -> (b: bool) {
        self == 0
    }

    fn is_negative(self) -> (b: bool) {
        self < 0
    }

    fn magnitude(self) -> (m: u128) {
        if self < 0 {
            (-(self as i128)) as u128
        } else {
            self as u128
        }
    }

    fn from_magnitude(negative: bool, m: u128) -> (r: Option<Self>) {
        if negative {
            if m <= (i32::MAX as u128) + 1 {
                Some((-(m as i128)) as i32)
            } else {
                None
            }
        } else if m <= i32::MAX as u128 {
            Some(m as i32)
        } else {
            None
        }
    }
}

impl SignedScalar for i32 {
    proof fn lemma_signed_limits() {
    }

    fn abs_value(self) -> (r: Self) {
        if self < 0 {
            -self
        } else {
            self
        }
    }
}

impl Scalar for i64 {
    open spec fn as_int(self) -> int {
        self as int
    }

    open spec fn from_int(v: int) -> Self {
        v as i64
    }

    open spec fn lowest() -> int {
        i64::MIN as int
    }

    open spec fn highest() -> int {
        i64::MAX as int
    }

    proof fn lemma_in_range(self) {
    }

    proof fn lemma_limits() {
    }

    proof fn lemma_from_as_int(self) {
    }

    proof fn lemma_as_from_int(v: int) {
    }

    fn zero() -> (r: Self) {
        0
    }

    fn one() -> (r: Self) {
        1
    }

    fn plus(self, rhs: Self) -> (r: Self) {
        self + rhs
    }

    fn minus(self, rhs: Self) -> (r: Self) {
        self - rhs
    }

    fn times(self, rhs: Self) -> (r: Self) {
        self * rhs
    }

    fn quotient(self, rhs: Self) -> (r: Self) {
        proof {
            lemma_minus_one(self as int);
        }
        self / rhs
    }

    fn remainder(self, rhs: Self) -> (r: Self) {
        proof {
            lemma_minus_one(self as int);
        }
        self % rhs
    }

    fn is_less(self, rhs: Self) -> (b: bool) {
        self < rhs
    }

    fn is_zero(self) -> (b: bool) {
        self == 0
    }

    fn is_negative(self) -> (b: bool) {
        self < 0
    }

    fn magnitude(self) -> (m: u128) {
        if self < 0 {
            (-(self as i128)) as u128
        } else {
            self as u128
        }
    }

    fn from_magnitude(negative: bool, m: u128) -> (r: Option<Self>) {
        if negative {
            if m <= (i64::MAX as u128) + 1 {
                Some((-(m as i128)) as i64)
            } else {
                None
            }
        } else if m <= i64::MAX as u128 {
            Some(m as i64)
        } else {
            None
        }
    }
}

impl SignedScalar for i64 {
    proof fn lemma_signed_limits() {
    }

    fn abs_value(self) -> (r: Self) {
        if self < 0 {
            -self
        } else {
            self
        }
    }
}

impl Scalar for i128 {
    open spec fn as_int(self) -> int {
        self as int
    }

    open spec fn from_int(v: int) -> Self {
        v as i128
    }

    open spec fn lowest() -> int {
        i128::MIN as int
    }

    open spec fn highest() -> int {
        i128::MAX as int
    }

    proof fn lemma_in_range(self) {
    }

    proof fn lemma_limits() {
    }

    proof fn lemma_from_as_int(self) {
    }

    proof fn lemma_as_from_int(v: int) {
    }

    fn zero() -> (r: Self) {
        0
    }

    fn one() -> (r: Self) {
        1
    }

    fn plus(self, rhs: Self) -> (r: Self) {
        self + rhs
    }

    fn minus(self, rhs: Self) -> (r: Self) {
        self - rhs
    }

    fn times(self, rhs: Self) -> (r: Self) {
        self * rhs
    }

    fn quotient(self, rhs: Self) -> (r: Self) {
        proof {
            lemma_minus_one(self as int);
        }
        self / rhs
    }

    fn remainder(self, rhs: Self) -> (r: Self) {
        proof {
            lemma_minus_one(self as int);
        }
        self % rhs
    }

    fn is_less(self, rhs: Self) -> (b: bool) {
        self < rhs
    }

    fn is_zero(self) -> (b: bool) {
        self == 0
    }

    fn is_negative(self) -> (b: bool) {
        self < 0
    }

    fn magnitude(self) -> (m: u128) {
        if self == i128::MIN {
            0x8000_0000_0000_0000_0000_0000_0000_0000u128
        } else if self < 0 {
            (-self) as u128
        } else {
            self as u128
        }
    }

    fn from_magnitude(negative: bool, m: u128) -> (r: Option<Self>) {
        if negative {
            if m < 0x8000_0000_0000_0000_0000_0000_0000_0000u128 {
                Some(-(m as i128))
            } else if m == 0x8000_0000_0000_0000_0000_0000_0000_0000u128 {
                Some(i128::MIN)
            } else {
                None
            }
        } else if m <= i128::MAX as u128 {
            Some(m as i128)
        } else {
            None
        }
    }
}

impl SignedScalar for i128 {
    proof fn lemma_signed_limits() {
    }

    fn abs_value(self) -> (r: Self) {
        if self < 0 {
            -self
        } else {
            self
        }
    }
}

impl Scalar for isize {
    open spec fn as_int(self) -> int {
        self as int
    }

    open spec fn from_int(v: int) -> Self {
        v as isize
    }

    open spec fn lowest() -> int {
        isize::MIN as int
    }

    open spec fn highest() -> int {
        isize::MAX as int
    }

    proof fn lemma_in_range(self) {
    }

    proof fn lemma_limits() {
    }

    proof fn lemma_from_as_int(self) {
    }

    proof fn lemma_as_from_int(v: int) {
    }

    fn zero() -> (r: Self) {
        0
    }

    fn one() -> (r: Self) {
        1
    }

    fn plus(self, rhs: Self) -> (r: Self) {
        self + rhs
    }

    fn minus(self, rhs: Self) -> (r: Self) {
        self - rhs
    }

    fn times(self, rhs: Self) -> (r: Self) {
        self * rhs
    }

    fn quotient(self, rhs: Self) -> (r: Self) {
        proof {
            lemma_minus_one(self as int);
        }
        self / rhs
    }

    fn remainder(self, rhs: Self) -> (r: Self) {
        proof {
            lemma_minus_one(self as int);
        }
        self % rhs
    }

    fn is_less(self, rhs: Self) -> (b: bool) {
        self < rhs
    }

    fn is_zero(self) -> (b: bool) {
        self == 0
    }

    fn is_negative(self) -> (b: bool) {
        self < 0
    }

    fn magnitude(self) -> (m: u128) {
        if self < 0 {
            (-(self as i128)) as u128
        } else {
            self as u128
        }
    }

    fn from_magnitude(negative: bool, m: u128) -> (r: Option<Self>) {
        if negative {
            if m <= (isize::MAX as u128) + 1 {
                Some((-(m as i128)) as isize)
            } else {
                None
            }
        } else if m <= isize::MAX as u128 {
            Some(m as isize)
        } else {
            None
        }
    }
}

impl SignedScalar for isize {
    proof fn lemma_signed_limits() {
    }

    fn abs_value(self) -> (r: Self) {
        if self < 0 {
            -self
        } else {
            self
        }
    }
}

} // verus!
