//! The unsigned machine integers as scalars.

use crate::scalar::{Scalar, UnsignedScalar};
use vstd::prelude::*;

verus! {

impl Scalar for u8 {
    open spec fn as_int(self) -> int {
        self as int
    }

    open spec fn from_int(v: int) -> Self {
        v as u8
    }

    open spec fn lowest() -> int {
        0
    }

    open spec fn highest() -> int {
        u8::MAX as int
    }

    proof fn lemma_in_range(self) {
    }

    proof fn lemma_limits() {
    }

    proof fn lemma_from_as_int(self) {
    }

    proof fn lemma_as_from_int(v: int) {
    }

    fn zero() -> (r: Self) {
        0
    }

    fn one() -> (r: Self) {
        1
    }

    fn plus(self, rhs: Self) -> (r: Self) {
        self + rhs
    }

    fn minus(self, rhs: Self) -> (r: Self) {
        self - rhs
    }

    fn times(self, rhs: Self) -> (r: Self) {
        self * rhs
    }

    fn quotient(self, rhs: Self) -> (r: Self) {
        self / rhs
    }

    fn remainder(self, rhs: Self) -> (r: Self) {
        self % rhs
    }

    fn is_less(self, rhs: Self) -> (b: bool) {
        self < rhs
    }

    fn is_zero(self) -> (b: bool) {
        self == 0
    }

    fn is_negative(self) -> (b: bool) {
        false
    }

    fn magnitude(self) -> (m: u128) {
        self as u128
    }

    fn from_magnitude(negative: bool, m: u128) -> (r: Option<Self>) {
        if m == 0 {
            Some(0)
        } else if !negative && m <= u8::MAX as u128 {
            Some(m as u8)
        } else {
            None
        }
    }
}

impl UnsignedScalar for u8 {
    proof fn lemma_unsigned_limits() {
    }
}

impl Scalar for u16 {
    open spec fn as_int(self) -> int {
        self as int
    }

    open spec fn from_int(v: int) -> Self {
        v as u16
    }

    open spec fn lowest() -> int {
        0
    }

    open spec fn highest() -> int {
        u16::MAX as int
    }

    proof fn lemma_in_range(self) {
    }

    proof fn lemma_limits() {
    }

    proof fn lemma_from_as_int(self) {
    }

    proof fn lemma_as_from_int(v: int) {
    }

    fn zero() -> (r: Self) {
        0
    }

    fn one() -> (r: Self) {
        1
    }

    fn plus(self, rhs: Self) -> (r: Self) {
        self + rhs
    }

    fn minus(self, rhs: Self) -> (r: Self) {
        self - rhs
    }

    fn times(self, rhs: Self) -> (r: Self) {
        self * rhs
    }

    fn quotient(self, rhs: Self) -> (r: Self) {
        self / rhs
    }

    fn remainder(self, rhs: Self) -> (r: Self) {
        self % rhs
    }

    fn is_less(self, rhs: Self) -> (b: bool) {
        self < rhs
    }

    fn is_zero(self) -> (b: bool) {
        self == 0
    }

    fn is_negative(self) -> (b: bool) {
        false
    }

    fn magnitude(self) -> (m: u128) {
        self as u128
    }

    fn from_magnitude(negative: bool, m: u128) -> (r: Option<Self>) {
        if m == 0 {
            Some(0)
        } else if !negative && m <= u16::MAX as u128 {
            Some(m as u16)
        } else {
            None
        }
    }
}

impl UnsignedScalar for u16 {
    proof fn lemma_unsigned_limits() {
    }
}

impl Scalar for u32 {
    open spec fn as_int(self) -> int {
        self as int
    }

    open spec fn from_int(v: int) -> Self {
        v as u32
    }

    open spec fn lowest() -> int {
        0
    }

    open spec fn highest() -> int {
        u32::MAX as int
    }

    proof fn lemma_in_range(self) {
    }

    proof fn lemma_limits() {
    }

    proof fn lemma_from_as_int(self) {
    }

    proof fn lemma_as_from_int(v: int) {
    }

    fn zero() -> (r: Self) {
        0
    }

    fn one() -> (r: Self) {
        1
    }

    fn plus(self, rhs: Self) -> (r: Self) {
        self + rhs
    }

    fn minus(self, rhs: Self) -> (r: Self) {
        self - rhs
    }

    fn times(self, rhs: Self) -> (r: Self) {
        self * rhs
    }

    fn quotient(self, rhs: Self) -> (r: Self) {
        self / rhs
    }

    fn remainder(self, rhs: Self) -> (r: Self) {
        self % rhs
    }

    fn is_less(self, rhs: Self) -> (b: bool) {
        self < rhs
    }

    fn is_zero(self) -> (b: bool) {
        self == 0
    }

    fn is_negative(self) -> (b: bool) {
        false
    }

    fn magnitude(self) -> (m: u128) {
        self as u128
    }

    fn from_magnitude(negative: bool, m: u128) -> (r: Option<Self>) {
        if m == 0 {
            Some(0)
        } else if !negative && m <= u32::MAX as u128 {
            Some(m as u32)
        } else {
            None
        }
    }
}

impl UnsignedScalar for u32 {
    proof fn lemma_unsigned_limits() {
    }
}

impl Scalar for u64 {
    open spec fn as_int(self) -> int {
        self as int
    }

    open spec fn from_int(v: int) -> Self {
        v as u64
    }

    open spec fn lowest() -> int {
        0
    }

    open spec fn highest() -> int {
        u64::MAX as int
    }

    proof fn lemma_in_range(self) {
    }

    proof fn lemma_limits() {
    }

    proof fn lemma_from_as_int(self) {
    }

    proof fn lemma_as_from_int(v: int) {
    }

    fn zero() -> (r: Self) {
        0
    }

    fn one() -> (r: Self) {
        1
    }

    fn plus(self, rhs: Self) -> (r: Self) {
        self + rhs
    }

    fn minus(self, rhs: Self) -> (r: Self) {
        self - rhs
    }

    fn times(self, rhs: Self) -> (r: Self) {
        self * rhs
    }

    fn quotient(self, rhs: Self) -> (r: Self) {
        self / rhs
    }

    fn remainder(self, rhs: Self) -> (r: Self) {
        self % rhs
    }

    fn is_less(self, rhs: Self) -> (b: bool) {
        self < rhs
    }

    fn is_zero(self) -> (b: bool) {
        self == 0
    }

    fn is_negative(self) -> (b: bool) {
        false
    }

    fn magnitude(self) -> (m: u128) {
        self as u128
    }

    fn from_magnitude(negative: bool, m: u128) -> (r: Option<Self>) {
        if m == 0 {
            Some(0)
        } else if !negative && m <= u64::MAX as u128 {
            Some(m as u64)
        } else {
            None
        }
    }
}

impl UnsignedScalar for u64 {
    proof fn lemma_unsigned_limits() {
    }
}

impl Scalar for u128 {
    open spec fn as_int(self) -> int {
        self as int
    }

    open spec fn from_int(v: int) -> Self {
        v as u128
    }

    open spec fn lowest() -> int {
        0
    }

    open spec fn highest() -> int {
        u128::MAX as int
    }

    proof fn lemma_in_range(self) {
    }

    proof fn lemma_limits() {
    }

    proof fn lemma_from_as_int(self) {
    }

    proof fn lemma_as_from_int(v: int) {
    }

    fn zero() -> (r: Self) {
        0
    }

    fn one() -> (r: Self) {
        1
    }

    fn plus(self, rhs: Self) -> (r: Self) {
        self + rhs
    }

    fn minus(self, rhs: Self) -> (r: Self) {
        self - rhs
    }

    fn times(self, rhs: Self) -> (r: Self) {
        self * rhs
    }

    fn quotient(self, rhs: Self) -> (r: Self) {
        self / rhs
    }

    fn remainder(self, rhs: Self) -> (r: Self) {
        self % rhs
    }

    fn is_less(self, rhs: Self) -> (b: bool) {
        self < rhs
    }

    fn is_zero(self) -> (b: bool) {
        self == 0
    }

    fn is_negative(self) -> (b: bool) {
        false
    }

    fn magnitude(self) -> (m: u128) {
        self as u128
    }

    fn from_magnitude(negative: bool, m: u128) -> (r: Option<Self>) {
        if m == 0 {
            Some(0)
        } else if !negative && m <= u128::MAX as u128 {
            Some(m as u128)
        } else {
            None
        }
    }
}

impl UnsignedScalar for u128 {
    proof fn lemma_unsigned_limits() {
    }
}

impl Scalar for usize {
    open spec fn as_int(self) -> int {
        self as int
    }

    open spec fn from_int(v: int) -> Self {
        v as usize
    }

    open spec fn lowest() -> int {
        0
    }

    open spec fn highest() -> int {
        usize::MAX as int
    }

    proof fn lemma_in_range(self) {
    }

    proof fn lemma_limits() {
    }

    proof fn lemma_from_as_int(self) {
    }

    proof fn lemma_as_from_int(v: int) {
    }

    fn zero() -> (r: Self) {
        0
    }

    fn one() -> (r: Self) {
        1
    }

    fn plus(self, rhs: Self) -> (r: Self) {
        self + rhs
    }

    fn minus(self, rhs: Self) -> (r: Self) {
        self - rhs
    }

    fn times(self, rhs: Self) -> (r: Self) {
        self * rhs
    }

    fn quotient(self, rhs: Self) -> (r: Self) {
        self / rhs
    }

    fn remainder(self, rhs: Self) -> (r: Self) {
        self % rhs
    }

    fn is_less(self, rhs: Self) -> (b: bool) {
        self < rhs
    }

    fn is_zero(self) -> (b: bool) {
        self == 0
    }

    fn is_negative(self) -> (b: bool) {
        false
    }

    fn magnitude(self) -> (m: u128) {
        self as u128
    }

    fn from_magnitude(negative: bool, m: u128) -> (r: Option<Self>) {
        if m == 0 {
            Some(0)
        } else if !negative && m <= usize::MAX as u128 {
            Some(m as usize)
        } else {
            None
        }
    }
}

impl UnsignedScalar for usize {
    proof fn lemma_unsigned_limits() {
    }
}

} // verus!
