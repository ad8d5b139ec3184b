//! The signed integer types as scalars.

use crate::modular::{
    div_toward_zero, lemma_div_toward_zero_bounds, lemma_wrap_of_residue, lemma_wrap_one_step,
    wrap_wide,
};
use crate::scalar::{Scalar, Signed};
use vstd::prelude::*;

verus! {

impl Scalar for i8 {
    open spec fn value(self) -> int {
        self as int
    }

    open spec fn lo() -> int {
        i8::MIN as int
    }

    open spec fn hi() -> int {
        i8::MAX as int
    }

    proof fn lemma_limits() {
    }

    proof fn lemma_value_in_range(self) {
    }

    proof fn lemma_value_injective(self, other: Self) {
    }

    fn zero() -> (r: Self) {
        0
    }

    fn one() -> (r: Self) {
        1
    }

    fn min_value() -> (r: Self) {
        i8::MIN
    }

    fn max_value() -> (r: Self) {
        i8::MAX
    }

    fn to_wide(self) -> (w: i128) {
        self as i128
    }

    fn from_wide(w: i128) -> (r: Self) {
        wrap_wide(w, i8::MIN as i128, i8::MAX as i128) as i8
    }

    fn plus(self, rhs: Self) -> (r: Self) {
        proof {
            lemma_wrap_one_step(self + rhs, Self::lo(), Self::hi());
        }
        self.wrapping_add(rhs)
    }

    fn minus(self, rhs: Self) -> (r: Self) {
        proof {
            lemma_wrap_one_step(self - rhs, Self::lo(), Self::hi());
        }
        self.wrapping_sub(rhs)
    }

    fn times(self, rhs: Self) -> (r: Self) {
        proof {
            lemma_wrap_of_residue(self * rhs, Self::lo(), Self::hi());
        }
        self.wrapping_mul(rhs)
    }

    fn quotient(self, rhs: Self) -> (r: Self) {
        proof {
            lemma_div_toward_zero_bounds(self as int, rhs as int);
            lemma_wrap_one_step(div_toward_zero(self as int, rhs as int), Self::lo(), Self::hi());
        }
        if self == i8::MIN && rhs == -1 {
            i8::MIN
        } else {
            self / rhs
        }
    }

    fn same(self, rhs: Self) -> (r: bool) {
        self == rhs
    }

    fn less(self, rhs: Self) -> (r: bool) {
        self < rhs
    }

    fn within(self, rhs: Self, eps: Self) -> (r: bool) {
        let d: i128 = self as i128 - rhs as i128;
        if d < 0 {
            -d <= eps as i128
        } else {
            d <= eps as i128
        }
    }
}

impl Signed for i8 {
    fn negated(self) -> (r: Self) {
        proof {
            lemma_wrap_one_step(-self, Self::lo(), Self::hi());
        }
        let zero: i8 = 0;
        zero.wrapping_sub(self)
    }
}

impl Scalar for i16 {
    open spec fn value(self) -> int {
        self as int
    }

    open spec fn lo() -> int {
        i16::MIN as int
    }

    open spec fn hi() -> int {
        i16::MAX as int
    }

    proof fn lemma_limits() {
    }

    proof fn lemma_value_in_range(self) {
    }

    proof fn lemma_value_injective(self, other: Self) {
    }

    fn zero() -> (r: Self) {
        0
    }

    fn one() -> (r: Self) {
        1
    }

    fn min_value() -> (r: Self) {
        i16::MIN
    }

    fn max_value() -> (r: Self) {
        i16::MAX
    }

    fn to_wide(self) -> (w: i128) {
        self as i128
    }

    fn from_wide(w: i128) -> (r: Self) {
        wrap_wide(w, i16::MIN as i128, i16::MAX as i128) as i16
    }

    fn plus(self, rhs: Self) -> (r: Self) {
        proof {
            lemma_wrap_one_step(self + rhs, Self::lo(), Self::hi());
        }
        self.wrapping_add(rhs)
    }

    fn minus(self, rhs: Self) -> (r: Self) {
        proof {
            lemma_wrap_one_step(self - rhs, Self::lo(), Self::hi());
        }
        self.wrapping_sub(rhs)
    }

    fn times(self, rhs: Self) -> (r: Self) {
        proof {
            lemma_wrap_of_residue(self * rhs, Self::lo(), Self::hi());
        }
        self.wrapping_mul(rhs)
    }

    fn quotient(self, rhs: Self) -> (r: Self) {
        proof {
            lemma_div_toward_zero_bounds(self as int, rhs as int);
            lemma_wrap_one_step(div_toward_zero(self as int, rhs as int), Self::lo(), Self::hi());
        }
        if self == i16::MIN && rhs == -1 {
            i16::MIN
        } else {
            self / rhs
        }
    }

    fn same(self, rhs: Self) -> (r: bool) {
        self == rhs
    }

    fn less(self, rhs: Self) -> (r: bool) {
        self < rhs
    }

    fn within(self, rhs: Self, eps: Self) -> (r: bool) {
        let d: i128 = self as i128 - rhs as i128;
        if d < 0 {
            -d <= eps as i128
        } else {
            d <= eps as i128
        }
    }
}

impl Signed for i16 {
    fn negated(self) -> (r: Self) {
        proof {
            lemma_wrap_one_step(-self, Self::lo(), Self::hi());
        }
        let zero: i16 = 0;
        zero.wrapping_sub(self)
    }
}

impl Scalar for i32 {
    open spec fn value(self) -> int {
        self as int
    }

    open spec fn lo() -> int {
        i32::MIN as int
    }

    open spec fn hi() -> int {
        i32::MAX as int
    }

    proof fn lemma_limits() {
    }

    proof fn lemma_value_in_range(self) {
    }

    proof fn lemma_value_injective(self, other: Self) {
    }

    fn zero() -> (r: Self) {
        0
    }

    fn one() -> (r: Self) {
        1
    }

    fn min_value() -> (r: Self) {
        i32::MIN
    }

    fn max_value() -> (r: Self) {
        i32::MAX
    }

    fn to_wide(self) -> (w: i128) {
        self as i128
    }

    fn from_wide(w: i128) -> (r: Self) {
        wrap_wide(w, i32::MIN as i128, i32::MAX as i128) as i32
    }

    fn plus(self, rhs: Self) -> (r: Self) {
        proof {
            lemma_wrap_one_step(self + rhs, Self::lo(), Self::hi());
        }
        self.wrapping_add(rhs)
    }

    fn minus(self, rhs: Self) -> (r: Self) {
        proof {
            lemma_wrap_one_step(self - rhs, Self::lo(), Self::hi());
        }
        self.wrapping_sub(rhs)
    }

    fn times(self, rhs: Self) -> (r: Self) {
        proof {
            lemma_wrap_of_residue(self * rhs, Self::lo(), Self::hi());
        }
        self.wrapping_mul(rhs)
    }

    fn quotient(self, rhs: Self) -> (r: Self) {
        proof {
            lemma_div_toward_zero_bounds(self as int, rhs as int);
            lemma_wrap_one_step(div_toward_zero(self as int, rhs as int), Self::lo(), Self::hi());
        }
        if self == i32::MIN && rhs == -1 {
            i32::MIN
        } else {
            self / rhs
        }
    }

    fn same(self, rhs: Self) -> (r: bool) {
        self == rhs
    }

    fn less(self, rhs: Self) -> (r: bool) {
        self < rhs
    }

    fn within(self, rhs: Self, eps: Self) -> (r: bool) {
        let d: i128 = self as i128 - rhs as i128;
        if d < 0 {
            -d <= eps as i128
        } else {
            d <= eps as i128
        }
    }
}

impl Signed for i32 {
    fn negated(self) -> (r: Self) {
        proof {
            lemma_wrap_one_step(-self, Self::lo(), Self::hi());
        }
        let zero: i32 = 0;
        zero.wrapping_sub(self)
    }
}

impl Scalar for i64 {
    open spec fn value(self) -> int {
        self as int
    }

    open spec fn lo() -> int {
        i64::MIN as int
    }

    open spec fn hi() -> int {
        i64::MAX as int
    }

    proof fn lemma_limits() {
    }

    proof fn lemma_value_in_range(self) {
    }

    proof fn lemma_value_injective(self, other: Self) {
    }

    fn zero() -> (r: Self) {
        0
    }

    fn one() -> (r: Self) {
        1
    }

    fn min_value() -> (r: Self) {
        i64::MIN
    }

    fn max_value() -> (r: Self) {
        i64::MAX
    }

    fn to_wide(self) -> (w: i128) {
        self as i128
    }

    fn from_wide(w: i128) -> (r: Self) {
        wrap_wide(w, i64::MIN as i128, i64::MAX as i128) as i64
    }

    fn plus(self, rhs: Self) -> (r: Self) {
        proof {
            lemma_wrap_one_step(self + rhs, Self::lo(), Self::hi());
        }
        self.wrapping_add(rhs)
    }

    fn minus(self, rhs: Self) -> (r: Self) {
        proof {
            lemma_wrap_one_step(self - rhs, Self::lo(), Self::hi());
        }
        self.wrapping_sub(rhs)
    }

    fn times(self, rhs: Self) -> (r: Self) {
        proof {
            lemma_wrap_of_residue(self * rhs, Self::lo(), Self::hi());
        }
        self.wrapping_mul(rhs)
    }

    fn quotient(self, rhs: Self) -> (r: Self) {
        proof {
            lemma_div_toward_zero_bounds(self as int, rhs as int);
            lemma_wrap_one_step(div_toward_zero(self as int, rhs as int), Self::lo(), Self::hi());
        }
        if self == i64::MIN && rhs == -1 {
            i64::MIN
        } else {
            self / rhs
        }
    }

    fn same(self, rhs: Self) -> (r: bool) {
        self == rhs
    }

    fn less(self, rhs: Self) -> (r: bool) {
        self < rhs
    }

    fn within(self, rhs: Self, eps: Self) -> (r: bool) {
        let d: i128 = self as i128 - rhs as i128;
        if d < 0 {
            -d <= eps as i128
        } else {
            d <= eps as i128
        }
    }
}

impl Signed for i64 {
    fn negated(self) -> (r: Self) {
        proof {
            lemma_wrap_one_step(-self, Self::lo(), Self::hi());
        }
        let zero: i64 = 0;
        zero.wrapping_sub(self)
    }
}

impl Scalar for isize {
    open spec fn value(self) -> int {
        self as int
    }

    open spec fn lo() -> int {
        isize::MIN as int
    }

    open spec fn hi() -> int {
        isize::MAX as int
    }

    proof fn lemma_limits() {
    }

    proof fn lemma_value_in_range(self) {
    }

    proof fn lemma_value_injective(self, other: Self) {
    }

    fn zero() -> (r: Self) {
        0
    }

    fn one() -> (r: Self) {
        1
    }

    fn min_value() -> (r: Self) {
        isize::MIN
    }

    fn max_value() -> (r: Self) {
        isize::MAX
    }

    fn to_wide(self) -> (w: i128) {
        self as i128
    }

    fn from_wide(w: i128) -> (r: Self) {
        wrap_wide(w, isize::MIN as i128, isize::MAX as i128) as isize
    }

    fn plus(self, rhs: Self) -> (r: Self) {
        proof {
            lemma_wrap_one_step(self + rhs, Self::lo(), Self::hi());
        }
        self.wrapping_add(rhs)
    }

    fn minus(self, rhs: Self) -> (r: Self) {
        proof {
            lemma_wrap_one_step(self - rhs, Self::lo(), Self::hi());
        }
        self.wrapping_sub(rhs)
    }

    fn times(self, rhs: Self) -> (r: Self) {
        proof {
            lemma_wrap_of_residue(self * rhs, Self::lo(), Self::hi());
        }
        self.wrapping_mul(rhs)
    }

    fn quotient(self, rhs: Self) -> (r: Self) {
        proof {
            lemma_div_toward_zero_bounds(self as int, rhs as int);
            lemma_wrap_one_step(div_toward_zero(self as int, rhs as int), Self::lo(), Self::hi());
        }
        if self == isize::MIN && rhs == -1 {
            isize::MIN
        } else {
            self / rhs
        }
    }

    fn same(self, rhs: Self) -> (r: bool) {
        self == rhs
    }

    fn less(self, rhs: Self) -> (r: bool) {
        self < rhs
    }

    fn within(self, rhs: Self, eps: Self) -> (r: bool) {
        let d: i128 = self as i128 - rhs as i128;
        if d < 0 {
            -d <= eps as i128
        } else {
            d <= eps as i128
        }
    }
}

impl Signed for isize {
    fn negated(self) -> (r: Self) {
        proof {
            lemma_wrap_one_step(-self, Self::lo(), Self::hi());
        }
        let zero: isize = 0;
        zero.wrapping_sub(self)
    }
}

} // verus!
