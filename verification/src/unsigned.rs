//! The unsigned integer types as scalars.

use crate::modular::{
    div_toward_zero, lemma_div_toward_zero_bounds, lemma_wrap_fixes_range, lemma_wrap_of_residue,
    lemma_wrap_one_step, wrap_wide,
};
use crate::scalar::Scalar;
use vstd::prelude::*;

verus! {

impl Scalar for u8 {
    open spec fn value(self) -> int {
        self as int
    }

    open spec fn lo() -> int {
        u8::MIN as int
    }

    open spec fn hi() -> int {
        u8::MAX as int
    }

    proof fn lemma_limits() {
    }

    proof fn lemma_value_in_range(self) {
    }

    proof fn lemma_value_injective(self, other: Self) {
    }

    fn zero() -> (r: Self) {
        0
    }

    fn one() -> (r: Self) {
        1
    }

    fn min_value() -> (r: Self) {
        u8::MIN
    }

    fn max_value() -> (r: Self) {
        u8::MAX
    }

    fn to_wide(self) -> (w: i128) {
        self as i128
    }

    fn from_wide(w: i128) -> (r: Self) {
        wrap_wide(w, u8::MIN as i128, u8::MAX as i128) as u8
    }

    fn plus(self, rhs: Self) -> (r: Self) {
        proof {
            lemma_wrap_one_step(self + rhs, Self::lo(), Self::hi());
        }
        self.wrapping_add(rhs)
    }

    fn minus(self, rhs: Self) -> (r: Self) {
        proof {
            lemma_wrap_one_step(self - rhs, Self::lo(), Self::hi());
        }
        self.wrapping_sub(rhs)
    }

    fn times(self, rhs: Self) -> (r: Self) {
        proof {
            lemma_wrap_of_residue(self * rhs, Self::lo(), Self::hi());
        }
        self.wrapping_mul(rhs)
    }

    fn quotient(self, rhs: Self) -> (r: Self) {
        proof {
            lemma_div_toward_zero_bounds(self as int, rhs as int);
            lemma_wrap_fixes_range(div_toward_zero(self as int, rhs as int), Self::lo(), Self::hi());
        }
        self / rhs
    }

    fn same(self, rhs: Self) -> (r: bool) {
        self == rhs
    }

    fn less(self, rhs: Self) -> (r: bool) {
        self < rhs
    }

    fn within(self, rhs: Self, eps: Self) -> (r: bool) {
        if self < rhs {
            rhs - self <= eps
        } else {
            self - rhs <= eps
        }
    }
}

impl Scalar for u16 {
    open spec fn value(self) -> int {
        self as int
    }

    open spec fn lo() -> int {
        u16::MIN as int
    }

    open spec fn hi() -> int {
        u16::MAX as int
    }

    proof fn lemma_limits() {
    }

    proof fn lemma_value_in_range(self) {
    }

    proof fn lemma_value_injective(self, other: Self) {
    }

    fn zero() -> (r: Self) {
        0
    }

    fn one() -> (r: Self) {
        1
    }

    fn min_value() -> (r: Self) {
        u16::MIN
    }

    fn max_value() -> (r: Self) {
        u16::MAX
    }

    fn to_wide(self) -> (w: i128) {
        self as i128
    }

    fn from_wide(w: i128) -> (r: Self) {
        wrap_wide(w, u16::MIN as i128, u16::MAX as i128) as u16
    }

    fn plus(self, rhs: Self) -> (r: Self) {
        proof {
            lemma_wrap_one_step(self + rhs, Self::lo(), Self::hi());
        }
        self.wrapping_add(rhs)
    }

    fn minus(self, rhs: Self) -> (r: Self) {
        proof {
            lemma_wrap_one_step(self - rhs, Self::lo(), Self::hi());
        }
        self.wrapping_sub(rhs)
    }

    fn times(self, rhs: Self) -> (r: Self) {
        proof {
            lemma_wrap_of_residue(self * rhs, Self::lo(), Self::hi());
        }
        self.wrapping_mul(rhs)
    }

    fn quotient(self, rhs: Self) -> (r: Self) {
        proof {
            lemma_div_toward_zero_bounds(self as int, rhs as int);
            lemma_wrap_fixes_range(div_toward_zero(self as int, rhs as int), Self::lo(), Self::hi());
        }
        self / rhs
    }

    fn same(self, rhs: Self) -> (r: bool) {
        self == rhs
    }

    fn less(self, rhs: Self) -> (r: bool) {
        self < rhs
    }

    fn within(self, rhs: Self, eps: Self) -> (r: bool) {
        if self < rhs {
            rhs - self <= eps
        } else {
            self - rhs <= eps
        }
    }
}

impl Scalar for u32 {
    open spec fn value(self) -> int {
        self as int
    }

    open spec fn lo() -> int {
        u32::MIN as int
    }

    open spec fn hi() -> int {
        u32::MAX as int
    }

    proof fn lemma_limits() {
    }

    proof fn lemma_value_in_range(self) {
    }

    proof fn lemma_value_injective(self, other: Self) {
    }

    fn zero() -> (r: Self) {
        0
    }

    fn one() -> (r: Self) {
        1
    }

    fn min_value() -> (r: Self) {
        u32::MIN
    }

    fn max_value() -> (r: Self) {
        u32::MAX
    }

    fn to_wide(self) -> (w: i128) {
        self as i128
    }

    fn from_wide(w: i128) -> (r: Self) {
        wrap_wide(w, u32::MIN as i128, u32::MAX as i128) as u32
    }

    fn plus(self, rhs: Self) -> (r: Self) {
        proof {
            lemma_wrap_one_step(self + rhs, Self::lo(), Self::hi());
        }
        self.wrapping_add(rhs)
    }

    fn minus(self, rhs: Self) -> (r: Self) {
        proof {
            lemma_wrap_one_step(self - rhs, Self::lo(), Self::hi());
        }
        self.wrapping_sub(rhs)
    }

    fn times(self, rhs: Self) -> (r: Self) {
        proof {
            lemma_wrap_of_residue(self * rhs, Self::lo(), Self::hi());
        }
        self.wrapping_mul(rhs)
    }

    fn quotient(self, rhs: Self) -> (r: Self) {
        proof {
            lemma_div_toward_zero_bounds(self as int, rhs as int);
            lemma_wrap_fixes_range(div_toward_zero(self as int, rhs as int), Self::lo(), Self::hi());
        }
        self / rhs
    }

    fn same(self, rhs: Self) -> (r: bool) {
        self == rhs
    }

    fn less(self, rhs: Self) -> (r: bool) {
        self < rhs
    }

    fn within(self, rhs: Self, eps: Self) -> (r: bool) {
        if self < rhs {
            rhs - self <= eps
        } else {
            self - rhs <= eps
        }
    }
}

impl Scalar for u64 {
    open spec fn value(self) -> int {
        self as int
    }

    open spec fn lo() -> int {
        u64::MIN as int
    }

    open spec fn hi() -> int {
        u64::MAX as int
    }

    proof fn lemma_limits() {
    }

    proof fn lemma_value_in_range(self) {
    }

    proof fn lemma_value_injective(self, other: Self) {
    }

    fn zero() -> (r: Self) {
        0
    }

    fn one() -> (r: Self) {
        1
    }

    fn min_value() -> (r: Self) {
        u64::MIN
    }

    fn max_value() -> (r: Self) {
        u64::MAX
    }

    fn to_wide(self) -> (w: i128) {
        self as i128
    }

    fn from_wide(w: i128) -> (r: Self) {
        wrap_wide(w, u64::MIN as i128, u64::MAX as i128) as u64
    }

    fn plus(self, rhs: Self) -> (r: Self) {
        proof {
            lemma_wrap_one_step(self + rhs, Self::lo(), Self::hi());
        }
        self.wrapping_add(rhs)
    }

    fn minus(self, rhs: Self) -> (r: Self) {
        proof {
            lemma_wrap_one_step(self - rhs, Self::lo(), Self::hi());
        }
        self.wrapping_sub(rhs)
    }

    fn times(self, rhs: Self) -> (r: Self) {
        proof {
            lemma_wrap_of_residue(self * rhs, Self::lo(), Self::hi());
        }
        self.wrapping_mul(rhs)
    }

    fn quotient(self, rhs: Self) -> (r: Self) {
        proof {
            lemma_div_toward_zero_bounds(self as int, rhs as int);
            lemma_wrap_fixes_range(div_toward_zero(self as int, rhs as int), Self::lo(), Self::hi());
        }
        self / rhs
    }

    fn same(self, rhs: Self) -> (r: bool) {
        self == rhs
    }

    fn less(self, rhs: Self) -> (r: bool) {
        self < rhs
    }

    fn within(self, rhs: Self, eps: Self) -> (r: bool) {
        if self < rhs {
            rhs - self <= eps
        } else {
            self - rhs <= eps
        }
    }
}

impl Scalar for usize {
    open spec fn value(self) -> int {
        self as int
    }

    open spec fn lo() -> int {
        usize::MIN as int
    }

    open spec fn hi() -> int {
        usize::MAX as int
    }

    proof fn lemma_limits() {
    }

    proof fn lemma_value_in_range(self) {
    }

    proof fn lemma_value_injective(self, other: Self) {
    }

    fn zero() -> (r: Self) {
        0
    }

    fn one() -> (r: Self) {
        1
    }

    fn min_value() -> (r: Self) {
        usize::MIN
    }

    fn max_value() -> (r: Self) {
        usize::MAX
    }

    fn to_wide(self) -> (w: i128) {
        self as i128
    }

    fn from_wide(w: i128) -> (r: Self) {
        wrap_wide(w, usize::MIN as i128, usize::MAX as i128) as usize
    }

    fn plus(self, rhs: Self) -> (r: Self) {
        proof {
            lemma_wrap_one_step(self + rhs, Self::lo(), Self::hi());
        }
        self.wrapping_add(rhs)
    }

    fn minus(self, rhs: Self) -> (r: Self) {
        proof {
            lemma_wrap_one_step(self - rhs, Self::lo(), Self::hi());
        }
        self.wrapping_sub(rhs)
    }

    fn times(self, rhs: Self) -> (r: Self) {
        proof {
            lemma_wrap_of_residue(self * rhs, Self::lo(), Self::hi());
        }
        self.wrapping_mul(rhs)
    }

    fn quotient(self, rhs: Self) -> (r: Self) {
        proof {
            lemma_div_toward_zero_bounds(self as int, rhs as int);
            lemma_wrap_fixes_range(div_toward_zero(self as int, rhs as int), Self::lo(), Self::hi());
        }
        self / rhs
    }

    fn same(self, rhs: Self) -> (r: bool) {
        self == rhs
    }

    fn less(self, rhs: Self) -> (r: bool) {
        self < rhs
    }

    fn within(self, rhs: Self, eps: Self) -> (r: bool) {
        if self < rhs {
            rhs - self <= eps
        } else {
            self - rhs <= eps
        }
    }
}

} // verus!
