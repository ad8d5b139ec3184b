//! What a point's components must be able to do.
//!
//! A scalar stands for an integer, its `value`, between the bounds `lo` and `hi` of its type.
//! Sums, differences and products wrap around those bounds, as two's-complement hardware does,
//! so every operation is total except division by zero. Each fixed-width integer type is a
//! scalar; the signed ones can also be negated.

use crate::modular::{div_toward_zero, magnitude, wrap};
use vstd::prelude::*;

verus! {

/// `x` reduced into the range of the scalar type `N`.
pub open spec fn wrapped<N: Scalar>(x: int) -> int {
    wrap(x, N::lo(), N::hi())
}

/// Whether `x` is the value of some scalar of type `N`.
pub open spec fn fits<N: Scalar>(x: int) -> bool {
    N::lo() <= x <= N::hi()
}

/// A fixed-width integer type as the component of a point: it stands for an integer between
/// two bounds, and its arithmetic wraps around them.
pub trait Scalar: Copy + Sized {
    /// The integer that this scalar stands for.
    spec fn value(self) -> int;

    /// The least value of the type.
    spec fn lo() -> int;

    /// The greatest value of the type.
    spec fn hi() -> int;

    /// The type holds zero and one, and no more than 64 bits of either sign.
    proof fn lemma_limits()
        ensures
            -0x8000_0000_0000_0000 <= Self::lo() <= 0,
            1 <= Self::hi() <= 0xffff_ffff_ffff_ffff,
    ;

    /// Every scalar's value lies within the bounds of its type.
    proof fn lemma_value_in_range(self)
        ensures
            Self::lo() <= self.value() <= Self::hi(),
    ;

    /// Two scalars with one value are one scalar.
    proof fn lemma_value_injective(self, other: Self)
        ensures
            self.value() == other.value() ==> self == other,
    ;

    /// The additive identity.
    fn zero() -> (r: Self)
        ensures
            r.value() == 0,
    ;

    /// The multiplicative identity.
    fn one() -> (r: Self)
        ensures
            r.value() == 1,
    ;

    /// The least scalar of the type.
    fn min_value() -> (r: Self)
        ensures
            r.value() == Self::lo(),
    ;

    /// The greatest scalar of the type.
    fn max_value() -> (r: Self)
        ensures
            r.value() == Self::hi(),
    ;

    /// The value, in a type wide enough for every scalar type.
    fn to_wide(self) -> (w: i128)
        ensures
            w == self.value(),
    ;

    /// The scalar that a wide integer becomes when the bits above the type's width are dropped.
    fn from_wide(w: i128) -> (r: Self)
        ensures
            r.value() == wrap(w as int, Self::lo(), Self::hi()),
    ;

    /// The wrapping sum.
    fn plus(self, rhs: Self) -> (r: Self)
        ensures
            r.value() == wrap(self.value() + rhs.value(), Self::lo(), Self::hi()),
    ;

    /// The wrapping difference.
    fn minus(self, rhs: Self) -> (r: Self)
        ensures
            r.value() == wrap(self.value() - rhs.value(), Self::lo(), Self::hi()),
    ;

    /// The wrapping product.
    fn times(self, rhs: Self) -> (r: Self)
        ensures
            r.value() == wrap(self.value() * rhs.value(), Self::lo(), Self::hi()),
    ;

    /// The quotient rounded toward zero; it wraps in the one case that leaves the type, the
    /// least value of a signed type divided by minus one.
    fn quotient(self, rhs: Self) -> (r: Self)
        requires
            rhs.value() != 0,
        ensures
            r.value() == wrap(
                div_toward_zero(self.value(), rhs.value()),
                Self::lo(),
                Self::hi(),
            ),
    ;

    /// Whether the two scalars are equal.
    fn same(self, rhs: Self) -> (r: bool)
        ensures
            r == (self.value() == rhs.value()),
    ;

    /// Whether this scalar is strictly less than the other.
    fn less(self, rhs: Self) -> (r: bool)
        ensures
            r == (self.value() < rhs.value()),
    ;

    /// Whether the two scalars differ by no more than `eps`.
    fn within(self, rhs: Self, eps: Self) -> (r: bool)
        ensures
            r == (magnitude(self.value() - rhs.value()) <= eps.value()),
    ;
}

/// A scalar type with negative values.
pub trait Signed: Scalar {
    /// The wrapping negation: the least value of the type is its own negation.
    fn negated(self) -> (r: Self)
        ensures
            r.value() == wrap(-self.value(), Self::lo(), Self::hi()),
    ;
}

} // verus!
