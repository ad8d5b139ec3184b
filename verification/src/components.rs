//! Component-wise work on fixed-length arrays of scalars.
//!
//! Points and displacements are both arrays of `D` scalars; what differs between them is which
//! operations make sense, not how an operation runs over the components. The loops live here,
//! each with a contract over the sequence of the components' values.

use crate::modular::{div_toward_zero, lemma_wrap_absorbs, magnitude};
use crate::scalar::{fits, wrapped, Scalar, Signed};
use vstd::prelude::*;

verus! {

/// The values of the components, in order.
pub open spec fn values<N: Scalar, const D: usize>(a: [N; D]) -> Seq<int> {
    Seq::new(D as nat, |i: int| a[i].value())
}

/// Component-wise wrapping sum of two sequences of values.
pub open spec fn sum_of<N: Scalar>(a: Seq<int>, b: Seq<int>) -> Seq<int> {
    Seq::new(a.len(), |i: int| wrapped::<N>(a[i] + b[i]))
}

/// Component-wise wrapping difference of two sequences of values.
pub open spec fn difference_of<N: Scalar>(a: Seq<int>, b: Seq<int>) -> Seq<int> {
    Seq::new(a.len(), |i: int| wrapped::<N>(a[i] - b[i]))
}

/// Component-wise wrapping negation.
pub open spec fn negation_of<N: Scalar>(a: Seq<int>) -> Seq<int> {
    Seq::new(a.len(), |i: int| wrapped::<N>(-a[i]))
}

/// Every component increased by `k`, wrapping.
pub open spec fn raised_by<N: Scalar>(a: Seq<int>, k: int) -> Seq<int> {
    Seq::new(a.len(), |i: int| wrapped::<N>(a[i] + k))
}

/// Every component decreased by `k`, wrapping.
pub open spec fn lowered_by<N: Scalar>(a: Seq<int>, k: int) -> Seq<int> {
    Seq::new(a.len(), |i: int| wrapped::<N>(a[i] - k))
}

/// Every component multiplied by `k`, wrapping.
pub open spec fn scaled_by<N: Scalar>(a: Seq<int>, k: int) -> Seq<int> {
    Seq::new(a.len(), |i: int| wrapped::<N>(a[i] * k))
}

/// Every component divided by `k` toward zero, wrapping.
pub open spec fn divided_by<N: Scalar>(a: Seq<int>, k: int) -> Seq<int>
    recommends
        k != 0,
{
    Seq::new(a.len(), |i: int| wrapped::<N>(div_toward_zero(a[i], k)))
}

/// Every component reduced into the range of the scalar type `M`.
pub open spec fn converted_to<M: Scalar>(a: Seq<int>) -> Seq<int> {
    Seq::new(a.len(), |i: int| wrapped::<M>(a[i]))
}

/// `y` with `a` times `x` added to it component by component, wrapping.
pub open spec fn accumulated<N: Scalar>(a: int, x: Seq<int>, y: Seq<int>) -> Seq<int> {
    Seq::new(y.len(), |i: int| wrapped::<N>(y[i] + a * x[i]))
}

/// Whether two sequences of one length differ by no more than `eps` in every component.
pub open spec fn close(a: Seq<int>, b: Seq<int>, eps: int) -> bool {
    a.len() == b.len() && forall|i: int| 0 <= i < a.len() ==> magnitude(a[i] - b[i]) <= eps
}

/// Whether every value of the sequence is one that the scalar type `N` holds.
pub open spec fn all_fit<N: Scalar>(a: Seq<int>) -> bool {
    forall|i: int| 0 <= i < a.len() ==> fits::<N>(#[trigger] a[i])
}

/// The values of an array of scalars are `D` values that the scalar type holds.
pub proof fn lemma_values_fit<N: Scalar, const D: usize>(a: [N; D])
    ensures
        values(a).len() == D,
        all_fit::<N>(values(a)),
{
    assert forall|i: int| 0 <= i < D implies fits::<N>(#[trigger] values(a)[i]) by {
        a[i].lemma_value_in_range();
    }
}

/// Two arrays with the same values are the same array.
pub proof fn lemma_values_injective<N: Scalar, const D: usize>(a: [N; D], b: [N; D])
    requires
        values(a) == values(b),
    ensures
        a == b,
{
    assert forall|i: int| 0 <= i < D implies a[i] == b[i] by {
        assert(values(a)[i] == a[i].value());
        assert(values(b)[i] == b[i].value());
        a[i].lemma_value_injective(b[i]);
    }
    assert(a =~= b);
}

/// An array with every component equal to `v`.
pub fn filled<N: Scalar, const D: usize>(v: N) -> (r: [N; D])
    ensures
        values(r) == Seq::new(D as nat, |i: int| v.value()),
{
    let r = [v; D];
    assert(values(r) =~= Seq::new(D as nat, |i: int| v.value()));
    r
}

/// The component-wise wrapping sum `a + b`.
pub fn zip_plus<N: Scalar, const D: usize>(a: &[N; D], b: &[N; D]) -> (r: [N; D])
    ensures
        values(r) == sum_of::<N>(values(*a), values(*b)),
{
    let mut r = *a;
    let mut i: usize = 0;
    while i < D
        invariant
            i <= D,
            forall|j: int| 0 <= j < i ==> r[j].value() == wrapped::<N>(a[j].value() + b[j].value()),
        decreases D - i,
    {
        r[i] = a[i].plus(b[i]);
        i += 1;
    }
    assert(values(r) =~= sum_of::<N>(values(*a), values(*b)));
    r
}

/// The component-wise wrapping difference `a - b`.
pub fn zip_minus<N: Scalar, const D: usize>(a: &[N; D], b: &[N; D]) -> (r: [N; D])
    ensures
        values(r) == difference_of::<N>(values(*a), values(*b)),
{
    let mut r = *a;
    let mut i: usize = 0;
    while i < D
        invariant
            i <= D,
            forall|j: int| 0 <= j < i ==> r[j].value() == wrapped::<N>(a[j].value() - b[j].value()),
        decreases D - i,
    {
        r[i] = a[i].minus(b[i]);
        i += 1;
    }
    assert(values(r) =~= difference_of::<N>(values(*a), values(*b)));
    r
}

/// The component-wise wrapping negation of `a`.
pub fn map_negated<N: Signed, const D: usize>(a: &[N; D]) -> (r: [N; D])
    ensures
        values(r) == negation_of::<N>(values(*a)),
{
    let mut r = *a;
    let mut i: usize = 0;
    while i < D
        invariant
            i <= D,
            forall|j: int| 0 <= j < i ==> r[j].value() == wrapped::<N>(-a[j].value()),
        decreases D - i,
    {
        r[i] = a[i].negated();
        i += 1;
    }
    assert(values(r) =~= negation_of::<N>(values(*a)));
    r
}

/// Every component of `a` plus `k`, wrapping.
pub fn map_plus<N: Scalar, const D: usize>(a: &[N; D], k: N) -> (r: [N; D])
    ensures
        values(r) == raised_by::<N>(values(*a), k.value()),
{
    let mut r = *a;
    let mut i: usize = 0;
    while i < D
        invariant
            i <= D,
            forall|j: int| 0 <= j < i ==> r[j].value() == wrapped::<N>(a[j].value() + k.value()),
        decreases D - i,
    {
        r[i] = a[i].plus(k);
        i += 1;
    }
    assert(values(r) =~= raised_by::<N>(values(*a), k.value()));
    r
}

/// Every component of `a` minus `k`, wrapping.
pub fn map_minus<N: Scalar, const D: usize>(a: &[N; D], k: N) -> (r: [N; D])
    ensures
        values(r) == lowered_by::<N>(values(*a), k.value()),
{
    let mut r = *a;
    let mut i: usize = 0;
    while i < D
        invariant
            i <= D,
            forall|j: int| 0 <= j < i ==> r[j].value() == wrapped::<N>(a[j].value() - k.value()),
        decreases D - i,
    {
        r[i] = a[i].minus(k);
        i += 1;
    }
    assert(values(r) =~= lowered_by::<N>(values(*a), k.value()));
    r
}

/// Every component of `a` times `k`, wrapping.
pub fn map_times<N: Scalar, const D: usize>(a: &[N; D], k: N) -> (r: [N; D])
    ensures
        values(r) == scaled_by::<N>(values(*a), k.value()),
{
    let mut r = *a;
    let mut i: usize = 0;
    while i < D
        invariant
            i <= D,
            forall|j: int| 0 <= j < i ==> r[j].value() == wrapped::<N>(a[j].value() * k.value()),
        decreases D - i,
    {
        r[i] = a[i].times(k);
        i += 1;
    }
    assert(values(r) =~= scaled_by::<N>(values(*a), k.value()));
    r
}

/// Every component of `a` divided by `k` toward zero.
pub fn map_quotient<N: Scalar, const D: usize>(a: &[N; D], k: N) -> (r: [N; D])
    requires
        k.value() != 0,
    ensures
        values(r) == divided_by::<N>(values(*a), k.value()),
{
    let mut r = *a;
    let mut i: usize = 0;
    while i < D
        invariant
            i <= D,
            k.value() != 0,
            forall|j: int|
                0 <= j < i ==> r[j].value() == wrapped::<N>(
                    div_toward_zero(a[j].value(), k.value()),
                ),
        decreases D - i,
    {
        r[i] = a[i].quotient(k);
        i += 1;
    }
    assert(values(r) =~= divided_by::<N>(values(*a), k.value()));
    r
}

/// Every component of `a` converted to the scalar type `M`, keeping the low bits.
pub fn map_converted<N: Scalar, M: Scalar, const D: usize>(a: &[N; D]) -> (r: [M; D])
    ensures
        values(r) == converted_to::<M>(values(*a)),
{
    let mut r = [M::zero(); D];
    let mut i: usize = 0;
    while i < D
        invariant
            i <= D,
            forall|j: int| 0 <= j < i ==> r[j].value() == wrapped::<M>(a[j].value()),
        decreases D - i,
    {
        r[i] = M::from_wide(a[i].to_wide());
        i += 1;
    }
    assert(values(r) =~= converted_to::<M>(values(*a)));
    r
}

/// Adds `a` times `x` to `y` in place, component by component.
pub fn accumulate<N: Scalar, const D: usize>(y: &mut [N; D], a: N, x: &[N; D])
    ensures
        values(*final(y)) == accumulated::<N>(a.value(), values(*x), values(*old(y))),
{
    let ghost before = *y;
    let mut i: usize = 0;
    while i < D
        invariant
            i <= D,
            forall|j: int|
                0 <= j < i ==> y[j].value() == wrapped::<N>(
                    before[j].value() + a.value() * x[j].value(),
                ),
            forall|j: int| i <= j < D ==> y[j] == before[j],
        decreases D - i,
    {
        proof {
            N::lemma_limits();
            lemma_wrap_absorbs(y[i as int].value(), a.value() * x[i as int].value(), N::lo(), N::hi());
        }
        y[i] = y[i].plus(a.times(x[i]));
        i += 1;
    }
    assert(values(*y) =~= accumulated::<N>(a.value(), values(*x), values(before)));
}

/// Whether the two arrays hold the same values.
pub fn all_same<N: Scalar, const D: usize>(a: &[N; D], b: &[N; D]) -> (r: bool)
    ensures
        r == (values(*a) == values(*b)),
        r == (*a == *b),
{
    let mut i: usize = 0;
    while i < D
        invariant
            i <= D,
            forall|j: int| 0 <= j < i ==> a[j].value() == b[j].value(),
        decreases D - i,
    {
        if !a[i].same(b[i]) {
            assert(values(*a)[i as int] != values(*b)[i as int]);
            return false;
        }
        i += 1;
    }
    assert(values(*a) =~= values(*b));
    proof {
        lemma_values_injective(*a, *b);
    }
    true
}

/// Whether the two arrays differ by no more than `eps` in every component.
pub fn all_within<N: Scalar, const D: usize>(a: &[N; D], b: &[N; D], eps: N) -> (r: bool)
    ensures
        r == close(values(*a), values(*b), eps.value()),
{
    let mut i: usize = 0;
    while i < D
        invariant
            i <= D,
            forall|j: int| 0 <= j < i ==> magnitude(a[j].value() - b[j].value()) <= eps.value(),
        decreases D - i,
    {
        if !a[i].within(b[i], eps) {
            assert(magnitude(values(*a)[i as int] - values(*b)[i as int]) > eps.value());
            return false;
        }
        i += 1;
    }
    true
}

} // verus!
