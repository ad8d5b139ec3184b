//! Homogeneous coordinates: a point of `D` dimensions as one of `D + 1` with a weight.
//!
//! Promotion appends the weight one. Demotion divides every other component by the weight and
//! drops it. The two dimensions are separate parameters held together by a precondition,
//! since one cannot yet be computed from the other in a type.

use crate::modular::div_toward_zero;
use crate::scalar::{wrapped, Scalar};
use crate::components::values;
use vstd::prelude::*;

verus! {

/// The components followed by the weight one.
pub open spec fn promoted(a: Seq<int>) -> Seq<int> {
    a.push(1)
}

/// All components but the last, each divided toward zero by the last.
pub open spec fn demoted<N: Scalar>(h: Seq<int>) -> Seq<int>
    recommends
        h.len() > 0,
        h.last() != 0,
{
    Seq::new((h.len() - 1) as nat, |i: int| wrapped::<N>(div_toward_zero(h[i], h.last())))
}

/// The components of `a` followed by the weight one.
pub fn promote<N: Scalar, const D: usize, const E: usize>(a: &[N; D]) -> (r: [N; E])
    requires
        E == D + 1,
    ensures
        values(r) == promoted(values(*a)),
{
    let mut r = [N::one(); E];
    let mut i: usize = 0;
    while i < D
        invariant
            i <= D,
            E == D + 1,
            r[D as int].value() == 1,
            forall|j: int| 0 <= j < i ==> r[j] == a[j],
        decreases D - i,
    {
        r[i] = a[i];
        i += 1;
    }
    assert(values(r) =~= promoted(values(*a)));
    r
}

/// The components of `h` before the last, each divided by the last. The weight must not be
/// zero: division by zero has no result.
pub fn demote<N: Scalar, const D: usize, const E: usize>(h: &[N; E]) -> (r: [N; D])
    requires
        E == D + 1,
        h[D as int].value() != 0,
    ensures
        values(r) == demoted::<N>(values(*h)),
{
    let weight = h[D];
    let mut r = [weight; D];
    let mut i: usize = 0;
    while i < D
        invariant
            i <= D,
            E == D + 1,
            weight == h[D as int],
            weight.value() != 0,
            forall|j: int|
                0 <= j < i ==> r[j].value() == wrapped::<N>(
                    div_toward_zero(h[j].value(), weight.value()),
                ),
        decreases D - i,
    {
        r[i] = h[i].quotient(weight);
        i += 1;
    }
    assert(values(r) =~= demoted::<N>(values(*h)));
    r
}

} // verus!
