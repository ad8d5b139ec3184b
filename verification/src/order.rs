//! The component-wise partial order.

use crate::components::values;
use crate::scalar::Scalar;
use vstd::prelude::*;

verus! {

/// How two sequences of components stand to each other when all components must agree.
#[derive(Clone, Copy, Debug, PartialEq, Eq, Structural)]
pub enum Comparison {
    /// Every component of the first is strictly less.
    Less,
    /// Every component is equal.
    Equal,
    /// Every component of the first is strictly greater.
    Greater,
    /// The components do not agree: none of the above holds.
    NotComparable,
}

/// Whether every component of `a` equals that of `b`.
pub open spec fn all_equal(a: Seq<int>, b: Seq<int>) -> bool {
    a.len() == b.len() && forall|i: int| 0 <= i < a.len() ==> a[i] == b[i]
}

/// Whether every component of `a` is strictly less than that of `b`.
pub open spec fn all_less(a: Seq<int>, b: Seq<int>) -> bool {
    a.len() == b.len() && forall|i: int| 0 <= i < a.len() ==> a[i] < b[i]
}

/// The classification of `a` against `b`. Without components the two are equal.
pub open spec fn comparison_of(a: Seq<int>, b: Seq<int>) -> Comparison {
    if all_equal(a, b) {
        Comparison::Equal
    } else if all_less(a, b) {
        Comparison::Less
    } else if all_less(b, a) {
        Comparison::Greater
    } else {
        Comparison::NotComparable
    }
}

/// Classifies `a` against `b` in one pass over the components.
pub fn classify<N: Scalar, const D: usize>(a: &[N; D], b: &[N; D]) -> (r: Comparison)
    ensures
        r == comparison_of(values(*a), values(*b)),
{
    let mut equal = true;
    let mut less = true;
    let mut greater = true;
    let mut i: usize = 0;
    while i < D
        invariant
            i <= D,
            equal == (forall|j: int| 0 <= j < i ==> a[j].value() == b[j].value()),
            less == (forall|j: int| 0 <= j < i ==> a[j].value() < b[j].value()),
            greater == (forall|j: int| 0 <= j < i ==> b[j].value() < a[j].value()),
        decreases D - i,
    {
        if !a[i].same(b[i]) {
            equal = false;
        }
        if !a[i].less(b[i]) {
            less = false;
        }
        if !b[i].less(a[i]) {
            greater = false;
        }
        i += 1;
    }
    proof {
        let va = values(*a);
        let vb = values(*b);
        assert(equal == all_equal(va, vb)) by {
            if equal {
                assert forall|j: int| 0 <= j < va.len() implies va[j] == vb[j] by {
                    assert(va[j] == a[j].value());
                }
            } else {
                let j = choose|j: int| 0 <= j < D && a[j].value() != b[j].value();
                assert(va[j] != vb[j]);
            }
        }
        assert(less == all_less(va, vb)) by {
            if less {
                assert forall|j: int| 0 <= j < va.len() implies va[j] < vb[j] by {
                    assert(va[j] == a[j].value());
                }
            } else {
                let j = choose|j: int| 0 <= j < D && !(a[j].value() < b[j].value());
                assert(!(va[j] < vb[j]));
            }
        }
        assert(greater == all_less(vb, va)) by {
            if greater {
                assert forall|j: int| 0 <= j < vb.len() implies vb[j] < va[j] by {
                    assert(va[j] == a[j].value());
                }
            } else {
                let j = choose|j: int| 0 <= j < D && !(b[j].value() < a[j].value());
                assert(!(vb[j] < va[j]));
            }
        }
    }
    if equal {
        Comparison::Equal
    } else if less {
        Comparison::Less
    } else if greater {
        Comparison::Greater
    } else {
        Comparison::NotComparable
    }
}

} // verus!
