//! What points and displacements have in common: a fixed number of scalar values in order.

use crate::components::all_fit;
use crate::scalar::Scalar;
use vstd::prelude::*;

verus! {

/// A type whose values stand for sequences of a fixed length, each member of which is a value
/// of the scalar type `N`. Every point type and every displacement type is one.
pub trait Tuple<N: Scalar>: View<V = Seq<int>> + Sized {
    /// The number of components of every value of the type.
    spec fn arity() -> nat;

    /// The view is as long as the type's arity, and holds values of the scalar type only.
    proof fn lemma_view_fits(self)
        ensures
            self@.len() == Self::arity(),
            all_fit::<N>(self@),
    ;

    /// Two values with the same view are the same value.
    proof fn lemma_view_determines(self, other: Self)
        ensures
            (self@ == other@) <==> (self == other),
    ;
}

/// The value of the type `P` that stands for the sequence `s`, where there is one.
pub open spec fn tuple_of<N: Scalar, P: Tuple<N>>(s: Seq<int>) -> P {
    choose|p: P| p@ == s
}

/// Every value is the one that stands for its own view.
pub proof fn lemma_tuple_of_view<N: Scalar, P: Tuple<N>>(p: P)
    ensures
        tuple_of::<N, P>(p@) == p,
{
    p.lemma_view_determines(tuple_of::<N, P>(p@));
}

} // verus!
