//! Displacements: the differences between points.

use crate::components::{
    all_same, all_within, close, filled, lemma_values_fit, lemma_values_injective, map_times,
    scaled_by, sum_of, values, zip_plus,
};
use crate::scalar::Scalar;
use crate::tuple::{lemma_tuple_of_view, tuple_of, Tuple};
use vstd::prelude::*;
use vstd::std_specs::cmp::PartialEqSpecImpl;
use vstd::std_specs::ops::{AddSpecImpl, MulSpecImpl};

verus! {

/// A free vector of `D` scalar components: what separates one point from another.
#[derive(Copy, Debug, Hash)]
pub struct Displacement<N, const D: usize> {
    /// The components, in canonical order.
    pub coords: [N; D],
}

impl<N: Copy, const D: usize> Clone for Displacement<N, D> {
    /// A copy of the displacement.
    fn clone(&self) -> (r: Self)
        ensures
            r == *self,
    {
        *self
    }
}

impl<N: Scalar, const D: usize> View for Displacement<N, D> {
    type V = Seq<int>;

    /// The values of the components, in canonical order.
    open spec fn view(&self) -> Seq<int> {
        values(self.coords)
    }
}

impl<N: Scalar, const D: usize> Tuple<N> for Displacement<N, D> {
    open spec fn arity() -> nat {
        D as nat
    }

    proof fn lemma_view_fits(self) {
        lemma_values_fit(self.coords);
    }

    proof fn lemma_view_determines(self, other: Self) {
        if self@ == other@ {
            lemma_values_injective(self.coords, other.coords);
        }
    }
}

impl<N: Scalar, const D: usize> Displacement<N, D> {
    /// The displacement with the given components.
    pub fn from_array(coords: [N; D]) -> (r: Self)
        ensures
            r.coords == coords,
    {
        Displacement { coords }
    }

    /// The displacement that moves nothing.
    pub fn zero() -> (r: Self)
        ensures
            r@ == Seq::new(D as nat, |i: int| 0int),
    {
        Displacement { coords: filled(N::zero()) }
    }

    /// The number of components.
    pub fn dim() -> (r: usize)
        ensures
            r == D,
    {
        D
    }

    /// The `i`-th component.
    pub fn at(&self, i: usize) -> (r: N)
        requires
            i < D,
        ensures
            r == self.coords[i as int],
            r.value() == self@[i as int],
    {
        self.coords[i]
    }

    /// Whether every component is within `eps` of the other displacement's.
    pub fn approx_eq_eps(&self, other: &Self, eps: N) -> (r: bool)
        ensures
            r == close(self@, other@, eps.value()),
    {
        all_within(&self.coords, &other.coords, eps)
    }
}

impl<N: Scalar, const D: usize> PartialEqSpecImpl for Displacement<N, D> {
    open spec fn obeys_eq_spec() -> bool {
        true
    }

    open spec fn eq_spec(&self, other: &Displacement<N, D>) -> bool {
        *self == *other
    }
}

impl<N: Scalar, const D: usize> PartialEq for Displacement<N, D> {
    /// Exact equality, component by component.
    fn eq(&self, other: &Displacement<N, D>) -> (r: bool)
        ensures
            r == (self@ == other@),
    {
        all_same(&self.coords, &other.coords)
    }
}

impl<N: Scalar, const D: usize> Eq for Displacement<N, D> {
}

impl<N: Scalar, const D: usize> AddSpecImpl<Displacement<N, D>> for Displacement<N, D> {
    open spec fn obeys_add_spec() -> bool {
        true
    }

    open spec fn add_req(self, rhs: Displacement<N, D>) -> bool {
        true
    }

    open spec fn add_spec(self, rhs: Displacement<N, D>) -> Displacement<N, D> {
        tuple_of::<N, Displacement<N, D>>(sum_of::<N>(self@, rhs@))
    }
}

impl<N: Scalar, const D: usize> core::ops::Add<Displacement<N, D>> for Displacement<N, D> {
    type Output = Displacement<N, D>;

    /// One displacement after the other.
    fn add(self, rhs: Displacement<N, D>) -> (r: Displacement<N, D>)
        ensures
            r@ == sum_of::<N>(self@, rhs@),
    {
        let r = Displacement { coords: zip_plus(&self.coords, &rhs.coords) };
        proof {
            lemma_tuple_of_view::<N, Displacement<N, D>>(r);
        }
        r
    }
}

impl<N: Scalar, const D: usize> MulSpecImpl<N> for Displacement<N, D> {
    open spec fn obeys_mul_spec() -> bool {
        true
    }

    open spec fn mul_req(self, rhs: N) -> bool {
        true
    }

    open spec fn mul_spec(self, rhs: N) -> Displacement<N, D> {
        tuple_of::<N, Displacement<N, D>>(scaled_by::<N>(self@, rhs.value()))
    }
}

impl<N: Scalar, const D: usize> core::ops::Mul<N> for Displacement<N, D> {
    type Output = Displacement<N, D>;

    /// The displacement scaled by `rhs`.
    fn mul(self, rhs: N) -> (r: Displacement<N, D>)
        ensures
            r@ == scaled_by::<N>(self@, rhs.value()),
    {
        let r = Displacement { coords: map_times(&self.coords, rhs) };
        proof {
            lemma_tuple_of_view::<N, Displacement<N, D>>(r);
        }
        r
    }
}

} // verus!
