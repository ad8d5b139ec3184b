//! Points of dimension 0.

use crate::components::{
    accumulate, accumulated, all_same, all_within, close, converted_to, difference_of, divided_by,
    filled, lowered_by, map_converted, map_minus, map_negated, map_plus, map_quotient, map_times,
    negation_of, raised_by, scaled_by, sum_of, values, zip_minus, zip_plus,
};
use crate::displacement::Displacement;
use crate::order::{classify, comparison_of, Comparison};
use crate::scalar::{Scalar, Signed};
use crate::tuple::{lemma_tuple_of_view, tuple_of, Tuple};
use vstd::prelude::*;
use vstd::std_specs::cmp::PartialEqSpecImpl;
use vstd::std_specs::ops::{AddSpecImpl, DivSpecImpl, MulSpecImpl, NegSpecImpl, SubSpecImpl};

verus! {

/// Point of dimension 0.
#[derive(Copy, Debug, Hash)]
pub struct Pnt0<N> {
    /// No component: the empty array keeps the scalar type in the point's type.
    pub coords: [N; 0],
}

impl<N: Copy> Clone for Pnt0<N> {
    /// A copy of the point.
    fn clone(&self) -> (r: Self)
        ensures
            r == *self,
    {
        *self
    }
}

impl<N: Scalar> View for Pnt0<N> {
    type V = Seq<int>;

    /// The values of the components, in canonical order.
    open spec fn view(&self) -> Seq<int> {
        Seq::empty()
    }
}

impl<N: Scalar> Tuple<N> for Pnt0<N> {
    open spec fn arity() -> nat {
        0
    }

    proof fn lemma_view_fits(self) {
    }

    proof fn lemma_view_determines(self, other: Self) {
        assert(self.coords =~= other.coords);
    }
}

impl<N> Pnt0<N> {
    /// Creates a new point.
    #[inline]
    pub fn new() -> (r: Pnt0<N>)
        ensures
            r.coords@ == Seq::<N>::empty(),
    {
        let r = Pnt0 { coords: [] };
        assert(r.coords@ =~= Seq::<N>::empty());
        r
    }

    /// Creates a new point. The parameter is not taken in account.
    #[inline]
    pub fn new_repeat(_v: N) -> (r: Pnt0<N>)
        ensures
            r.coords@ == Seq::<N>::empty(),
    {
        let r = Pnt0 { coords: [] };
        assert(r.coords@ =~= Seq::<N>::empty());
        r
    }
}

impl<N: Scalar> Pnt0<N> {
    /// The components, in canonical order.
    pub open spec fn components(self) -> Seq<N> {
        Seq::empty()
    }

    /// The components as an array, in canonical order: the way to walk over them.
    pub fn to_array(&self) -> (r: [N; 0])
        ensures
            r@ == self.components(),
            values(r) == self@,
    {
        let r = self.coords;
        assert(r@ =~= self.components());
        assert(values(r) =~= self@);
        r
    }

    /// The point with the components of the array, in canonical order.
    pub fn from_array(c: [N; 0]) -> (r: Pnt0<N>)
        ensures
            r.components() == c@,
            r@ == values(c),
    {
        let r = Pnt0 { coords: c };
        assert(r.components() =~= c@);
        assert(r@ =~= values(c));
        r
    }

    /// The point whose every component is zero.
    pub fn origin() -> (r: Pnt0<N>)
        ensures
            r@ == Seq::new(0, |i: int| 0int),
    {
        Pnt0::from_array(filled(N::zero()))
    }

    /// The point whose every component is the least scalar.
    pub fn min_value() -> (r: Pnt0<N>)
        ensures
            r@ == Seq::new(0, |i: int| N::lo()),
    {
        Pnt0::from_array(filled(N::min_value()))
    }

    /// The point whose every component is the greatest scalar.
    pub fn max_value() -> (r: Pnt0<N>)
        ensures
            r@ == Seq::new(0, |i: int| N::hi()),
    {
        Pnt0::from_array(filled(N::max_value()))
    }

    /// The number of components.
    pub fn dim() -> (r: usize)
        ensures
            r == 0,
    {
        0
    }

    /// The number of components of this point.
    pub fn len(&self) -> (r: usize)
        ensures
            r == 0,
            r == self@.len(),
    {
        0
    }

    /// The `i`-th component, or `None` where the index is out of range.
    pub fn get(&self, i: usize) -> (r: Option<N>)
        ensures
            i < 0 ==> r == Some(self.components()[i as int]),
            i >= 0 ==> r.is_none(),
    {
        None
    }

    /// The displacement that leads from the origin to this point.
    pub fn to_displacement(self) -> (r: Displacement<N, 0>)
        ensures
            r.coords@ == self.components(),
            r@ == self@,
    {
        Displacement { coords: self.to_array() }
    }

    /// Moves this point to where `v` leads from the origin.
    pub fn set_coords(&mut self, v: Displacement<N, 0>)
        ensures
            final(self).components() == v.coords@,
            final(self)@ == v@,
    {
        *self = Pnt0::from_array(v.coords);
    }

    /// The same point with every component converted to the scalar type `M`. A value that
    /// `M` does not hold loses its high bits; the conversion never fails.
    pub fn cast<M: Scalar>(&self) -> (r: Pnt0<M>)
        ensures
            r@ == converted_to::<M>(self@),
    {
        Pnt0::from_array(map_converted(&self.to_array()))
    }

    /// Adds `a` times `x` to this point, component by component.
    pub fn axpy(&mut self, a: N, x: &Pnt0<N>)
        ensures
            final(self)@ == accumulated::<N>(a.value(), x@, old(self)@),
    {
        let mut c = self.to_array();
        accumulate(&mut c, a, &x.to_array());
        *self = Pnt0::from_array(c);
    }

    /// Whether every component is within `eps` of the other point's.
    pub fn approx_eq_eps(&self, other: &Pnt0<N>, eps: N) -> (r: bool)
        ensures
            r == close(self@, other@, eps.value()),
    {
        all_within(&self.to_array(), &other.to_array(), eps)
    }

    /// Approximate equality with the default tolerance, which for integers is none at all.
    pub fn approx_eq(&self, other: &Pnt0<N>) -> (r: bool)
        ensures
            r == close(self@, other@, 0),
    {
        all_within(&self.to_array(), &other.to_array(), N::zero())
    }

    /// How this point stands to the other in the component-wise partial order.
    pub fn compare(&self, other: &Pnt0<N>) -> (r: Comparison)
        ensures
            r == comparison_of(self@, other@),
    {
        classify(&self.to_array(), &other.to_array())
    }
}

impl<N: Scalar> PartialEqSpecImpl for Pnt0<N> {
    open spec fn obeys_eq_spec() -> bool {
        true
    }

    open spec fn eq_spec(&self, other: &Pnt0<N>) -> bool {
        *self == *other
    }
}

impl<N: Scalar> PartialEq for Pnt0<N> {
    /// Exact equality, component by component.
    fn eq(&self, other: &Pnt0<N>) -> (r: bool)
        ensures
            r == (self@ == other@),
    {
        proof {
            self.lemma_view_determines(*other);
        }
        all_same(&self.to_array(), &other.to_array())
    }
}

impl<N: Scalar> Eq for Pnt0<N> {
}

impl<N: Scalar> AddSpecImpl<Displacement<N, 0>> for Pnt0<N> {
    open spec fn obeys_add_spec() -> bool {
        true
    }

    open spec fn add_req(self, rhs: Displacement<N, 0>) -> bool {
        true
    }

    open spec fn add_spec(self, rhs: Displacement<N, 0>) -> Pnt0<N> {
        tuple_of::<N, Pnt0<N>>(sum_of::<N>(self@, rhs@))
    }
}

impl<N: Scalar> core::ops::Add<Displacement<N, 0>> for Pnt0<N> {
    type Output = Pnt0<N>;

    /// The point that the displacement leads to from this one.
    fn add(self, rhs: Displacement<N, 0>) -> (r: Pnt0<N>)
        ensures
            r@ == sum_of::<N>(self@, rhs@),
    {
        let r = Pnt0::from_array(zip_plus(&self.to_array(), &rhs.coords));
        proof {
            lemma_tuple_of_view::<N, Pnt0<N>>(r);
        }
        r
    }
}

impl<N: Scalar> SubSpecImpl<Displacement<N, 0>> for Pnt0<N> {
    open spec fn obeys_sub_spec() -> bool {
        true
    }

    open spec fn sub_req(self, rhs: Displacement<N, 0>) -> bool {
        true
    }

    open spec fn sub_spec(self, rhs: Displacement<N, 0>) -> Pnt0<N> {
        tuple_of::<N, Pnt0<N>>(difference_of::<N>(self@, rhs@))
    }
}

impl<N: Scalar> core::ops::Sub<Displacement<N, 0>> for Pnt0<N> {
    type Output = Pnt0<N>;

    /// The point from which the displacement leads to this one.
    fn sub(self, rhs: Displacement<N, 0>) -> (r: Pnt0<N>)
        ensures
            r@ == difference_of::<N>(self@, rhs@),
    {
        let r = Pnt0::from_array(zip_minus(&self.to_array(), &rhs.coords));
        proof {
            lemma_tuple_of_view::<N, Pnt0<N>>(r);
        }
        r
    }
}

impl<N: Scalar> SubSpecImpl<Pnt0<N>> for Pnt0<N> {
    open spec fn obeys_sub_spec() -> bool {
        true
    }

    open spec fn sub_req(self, rhs: Pnt0<N>) -> bool {
        true
    }

    open spec fn sub_spec(self, rhs: Pnt0<N>) -> Displacement<N, 0> {
        tuple_of::<N, Displacement<N, 0>>(difference_of::<N>(self@, rhs@))
    }
}

impl<N: Scalar> core::ops::Sub<Pnt0<N>> for Pnt0<N> {
    type Output = Displacement<N, 0>;

    /// The displacement that leads from `rhs` to this point.
    fn sub(self, rhs: Pnt0<N>) -> (r: Displacement<N, 0>)
        ensures
            r@ == difference_of::<N>(self@, rhs@),
    {
        let r = Displacement { coords: zip_minus(&self.to_array(), &rhs.to_array()) };
        proof {
            lemma_tuple_of_view::<N, Displacement<N, 0>>(r);
        }
        r
    }
}

impl<N: Scalar> AddSpecImpl<N> for Pnt0<N> {
    open spec fn obeys_add_spec() -> bool {
        true
    }

    open spec fn add_req(self, rhs: N) -> bool {
        true
    }

    open spec fn add_spec(self, rhs: N) -> Pnt0<N> {
        tuple_of::<N, Pnt0<N>>(raised_by::<N>(self@, rhs.value()))
    }
}

impl<N: Scalar> core::ops::Add<N> for Pnt0<N> {
    type Output = Pnt0<N>;

    /// Every component plus the scalar.
    fn add(self, rhs: N) -> (r: Pnt0<N>)
        ensures
            r@ == raised_by::<N>(self@, rhs.value()),
    {
        let r = Pnt0::from_array(map_plus(&self.to_array(), rhs));
        proof {
            lemma_tuple_of_view::<N, Pnt0<N>>(r);
        }
        r
    }
}

impl<N: Scalar> SubSpecImpl<N> for Pnt0<N> {
    open spec fn obeys_sub_spec() -> bool {
        true
    }

    open spec fn sub_req(self, rhs: N) -> bool {
        true
    }

    open spec fn sub_spec(self, rhs: N) -> Pnt0<N> {
        tuple_of::<N, Pnt0<N>>(lowered_by::<N>(self@, rhs.value()))
    }
}

impl<N: Scalar> core::ops::Sub<N> for Pnt0<N> {
    type Output = Pnt0<N>;

    /// Every component minus the scalar.
    fn sub(self, rhs: N) -> (r: Pnt0<N>)
        ensures
            r@ == lowered_by::<N>(self@, rhs.value()),
    {
        let r = Pnt0::from_array(map_minus(&self.to_array(), rhs));
        proof {
            lemma_tuple_of_view::<N, Pnt0<N>>(r);
        }
        r
    }
}

impl<N: Scalar> MulSpecImpl<N> for Pnt0<N> {
    open spec fn obeys_mul_spec() -> bool {
        true
    }

    open spec fn mul_req(self, rhs: N) -> bool {
        true
    }

    open spec fn mul_spec(self, rhs: N) -> Pnt0<N> {
        tuple_of::<N, Pnt0<N>>(scaled_by::<N>(self@, rhs.value()))
    }
}

impl<N: Scalar> core::ops::Mul<N> for Pnt0<N> {
    type Output = Pnt0<N>;

    /// Every component times the scalar.
    fn mul(self, rhs: N) -> (r: Pnt0<N>)
        ensures
            r@ == scaled_by::<N>(self@, rhs.value()),
    {
        let r = Pnt0::from_array(map_times(&self.to_array(), rhs));
        proof {
            lemma_tuple_of_view::<N, Pnt0<N>>(r);
        }
        r
    }
}

impl<N: Scalar> DivSpecImpl<N> for Pnt0<N> {
    open spec fn obeys_div_spec() -> bool {
        true
    }

    /// The scalar must not be zero.
    open spec fn div_req(self, rhs: N) -> bool {
        rhs.value() != 0
    }

    open spec fn div_spec(self, rhs: N) -> Pnt0<N> {
        tuple_of::<N, Pnt0<N>>(divided_by::<N>(self@, rhs.value()))
    }
}

impl<N: Scalar> core::ops::Div<N> for Pnt0<N> {
    type Output = Pnt0<N>;

    /// Every component divided by the scalar, toward zero.
    fn div(self, rhs: N) -> (r: Pnt0<N>)
        ensures
            r@ == divided_by::<N>(self@, rhs.value()),
    {
        let r = Pnt0::from_array(map_quotient(&self.to_array(), rhs));
        proof {
            lemma_tuple_of_view::<N, Pnt0<N>>(r);
        }
        r
    }
}

impl<N: Signed> NegSpecImpl for Pnt0<N> {
    open spec fn obeys_neg_spec() -> bool {
        true
    }

    open spec fn neg_req(self) -> bool {
        true
    }

    open spec fn neg_spec(self) -> Pnt0<N> {
        tuple_of::<N, Pnt0<N>>(negation_of::<N>(self@))
    }
}

impl<N: Signed> core::ops::Neg for Pnt0<N> {
    type Output = Pnt0<N>;

    /// Every component negated.
    fn neg(self) -> (r: Pnt0<N>)
        ensures
            r@ == negation_of::<N>(self@),
    {
        let r = Pnt0::from_array(map_negated(&self.to_array()));
        proof {
            lemma_tuple_of_view::<N, Pnt0<N>>(r);
        }
        r
    }
}

} // verus!
