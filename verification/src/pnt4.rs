//! Points of dimension 4.

use crate::components::{
    accumulate, accumulated, all_same, all_within, close, converted_to, difference_of, divided_by,
    filled, lowered_by, map_converted, map_minus, map_negated, map_plus, map_quotient, map_times,
    negation_of, raised_by, scaled_by, sum_of, values, zip_minus, zip_plus,
};
use crate::displacement::Displacement;
use crate::homogeneous::{demote, demoted, promote, promoted};
use crate::order::{classify, comparison_of, Comparison};
use crate::pnt5::Pnt5;
use crate::scalar::{Scalar, Signed};
use crate::tuple::{lemma_tuple_of_view, tuple_of, Tuple};
use vstd::prelude::*;
use vstd::std_specs::cmp::PartialEqSpecImpl;
use vstd::std_specs::ops::{AddSpecImpl, DivSpecImpl, MulSpecImpl, NegSpecImpl, SubSpecImpl};

verus! {

/// Point of dimension 4.
#[derive(Copy, Debug, Hash)]
pub struct Pnt4<N> {
    /// First component of the point.
    pub x: N,
    /// Second component of the point.
    pub y: N,
    /// Third component of the point.
    pub z: N,
    /// Fourth component of the point.
    pub w: N,
}

impl<N: Copy> Clone for Pnt4<N> {
    /// A copy of the point.
    fn clone(&self) -> (r: Self)
        ensures
            r == *self,
    {
        *self
    }
}

impl<N: Scalar> View for Pnt4<N> {
    type V = Seq<int>;

    /// The values of the components, in canonical order.
    open spec fn view(&self) -> Seq<int> {
        seq![self.x.value(), self.y.value(), self.z.value(), self.w.value()]
    }
}

impl<N: Scalar> Tuple<N> for Pnt4<N> {
    open spec fn arity() -> nat {
        4
    }

    proof fn lemma_view_fits(self) {
        self.x.lemma_value_in_range();
        self.y.lemma_value_in_range();
        self.z.lemma_value_in_range();
        self.w.lemma_value_in_range();
    }

    proof fn lemma_view_determines(self, other: Self) {
        if self@ == other@ {
            assert(self@[0] == other@[0]);
            self.x.lemma_value_injective(other.x);
            assert(self@[1] == other@[1]);
            self.y.lemma_value_injective(other.y);
            assert(self@[2] == other@[2]);
            self.z.lemma_value_injective(other.z);
            assert(self@[3] == other@[3]);
            self.w.lemma_value_injective(other.w);
        }
    }
}

impl<N: Scalar> Pnt4<N> {
    /// The components, in canonical order.
    pub open spec fn components(self) -> Seq<N> {
        seq![self.x, self.y, self.z, self.w]
    }

    /// Creates a new point from its components.
    #[inline]
    pub fn new(x: N, y: N, z: N, w: N) -> (r: Pnt4<N>)
        ensures
            r == (Pnt4 { x, y, z, w }),
            r@ == seq![x.value(), y.value(), z.value(), w.value()],
    {
        Pnt4 { x, y, z, w }
    }

    /// The components as an array, in canonical order: the way to walk over them.
    pub fn to_array(&self) -> (r: [N; 4])
        ensures
            r@ == self.components(),
            values(r) == self@,
    {
        let r = [self.x, self.y, self.z, self.w];
        assert(r@ =~= self.components());
        assert(values(r) =~= self@);
        r
    }

    /// The point with the components of the array, in canonical order.
    pub fn from_array(c: [N; 4]) -> (r: Pnt4<N>)
        ensures
            r.components() == c@,
            r@ == values(c),
    {
        let r = Pnt4 { x: c[0], y: c[1], z: c[2], w: c[3] };
        assert(r.components() =~= c@);
        assert(r@ =~= values(c));
        r
    }

    /// Creates a new point with every component set to `v`.
    #[inline]
    pub fn new_repeat(v: N) -> (r: Pnt4<N>)
        ensures
            r@ == Seq::new(4, |i: int| v.value()),
    {
        Pnt4::from_array(filled(v))
    }

    /// The point whose every component is zero.
    pub fn origin() -> (r: Pnt4<N>)
        ensures
            r@ == Seq::new(4, |i: int| 0int),
    {
        Pnt4::from_array(filled(N::zero()))
    }

    /// The point whose every component is the least scalar.
    pub fn min_value() -> (r: Pnt4<N>)
        ensures
            r@ == Seq::new(4, |i: int| N::lo()),
    {
        Pnt4::from_array(filled(N::min_value()))
    }

    /// The point whose every component is the greatest scalar.
    pub fn max_value() -> (r: Pnt4<N>)
        ensures
            r@ == Seq::new(4, |i: int| N::hi()),
    {
        Pnt4::from_array(filled(N::max_value()))
    }

    /// The number of components.
    pub fn dim() -> (r: usize)
        ensures
            r == 4,
    {
        4
    }

    /// The number of components of this point.
    pub fn len(&self) -> (r: usize)
        ensures
            r == 4,
            r == self@.len(),
    {
        4
    }

    /// The `i`-th component. The index must be that of a component; `get` takes any index.
    pub fn at(&self, i: usize) -> (r: N)
        requires
            i < 4,
        ensures
            r == self.components()[i as int],
            r.value() == self@[i as int],
    {
        let c = self.to_array();
        assert(values(c)[i as int] == c[i as int].value());
        c[i]
    }

    /// The `i`-th component, or `None` where the index is out of range.
    pub fn get(&self, i: usize) -> (r: Option<N>)
        ensures
            i < 4 ==> r == Some(self.components()[i as int]),
            i >= 4 ==> r.is_none(),
    {
        if i < 4 {
            Some(self.to_array()[i])
        } else {
            None
        }
    }

    /// Replaces the `i`-th component; the others stay.
    pub fn set(&mut self, i: usize, v: N)
        requires
            i < 4,
        ensures
            final(self).components() == old(self).components().update(i as int, v),
            final(self)@ == old(self)@.update(i as int, v.value()),
    {
        let mut c = self.to_array();
        c[i] = v;
        *self = Pnt4::from_array(c);
        assert(self@ =~= old(self)@.update(i as int, v.value()));
    }

    /// Exchanges the `i`-th and the `j`-th component.
    pub fn swap(&mut self, i: usize, j: usize)
        requires
            i < 4,
            j < 4,
        ensures
            final(self).components() == old(self).components().update(
                i as int,
                old(self).components()[j as int],
            ).update(j as int, old(self).components()[i as int]),
            final(self)@ == old(self)@.update(i as int, old(self)@[j as int]).update(
                j as int,
                old(self)@[i as int],
            ),
    {
        let mut c = self.to_array();
        let at_i = c[i];
        let at_j = c[j];
        c[i] = at_j;
        c[j] = at_i;
        *self = Pnt4::from_array(c);
        assert(self@ =~= old(self)@.update(i as int, old(self)@[j as int]).update(
            j as int,
            old(self)@[i as int],
        ));
    }

    /// The displacement that leads from the origin to this point.
    pub fn to_displacement(self) -> (r: Displacement<N, 4>)
        ensures
            r.coords@ == self.components(),
            r@ == self@,
    {
        Displacement { coords: self.to_array() }
    }

    /// Moves this point to where `v` leads from the origin.
    pub fn set_coords(&mut self, v: Displacement<N, 4>)
        ensures
            final(self).components() == v.coords@,
            final(self)@ == v@,
    {
        *self = Pnt4::from_array(v.coords);
    }

    /// The same point with every component converted to the scalar type `M`. A value that
    /// `M` does not hold loses its high bits; the conversion never fails.
    pub fn cast<M: Scalar>(&self) -> (r: Pnt4<M>)
        ensures
            r@ == converted_to::<M>(self@),
    {
        Pnt4::from_array(map_converted(&self.to_array()))
    }

    /// Adds `a` times `x` to this point, component by component.
    pub fn axpy(&mut self, a: N, x: &Pnt4<N>)
        ensures
            final(self)@ == accumulated::<N>(a.value(), x@, old(self)@),
    {
        let mut c = self.to_array();
        accumulate(&mut c, a, &x.to_array());
        *self = Pnt4::from_array(c);
    }

    /// Whether every component is within `eps` of the other point's.
    pub fn approx_eq_eps(&self, other: &Pnt4<N>, eps: N) -> (r: bool)
        ensures
            r == close(self@, other@, eps.value()),
    {
        all_within(&self.to_array(), &other.to_array(), eps)
    }

    /// Approximate equality with the default tolerance, which for integers is none at all.
    pub fn approx_eq(&self, other: &Pnt4<N>) -> (r: bool)
        ensures
            r == close(self@, other@, 0),
    {
        all_within(&self.to_array(), &other.to_array(), N::zero())
    }

    /// How this point stands to the other in the component-wise partial order.
    pub fn compare(&self, other: &Pnt4<N>) -> (r: Comparison)
        ensures
            r == comparison_of(self@, other@),
    {
        classify(&self.to_array(), &other.to_array())
    }

    /// This point in homogeneous coordinates: the same components, then the weight one.
    pub fn to_homogeneous(&self) -> (r: Pnt5<N>)
        ensures
            r@ == promoted(self@),
    {
        Pnt5::from_array(promote(&self.to_array()))
    }

    /// The point that `h` stands for in homogeneous coordinates: every component but the
    /// weight, divided by the weight. The weight must not be zero.
    pub fn from_homogeneous(h: &Pnt5<N>) -> (r: Pnt4<N>)
        requires
            h.a.value() != 0,
        ensures
            r@ == demoted::<N>(h@),
    {
        let c = h.to_array();
        assert(values(c)[4] == c[4].value());
        Pnt4::from_array(demote(&c))
    }
}

impl<N: Scalar> PartialEqSpecImpl for Pnt4<N> {
    open spec fn obeys_eq_spec() -> bool {
        true
    }

    open spec fn eq_spec(&self, other: &Pnt4<N>) -> bool {
        *self == *other
    }
}

impl<N: Scalar> PartialEq for Pnt4<N> {
    /// Exact equality, component by component.
    fn eq(&self, other: &Pnt4<N>) -> (r: bool)
        ensures
            r == (self@ == other@),
    {
        proof {
            self.lemma_view_determines(*other);
        }
        all_same(&self.to_array(), &other.to_array())
    }
}

impl<N: Scalar> Eq for Pnt4<N> {
}

impl<N: Scalar> AddSpecImpl<Displacement<N, 4>> for Pnt4<N> {
    open spec fn obeys_add_spec() -> bool {
        true
    }

    open spec fn add_req(self, rhs: Displacement<N, 4>) -> bool {
        true
    }

    open spec fn add_spec(self, rhs: Displacement<N, 4>) -> Pnt4<N> {
        tuple_of::<N, Pnt4<N>>(sum_of::<N>(self@, rhs@))
    }
}

impl<N: Scalar> core::ops::Add<Displacement<N, 4>> for Pnt4<N> {
    type Output = Pnt4<N>;

    /// The point that the displacement leads to from this one.
    fn add(self, rhs: Displacement<N, 4>) -> (r: Pnt4<N>)
        ensures
            r@ == sum_of::<N>(self@, rhs@),
    {
        let r = Pnt4::from_array(zip_plus(&self.to_array(), &rhs.coords));
        proof {
            lemma_tuple_of_view::<N, Pnt4<N>>(r);
        }
        r
    }
}

impl<N: Scalar> SubSpecImpl<Displacement<N, 4>> for Pnt4<N> {
    open spec fn obeys_sub_spec() -> bool {
        true
    }

    open spec fn sub_req(self, rhs: Displacement<N, 4>) -> bool {
        true
    }

    open spec fn sub_spec(self, rhs: Displacement<N, 4>) -> Pnt4<N> {
        tuple_of::<N, Pnt4<N>>(difference_of::<N>(self@, rhs@))
    }
}

impl<N: Scalar> core::ops::Sub<Displacement<N, 4>> for Pnt4<N> {
    type Output = Pnt4<N>;

    /// The point from which the displacement leads to this one.
    fn sub(self, rhs: Displacement<N, 4>) -> (r: Pnt4<N>)
        ensures
            r@ == difference_of::<N>(self@, rhs@),
    {
        let r = Pnt4::from_array(zip_minus(&self.to_array(), &rhs.coords));
        proof {
            lemma_tuple_of_view::<N, Pnt4<N>>(r);
        }
        r
    }
}

impl<N: Scalar> SubSpecImpl<Pnt4<N>> for Pnt4<N> {
    open spec fn obeys_sub_spec() -> bool {
        true
    }

    open spec fn sub_req(self, rhs: Pnt4<N>) -> bool {
        true
    }

    open spec fn sub_spec(self, rhs: Pnt4<N>) -> Displacement<N, 4> {
        tuple_of::<N, Displacement<N, 4>>(difference_of::<N>(self@, rhs@))
    }
}

impl<N: Scalar> core::ops::Sub<Pnt4<N>> for Pnt4<N> {
    type Output = Displacement<N, 4>;

    /// The displacement that leads from `rhs` to this point.
    fn sub(self, rhs: Pnt4<N>) -> (r: Displacement<N, 4>)
        ensures
            r@ == difference_of::<N>(self@, rhs@),
    {
        let r = Displacement { coords: zip_minus(&self.to_array(), &rhs.to_array()) };
        proof {
            lemma_tuple_of_view::<N, Displacement<N, 4>>(r);
        }
        r
    }
}

impl<N: Scalar> AddSpecImpl<N> for Pnt4<N> {
    open spec fn obeys_add_spec() -> bool {
        true
    }

    open spec fn add_req(self, rhs: N) -> bool {
        true
    }

    open spec fn add_spec(self, rhs: N) -> Pnt4<N> {
        tuple_of::<N, Pnt4<N>>(raised_by::<N>(self@, rhs.value()))
    }
}

impl<N: Scalar> core::ops::Add<N> for Pnt4<N> {
    type Output = Pnt4<N>;

    /// Every component plus the scalar.
    fn add(self, rhs: N) -> (r: Pnt4<N>)
        ensures
            r@ == raised_by::<N>(self@, rhs.value()),
    {
        let r = Pnt4::from_array(map_plus(&self.to_array(), rhs));
        proof {
            lemma_tuple_of_view::<N, Pnt4<N>>(r);
        }
        r
    }
}

impl<N: Scalar> SubSpecImpl<N> for Pnt4<N> {
    open spec fn obeys_sub_spec() -> bool {
        true
    }

    open spec fn sub_req(self, rhs: N) -> bool {
        true
    }

    open spec fn sub_spec(self, rhs: N) -> Pnt4<N> {
        tuple_of::<N, Pnt4<N>>(lowered_by::<N>(self@, rhs.value()))
    }
}

impl<N: Scalar> core::ops::Sub<N> for Pnt4<N> {
    type Output = Pnt4<N>;

    /// Every component minus the scalar.
    fn sub(self, rhs: N) -> (r: Pnt4<N>)
        ensures
            r@ == lowered_by::<N>(self@, rhs.value()),
    {
        let r = Pnt4::from_array(map_minus(&self.to_array(), rhs));
        proof {
            lemma_tuple_of_view::<N, Pnt4<N>>(r);
        }
        r
    }
}

impl<N: Scalar> MulSpecImpl<N> for Pnt4<N> {
    open spec fn obeys_mul_spec() -> bool {
        true
    }

    open spec fn mul_req(self, rhs: N) -> bool {
        true
    }

    open spec fn mul_spec(self, rhs: N) -> Pnt4<N> {
        tuple_of::<N, Pnt4<N>>(scaled_by::<N>(self@, rhs.value()))
    }
}

impl<N: Scalar> core::ops::Mul<N> for Pnt4<N> {
    type Output = Pnt4<N>;

    /// Every component times the scalar.
    fn mul(self, rhs: N) -> (r: Pnt4<N>)
        ensures
            r@ == scaled_by::<N>(self@, rhs.value()),
    {
        let r = Pnt4::from_array(map_times(&self.to_array(), rhs));
        proof {
            lemma_tuple_of_view::<N, Pnt4<N>>(r);
        }
        r
    }
}

impl<N: Scalar> DivSpecImpl<N> for Pnt4<N> {
    open spec fn obeys_div_spec() -> bool {
        true
    }

    /// The scalar must not be zero.
    open spec fn div_req(self, rhs: N) -> bool {
        rhs.value() != 0
    }

    open spec fn div_spec(self, rhs: N) -> Pnt4<N> {
        tuple_of::<N, Pnt4<N>>(divided_by::<N>(self@, rhs.value()))
    }
}

impl<N: Scalar> core::ops::Div<N> for Pnt4<N> {
    type Output = Pnt4<N>;

    /// Every component divided by the scalar, toward zero.
    fn div(self, rhs: N) -> (r: Pnt4<N>)
        ensures
            r@ == divided_by::<N>(self@, rhs.value()),
    {
        let r = Pnt4::from_array(map_quotient(&self.to_array(), rhs));
        proof {
            lemma_tuple_of_view::<N, Pnt4<N>>(r);
        }
        r
    }
}

impl<N: Signed> NegSpecImpl for Pnt4<N> {
    open spec fn obeys_neg_spec() -> bool {
        true
    }

    open spec fn neg_req(self) -> bool {
        true
    }

    open spec fn neg_spec(self) -> Pnt4<N> {
        tuple_of::<N, Pnt4<N>>(negation_of::<N>(self@))
    }
}

impl<N: Signed> core::ops::Neg for Pnt4<N> {
    type Output = Pnt4<N>;

    /// Every component negated.
    fn neg(self) -> (r: Pnt4<N>)
        ensures
            r@ == negation_of::<N>(self@),
    {
        let r = Pnt4::from_array(map_negated(&self.to_array()));
        proof {
            lemma_tuple_of_view::<N, Pnt4<N>>(r);
        }
        r
    }
}

} // verus!
