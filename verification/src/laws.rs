//! What holds of the point algebra in every dimension and for every scalar type.
//!
//! Each law speaks of any type that is a `Tuple`: the seven point types and the displacements.
//! It is stated over the views of its operands with the functions that the operations'
//! postconditions use, so that what an operation returns can be carried through a law.

use crate::components::{
    all_fit, close, converted_to, difference_of, divided_by, lowered_by, raised_by, scaled_by,
    sum_of,
};
use crate::homogeneous::{demoted, promoted};
use crate::modular::{
    lemma_div_of_product, lemma_div_toward_zero_bounds, lemma_wrap_absorbs,
    lemma_wrap_fixes_range, lemma_wrap_offset, lemma_wrap_periodic, magnitude, span,
};
use crate::order::{all_equal, all_less, comparison_of, Comparison};
use crate::scalar::{fits, wrapped, Scalar};
use crate::tuple::Tuple;
use vstd::prelude::*;

verus! {

/// Equal tuples are approximately equal within every tolerance that is not negative, and
/// within the tolerance zero no others are.
pub proof fn law_close_and_equal<N: Scalar, P: Tuple<N>>(p: P, q: P, eps: int)
    requires
        eps >= 0,
    ensures
        p == q ==> close(p@, q@, eps),
        close(p@, q@, 0) <==> p == q,
{
    p.lemma_view_fits();
    q.lemma_view_fits();
    p.lemma_view_determines(q);
    if close(p@, q@, 0) {
        assert forall|i: int| 0 <= i < p@.len() implies p@[i] == q@[i] by {
            assert(magnitude(p@[i] - q@[i]) <= 0);
        }
        assert(p@ =~= q@);
    }
}

/// `p + (q - p)` is `q`: the displacement between two points leads from the first to the
/// second, exactly, and so within every tolerance.
pub proof fn law_add_difference<N: Scalar, P: Tuple<N>>(p: P, q: P, eps: int)
    requires
        eps >= 0,
    ensures
        sum_of::<N>(p@, difference_of::<N>(q@, p@)) == q@,
        close(sum_of::<N>(p@, difference_of::<N>(q@, p@)), q@, eps),
{
    N::lemma_limits();
    p.lemma_view_fits();
    q.lemma_view_fits();
    let r = sum_of::<N>(p@, difference_of::<N>(q@, p@));
    assert forall|i: int| 0 <= i < q@.len() implies r[i] == q@[i] by {
        assert(fits::<N>(q@[i]));
        lemma_wrap_absorbs(p@[i], q@[i] - p@[i], N::lo(), N::hi());
        lemma_wrap_fixes_range(q@[i], N::lo(), N::hi());
    }
    assert(r =~= q@);
}

/// `(p - d) + d` is `p`: adding a displacement undoes its subtraction, exactly, and so within
/// every tolerance.
pub proof fn law_subtract_then_add<N: Scalar, P: Tuple<N>, V: Tuple<N>>(p: P, d: V, eps: int)
    requires
        P::arity() == V::arity(),
        eps >= 0,
    ensures
        sum_of::<N>(difference_of::<N>(p@, d@), d@) == p@,
        close(sum_of::<N>(difference_of::<N>(p@, d@), d@), p@, eps),
{
    N::lemma_limits();
    p.lemma_view_fits();
    d.lemma_view_fits();
    let r = sum_of::<N>(difference_of::<N>(p@, d@), d@);
    assert forall|i: int| 0 <= i < p@.len() implies r[i] == p@[i] by {
        assert(fits::<N>(p@[i]));
        lemma_wrap_absorbs(d@[i], p@[i] - d@[i], N::lo(), N::hi());
        lemma_wrap_fixes_range(p@[i], N::lo(), N::hi());
    }
    assert(r =~= p@);
}

/// `p + k - k` is `p`, exactly, for every scalar `k`.
pub proof fn law_add_then_subtract_scalar<N: Scalar, P: Tuple<N>>(p: P, k: N)
    ensures
        lowered_by::<N>(raised_by::<N>(p@, k.value()), k.value()) == p@,
{
    N::lemma_limits();
    p.lemma_view_fits();
    let r = lowered_by::<N>(raised_by::<N>(p@, k.value()), k.value());
    assert forall|i: int| 0 <= i < p@.len() implies r[i] == p@[i] by {
        assert(fits::<N>(p@[i]));
        lemma_wrap_absorbs(k.value(), p@[i] + k.value(), N::lo(), N::hi());
        lemma_wrap_fixes_range(p@[i], N::lo(), N::hi());
    }
    assert(r =~= p@);
}

/// `(p * k) / k` is `p` for a scalar `k` other than zero, where no product of a component and
/// `k` leaves the range of the scalar type.
pub proof fn law_scale_then_divide<N: Scalar, P: Tuple<N>>(p: P, k: N)
    requires
        k.value() != 0,
        forall|i: int| 0 <= i < p@.len() ==> fits::<N>(#[trigger] p@[i] * k.value()),
    ensures
        divided_by::<N>(scaled_by::<N>(p@, k.value()), k.value()) == p@,
{
    N::lemma_limits();
    p.lemma_view_fits();
    let r = divided_by::<N>(scaled_by::<N>(p@, k.value()), k.value());
    assert forall|i: int| 0 <= i < p@.len() implies r[i] == p@[i] by {
        assert(fits::<N>(p@[i]));
        assert(fits::<N>(p@[i] * k.value()));
        lemma_wrap_fixes_range(p@[i] * k.value(), N::lo(), N::hi());
        lemma_div_of_product(p@[i], k.value());
        lemma_wrap_fixes_range(p@[i], N::lo(), N::hi());
    }
    assert(r =~= p@);
}

/// Casting from the scalar type `A` to `B` and back gives the point again where `B` holds the
/// value of every component; the cast to `B` then keeps every value.
pub proof fn law_cast_round_trip<A: Scalar, B: Scalar, P: Tuple<A>>(p: P)
    requires
        all_fit::<B>(p@),
    ensures
        converted_to::<B>(p@) == p@,
        converted_to::<A>(converted_to::<B>(p@)) == p@,
{
    p.lemma_view_fits();
    assert forall|i: int| 0 <= i < p@.len() implies wrapped::<B>(p@[i]) == p@[i] && wrapped::<A>(
        p@[i],
    ) == p@[i] by {
        assert(fits::<A>(p@[i]));
        assert(fits::<B>(p@[i]));
        lemma_wrap_fixes_range(p@[i], A::lo(), A::hi());
        lemma_wrap_fixes_range(p@[i], B::lo(), B::hi());
    }
    assert(converted_to::<B>(p@) =~= p@);
    assert(converted_to::<A>(converted_to::<B>(p@)) =~= p@);
}

/// Casting from the scalar type `A` to `B` and back gives the point again, whatever its
/// components, where `B` has `m` times as many values as `A`: the same width or a greater one,
/// of either sign.
pub proof fn law_cast_through_wider<A: Scalar, B: Scalar, P: Tuple<A>>(p: P, m: int)
    requires
        m > 0,
        span(B::lo(), B::hi()) == m * span(A::lo(), A::hi()),
    ensures
        converted_to::<A>(converted_to::<B>(p@)) == p@,
{
    A::lemma_limits();
    B::lemma_limits();
    p.lemma_view_fits();
    let r = converted_to::<A>(converted_to::<B>(p@));
    assert forall|i: int| 0 <= i < p@.len() implies r[i] == p@[i] by {
        assert(fits::<A>(p@[i]));
        let k = lemma_wrap_offset(p@[i], B::lo(), B::hi());
        assert(k * span(B::lo(), B::hi()) == (k * m) * span(A::lo(), A::hi()))
            by (nonlinear_arith)
            requires
                span(B::lo(), B::hi()) == m * span(A::lo(), A::hi()),
        ;
        lemma_wrap_periodic(p@[i], k * m, A::lo(), A::hi());
        lemma_wrap_fixes_range(p@[i], A::lo(), A::hi());
    }
    assert(r =~= p@);
}

/// Promotion to homogeneous coordinates gives one component more, the weight one, and demotion
/// then gives the point again, exactly, and so within every tolerance.
pub proof fn law_homogeneous_round_trip<N: Scalar, P: Tuple<N>>(p: P, eps: int)
    requires
        eps >= 0,
    ensures
        promoted(p@).len() == P::arity() + 1,
        promoted(p@).last() == 1,
        demoted::<N>(promoted(p@)) == p@,
        close(demoted::<N>(promoted(p@)), p@, eps),
{
    p.lemma_view_fits();
    let h = promoted(p@);
    let r = demoted::<N>(h);
    assert forall|i: int| 0 <= i < p@.len() implies r[i] == p@[i] by {
        assert(fits::<N>(p@[i]));
        assert(h[i] == p@[i]);
        lemma_div_toward_zero_bounds(p@[i], 1);
        lemma_wrap_fixes_range(p@[i], N::lo(), N::hi());
    }
    assert(r =~= p@);
}

/// The component-wise order classifies two points as equal exactly when they are equal, turns
/// around when its operands are exchanged, and, where there is a component, says less or
/// greater exactly when every component is.
pub proof fn law_comparison<N: Scalar, P: Tuple<N>>(p: P, q: P)
    ensures
        comparison_of(p@, q@) == Comparison::Equal <==> p == q,
        comparison_of(p@, q@) == Comparison::Less <==> comparison_of(q@, p@)
            == Comparison::Greater,
        comparison_of(p@, q@) == Comparison::NotComparable <==> comparison_of(q@, p@)
            == Comparison::NotComparable,
        P::arity() > 0 ==> (comparison_of(p@, q@) == Comparison::Less <==> all_less(p@, q@)),
        P::arity() > 0 ==> (comparison_of(p@, q@) == Comparison::Greater <==> all_less(q@, p@)),
{
    p.lemma_view_fits();
    q.lemma_view_fits();
    p.lemma_view_determines(q);
    if all_equal(p@, q@) {
        assert(p@ =~= q@);
    }
    if P::arity() > 0 {
        if all_less(p@, q@) {
            assert(p@[0] < q@[0]);
        }
        if all_less(q@, p@) {
            assert(q@[0] < p@[0]);
        }
    }
}

} // verus!
