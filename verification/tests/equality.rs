use npoint::{Comparison, Displacement, Pnt0, Pnt1, Pnt2, Pnt3, Pnt6};

#[test]
fn equality_needs_every_component() {
    assert!(Pnt3::new(1u8, 2, 3) == Pnt3::new(1, 2, 3));
    assert!(Pnt3::new(1u8, 2, 3) != Pnt3::new(0, 2, 3));
    assert!(Pnt3::new(1u8, 2, 3) != Pnt3::new(1, 0, 3));
    assert!(Pnt3::new(1u8, 2, 3) != Pnt3::new(1, 2, 0));
    assert!(Pnt6::new(1i64, 2, 3, 4, 5, 6) != Pnt6::new(1, 2, 3, 4, 5, 7));
    assert!(Pnt0::<i8>::new() == Pnt0::new());
}

#[test]
fn displacement_equality_needs_every_component() {
    assert!(Displacement::from_array([1i32, 2]) == Displacement::from_array([1, 2]));
    assert!(Displacement::from_array([1i32, 2]) != Displacement::from_array([1, 3]));
    assert!(Displacement::from_array([1i32, 2]) != Displacement::from_array([0, 2]));
}

#[test]
fn approx_eq_eps_allows_a_difference_up_to_eps() {
    let p = Pnt3::new(10i32, 20, 30);
    assert!(p.approx_eq_eps(&Pnt3::new(11, 19, 30), 1));
    assert!(p.approx_eq_eps(&Pnt3::new(12, 18, 32), 2));
    assert!(!p.approx_eq_eps(&Pnt3::new(12, 20, 30), 1));
    assert!(!p.approx_eq_eps(&Pnt3::new(10, 20, 28), 1));
}

#[test]
fn approx_eq_eps_measures_the_exact_difference() {
    let p = Pnt2::new(i64::MIN, 0u64 as i64);
    let q = Pnt2::new(i64::MAX, 0);
    assert!(!p.approx_eq_eps(&q, i64::MAX));
    assert!(!q.approx_eq_eps(&p, i64::MAX));
    let a = Pnt1::new(0u64);
    let b = Pnt1::new(u64::MAX);
    assert!(a.approx_eq_eps(&b, u64::MAX));
    assert!(b.approx_eq_eps(&a, u64::MAX));
    assert!(!a.approx_eq_eps(&b, u64::MAX - 1));
    assert!(Pnt1::new(i8::MIN).approx_eq_eps(&Pnt1::new(-1), 127));
    assert!(!Pnt1::new(i8::MIN).approx_eq_eps(&Pnt1::new(0), 127));
}

#[test]
fn approx_eq_eps_with_a_negative_eps_never_holds() {
    let p = Pnt2::new(1i32, 2);
    assert!(!p.approx_eq_eps(&p, -1));
    assert!(!Pnt1::new(5i8).approx_eq_eps(&Pnt1::new(5), i8::MIN));
}

#[test]
fn approx_eq_in_dimension_zero_holds_whatever_eps() {
    let p: Pnt0<i32> = Pnt0::new();
    assert!(p.approx_eq(&p));
    assert!(p.approx_eq_eps(&p, -1));
}

#[test]
fn approx_eq_with_the_default_tolerance_is_equality() {
    let p = Pnt3::new(10u16, 20, 30);
    assert!(p.approx_eq(&Pnt3::new(10, 20, 30)));
    assert!(!p.approx_eq(&Pnt3::new(10, 21, 30)));
}

#[test]
fn displacement_approx_eq_eps_allows_a_difference_up_to_eps() {
    let d = Displacement::from_array([3i64, 4]);
    assert!(d.approx_eq_eps(&Displacement::from_array([4, 3]), 1));
    assert!(!d.approx_eq_eps(&Displacement::from_array([5, 4]), 1));
}

#[test]
fn compare_is_less_where_every_component_is_less() {
    assert_eq!(Pnt3::new(1i32, 2, 3).compare(&Pnt3::new(2, 3, 4)), Comparison::Less);
    assert_eq!(Pnt1::new(1u8).compare(&Pnt1::new(2)), Comparison::Less);
}

#[test]
fn compare_is_greater_where_every_component_is_greater() {
    assert_eq!(Pnt3::new(2i32, 3, 4).compare(&Pnt3::new(1, 2, 3)), Comparison::Greater);
    assert_eq!(Pnt2::new(0i8, 0).compare(&Pnt2::new(-1, -128)), Comparison::Greater);
}

#[test]
fn compare_is_equal_where_every_component_is_equal() {
    assert_eq!(Pnt3::new(1i32, 2, 3).compare(&Pnt3::new(1, 2, 3)), Comparison::Equal);
    assert_eq!(Pnt0::<u64>::new().compare(&Pnt0::new()), Comparison::Equal);
}

#[test]
fn compare_is_not_comparable_where_components_disagree() {
    assert_eq!(Pnt2::new(1i32, 5).compare(&Pnt2::new(2, 4)), Comparison::NotComparable);
    assert_eq!(Pnt2::new(2i32, 4).compare(&Pnt2::new(1, 5)), Comparison::NotComparable);
}

#[test]
fn compare_is_not_comparable_where_some_components_are_equal_and_others_not() {
    assert_eq!(Pnt2::new(1i32, 5).compare(&Pnt2::new(1, 6)), Comparison::NotComparable);
    assert_eq!(Pnt2::new(1i32, 6).compare(&Pnt2::new(1, 5)), Comparison::NotComparable);
    assert_eq!(Pnt3::new(0u8, 1, 2).compare(&Pnt3::new(1, 2, 2)), Comparison::NotComparable);
}
