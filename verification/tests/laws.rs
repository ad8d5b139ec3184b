use npoint::{Comparison, Displacement, Pnt0, Pnt2, Pnt3, Pnt6};

#[test]
fn adding_the_difference_arrives_at_the_other_point() {
    let p = Pnt3::new(1i32, -2, 3);
    let q = Pnt3::new(-10i32, 20, 30);
    assert_eq!(p + (q - p), q);
    assert!((p + (q - p)).approx_eq_eps(&q, 0));
    assert!((p + (q - p)).approx_eq_eps(&q, 1));
}

#[test]
fn adding_the_difference_arrives_even_where_the_difference_wraps() {
    let p = Pnt2::new(i8::MIN, 100);
    let q = Pnt2::new(i8::MAX, -100);
    assert_eq!(q - p, Displacement::from_array([-1, 56]));
    assert_eq!(p + (q - p), q);
    let a = Pnt2::new(250u8, 3);
    let b = Pnt2::new(2u8, 200);
    assert_eq!(a + (b - a), b);
    assert_eq!(b + (a - b), a);
}

#[test]
fn adding_the_difference_in_dimension_zero() {
    let p: Pnt0<u8> = Pnt0::new();
    assert_eq!(p + (p - p), p);
}

#[test]
fn subtracting_then_adding_a_displacement_gives_the_point_again() {
    let p = Pnt3::new(1i32, -2, 3);
    let d = Displacement::from_array([100, 200, -300]);
    assert_eq!((p - d) + d, p);
    assert!(((p - d) + d).approx_eq(&p));
    let q = Pnt2::new(0u16, u16::MAX);
    let e = Displacement::from_array([1, u16::MAX]);
    assert_eq!(q - e, Pnt2::new(u16::MAX, 0));
    assert_eq!((q - e) + e, q);
}

#[test]
fn adding_then_subtracting_a_scalar_gives_the_point_again() {
    let p = Pnt6::new(0u8, 1, 127, 128, 254, 255);
    for k in [0u8, 1, 2, 127, 128, 255] {
        assert_eq!(p + k - k, p);
    }
    let q = Pnt3::new(i64::MIN, 0, i64::MAX);
    for k in [i64::MIN, -1, 0, 1, i64::MAX] {
        assert_eq!(q + k - k, q);
    }
}

#[test]
fn scaling_then_dividing_gives_the_point_again_where_nothing_wraps() {
    let p = Pnt3::new(-7i32, 0, 9);
    for k in [-100i32, -1, 1, 3, 1000] {
        assert_eq!((p * k) / k, p);
    }
    let q = Pnt2::new(15u8, 17);
    assert_eq!((q * 15) / 15, q);
}

#[test]
fn scaling_then_dividing_differs_where_a_product_wraps() {
    let q = Pnt2::new(15u8, 18);
    assert_eq!(q * 15, Pnt2::new(225, 14));
    assert_eq!((q * 15) / 15, Pnt2::new(15, 0));
}

#[test]
fn comparison_turns_around_with_its_operands() {
    let p = Pnt2::new(1i32, 2);
    let q = Pnt2::new(3i32, 4);
    let r = Pnt2::new(0i32, 9);
    assert_eq!(p.compare(&q), Comparison::Less);
    assert_eq!(q.compare(&p), Comparison::Greater);
    assert_eq!(p.compare(&r), Comparison::NotComparable);
    assert_eq!(r.compare(&p), Comparison::NotComparable);
    assert_eq!(p.compare(&p), Comparison::Equal);
}

#[test]
fn cast_through_a_type_of_the_same_width_or_wider_gives_the_point_again() {
    let p = Pnt3::new(i8::MIN, -1, i8::MAX);
    assert_eq!(p.cast::<u8>().cast::<i8>(), p);
    assert_eq!(p.cast::<u8>(), Pnt3::new(128, 255, 127));
    assert_eq!(p.cast::<u64>().cast::<i8>(), p);
    assert_eq!(p.cast::<i16>().cast::<i8>(), p);
    let q = Pnt2::new(u32::MAX, 0);
    assert_eq!(q.cast::<i32>().cast::<u32>(), q);
    assert_eq!(q.cast::<isize>().cast::<u32>(), q);
}

#[test]
fn cast_through_a_narrower_type_loses_what_does_not_fit() {
    let p = Pnt2::new(300i32, 100);
    assert_eq!(p.cast::<u8>().cast::<i32>(), Pnt2::new(44, 100));
}
