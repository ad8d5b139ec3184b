use npoint::{Displacement, Pnt0, Pnt1, Pnt2, Pnt3, Pnt4, Pnt5, Pnt6};

#[test]
fn point_plus_displacement_adds_component_wise() {
    let p = Pnt3::new(1i32, 2, 3);
    let d = Displacement::from_array([10, -20, 30]);
    assert_eq!(p + d, Pnt3::new(11, -18, 33));
}

#[test]
fn point_minus_displacement_subtracts_component_wise() {
    let p = Pnt3::new(1i32, 2, 3);
    let d = Displacement::from_array([10, -20, 30]);
    assert_eq!(p - d, Pnt3::new(-9, 22, -27));
}

#[test]
fn point_minus_point_is_a_displacement() {
    let p = Pnt4::new(1i64, 2, 3, 4);
    let q = Pnt4::new(10i64, 0, 3, -4);
    let d: Displacement<i64, 4> = q - p;
    assert_eq!(d, Displacement::from_array([9, -2, 0, -8]));
}

#[test]
fn arithmetic_in_dimension_zero_gives_the_only_point() {
    let p: Pnt0<i32> = Pnt0::new();
    let d: Displacement<i32, 0> = Displacement::from_array([]);
    assert_eq!(p + d, p);
    assert_eq!(p - d, p);
    assert_eq!(p - p, d);
    assert_eq!(p + 5, p);
    assert_eq!(p - 5, p);
    assert_eq!(p * 5, p);
    assert_eq!(p / 5, p);
    assert_eq!(-p, p);
}

#[test]
fn scalar_is_broadcast_to_every_component() {
    let p = Pnt2::new(6i32, -9);
    assert_eq!(p + 3, Pnt2::new(9, -6));
    assert_eq!(p - 3, Pnt2::new(3, -12));
    assert_eq!(p * 3, Pnt2::new(18, -27));
    assert_eq!(p / 3, Pnt2::new(2, -3));
}

#[test]
fn scalar_operations_cover_every_dimension() {
    assert_eq!(Pnt1::new(4u8) * 2, Pnt1::new(8));
    assert_eq!(Pnt2::new(4u8, 6) / 2, Pnt2::new(2, 3));
    assert_eq!(Pnt3::new(4u8, 6, 8) + 2, Pnt3::new(6, 8, 10));
    assert_eq!(Pnt4::new(4u8, 6, 8, 10) - 2, Pnt4::new(2, 4, 6, 8));
    assert_eq!(Pnt5::new(1u8, 2, 3, 4, 5) * 3, Pnt5::new(3, 6, 9, 12, 15));
    assert_eq!(Pnt6::new(6u8, 12, 18, 24, 30, 36) / 6, Pnt6::new(1, 2, 3, 4, 5, 6));
}

#[test]
fn division_rounds_toward_zero() {
    assert_eq!(Pnt4::new(7i32, -7, 1, -1) / 2, Pnt4::new(3, -3, 0, 0));
    assert_eq!(Pnt4::new(7i32, -7, 1, -1) / -2, Pnt4::new(-3, 3, 0, 0));
    assert_eq!(Pnt2::new(7u32, 9) / 4, Pnt2::new(1, 2));
}

#[test]
fn sums_wrap_around_the_bounds_of_the_scalar_type() {
    assert_eq!(Pnt2::new(255u8, 0) + 1, Pnt2::new(0, 1));
    assert_eq!(Pnt2::new(0u8, 255) - 1, Pnt2::new(255, 254));
    assert_eq!(Pnt2::new(127i8, -128) + 1, Pnt2::new(-128, -127));
    assert_eq!(Pnt2::new(127i8, -128) - 1, Pnt2::new(126, 127));
    let d = Displacement::from_array([u64::MAX, 1]);
    assert_eq!(Pnt2::new(2u64, u64::MAX) + d, Pnt2::new(1, 0));
}

#[test]
fn products_wrap_around_the_bounds_of_the_scalar_type() {
    assert_eq!(Pnt2::new(200u8, 16) * 16, Pnt2::new(128, 0));
    assert_eq!(Pnt2::new(100i8, -100) * 3, Pnt2::new(44, -44));
    assert_eq!(Pnt1::new(u64::MAX) * u64::MAX, Pnt1::new(1));
    assert_eq!(Pnt1::new(i64::MIN) * -1, Pnt1::new(i64::MIN));
}

#[test]
fn least_value_divided_by_minus_one_wraps() {
    assert_eq!(Pnt3::new(i8::MIN, 127, -127) / -1, Pnt3::new(i8::MIN, -127, 127));
    assert_eq!(Pnt1::new(i64::MIN) / -1, Pnt1::new(i64::MIN));
    assert_eq!(Pnt1::new(isize::MIN) / -1, Pnt1::new(isize::MIN));
}

#[test]
fn negation_negates_every_component() {
    assert_eq!(-Pnt3::new(1i32, -2, 0), Pnt3::new(-1, 2, 0));
    assert_eq!(-Pnt5::new(1i64, 2, 3, 4, 5), Pnt5::new(-1, -2, -3, -4, -5));
}

#[test]
fn negation_of_the_least_value_is_itself() {
    assert_eq!(-Pnt2::new(i8::MIN, i8::MAX), Pnt2::new(i8::MIN, -127));
    assert_eq!(-Pnt1::new(i32::MIN), Pnt1::new(i32::MIN));
}

#[test]
fn axpy_adds_a_times_x_in_place() {
    let mut y = Pnt3::new(1i32, 2, 3);
    y.axpy(2, &Pnt3::new(10, -20, 30));
    assert_eq!(y, Pnt3::new(21, -38, 63));
    let mut z = Pnt6::new(0u8, 1, 2, 3, 4, 5);
    z.axpy(0, &Pnt6::new(9, 9, 9, 9, 9, 9));
    assert_eq!(z, Pnt6::new(0, 1, 2, 3, 4, 5));
}

#[test]
fn axpy_wraps_like_the_operations_it_is_made_of() {
    let mut y = Pnt2::new(250u8, 1);
    y.axpy(3, &Pnt2::new(2, 100));
    assert_eq!(y, Pnt2::new(0, 45));
}

#[test]
fn displacements_add_and_scale() {
    let d = Displacement::from_array([1i16, -2, 3]);
    let e = Displacement::from_array([10i16, 20, 30]);
    assert_eq!(d + e, Displacement::from_array([11, 18, 33]));
    assert_eq!(d * 4, Displacement::from_array([4, -8, 12]));
    assert_eq!(Displacement::from_array([i16::MAX]) + Displacement::from_array([1]),
        Displacement::from_array([i16::MIN]));
}
