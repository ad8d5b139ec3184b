use npoint::{Pnt1, Pnt2, Pnt3, Pnt4, Pnt5, Pnt6};

#[test]
fn to_homogeneous_appends_the_weight_one() {
    assert_eq!(Pnt1::new(7i32).to_homogeneous(), Pnt2::new(7, 1));
    assert_eq!(Pnt2::new(7i32, 8).to_homogeneous(), Pnt3::new(7, 8, 1));
    assert_eq!(Pnt3::new(7i32, 8, 9).to_homogeneous(), Pnt4::new(7, 8, 9, 1));
    assert_eq!(Pnt4::new(7i32, 8, 9, 10).to_homogeneous(), Pnt5::new(7, 8, 9, 10, 1));
    assert_eq!(Pnt5::new(7i32, 8, 9, 10, 11).to_homogeneous(), Pnt6::new(7, 8, 9, 10, 11, 1));
}

#[test]
fn from_homogeneous_divides_by_the_weight_and_drops_it() {
    assert_eq!(Pnt1::from_homogeneous(&Pnt2::new(8i32, 2)), Pnt1::new(4));
    assert_eq!(Pnt2::from_homogeneous(&Pnt3::new(8i32, -6, 2)), Pnt2::new(4, -3));
    assert_eq!(Pnt3::from_homogeneous(&Pnt4::new(8i32, -6, 4, -2)), Pnt3::new(-4, 3, -2));
    assert_eq!(Pnt4::from_homogeneous(&Pnt5::new(9u8, 6, 3, 0, 3)), Pnt4::new(3, 2, 1, 0));
    assert_eq!(
        Pnt5::from_homogeneous(&Pnt6::new(50i64, 40, 30, 20, 10, 10)),
        Pnt5::new(5, 4, 3, 2, 1)
    );
}

#[test]
fn from_homogeneous_rounds_toward_zero() {
    assert_eq!(Pnt2::from_homogeneous(&Pnt3::new(7i32, -7, 2)), Pnt2::new(3, -3));
    assert_eq!(Pnt2::from_homogeneous(&Pnt3::new(7i32, -7, -2)), Pnt2::new(-3, 3));
}

#[test]
fn from_homogeneous_with_weight_minus_one_wraps_the_least_value() {
    assert_eq!(Pnt2::from_homogeneous(&Pnt3::new(i8::MIN, 5, -1)), Pnt2::new(i8::MIN, -5));
}

#[test]
fn homogeneous_round_trip_gives_the_point_again() {
    let line = Pnt1::new(i32::MIN);
    assert_eq!(Pnt1::from_homogeneous(&line.to_homogeneous()), line);
    let plane = Pnt2::new(u8::MAX, 0);
    assert_eq!(Pnt2::from_homogeneous(&plane.to_homogeneous()), plane);
    let space = Pnt3::new(-1i64, i64::MAX, i64::MIN);
    assert_eq!(Pnt3::from_homogeneous(&space.to_homogeneous()), space);
    let four = Pnt4::new(1u16, 2, 3, 4);
    assert_eq!(Pnt4::from_homogeneous(&four.to_homogeneous()), four);
    let five = Pnt5::new(-1isize, 2, -3, 4, -5);
    assert_eq!(Pnt5::from_homogeneous(&five.to_homogeneous()), five);
    assert!(Pnt5::from_homogeneous(&five.to_homogeneous()).approx_eq(&five));
}
