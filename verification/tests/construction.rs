use npoint::{Displacement, Pnt0, Pnt1, Pnt2, Pnt3, Pnt4, Pnt5, Pnt6};

#[test]
fn new_in_dimension_zero_has_no_component() {
    let p: Pnt0<i32> = Pnt0::new();
    assert_eq!(p.len(), 0);
    assert_eq!(Pnt0::<i32>::dim(), 0);
    assert_eq!(p.to_array(), [0i32; 0]);
}

#[test]
fn new_repeat_in_dimension_zero_ignores_its_argument() {
    let p: Pnt0<i32> = Pnt0::new_repeat(7);
    let q: Pnt0<i32> = Pnt0::new_repeat(-7);
    assert_eq!(p, q);
    assert_eq!(p, Pnt0::new());
}

#[test]
fn new_keeps_the_order_of_its_arguments() {
    assert_eq!(Pnt1::new(1u8).to_array(), [1]);
    assert_eq!(Pnt2::new(1u16, 2).to_array(), [1, 2]);
    assert_eq!(Pnt3::new(1u32, 2, 3).to_array(), [1, 2, 3]);
    assert_eq!(Pnt4::new(1u64, 2, 3, 4).to_array(), [1, 2, 3, 4]);
    assert_eq!(Pnt5::new(1i8, 2, 3, 4, 5).to_array(), [1, 2, 3, 4, 5]);
    assert_eq!(Pnt6::new(1i16, 2, 3, 4, 5, 6).to_array(), [1, 2, 3, 4, 5, 6]);
}

#[test]
fn new_fills_the_named_components() {
    let p = Pnt6::new(10i32, 20, 30, 40, 50, 60);
    assert_eq!(p.x, 10);
    assert_eq!(p.y, 20);
    assert_eq!(p.z, 30);
    assert_eq!(p.w, 40);
    assert_eq!(p.a, 50);
    assert_eq!(p.b, 60);
}

#[test]
fn from_array_is_the_inverse_of_to_array() {
    let c = [5i64, -6, 7, -8];
    assert_eq!(Pnt4::from_array(c).to_array(), c);
    assert_eq!(Pnt4::from_array(c), Pnt4::new(5, -6, 7, -8));
    let p = Pnt3::new(1usize, 2, 3);
    assert_eq!(Pnt3::from_array(p.to_array()), p);
}

#[test]
fn new_repeat_sets_every_component() {
    assert_eq!(Pnt1::new_repeat(9u8), Pnt1::new(9));
    assert_eq!(Pnt2::new_repeat(9i8), Pnt2::new(9, 9));
    assert_eq!(Pnt3::new_repeat(-9i16), Pnt3::new(-9, -9, -9));
    assert_eq!(Pnt4::new_repeat(9u32), Pnt4::new(9, 9, 9, 9));
    assert_eq!(Pnt5::new_repeat(9isize), Pnt5::new(9, 9, 9, 9, 9));
    assert_eq!(Pnt6::new_repeat(9u64), Pnt6::new(9, 9, 9, 9, 9, 9));
}

#[test]
fn origin_is_zero_in_every_component() {
    assert_eq!(Pnt0::<u8>::origin(), Pnt0::new());
    assert_eq!(Pnt1::<u8>::origin(), Pnt1::new(0));
    assert_eq!(Pnt2::<i64>::origin(), Pnt2::new(0, 0));
    assert_eq!(Pnt3::<i32>::origin(), Pnt3::new(0, 0, 0));
    assert_eq!(Pnt4::<u16>::origin(), Pnt4::new(0, 0, 0, 0));
    assert_eq!(Pnt5::<isize>::origin(), Pnt5::new(0, 0, 0, 0, 0));
    assert_eq!(Pnt6::<usize>::origin(), Pnt6::new(0, 0, 0, 0, 0, 0));
}

#[test]
fn dim_and_len_give_the_dimension() {
    assert_eq!(Pnt1::<u8>::dim(), 1);
    assert_eq!(Pnt2::<u8>::dim(), 2);
    assert_eq!(Pnt3::<u8>::dim(), 3);
    assert_eq!(Pnt4::<u8>::dim(), 4);
    assert_eq!(Pnt5::<u8>::dim(), 5);
    assert_eq!(Pnt6::<u8>::dim(), 6);
    assert_eq!(Pnt1::new(0u8).len(), 1);
    assert_eq!(Pnt2::new(0u8, 0).len(), 2);
    assert_eq!(Pnt3::new(0u8, 0, 0).len(), 3);
    assert_eq!(Pnt4::new(0u8, 0, 0, 0).len(), 4);
    assert_eq!(Pnt5::new(0u8, 0, 0, 0, 0).len(), 5);
    assert_eq!(Pnt6::new(0u8, 0, 0, 0, 0, 0).len(), 6);
    assert_eq!(Displacement::<u8, 4>::dim(), 4);
}

#[test]
fn min_value_holds_the_least_scalar_everywhere() {
    assert_eq!(Pnt1::<i8>::min_value(), Pnt1::new(-128));
    assert_eq!(Pnt2::<i16>::min_value(), Pnt2::new(i16::MIN, i16::MIN));
    assert_eq!(Pnt3::<i32>::min_value(), Pnt3::new(i32::MIN, i32::MIN, i32::MIN));
    assert_eq!(Pnt4::<i64>::min_value().to_array(), [i64::MIN; 4]);
    assert_eq!(Pnt5::<isize>::min_value().to_array(), [isize::MIN; 5]);
    assert_eq!(Pnt6::<u64>::min_value().to_array(), [0u64; 6]);
    assert_eq!(Pnt0::<u8>::min_value(), Pnt0::new());
}

#[test]
fn max_value_holds_the_greatest_scalar_everywhere() {
    assert_eq!(Pnt1::<u8>::max_value(), Pnt1::new(255));
    assert_eq!(Pnt2::<u16>::max_value(), Pnt2::new(u16::MAX, u16::MAX));
    assert_eq!(Pnt3::<u32>::max_value().to_array(), [u32::MAX; 3]);
    assert_eq!(Pnt4::<u64>::max_value().to_array(), [u64::MAX; 4]);
    assert_eq!(Pnt5::<usize>::max_value().to_array(), [usize::MAX; 5]);
    assert_eq!(Pnt6::<i8>::max_value().to_array(), [127i8; 6]);
    assert_eq!(Pnt0::<i64>::max_value(), Pnt0::new());
}

#[test]
fn to_displacement_keeps_the_components() {
    let p = Pnt3::new(4i32, -5, 6);
    assert_eq!(p.to_displacement(), Displacement::from_array([4, -5, 6]));
    assert_eq!(Pnt3::origin() + p.to_displacement(), p);
}

#[test]
fn set_coords_takes_the_components_of_the_displacement() {
    let mut p = Pnt2::new(1u8, 2);
    p.set_coords(Displacement::from_array([7, 8]));
    assert_eq!(p, Pnt2::new(7, 8));
}

#[test]
fn zero_displacement_moves_nothing() {
    let p = Pnt3::new(4i32, -5, 6);
    assert_eq!(Displacement::<i32, 3>::zero().coords, [0, 0, 0]);
    assert_eq!(p + Displacement::zero(), p);
}

#[test]
fn displacement_at_reads_in_order() {
    let d = Displacement::from_array([7u16, 8, 9]);
    assert_eq!(d.at(0), 7);
    assert_eq!(d.at(1), 8);
    assert_eq!(d.at(2), 9);
}

#[test]
fn clone_gives_an_equal_point() {
    let p = Pnt3::new(4i32, -5, 6);
    assert_eq!(p.clone(), p);
    let d = Displacement::from_array([1u8, 2]);
    assert_eq!(d.clone(), d);
}
