use npoint::{Pnt0, Pnt1, Pnt2, Pnt3, Pnt4, Pnt5, Pnt6};

#[test]
fn at_reads_components_in_canonical_order() {
    let p = Pnt6::new(10i32, 20, 30, 40, 50, 60);
    assert_eq!(p.at(0), 10);
    assert_eq!(p.at(1), 20);
    assert_eq!(p.at(2), 30);
    assert_eq!(p.at(3), 40);
    assert_eq!(p.at(4), 50);
    assert_eq!(p.at(5), 60);
    assert_eq!(Pnt1::new(7u8).at(0), 7);
    assert_eq!(Pnt2::new(7u8, 8).at(1), 8);
    assert_eq!(Pnt3::new(7u8, 8, 9).at(2), 9);
    assert_eq!(Pnt4::new(7u8, 8, 9, 10).at(3), 10);
    assert_eq!(Pnt5::new(7u8, 8, 9, 10, 11).at(4), 11);
}

#[test]
fn get_agrees_with_at_in_range() {
    let p = Pnt4::new(1i64, 2, 3, 4);
    assert_eq!(p.get(0), Some(1));
    assert_eq!(p.get(1), Some(2));
    assert_eq!(p.get(2), Some(3));
    assert_eq!(p.get(3), Some(4));
}

#[test]
fn get_one_past_the_last_is_out_of_range() {
    assert_eq!(Pnt0::<i32>::new().get(0), None);
    assert_eq!(Pnt1::new(1i32).get(1), None);
    assert_eq!(Pnt2::new(1i32, 2).get(2), None);
    assert_eq!(Pnt3::new(1i32, 2, 3).get(3), None);
    assert_eq!(Pnt4::new(1i32, 2, 3, 4).get(4), None);
    assert_eq!(Pnt5::new(1i32, 2, 3, 4, 5).get(5), None);
    assert_eq!(Pnt6::new(1i32, 2, 3, 4, 5, 6).get(6), None);
}

#[test]
fn get_far_out_of_range_is_none() {
    assert_eq!(Pnt0::<u8>::new().get(usize::MAX), None);
    assert_eq!(Pnt3::new(1u8, 2, 3).get(usize::MAX), None);
    assert_eq!(Pnt6::new(1u8, 2, 3, 4, 5, 6).get(7), None);
}

#[test]
fn set_replaces_one_component() {
    let mut p = Pnt3::new(1u32, 2, 3);
    p.set(1, 20);
    assert_eq!(p, Pnt3::new(1, 20, 3));
    p.set(0, 10);
    p.set(2, 30);
    assert_eq!(p, Pnt3::new(10, 20, 30));
    assert_eq!(p.y, 20);
}

#[test]
fn set_reaches_every_named_component() {
    let mut p = Pnt6::<i8>::origin();
    p.set(0, 1);
    p.set(1, 2);
    p.set(2, 3);
    p.set(3, 4);
    p.set(4, 5);
    p.set(5, 6);
    assert_eq!((p.x, p.y, p.z, p.w, p.a, p.b), (1, 2, 3, 4, 5, 6));
}

#[test]
fn swap_exchanges_two_components() {
    let mut p = Pnt4::new(1u16, 2, 3, 4);
    p.swap(0, 3);
    assert_eq!(p, Pnt4::new(4, 2, 3, 1));
    p.swap(1, 1);
    assert_eq!(p, Pnt4::new(4, 2, 3, 1));
    p.swap(2, 1);
    assert_eq!(p, Pnt4::new(4, 3, 2, 1));
}

#[test]
fn to_array_can_be_walked_more_than_once() {
    let p = Pnt5::new(1u64, 2, 3, 4, 5);
    let first: Vec<u64> = p.to_array().into_iter().collect();
    let second: Vec<u64> = p.to_array().into_iter().collect();
    assert_eq!(first, vec![1, 2, 3, 4, 5]);
    assert_eq!(first, second);
    let sum: u64 = p.to_array().iter().sum();
    assert_eq!(sum, 15);
}
