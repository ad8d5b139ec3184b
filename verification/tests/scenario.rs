use npoint::{Displacement, Pnt2, Pnt3};

#[test]
fn translate_then_lift_in_the_plane() {
    let p = Pnt2::new(1i64, 2);
    let d = Displacement::from_array([3i64, 4]);
    assert_eq!(p + d, Pnt2::new(4, 6));
    assert!(((p + d) - p).approx_eq_eps(&d, 0));
    assert_eq!((p + d) - p, d);
    let h = p.to_homogeneous();
    assert_eq!(h, Pnt3::new(1, 2, 1));
    assert_eq!(h.len(), 3);
    assert!(Pnt2::from_homogeneous(&h).approx_eq_eps(&p, 0));
    assert_eq!(Pnt2::from_homogeneous(&h), p);
}
