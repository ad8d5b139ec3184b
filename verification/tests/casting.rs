use npoint::{Pnt0, Pnt2, Pnt3, Pnt4, Pnt6};

#[test]
fn cast_to_a_wider_type_keeps_every_value() {
    let p = Pnt3::new(-5i8, 0, 127);
    let q: Pnt3<i64> = p.cast();
    assert_eq!(q, Pnt3::new(-5, 0, 127));
    let r: Pnt3<u64> = Pnt3::new(0u8, 128, 255).cast();
    assert_eq!(r, Pnt3::new(0, 128, 255));
}

#[test]
fn cast_round_trip_through_a_wider_type() {
    let p = Pnt4::new(i32::MIN, -1, 0, i32::MAX);
    let wide: Pnt4<i64> = p.cast();
    let back: Pnt4<i32> = wide.cast();
    assert_eq!(back, p);
    let q = Pnt2::new(0u16, u16::MAX);
    let wide: Pnt2<usize> = q.cast();
    let back: Pnt2<u16> = wide.cast();
    assert_eq!(back, q);
}

#[test]
fn cast_round_trip_between_signs_where_the_values_fit() {
    let p = Pnt3::new(0i32, 1, i32::MAX);
    let other: Pnt3<u32> = p.cast();
    let back: Pnt3<i32> = other.cast();
    assert_eq!(other, Pnt3::new(0, 1, 2147483647));
    assert_eq!(back, p);
}

#[test]
fn cast_to_a_narrower_type_keeps_the_low_bits() {
    let p = Pnt4::new(300i32, -1, 256, 255);
    let q: Pnt4<u8> = p.cast();
    assert_eq!(q, Pnt4::new(44, 255, 0, 255));
    let r: Pnt4<i8> = p.cast();
    assert_eq!(r, Pnt4::new(44, -1, 0, -1));
}

#[test]
fn cast_between_signs_reinterprets_the_bits() {
    let p: Pnt2<i64> = Pnt2::new(u64::MAX, 1u64 << 63).cast();
    assert_eq!(p, Pnt2::new(-1, i64::MIN));
    let q: Pnt2<u64> = Pnt2::new(-1i64, i64::MIN).cast();
    assert_eq!(q, Pnt2::new(u64::MAX, 1u64 << 63));
    let r: Pnt2<u16> = Pnt2::new(-2i8, -128).cast();
    assert_eq!(r, Pnt2::new(65534, 65408));
}

#[test]
fn cast_agrees_with_the_primitive_conversion() {
    let values = [i64::MIN, -4294967297, -65537, -129, -1, 0, 1, 128, 65536, 4294967296, i64::MAX];
    for v in values {
        let p = Pnt2::new(v, v);
        assert_eq!(p.cast::<u8>(), Pnt2::new(v as u8, v as u8));
        assert_eq!(p.cast::<i8>(), Pnt2::new(v as i8, v as i8));
        assert_eq!(p.cast::<u16>(), Pnt2::new(v as u16, v as u16));
        assert_eq!(p.cast::<i16>(), Pnt2::new(v as i16, v as i16));
        assert_eq!(p.cast::<u32>(), Pnt2::new(v as u32, v as u32));
        assert_eq!(p.cast::<i32>(), Pnt2::new(v as i32, v as i32));
        assert_eq!(p.cast::<u64>(), Pnt2::new(v as u64, v as u64));
        assert_eq!(p.cast::<i64>(), Pnt2::new(v, v));
        assert_eq!(p.cast::<usize>(), Pnt2::new(v as usize, v as usize));
        assert_eq!(p.cast::<isize>(), Pnt2::new(v as isize, v as isize));
    }
}

#[test]
fn cast_keeps_the_dimension() {
    let p: Pnt6<u8> = Pnt6::new(1i64, 2, 3, 4, 5, 6).cast();
    assert_eq!(p.len(), 6);
    assert_eq!(p, Pnt6::new(1, 2, 3, 4, 5, 6));
    let z: Pnt0<u8> = Pnt0::<i64>::new().cast();
    assert_eq!(z.len(), 0);
}
