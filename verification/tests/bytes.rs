//! The storage byte layout of the flattened forms.

use fix::value::{FixU64, FixValue};

#[test]
fn anchor_roundtrip_serialize_fixval() {
    let start = FixValue::new(89001u32, 10, -2);
    let bytes = start.to_bytes();
    let back = FixValue::<u32>::from_bytes(bytes.as_slice()).unwrap();
    assert_eq!(start, back)
}

#[test]
fn fix_u64_roundtrip_serialize_fixval() {
    let start = FixU64::new(89001u64, 10u8, -2i8);
    let bytes = start.to_bytes();
    let back = FixU64::from_bytes(bytes.as_slice()).unwrap();
    assert_eq!(start, back)
}

#[test]
fn byte_layout_is_little_endian_with_scale() {
    let v = FixValue::new(0x0102u16, 10, -2);
    assert_eq!(v.to_bytes(), vec![0x02, 0x01, 10, 254]);
    let w = FixValue::new(89001u32, 10, -2);
    assert_eq!(w.to_bytes(), vec![0xA9, 0x5B, 0x01, 0x00, 10, 254]);
}

#[test]
fn signed_bits_encode_two_complement() {
    let v = FixValue::new(-2i16, 2, 3);
    assert_eq!(v.to_bytes(), vec![0xFE, 0xFF, 2, 3]);
    let back = FixValue::<i16>::from_bytes(&[0xFE, 0xFF, 2, 3]).unwrap();
    assert_eq!(back, v);
}

#[test]
fn from_bytes_wrong_length_is_none() {
    assert!(FixValue::<u16>::from_bytes(&[1, 2, 3]).is_none());
    assert!(FixValue::<u16>::from_bytes(&[1, 2, 3, 4, 5]).is_none());
    assert!(FixU64::from_bytes(&[0; 9]).is_none());
}

#[test]
fn from_bytes_reads_two_complement() {
    let v = FixValue::<i8>::from_bytes(&[0xFF, 10, 0xFF]).unwrap();
    assert_eq!(v, FixValue::new(-1i8, 10, -1));
    let w = FixValue::<u8>::from_bytes(&[0xFF, 10, 1]).unwrap();
    assert_eq!(w, FixValue::new(255u8, 10, 1));
}

#[test]
fn widest_widths_roundtrip() {
    let v = FixValue::new(i128::MIN, 10, -9);
    let bytes = v.to_bytes();
    assert_eq!(bytes.len(), 18);
    assert_eq!(FixValue::<i128>::from_bytes(bytes.as_slice()), Some(v));
    let w = FixValue::new(u128::MAX, 10, 9);
    assert_eq!(FixValue::<u128>::from_bytes(w.to_bytes().as_slice()), Some(w));
}

#[test]
fn declared_size_matches_the_bytes() {
    assert_eq!(FixValue::<u32>::declared_size(), 6);
    assert_eq!(FixU64::declared_size(), 10);
    let v = FixValue::new(7u32, 10, 0);
    assert_eq!(v.to_bytes().len(), FixValue::<u32>::declared_size());
}
