//! Flattened value forms, the scale-mismatch check, and the consistency of
//! equality, ordering and hashing with the underlying integer.

use fix::value::{FixError, FixU64, FixValue};
use fix::Fix;
use std::collections::hash_map::DefaultHasher;
use std::hash::{Hash, Hasher};

type Kilo<B> = Fix<B, 10, 3, false>;
type Centi<B> = Fix<B, 10, 2, true>;

fn hash_of<T: Hash>(t: &T) -> u64 {
    let mut h = DefaultHasher::new();
    t.hash(&mut h);
    h.finish()
}

#[test]
fn anchor_roundtrip_into_fixval() {
    let start = Kilo::new(6900u64);
    let there: FixValue<u64> = start.into_value();
    let back: Kilo<u64> = there.try_into().unwrap();
    assert_eq!(there, FixValue::new(6900u64, 10, 3));
    assert_eq!(start, back)
}

#[test]
fn fix_u64_roundtrip_into_fixval() {
    let start = Kilo::new(6900u64);
    let there: FixU64 = FixU64::from_fix(start);
    let back: Kilo<u64> = there.try_into().unwrap();
    assert_eq!(there, FixU64::new(6900u64, 10u8, 3i8));
    assert_eq!(start, back)
}

#[test]
fn negative_exponent_flattens() {
    let start = Centi::new(42u64);
    let there: FixValue<u64> = start.into_value();
    assert_eq!(there, FixValue::new(42u64, 10, -2));
    let back: Centi<u64> = there.try_into().unwrap();
    assert_eq!(start, back);
}

#[test]
fn mismatched_exponent_is_an_error() {
    let stored = FixValue::new(100u64, 10, -2);
    let back: Result<Kilo<u64>, FixError> = stored.try_into();
    assert_eq!(back, Err(FixError::ShapeMismatch));
}

#[test]
fn mismatched_base_is_an_error() {
    let stored = FixValue::new(100u64, 2, 3);
    let back: Result<Kilo<u64>, FixError> = stored.try_into();
    assert_eq!(back, Err(FixError::ShapeMismatch));
}

#[test]
fn fix_u64_mismatch_is_an_error() {
    let stored = FixU64::new(100u64, 10u8, -3i8);
    let back: Result<Kilo<u64>, FixError> = stored.try_into();
    assert_eq!(back, Err(FixError::ShapeMismatch));
}

#[test]
fn eq_ord_hash_follow_the_bits() {
    let a = Kilo::new(42u64);
    let b = Kilo::new(42u64);
    let c = Kilo::new(43u64);
    assert_eq!(a, b);
    assert_ne!(a, c);
    assert!(a < c);
    assert!(c > b);
    assert_eq!(hash_of(&a), hash_of(&b));
    assert_eq!(hash_of(&a), hash_of(&a.bits));
}

#[test]
fn describe_shows_value_and_scale() {
    assert_eq!(Centi::new(42u64).describe(), "42x10^-2");
    assert_eq!(Kilo::new(-7i32).describe(), "-7x10^3");
    assert_eq!(Centi::new(0i64).describe(), "0x10^-2");
    assert_eq!(Fix::<u64, 2, 0, false>::new(1024).describe(), "1024x2^0");
}
