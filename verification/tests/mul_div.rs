//! Combined multiply-then-divide with the three rounding modes.

use fix::Fix;

type Milli<B> = Fix<B, 10, 3, true>;

#[test]
fn mul_div_ceil() {
    let start = Milli::new(313459u64);
    let mul = Milli::new(1200u64);
    let div = Milli::new(2450u64);
    assert_eq!(start.mul_div_ceil(mul, div), Some(Milli::new(153531)));
}

#[test]
fn mul_div_ceil_unit() {
    let start = Milli::new(31345934u64);
    let mul = Milli::new(1000u64);
    let div = Milli::new(2000u64);
    assert_eq!(start.mul_div_ceil(mul, div), Some(Milli::new(15672967u64)));
}

#[test]
fn mul_div_floor() {
    let start = Milli::new(69_693u64);
    let mul = Milli::new(5_192u64);
    let div = Milli::new(190u64);
    assert_eq!(start.mul_div_floor(mul, div), Some(Milli::new(1904452u64)));
}

#[test]
fn mul_div_floor_unit() {
    let start = Milli::new(69_693u64);
    let mul = Milli::new(1000u64);
    let div = Milli::new(9u64);
    assert_eq!(start.mul_div_floor(mul, div), Some(Milli::new(7743666u64)));
}

#[test]
fn mul_div_round() {
    let start = Milli::new(1892u64);
    let mul = Milli::new(3222u64);
    let div = Milli::new(9999u64);
    assert_eq!(start.mul_div_round(mul, div), Some(Milli::new(610u64)));
}

#[test]
fn mul_div_round_unit() {
    let start = Milli::new(1892u64);
    let mul = Milli::new(1000u64);
    let div = Milli::new(322u64);
    assert_eq!(start.mul_div_round(mul, div), Some(Milli::new(5876u64)));
}

#[test]
fn mul_div_zero_denominator_is_none() {
    let start = Milli::new(5u64);
    assert!(start.mul_div_floor(Milli::new(1), Milli::new(0)).is_none());
    assert!(start.mul_div_ceil(Milli::new(1), Milli::new(0)).is_none());
    assert!(start.mul_div_round(Milli::new(1), Milli::new(0)).is_none());
}

#[test]
fn mul_div_overflow_is_none() {
    let start = Milli::new(u64::MAX);
    let two = Milli::new(2u64);
    let one = Milli::new(1u64);
    assert!(start.mul_div_floor(two, one).is_none());
}

#[test]
fn mul_div_survives_wide_intermediate() {
    let start = Milli::new(u64::MAX);
    let big = Milli::new(1_000_000u64);
    assert_eq!(start.mul_div_floor(big, big), Some(start));
}

#[test]
fn mul_div_signed_rounding() {
    let start = Milli::new(-5i64);
    let two = Milli::new(2i64);
    let three = Milli::new(3i64);
    assert_eq!(start.mul_div_floor(two, three), Some(Milli::new(-4i64)));
    assert_eq!(start.mul_div_ceil(two, three), Some(Milli::new(-3i64)));
    assert_eq!(start.mul_div_round(two, three), Some(Milli::new(-3i64)));
    let pos = Milli::new(3i64);
    assert_eq!(pos.mul_div_floor(three, two), Some(Milli::new(4i64)));
    assert_eq!(pos.mul_div_ceil(three, two), Some(Milli::new(5i64)));
    assert_eq!(pos.mul_div_round(three, two), Some(Milli::new(5i64)));
}

#[test]
fn mul_div_signed_min_is_reachable() {
    let start = Milli::new(i64::MIN);
    let one = Milli::new(1i64);
    assert_eq!(start.mul_div_floor(one, one), Some(start));
    let neg_one = Milli::new(-1i64);
    assert!(start.mul_div_floor(neg_one, one).is_none());
}
