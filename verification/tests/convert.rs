//! Rescaling between exponents, widening and narrowing, and the
//! exponentiation capabilities behind them.

use fix::bits::{FromUnsigned, Pow};
use fix::util::FixExt;
use fix::Fix;

type Unit<B> = Fix<B, 10, 0, false>;
type Kilo<B> = Fix<B, 10, 3, false>;
type Milli<B> = Fix<B, 10, 3, true>;
type Centi<B> = Fix<B, 10, 2, true>;

#[test]
fn convert_milli_to_kilo() {
    assert_eq!(Kilo::new(15), Milli::new(15_000_000).convert());
}

#[test]
fn convert_kilo_to_milli() {
    assert_eq!(Milli::new(15_000_000), Kilo::new(15).convert());
}

#[test]
fn convert_round_trip_restores_value() {
    let start = Kilo::new(15i32);
    let fine: Milli<i32> = start.convert();
    let back: Kilo<i32> = fine.convert();
    assert_eq!(start, back);
}

#[test]
fn convert_same_exponent_is_identity() {
    let start = Centi::new(42u64);
    let same: Centi<u64> = start.convert();
    assert_eq!(start, same);
}

#[test]
fn convert_binary_base() {
    type Kibi<B> = Fix<B, 2, 10, false>;
    type Mebi<B> = Fix<B, 2, 20, false>;
    assert_eq!(Kibi::new(1024), Mebi::new(1).convert());
}

#[test]
fn convert_truncates_toward_zero() {
    let fine = Milli::new(-1500i64);
    let coarse: Unit<i64> = fine.convert();
    assert_eq!(coarse, Unit::new(-1));
}

#[test]
fn checked_convert_matches_convert() {
    let kilo = Kilo::new(15u64);
    assert_eq!(kilo.checked_convert::<3, true>(), Some(Milli::new(15_000_000u64)));
}

#[test]
fn checked_convert_overflow_is_none() {
    let kilo = Kilo::new(50u8);
    assert_eq!(kilo.checked_convert::<0, false>(), None);
}

#[test]
fn checked_convert_rounds_down() {
    let fine = Milli::new(-1500i64);
    assert_eq!(fine.checked_convert::<0, false>(), Some(Unit::new(-2i64)));
    let pos = Milli::new(1500i64);
    assert_eq!(pos.checked_convert::<0, false>(), Some(Unit::new(1i64)));
}

#[test]
fn narrow_succeeds() {
    let one = Milli::new(1000u128);
    let mapped = one.narrow::<u64>();
    assert_eq!(mapped, Some(Milli::new(1000u64)));
}

#[test]
fn narrow_fails() {
    let one = Milli::new(1699u64);
    let mapped = one.narrow::<u8>();
    assert_eq!(mapped, None);
}

#[test]
fn widen_succeeds() {
    let one = Milli::new(1340191u64);
    let mapped = one.widen::<u128>();
    assert_eq!(mapped, Milli::new(1340191u128));
}

#[test]
fn widen_then_narrow_restores_value() {
    let start = Milli::new(987654321u64);
    let wide = start.widen::<u128>();
    assert_eq!(wide.narrow::<u64>(), Some(start));
}

#[test]
fn widen_signed_keeps_sign() {
    let start = Milli::new(-12345i32);
    let wide = start.widen::<i128>();
    assert_eq!(wide, Milli::new(-12345i128));
    assert_eq!(wide.narrow::<i32>(), Some(start));
}

#[test]
fn pow_capability_matches_exponentiation() {
    assert_eq!(<u64 as Pow>::pow(10, 3), 1000);
    assert_eq!(<i64 as Pow>::pow(-10, 3), -1000);
    assert_eq!(<u64 as Pow>::checked_pow(10, 19), Some(10_000_000_000_000_000_000));
    assert_eq!(<u64 as Pow>::checked_pow(10, 20), None);
    assert_eq!(<u8 as Pow>::checked_pow(2, 8), None);
    assert_eq!(<u8 as Pow>::checked_pow(2, 7), Some(128));
}

#[test]
fn from_unsigned_materializes_the_base() {
    assert_eq!(<i32 as FromUnsigned>::from_unsigned(10), 10);
    assert_eq!(<u128 as FromUnsigned>::from_unsigned(2), 2);
}

#[test]
fn one_and_zero_of_a_scale() {
    assert_eq!(<Centi<u64> as FixExt>::one(), Centi::new(100));
    assert_eq!(<Milli<u64> as FixExt>::one(), Milli::new(1000));
    assert_eq!(<Centi<u64> as FixExt>::zero(), Centi::new(0));
}
