//! The checked arithmetic family: absent results exactly at the
//! representation boundary.

use fix::Fix;

type Unit<B> = Fix<B, 10, 0, false>;
type Kilo<B> = Fix<B, 10, 3, false>;

#[test]
fn checked_add_neg() {
    let max = Kilo::new(u8::MAX);
    let one = Kilo::new(1);
    assert!(max.checked_add(&one).is_none())
}

#[test]
fn checked_add_pos() {
    let forty = Kilo::new(40);
    let two = Kilo::new(2);
    assert_eq!(forty.checked_add(&two), Some(Kilo::new(42)))
}

#[test]
fn checked_sub_neg() {
    let one = Kilo::new(1);
    let max = Kilo::new(u8::MAX);
    assert!(one.checked_sub(&max).is_none())
}

#[test]
fn checked_sub_pos() {
    let fifty = Kilo::new(50);
    let eight = Kilo::new(8);
    assert_eq!(fifty.checked_sub(&eight), Some(Kilo::new(42)))
}

#[test]
fn checked_mul_neg() {
    let fifty = Kilo::new(50);
    let max = Kilo::new(u8::MAX);
    assert!(fifty.checked_mul::<3, false, 6, false>(&max).is_none())
}

#[test]
fn checked_mul_pos() {
    let fifty = Kilo::new(50_u64);
    assert_eq!(
        fifty.checked_mul::<3, false, 6, false>(&fifty).map(|out| out.convert()),
        Some(Kilo::new(2_500_000_u64))
    )
}

#[test]
fn checked_div_neg() {
    let one = Unit::new(0);
    assert!(one.checked_div::<0, false, 0, false>(&one).is_none())
}

#[test]
fn checked_div_pos() {
    let hundred = Kilo::new(100);
    let five = Kilo::new(5);
    assert_eq!(hundred.checked_div(&five), Some(Unit::new(20)))
}

#[test]
fn checked_div_truncates_toward_zero() {
    let minus_seven = Kilo::new(-7i32);
    let two = Kilo::new(2i32);
    assert_eq!(minus_seven.checked_div(&two), Some(Unit::new(-3)));
}

#[test]
fn checked_add_boundary_is_exact() {
    let below = Kilo::new(u64::MAX - 1);
    let one = Kilo::new(1u64);
    assert_eq!(below.checked_add(&one), Some(Kilo::new(u64::MAX)));
    assert!(Kilo::new(u64::MAX).checked_add(&one).is_none());
}

#[test]
fn checked_sub_signed_boundary() {
    let min = Kilo::new(i32::MIN);
    let one = Kilo::new(1i32);
    assert!(min.checked_sub(&one).is_none());
    assert_eq!(min.checked_add(&one), Some(Kilo::new(i32::MIN + 1)));
}
