//! Same-scale and cross-scale arithmetic on typed fixed-point values.

use fix::Fix;

type Unit<B> = Fix<B, 10, 0, false>;
type Kilo<B> = Fix<B, 10, 3, false>;
type Milli<B> = Fix<B, 10, 3, true>;

#[test]
fn cmp() {
    assert!(Kilo::new(1) < Kilo::new(2));
}

#[test]
fn neg() {
    assert_eq!(Kilo::new(-1), Kilo::new(1i32).neg());
}

#[test]
fn add() {
    assert_eq!(Kilo::new(3), Kilo::new(1).add(Kilo::new(2)));
}

#[test]
fn sub() {
    assert_eq!(Kilo::new(1), Kilo::new(3).sub(Kilo::new(2)));
}

#[test]
fn mul() {
    assert_eq!(Unit::new(6), Kilo::new(2).mul(Milli::new(3)));
}

#[test]
fn div() {
    assert_eq!(Unit::new(3), Kilo::new(6).div(Kilo::new(2)));
}

#[test]
fn rem() {
    assert_eq!(Kilo::new(1), Kilo::new(6).rem(Kilo::new(5)));
}

#[test]
fn mul_bits() {
    assert_eq!(Kilo::new(6), Kilo::new(2).mul_bits(3));
}

#[test]
fn div_bits() {
    assert_eq!(Kilo::new(3), Kilo::new(6).div_bits(2));
}

#[test]
fn rem_bits() {
    assert_eq!(Kilo::new(1), Kilo::new(6).rem_bits(5));
}

#[test]
fn add_assign() {
    let mut a = Kilo::new(1);
    a.add_assign(Kilo::new(2));
    assert_eq!(Kilo::new(3), a);
}

#[test]
fn sub_assign() {
    let mut a = Kilo::new(3);
    a.sub_assign(Kilo::new(2));
    assert_eq!(Kilo::new(1), a);
}

#[test]
fn mul_assign_bits() {
    let mut a = Kilo::new(2);
    a.mul_assign(3);
    assert_eq!(Kilo::new(6), a);
}

#[test]
fn div_assign_bits() {
    let mut a = Kilo::new(6);
    a.div_assign(2);
    assert_eq!(Kilo::new(3), a);
}

#[test]
fn rem_assign() {
    let mut a = Kilo::new(6);
    a.rem_assign(Milli::new(5));
    assert_eq!(Kilo::new(1), a);
}

#[test]
fn rem_assign_bits() {
    let mut a = Kilo::new(6);
    a.rem_assign_bits(5);
    assert_eq!(Kilo::new(1), a);
}

#[test]
fn div_truncates_toward_zero() {
    assert_eq!(Unit::new(-3), Kilo::new(-7i32).div(Kilo::new(2)));
    assert_eq!(Kilo::new(-1), Kilo::new(-7i32).rem(Kilo::new(2)));
}

#[test]
fn default_is_zero() {
    assert_eq!(Kilo::<u64>::default(), Kilo::new(0));
}

#[test]
fn binary_scales_multiply() {
    type Kibi<B> = Fix<B, 2, 10, false>;
    type Mebi<B> = Fix<B, 2, 20, false>;
    type Gibi<B> = Fix<B, 2, 30, false>;
    assert_eq!(Mebi::new(3), Gibi::new(6).div(Kibi::new(2)));
    assert_eq!(Gibi::new(8), Mebi::new(2).mul(Kibi::new(4)));
}
