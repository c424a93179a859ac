//! Capability traits of the underlying integers.
//!
//! The scale engine is generic over the machine integer that stores a
//! number.  Each capability a generic operation needs — arithmetic with a
//! known result, checked arithmetic, exponentiation, conversion across
//! widths — is a trait here, implemented once per primitive width, so the
//! generic code is written and verified once.

use crate::num::{mdiv_ceil, mdiv_floor, mdiv_round, tdiv, tmod};
use vstd::arithmetic::power::pow;
use vstd::math::abs;
use vstd::prelude::*;

verus! {

/// Whether `x` is representable in `T`.
pub open spec fn fits<T: FixBits>(x: int) -> bool {
    T::min_val() <= x <= T::max_val()
}

/// The value a wide sign-and-magnitude pair stands for.
pub open spec fn wide_val(mag: u128, neg: bool) -> int {
    if neg {
        -(mag as int)
    } else {
        mag as int
    }
}

/// An integer that can store a fixed-point number.
///
/// `val` is the mathematical value of the integer, and every operation's
/// contract is stated over it.  The plain operations require the caller to
/// show the result representable; the checked ones report an absent result
/// exactly at the type's boundary.
pub trait FixBits: Copy + Sized {
    /// The mathematical value of this machine integer.
    spec fn val(self) -> int;

    /// The smallest value of the type.
    spec fn min_val() -> int;

    /// The largest value of the type.
    spec fn max_val() -> int;

    /// The range is either unsigned, starting at zero, or a two's-complement
    /// range around zero; it always contains zero and one.
    proof fn lemma_range()
        ensures
            Self::min_val() == 0 || Self::min_val() == -Self::max_val() - 1,
            1 <= Self::max_val(),
    ;

    /// Every value of the type lies in its range.
    proof fn lemma_in_range(self)
        ensures
            Self::min_val() <= self.val() <= Self::max_val(),
    ;

    /// The zero of the type.
    fn zero() -> (r: Self)
        ensures
            r.val() == 0,
    ;

    /// Value equality.
    fn eq_bits(self, o: Self) -> (r: bool)
        ensures
            r == (self.val() == o.val()),
    ;

    /// Value order.
    fn lt_bits(self, o: Self) -> (r: bool)
        ensures
            r == (self.val() < o.val()),
    ;

    /// Sum; the caller shows it representable.
    fn plus(self, o: Self) -> (r: Self)
        requires
            Self::min_val() <= self.val() + o.val() <= Self::max_val(),
        ensures
            r.val() == self.val() + o.val(),
    ;

    /// Difference; the caller shows it representable.
    fn minus(self, o: Self) -> (r: Self)
        requires
            Self::min_val() <= self.val() - o.val() <= Self::max_val(),
        ensures
            r.val() == self.val() - o.val(),
    ;

    /// Product; the caller shows it representable.
    fn times(self, o: Self) -> (r: Self)
        requires
            Self::min_val() <= self.val() * o.val() <= Self::max_val(),
        ensures
            r.val() == self.val() * o.val(),
    ;

    /// Quotient, truncated toward zero as machine division is.
    fn div_trunc(self, o: Self) -> (r: Self)
        requires
            o.val() != 0,
            Self::min_val() <= tdiv(self.val(), o.val()) <= Self::max_val(),
        ensures
            r.val() == tdiv(self.val(), o.val()),
    ;

    /// Remainder of the truncated quotient.
    fn rem_trunc(self, o: Self) -> (r: Self)
        requires
            o.val() != 0,
            Self::min_val() <= tdiv(self.val(), o.val()) <= Self::max_val(),
        ensures
            r.val() == tmod(self.val(), o.val()),
    ;

    /// Negation; the caller shows it representable.
    fn negated(self) -> (r: Self)
        requires
            Self::min_val() <= -self.val() <= Self::max_val(),
        ensures
            r.val() == -self.val(),
    ;

    /// Sum, absent exactly when the sum leaves the type's range.
    fn checked_plus(self, o: Self) -> (r: Option<Self>)
        ensures
            r is Some <==> Self::min_val() <= self.val() + o.val() <= Self::max_val(),
            r matches Some(v) ==> v.val() == self.val() + o.val(),
    ;

    /// Difference, absent exactly when it leaves the type's range.
    fn checked_minus(self, o: Self) -> (r: Option<Self>)
        ensures
            r is Some <==> Self::min_val() <= self.val() - o.val() <= Self::max_val(),
            r matches Some(v) ==> v.val() == self.val() - o.val(),
    ;

    /// This value as a sign-and-magnitude pair wide enough for every width.
    fn to_wide(self) -> (r: (u128, bool))
        ensures
            r.0 == abs(self.val()),
            r.1 == (self.val() < 0),
    ;

    /// The value of a sign-and-magnitude pair, if this type can hold it.
    fn from_wide(mag: u128, neg: bool) -> (r: Option<Self>)
        ensures
            r is Some <==> Self::min_val() <= wide_val(mag, neg) <= Self::max_val(),
            r matches Some(v) ==> v.val() == wide_val(mag, neg),
    ;
}

/// Conversion from the compile-time base magnitude.
///
/// A scale's base lives in a const generic; rescaling needs it as a runtime
/// value of the underlying integer.
pub trait FromUnsigned: FixBits {
    /// The value `u` in this type; the caller shows that it fits.
    fn from_unsigned(u: u64) -> (r: Self)
        requires
            u <= Self::max_val(),
        ensures
            r.val() == u,
    ;
}

/// Exponentiation.
///
/// Rescaling raises the base to the exponent difference; the plain form
/// requires the power representable, the checked form reports an absent
/// result exactly when it is not.
pub trait Pow: FixBits {
    /// `self` to the power `exp`; the caller shows the power representable.
    fn pow(self, exp: u32) -> (r: Self)
        requires
            fits::<Self>(pow(self.val(), exp as nat)),
        ensures
            r.val() == pow(self.val(), exp as nat),
    ;

    /// `self` to the power `exp`, absent exactly when the power leaves the
    /// type's range.
    fn checked_pow(self, exp: u32) -> (r: Option<Self>)
        ensures
            r is Some <==> fits::<Self>(pow(self.val(), exp as nat)),
            r matches Some(v) ==> v.val() == pow(self.val(), exp as nat),
    ;
}

/// Checked multiplication with an explicit contract, adapting the
/// primitives' checked multiply to this library.
pub trait CheckedMulFix: FixBits {
    /// Product, absent exactly when it leaves the type's range.
    fn checked_mul(&self, v: &Self) -> (r: Option<Self>)
        ensures
            r is Some <==> fits::<Self>(self.val() * v.val()),
            r matches Some(w) ==> w.val() == self.val() * v.val(),
    ;
}

/// Checked division with an explicit contract, adapting the primitives'
/// checked divide to this library.
pub trait CheckedDivFix: FixBits {
    /// Truncated quotient, absent on a zero divisor or when the quotient
    /// leaves the type's range.
    fn checked_div(&self, v: &Self) -> (r: Option<Self>)
        ensures
            r is Some <==> (v.val() != 0 && fits::<Self>(tdiv(self.val(), v.val()))),
            r matches Some(w) ==> w.val() == tdiv(self.val(), v.val()),
    ;
}

/// Combined multiply-then-divide through a double-width intermediate, so
/// that the multiplication cannot overflow before the division, with an
/// explicit rounding mode.
pub trait MulDiv: FixBits {
    /// `self * num / denom` rounded down, absent on a zero divisor or when
    /// the result leaves the type's range.
    fn mul_div_floor(self, num: Self, denom: Self) -> (r: Option<Self>)
        ensures
            r is Some <==> (denom.val() != 0 && fits::<Self>(
                mdiv_floor(self.val() * num.val(), denom.val()),
            )),
            r matches Some(v) ==> v.val() == mdiv_floor(self.val() * num.val(), denom.val()),
    ;

    /// `self * num / denom` rounded to the nearest integer, halves away from
    /// zero; absent on a zero divisor or when the result leaves the range.
    fn mul_div_round(self, num: Self, denom: Self) -> (r: Option<Self>)
        ensures
            r is Some <==> (denom.val() != 0 && fits::<Self>(
                mdiv_round(self.val() * num.val(), denom.val()),
            )),
            r matches Some(v) ==> v.val() == mdiv_round(self.val() * num.val(), denom.val()),
    ;

    /// `self * num / denom` rounded up, absent on a zero divisor or when the
    /// result leaves the type's range.
    fn mul_div_ceil(self, num: Self, denom: Self) -> (r: Option<Self>)
        ensures
            r is Some <==> (denom.val() != 0 && fits::<Self>(
                mdiv_ceil(self.val() * num.val(), denom.val()),
            )),
            r matches Some(v) ==> v.val() == mdiv_ceil(self.val() * num.val(), denom.val()),
    ;
}

} // verus!
