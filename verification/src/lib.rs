//! Fixed-point numbers whose scale is tracked by the type system.
//!
//! A [`Fix`] value represents `bits * BASE^exp`, where the base and the
//! signed exponent are compile-time parameters of the type.  Arithmetic on
//! values of matching scale works on the underlying integer alone, and the
//! scale of a product or quotient is the sum or difference of the operands'
//! scales, checked statically at every call site.  Converting between
//! exponents of the same base multiplies or divides by the right power of
//! the base.
//!
//! The plain operations require the caller to show the result representable
//! in the underlying integer; the `checked_*` family instead reports an
//! absent result exactly at the representation boundary.

pub mod bits;
pub mod codec;
pub mod laws;
pub mod num;
pub mod prim_signed;
pub mod prim_unsigned;
pub mod render;
pub mod util;
pub mod value;

use crate::bits::{fits, CheckedDivFix, CheckedMulFix, FixBits, FromUnsigned, MulDiv, Pow};
use crate::num::{mdiv_ceil, mdiv_floor, mdiv_round, tdiv, tmod};
use core::cmp::Ordering;
use vstd::arithmetic::power::pow;
use vstd::prelude::*;

verus! {

/// The signed exponent of a scale, encoded as a magnitude and a sign so
/// that it can live in const generics.
pub open spec fn exp_val(mag: u64, neg: bool) -> int {
    if neg {
        -(mag as int)
    } else {
        mag as int
    }
}

/// Fixed-point number representing `bits * BASE^exp`, where the exponent is
/// `EMAG`, negated when `ENEG` holds.
#[derive(Clone, Copy, Debug, Hash)]
pub struct Fix<Bits, const BASE: u64, const EMAG: u64, const ENEG: bool> {
    /// The underlying integer.
    pub bits: Bits,
}

impl<Bits, const BASE: u64, const EMAG: u64, const ENEG: bool> Fix<Bits, BASE, EMAG, ENEG> {
    /// The exponent of this scale, as a mathematical integer.
    pub open spec fn exponent() -> int {
        exp_val(EMAG, ENEG)
    }

    /// The base of this scale, as a mathematical integer.
    pub open spec fn base() -> int {
        BASE as int
    }

    /// Creates a number from its underlying integer.
    pub fn new(bits: Bits) -> (r: Self)
        ensures
            r.bits == bits,
    {
        Fix { bits }
    }

    /// Takes the underlying integer back out.
    pub fn into_bits(self) -> (r: Bits)
        ensures
            r == self.bits,
    {
        self.bits
    }

    /// The base of this scale as a runtime value, read off the compile-time
    /// marker.
    pub fn base_value(&self) -> (r: u64)
        ensures
            r == BASE,
    {
        BASE
    }

    /// The exponent of this scale as a runtime value, read off the
    /// compile-time markers.
    pub fn exponent_value(&self) -> (r: i128)
        ensures
            r == exp_val(EMAG, ENEG),
    {
        if ENEG {
            -(EMAG as i128)
        } else {
            EMAG as i128
        }
    }
}

impl<Bits: FixBits, const BASE: u64, const EMAG: u64, const ENEG: bool> Fix<Bits, BASE, EMAG, ENEG> {
    /// The mathematical value of the underlying integer.
    pub open spec fn val(self) -> int {
        self.bits.val()
    }

    /// Negation, at the same scale.
    pub fn neg(self) -> (r: Self)
        requires
            fits::<Bits>(-self.val()),
        ensures
            r.val() == -self.val(),
    {
        Fix::new(self.bits.negated())
    }

    /// Sum of two values at the same scale.
    pub fn add(self, rhs: Self) -> (r: Self)
        requires
            fits::<Bits>(self.val() + rhs.val()),
        ensures
            r.val() == self.val() + rhs.val(),
    {
        Fix::new(self.bits.plus(rhs.bits))
    }

    /// Difference of two values at the same scale.
    pub fn sub(self, rhs: Self) -> (r: Self)
        requires
            fits::<Bits>(self.val() - rhs.val()),
        ensures
            r.val() == self.val() - rhs.val(),
    {
        Fix::new(self.bits.minus(rhs.bits))
    }

    /// Product of two same-base values.  The result's exponent is the sum
    /// of the operands' exponents, which the caller's choice of output type
    /// must match, and the underlying integers multiply.
    pub fn mul<const RM: u64, const RN: bool, const OM: u64, const ON: bool>(
        self,
        rhs: Fix<Bits, BASE, RM, RN>,
    ) -> (r: Fix<Bits, BASE, OM, ON>)
        requires
            exp_val(OM, ON) == exp_val(EMAG, ENEG) + exp_val(RM, RN),
            fits::<Bits>(self.val() * rhs.val()),
        ensures
            r.val() == self.val() * rhs.val(),
    {
        Fix::new(self.bits.times(rhs.bits))
    }

    /// Quotient of two same-base values, truncated as machine division is.
    /// The result's exponent is the difference of the operands' exponents.
    pub fn div<const RM: u64, const RN: bool, const OM: u64, const ON: bool>(
        self,
        rhs: Fix<Bits, BASE, RM, RN>,
    ) -> (r: Fix<Bits, BASE, OM, ON>)
        requires
            exp_val(OM, ON) == exp_val(EMAG, ENEG) - exp_val(RM, RN),
            rhs.val() != 0,
            fits::<Bits>(tdiv(self.val(), rhs.val())),
        ensures
            r.val() == tdiv(self.val(), rhs.val()),
    {
        Fix::new(self.bits.div_trunc(rhs.bits))
    }

    /// Remainder of two values at the same scale.
    pub fn rem(self, rhs: Self) -> (r: Self)
        requires
            rhs.val() != 0,
            fits::<Bits>(tdiv(self.val(), rhs.val())),
        ensures
            r.val() == tmod(self.val(), rhs.val()),
    {
        Fix::new(self.bits.rem_trunc(rhs.bits))
    }

    /// Product with a bare integer; the scale is unchanged.
    pub fn mul_bits(self, rhs: Bits) -> (r: Self)
        requires
            fits::<Bits>(self.val() * rhs.val()),
        ensures
            r.val() == self.val() * rhs.val(),
    {
        Fix::new(self.bits.times(rhs))
    }

    /// Quotient by a bare integer; the scale is unchanged.
    pub fn div_bits(self, rhs: Bits) -> (r: Self)
        requires
            rhs.val() != 0,
            fits::<Bits>(tdiv(self.val(), rhs.val())),
        ensures
            r.val() == tdiv(self.val(), rhs.val()),
    {
        Fix::new(self.bits.div_trunc(rhs))
    }

    /// Remainder by a bare integer; the scale is unchanged.
    pub fn rem_bits(self, rhs: Bits) -> (r: Self)
        requires
            rhs.val() != 0,
            fits::<Bits>(tdiv(self.val(), rhs.val())),
        ensures
            r.val() == tmod(self.val(), rhs.val()),
    {
        Fix::new(self.bits.rem_trunc(rhs))
    }

    /// Adds a value of the same scale in place.
    pub fn add_assign(&mut self, rhs: Self)
        requires
            fits::<Bits>(old(self).val() + rhs.val()),
        ensures
            final(self).val() == old(self).val() + rhs.val(),
    {
        self.bits = self.bits.plus(rhs.bits);
    }

    /// Subtracts a value of the same scale in place.
    pub fn sub_assign(&mut self, rhs: Self)
        requires
            fits::<Bits>(old(self).val() - rhs.val()),
        ensures
            final(self).val() == old(self).val() - rhs.val(),
    {
        self.bits = self.bits.minus(rhs.bits);
    }

    /// Multiplies by a bare integer in place.
    pub fn mul_assign(&mut self, rhs: Bits)
        requires
            fits::<Bits>(old(self).val() * rhs.val()),
        ensures
            final(self).val() == old(self).val() * rhs.val(),
    {
        self.bits = self.bits.times(rhs);
    }

    /// Divides by a bare integer in place.
    pub fn div_assign(&mut self, rhs: Bits)
        requires
            rhs.val() != 0,
            fits::<Bits>(tdiv(old(self).val(), rhs.val())),
        ensures
            final(self).val() == tdiv(old(self).val(), rhs.val()),
    {
        self.bits = self.bits.div_trunc(rhs);
    }

    /// Takes the remainder by a same-base value of any exponent in place;
    /// the scale of `self` is unchanged.
    pub fn rem_assign<const RM: u64, const RN: bool>(&mut self, rhs: Fix<Bits, BASE, RM, RN>)
        requires
            rhs.val() != 0,
            fits::<Bits>(tdiv(old(self).val(), rhs.val())),
        ensures
            final(self).val() == tmod(old(self).val(), rhs.val()),
    {
        self.bits = self.bits.rem_trunc(rhs.bits);
    }

    /// Takes the remainder by a bare integer in place.
    pub fn rem_assign_bits(&mut self, rhs: Bits)
        requires
            rhs.val() != 0,
            fits::<Bits>(tdiv(old(self).val(), rhs.val())),
        ensures
            final(self).val() == tmod(old(self).val(), rhs.val()),
    {
        self.bits = self.bits.rem_trunc(rhs);
    }

    /// Sum at the same scale, absent exactly when the sum leaves the
    /// underlying integer's range.
    pub fn checked_add(&self, v: &Self) -> (r: Option<Self>)
        ensures
            r is Some <==> fits::<Bits>(self.val() + v.val()),
            r matches Some(w) ==> w.val() == self.val() + v.val(),
    {
        match self.bits.checked_plus(v.bits) {
            Some(b) => Some(Fix::new(b)),
            None => None,
        }
    }

    /// Difference at the same scale, absent exactly when it leaves the
    /// underlying integer's range.
    pub fn checked_sub(&self, v: &Self) -> (r: Option<Self>)
        ensures
            r is Some <==> fits::<Bits>(self.val() - v.val()),
            r matches Some(w) ==> w.val() == self.val() - v.val(),
    {
        match self.bits.checked_minus(v.bits) {
            Some(b) => Some(Fix::new(b)),
            None => None,
        }
    }

    /// The same number over a wider underlying integer; total and lossless
    /// because the target's range covers the source's.
    pub fn widen<ToBits: FixBits>(self) -> (r: Fix<ToBits, BASE, EMAG, ENEG>)
        requires
            ToBits::min_val() <= Bits::min_val(),
            Bits::max_val() <= ToBits::max_val(),
        ensures
            r.val() == self.val(),
    {
        proof {
            self.bits.lemma_in_range();
        }
        let (mag, neg) = self.bits.to_wide();
        Fix::new(ToBits::from_wide(mag, neg).unwrap())
    }

    /// The same number over a narrower underlying integer, absent exactly
    /// when the value does not fit the target's range.
    pub fn narrow<ToBits: FixBits>(self) -> (r: Option<Fix<ToBits, BASE, EMAG, ENEG>>)
        ensures
            r is Some <==> fits::<ToBits>(self.val()),
            r matches Some(w) ==> w.val() == self.val(),
    {
        let (mag, neg) = self.bits.to_wide();
        match ToBits::from_wide(mag, neg) {
            Some(b) => Some(Fix::new(b)),
            None => None,
        }
    }
}

impl<Bits: CheckedMulFix, const BASE: u64, const EMAG: u64, const ENEG: bool> Fix<
    Bits,
    BASE,
    EMAG,
    ENEG,
> {
    /// Product of two same-base values, absent exactly when the underlying
    /// product leaves the integer's range.  The output's exponent is the
    /// sum of the operands' exponents.
    pub fn checked_mul<const RM: u64, const RN: bool, const OM: u64, const ON: bool>(
        &self,
        v: &Fix<Bits, BASE, RM, RN>,
    ) -> (r: Option<Fix<Bits, BASE, OM, ON>>)
        requires
            exp_val(OM, ON) == exp_val(EMAG, ENEG) + exp_val(RM, RN),
        ensures
            r is Some <==> fits::<Bits>(self.val() * v.val()),
            r matches Some(w) ==> w.val() == self.val() * v.val(),
    {
        match self.bits.checked_mul(&v.bits) {
            Some(b) => Some(Fix::new(b)),
            None => None,
        }
    }
}

impl<Bits: CheckedDivFix, const BASE: u64, const EMAG: u64, const ENEG: bool> Fix<
    Bits,
    BASE,
    EMAG,
    ENEG,
> {
    /// Quotient of two same-base values, absent on a zero divisor or when
    /// the truncated quotient leaves the integer's range.  The output's
    /// exponent is the difference of the operands' exponents.
    pub fn checked_div<const RM: u64, const RN: bool, const OM: u64, const ON: bool>(
        &self,
        v: &Fix<Bits, BASE, RM, RN>,
    ) -> (r: Option<Fix<Bits, BASE, OM, ON>>)
        requires
            exp_val(OM, ON) == exp_val(EMAG, ENEG) - exp_val(RM, RN),
        ensures
            r is Some <==> (v.val() != 0 && fits::<Bits>(tdiv(self.val(), v.val()))),
            r matches Some(w) ==> w.val() == tdiv(self.val(), v.val()),
    {
        match self.bits.checked_div(&v.bits) {
            Some(b) => Some(Fix::new(b)),
            None => None,
        }
    }
}

impl<Bits: MulDiv, const BASE: u64, const EMAG: u64, const ENEG: bool> Fix<
    Bits,
    BASE,
    EMAG,
    ENEG,
> {
    /// `self * num / denom` through a double-width intermediate, rounded
    /// down; absent on a zero divisor or when the result leaves the
    /// underlying integer's range.  Only `self`'s scale reaches the output.
    pub fn mul_div_floor<const RM: u64, const RN: bool>(
        self,
        num: Fix<Bits, BASE, RM, RN>,
        denom: Fix<Bits, BASE, RM, RN>,
    ) -> (r: Option<Self>)
        ensures
            r is Some <==> (denom.val() != 0 && fits::<Bits>(
                mdiv_floor(self.val() * num.val(), denom.val()),
            )),
            r matches Some(w) ==> w.val() == mdiv_floor(self.val() * num.val(), denom.val()),
    {
        match self.bits.mul_div_floor(num.bits, denom.bits) {
            Some(b) => Some(Fix::new(b)),
            None => None,
        }
    }

    /// `self * num / denom` through a double-width intermediate, rounded to
    /// the nearest integer with halves away from zero; absent on a zero
    /// divisor or when the result leaves the underlying integer's range.
    pub fn mul_div_round<const RM: u64, const RN: bool>(
        self,
        num: Fix<Bits, BASE, RM, RN>,
        denom: Fix<Bits, BASE, RM, RN>,
    ) -> (r: Option<Self>)
        ensures
            r is Some <==> (denom.val() != 0 && fits::<Bits>(
                mdiv_round(self.val() * num.val(), denom.val()),
            )),
            r matches Some(w) ==> w.val() == mdiv_round(self.val() * num.val(), denom.val()),
    {
        match self.bits.mul_div_round(num.bits, denom.bits) {
            Some(b) => Some(Fix::new(b)),
            None => None,
        }
    }

    /// `self * num / denom` through a double-width intermediate, rounded
    /// up; absent on a zero divisor or when the result leaves the
    /// underlying integer's range.
    pub fn mul_div_ceil<const RM: u64, const RN: bool>(
        self,
        num: Fix<Bits, BASE, RM, RN>,
        denom: Fix<Bits, BASE, RM, RN>,
    ) -> (r: Option<Self>)
        ensures
            r is Some <==> (denom.val() != 0 && fits::<Bits>(
                mdiv_ceil(self.val() * num.val(), denom.val()),
            )),
            r matches Some(w) ==> w.val() == mdiv_ceil(self.val() * num.val(), denom.val()),
    {
        match self.bits.mul_div_ceil(num.bits, denom.bits) {
            Some(b) => Some(Fix::new(b)),
            None => None,
        }
    }
}

impl<
    Bits: FromUnsigned + Pow,
    const BASE: u64,
    const EMAG: u64,
    const ENEG: bool,
> Fix<Bits, BASE, EMAG, ENEG> {
    /// Converts to another exponent of the same base.
    ///
    /// The base raised to the exponent difference is the scale ratio; the
    /// underlying integer is multiplied by it when the exponent shrinks and
    /// divided by it, truncating, when the exponent grows.  The caller
    /// shows the ratio and, on the multiplying path, the product
    /// representable; the checked variant instead reports an absent result.
    pub fn convert<const TM: u64, const TN: bool>(self) -> (r: Fix<Bits, BASE, TM, TN>)
        requires
            BASE <= Bits::max_val(),
            vstd::math::abs(exp_val(EMAG, ENEG) - exp_val(TM, TN)) <= u32::MAX,
            fits::<Bits>(
                pow(BASE as int, vstd::math::abs(exp_val(EMAG, ENEG) - exp_val(TM, TN))),
            ),
            exp_val(EMAG, ENEG) >= exp_val(TM, TN) ==> fits::<Bits>(
                self.val() * pow(
                    BASE as int,
                    vstd::math::abs(exp_val(EMAG, ENEG) - exp_val(TM, TN)),
                ),
            ),
            exp_val(EMAG, ENEG) < exp_val(TM, TN) ==> pow(
                BASE as int,
                vstd::math::abs(exp_val(EMAG, ENEG) - exp_val(TM, TN)),
            ) >= 1,
        ensures
            exp_val(EMAG, ENEG) >= exp_val(TM, TN) ==> r.val() == self.val() * pow(
                BASE as int,
                vstd::math::abs(exp_val(EMAG, ENEG) - exp_val(TM, TN)),
            ),
            exp_val(EMAG, ENEG) < exp_val(TM, TN) ==> r.val() == tdiv(
                self.val(),
                pow(BASE as int, vstd::math::abs(exp_val(EMAG, ENEG) - exp_val(TM, TN))),
            ),
    {
        let e1: i128 = if ENEG {
            -(EMAG as i128)
        } else {
            EMAG as i128
        };
        let e2: i128 = if TN {
            -(TM as i128)
        } else {
            TM as i128
        };
        let diff: i128 = e1 - e2;
        let inverse = diff < 0;
        let mag: u32 = if diff < 0 {
            (-diff) as u32
        } else {
            diff as u32
        };
        let base = Bits::from_unsigned(BASE);
        let ratio = base.pow(mag);
        if inverse {
            proof {
                Bits::lemma_range();
                self.bits.lemma_in_range();
                crate::num::lemma_tdiv_by_pos(self.val(), ratio.val());
            }
            Fix::new(self.bits.div_trunc(ratio))
        } else {
            Fix::new(self.bits.times(ratio))
        }
    }
}

impl<Bits: Pow + MulDiv, const BASE: u64, const EMAG: u64, const ENEG: bool> Fix<
    Bits,
    BASE,
    EMAG,
    ENEG,
> {
    /// Converts to another exponent of the same base, reporting failure
    /// instead of requiring the caller to rule it out.
    ///
    /// One whole unit of the difference between the scales is the base
    /// raised to the exponent difference; the conversion is a single
    /// rounding multiply-divide by that unit — a floor when the exponent
    /// grows — rather than two lossy integer steps.  The result is absent
    /// exactly when that unit, or the result, cannot be represented in the
    /// underlying integer.
    pub fn checked_convert<const TM: u64, const TN: bool>(self) -> (r: Option<
        Fix<Bits, BASE, TM, TN>,
    >)
        requires
            vstd::math::abs(exp_val(EMAG, ENEG) - exp_val(TM, TN)) <= u32::MAX,
        ensures
            ({
                let d = exp_val(EMAG, ENEG) - exp_val(TM, TN);
                let ratio = pow(BASE as int, vstd::math::abs(d));
                &&& (r is Some <==> (d == 0 || (fits::<Bits>(ratio) && (d > 0 ==> fits::<Bits>(
                    self.val() * ratio,
                )) && (d < 0 ==> ratio >= 1 && fits::<Bits>(mdiv_floor(self.val(), ratio))))))
                &&& (r matches Some(w) ==> w.val() == (if d == 0 {
                    self.val()
                } else if d > 0 {
                    self.val() * ratio
                } else {
                    mdiv_floor(self.val(), ratio)
                }))
            }),
    {
        let e1: i128 = if ENEG {
            -(EMAG as i128)
        } else {
            EMAG as i128
        };
        let e2: i128 = if TN {
            -(TM as i128)
        } else {
            TM as i128
        };
        let diff: i128 = e1 - e2;
        if diff == 0 {
            return Some(Fix::new(self.bits));
        }
        let inverse = diff < 0;
        let mag: u32 = if diff < 0 {
            (-diff) as u32
        } else {
            diff as u32
        };
        let base = match Bits::from_wide(BASE as u128, false) {
            Some(b) => b,
            None => {
                proof {
                    Bits::lemma_range();
                    crate::num::lemma_pow_exceeds(BASE as int, mag as nat, Bits::max_val());
                }
                return None;
            },
        };
        let ratio = match base.checked_pow(mag) {
            Some(v) => v,
            None => {
                return None;
            },
        };
        proof {
            Bits::lemma_range();
        }
        let one = Bits::from_wide(1, false).unwrap();
        if inverse {
            proof {
                crate::num::lemma_pow_nonneg(BASE as int, mag as nat);
            }
            match self.bits.mul_div_floor(one, ratio) {
                Some(b) => Some(Fix::new(b)),
                None => None,
            }
        } else {
            proof {
                crate::num::lemma_mdiv_floor_by_one(self.val() * ratio.val());
            }
            match self.bits.mul_div_floor(ratio, one) {
                Some(b) => Some(Fix::new(b)),
                None => None,
            }
        }
    }
}

impl<Bits: FixBits, const BASE: u64, const EMAG: u64, const ENEG: bool> PartialEq for Fix<
    Bits,
    BASE,
    EMAG,
    ENEG,
> {
    /// Two values of one scale are equal exactly when their underlying
    /// integers are; a scale mismatch is a type error, never a runtime
    /// comparison.
    fn eq(&self, other: &Self) -> (r: bool) {
        self.bits.eq_bits(other.bits)
    }
}

impl<Bits: FixBits, const BASE: u64, const EMAG: u64, const ENEG: bool> vstd::std_specs::cmp::PartialEqSpecImpl for Fix<
    Bits,
    BASE,
    EMAG,
    ENEG,
> {
    open spec fn obeys_eq_spec() -> bool {
        true
    }

    open spec fn eq_spec(&self, other: &Self) -> bool {
        self.bits.val() == other.bits.val()
    }
}

impl<Bits: FixBits, const BASE: u64, const EMAG: u64, const ENEG: bool> Eq for Fix<
    Bits,
    BASE,
    EMAG,
    ENEG,
> {

}

impl<Bits: FixBits, const BASE: u64, const EMAG: u64, const ENEG: bool> PartialOrd for Fix<
    Bits,
    BASE,
    EMAG,
    ENEG,
> {
    /// Values of one scale order as their underlying integers do.
    fn partial_cmp(&self, other: &Self) -> (r: Option<Ordering>) {
        if self.bits.lt_bits(other.bits) {
            Some(Ordering::Less)
        } else if self.bits.eq_bits(other.bits) {
            Some(Ordering::Equal)
        } else {
            Some(Ordering::Greater)
        }
    }
}

impl<Bits: FixBits, const BASE: u64, const EMAG: u64, const ENEG: bool> vstd::std_specs::cmp::PartialOrdSpecImpl for Fix<
    Bits,
    BASE,
    EMAG,
    ENEG,
> {
    open spec fn obeys_partial_cmp_spec() -> bool {
        true
    }

    open spec fn partial_cmp_spec(&self, other: &Self) -> Option<Ordering> {
        if self.bits.val() < other.bits.val() {
            Some(Ordering::Less)
        } else if self.bits.val() == other.bits.val() {
            Some(Ordering::Equal)
        } else {
            Some(Ordering::Greater)
        }
    }
}

impl<Bits: FixBits, const BASE: u64, const EMAG: u64, const ENEG: bool> Default for Fix<
    Bits,
    BASE,
    EMAG,
    ENEG,
> {
    /// The zero of this scale.
    fn default() -> (r: Self)
        ensures
            r.val() == 0,
    {
        Fix::new(Bits::zero())
    }
}

} // verus!
