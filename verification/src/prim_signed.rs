//! Capability implementations for the signed widths.

use crate::bits::{CheckedDivFix, CheckedMulFix, FixBits, FromUnsigned, MulDiv, Pow};
use crate::num::{lemma_mdiv_split, lemma_pow_overflow, lemma_pow_unfold, lemma_tdiv_cases};
use crate::prim_unsigned::{div_ceil_u128, div_floor_u128, div_round_u128};
use vstd::arithmetic::mul::lemma_mul_upper_bound;
use vstd::arithmetic::power::{lemma_pow0, pow};
use vstd::math::abs;
use vstd::prelude::*;

verus! {

impl FixBits for i64 {
    open spec fn val(self) -> int {
        self as int
    }

    open spec fn min_val() -> int {
        i64::MIN as int
    }

    open spec fn max_val() -> int {
        i64::MAX as int
    }

    proof fn lemma_range() {
    }

    proof fn lemma_in_range(self) {
    }

    fn zero() -> (r: Self) {
        0
    }

    fn eq_bits(self, o: Self) -> (r: bool) {
        self == o
    }

    fn lt_bits(self, o: Self) -> (r: bool) {
        self < o
    }

    fn plus(self, o: Self) -> (r: Self) {
        self + o
    }

    fn minus(self, o: Self) -> (r: Self) {
        self - o
    }

    fn times(self, o: Self) -> (r: Self) {
        self * o
    }

    fn div_trunc(self, o: Self) -> (r: Self) {
        proof {
            lemma_tdiv_cases(self as int, o as int);
        }
        self.checked_div(o).unwrap()
    }

    fn rem_trunc(self, o: Self) -> (r: Self) {
        proof {
            lemma_tdiv_cases(self as int, o as int);
            if self == i64::MIN && o == -1 {
                vstd::arithmetic::div_mod::lemma_div_basics(-(i64::MIN as int));
                assert(false);
            }
        }
        self.checked_rem(o).unwrap()
    }

    fn negated(self) -> (r: Self) {
        -self
    }

    fn checked_plus(self, o: Self) -> (r: Option<Self>) {
        self.checked_add(o)
    }

    fn checked_minus(self, o: Self) -> (r: Option<Self>) {
        self.checked_sub(o)
    }

    fn to_wide(self) -> (r: (u128, bool)) {
        if self < 0 {
            ((-(self as i128)) as u128, true)
        } else {
            (self as u128, false)
        }
    }

    fn from_wide(mag: u128, neg: bool) -> (r: Option<Self>) {
        if neg {
            if mag > 0x8000_0000_0000_0000u128 {
                None
            } else if mag == 0x8000_0000_0000_0000u128 {
                Some(i64::MIN)
            } else {
                Some(-(mag as i64))
            }
        } else {
            if mag > i64::MAX as u128 {
                None
            } else {
                Some(mag as i64)
            }
        }
    }
}

impl FromUnsigned for i64 {
    fn from_unsigned(u: u64) -> (r: Self) {
        u as i64
    }
}

impl Pow for i64 {
    fn pow(self, exp: u32) -> (r: Self) {
        Pow::checked_pow(self, exp).unwrap()
    }

    fn checked_pow(self, exp: u32) -> (r: Option<Self>) {
        let mut acc: i64 = 1;
        let mut i: u32 = 0;
        proof {
            lemma_pow0(self as int);
        }
        while i < exp
            invariant
                i <= exp,
                acc == pow(self as int, i as nat),
            decreases exp - i,
        {
            proof {
                lemma_pow_unfold(self as int, i as nat);
            }
            acc = match acc.checked_mul(self) {
                Some(v) => v,
                None => {
                    proof {
                        lemma_pow_overflow(
                            self as int,
                            (i + 1) as nat,
                            exp as nat,
                            i64::MIN as int,
                            i64::MAX as int,
                        );
                    }
                    return None;
                },
            };
            i = i + 1;
        }
        Some(acc)
    }
}

impl CheckedMulFix for i64 {
    fn checked_mul(&self, v: &Self) -> (r: Option<Self>) {
        (*self).checked_mul(*v)
    }
}

impl CheckedDivFix for i64 {
    fn checked_div(&self, v: &Self) -> (r: Option<Self>) {
        proof {
            if v.val() != 0 {
                lemma_tdiv_cases(*self as int, *v as int);
            }
        }
        (*self).checked_div(*v)
    }
}

impl MulDiv for i64 {
    fn mul_div_floor(self, num: Self, denom: Self) -> (r: Option<Self>) {
        if denom == 0 {
            return None;
        }
        proof {
            lemma_mdiv_split(self as int, num as int, denom as int);
            lemma_mul_upper_bound(
                abs(self as int) as int,
                0x8000_0000_0000_0000,
                abs(num as int) as int,
                0x8000_0000_0000_0000,
            );
        }
        let (sa, na) = self.to_wide();
        let (sn, nn) = num.to_wide();
        let (sd, _) = denom.to_wide();
        let neg = (na != nn) != (denom < 0);
        let p: u128 = sa * sn;
        if neg {
            let qm = div_ceil_u128(p, sd);
            if qm > 0x8000_0000_0000_0000u128 {
                None
            } else if qm == 0x8000_0000_0000_0000u128 {
                Some(i64::MIN)
            } else {
                Some(-(qm as i64))
            }
        } else {
            let qm = div_floor_u128(p, sd);
            if qm > i64::MAX as u128 {
                None
            } else {
                Some(qm as i64)
            }
        }
    }

    fn mul_div_round(self, num: Self, denom: Self) -> (r: Option<Self>) {
        if denom == 0 {
            return None;
        }
        proof {
            lemma_mdiv_split(self as int, num as int, denom as int);
            lemma_mul_upper_bound(
                abs(self as int) as int,
                0x8000_0000_0000_0000,
                abs(num as int) as int,
                0x8000_0000_0000_0000,
            );
        }
        let (sa, na) = self.to_wide();
        let (sn, nn) = num.to_wide();
        let (sd, _) = denom.to_wide();
        let neg = (na != nn) != (denom < 0);
        let p: u128 = sa * sn;
        let qm = div_round_u128(p, sd);
        if neg {
            if qm > 0x8000_0000_0000_0000u128 {
                None
            } else if qm == 0x8000_0000_0000_0000u128 {
                Some(i64::MIN)
            } else {
                Some(-(qm as i64))
            }
        } else {
            if qm > i64::MAX as u128 {
                None
            } else {
                Some(qm as i64)
            }
        }
    }

    fn mul_div_ceil(self, num: Self, denom: Self) -> (r: Option<Self>) {
        if denom == 0 {
            return None;
        }
        proof {
            lemma_mdiv_split(self as int, num as int, denom as int);
            lemma_mul_upper_bound(
                abs(self as int) as int,
                0x8000_0000_0000_0000,
                abs(num as int) as int,
                0x8000_0000_0000_0000,
            );
        }
        let (sa, na) = self.to_wide();
        let (sn, nn) = num.to_wide();
        let (sd, _) = denom.to_wide();
        let neg = (na != nn) != (denom < 0);
        let p: u128 = sa * sn;
        if neg {
            let qm = div_floor_u128(p, sd);
            if qm > 0x8000_0000_0000_0000u128 {
                None
            } else if qm == 0x8000_0000_0000_0000u128 {
                Some(i64::MIN)
            } else {
                Some(-(qm as i64))
            }
        } else {
            let qm = div_ceil_u128(p, sd);
            if qm > i64::MAX as u128 {
                None
            } else {
                Some(qm as i64)
            }
        }
    }
}

impl FixBits for i8 {
    open spec fn val(self) -> int {
        self as int
    }

    open spec fn min_val() -> int {
        i8::MIN as int
    }

    open spec fn max_val() -> int {
        i8::MAX as int
    }

    proof fn lemma_range() {
    }

    proof fn lemma_in_range(self) {
    }

    fn zero() -> (r: Self) {
        0
    }

    fn eq_bits(self, o: Self) -> (r: bool) {
        self == o
    }

    fn lt_bits(self, o: Self) -> (r: bool) {
        self < o
    }

    fn plus(self, o: Self) -> (r: Self) {
        self + o
    }

    fn minus(self, o: Self) -> (r: Self) {
        self - o
    }

    fn times(self, o: Self) -> (r: Self) {
        self * o
    }

    fn div_trunc(self, o: Self) -> (r: Self) {
        proof {
            lemma_tdiv_cases(self as int, o as int);
        }
        self.checked_div(o).unwrap()
    }

    fn rem_trunc(self, o: Self) -> (r: Self) {
        proof {
            lemma_tdiv_cases(self as int, o as int);
            if self == i8::MIN && o == -1 {
                vstd::arithmetic::div_mod::lemma_div_basics(-(i8::MIN as int));
                assert(false);
            }
        }
        self.checked_rem(o).unwrap()
    }

    fn negated(self) -> (r: Self) {
        -self
    }

    fn checked_plus(self, o: Self) -> (r: Option<Self>) {
        self.checked_add(o)
    }

    fn checked_minus(self, o: Self) -> (r: Option<Self>) {
        self.checked_sub(o)
    }

    fn to_wide(self) -> (r: (u128, bool)) {
        if self < 0 {
            ((-(self as i128)) as u128, true)
        } else {
            (self as u128, false)
        }
    }

    fn from_wide(mag: u128, neg: bool) -> (r: Option<Self>) {
        if neg {
            if mag > 0x80u128 {
                None
            } else if mag == 0x80u128 {
                Some(i8::MIN)
            } else {
                Some(-(mag as i8))
            }
        } else {
            if mag > i8::MAX as u128 {
                None
            } else {
                Some(mag as i8)
            }
        }
    }
}

impl FromUnsigned for i8 {
    fn from_unsigned(u: u64) -> (r: Self) {
        u as i8
    }
}

impl Pow for i8 {
    fn pow(self, exp: u32) -> (r: Self) {
        Pow::checked_pow(self, exp).unwrap()
    }

    fn checked_pow(self, exp: u32) -> (r: Option<Self>) {
        let mut acc: i8 = 1;
        let mut i: u32 = 0;
        proof {
            lemma_pow0(self as int);
        }
        while i < exp
            invariant
                i <= exp,
                acc == pow(self as int, i as nat),
            decreases exp - i,
        {
            proof {
                lemma_pow_unfold(self as int, i as nat);
            }
            acc = match acc.checked_mul(self) {
                Some(v) => v,
                None => {
                    proof {
                        lemma_pow_overflow(
                            self as int,
                            (i + 1) as nat,
                            exp as nat,
                            i8::MIN as int,
                            i8::MAX as int,
                        );
                    }
                    return None;
                },
            };
            i = i + 1;
        }
        Some(acc)
    }
}

impl CheckedMulFix for i8 {
    fn checked_mul(&self, v: &Self) -> (r: Option<Self>) {
        (*self).checked_mul(*v)
    }
}

impl CheckedDivFix for i8 {
    fn checked_div(&self, v: &Self) -> (r: Option<Self>) {
        proof {
            if v.val() != 0 {
                lemma_tdiv_cases(*self as int, *v as int);
            }
        }
        (*self).checked_div(*v)
    }
}

impl MulDiv for i8 {
    fn mul_div_floor(self, num: Self, denom: Self) -> (r: Option<Self>) {
        if denom == 0 {
            return None;
        }
        proof {
            lemma_mdiv_split(self as int, num as int, denom as int);
            lemma_mul_upper_bound(
                abs(self as int) as int,
                0x80,
                abs(num as int) as int,
                0x80,
            );
        }
        let (sa, na) = self.to_wide();
        let (sn, nn) = num.to_wide();
        let (sd, _) = denom.to_wide();
        let neg = (na != nn) != (denom < 0);
        let p: u128 = sa * sn;
        if neg {
            let qm = div_ceil_u128(p, sd);
            if qm > 0x80u128 {
                None
            } else if qm == 0x80u128 {
                Some(i8::MIN)
            } else {
                Some(-(qm as i8))
            }
        } else {
            let qm = div_floor_u128(p, sd);
            if qm > i8::MAX as u128 {
                None
            } else {
                Some(qm as i8)
            }
        }
    }

    fn mul_div_round(self, num: Self, denom: Self) -> (r: Option<Self>) {
        if denom == 0 {
            return None;
        }
        proof {
            lemma_mdiv_split(self as int, num as int, denom as int);
            lemma_mul_upper_bound(
                abs(self as int) as int,
                0x80,
                abs(num as int) as int,
                0x80,
            );
        }
        let (sa, na) = self.to_wide();
        let (sn, nn) = num.to_wide();
        let (sd, _) = denom.to_wide();
        let neg = (na != nn) != (denom < 0);
        let p: u128 = sa * sn;
        let qm = div_round_u128(p, sd);
        if neg {
            if qm > 0x80u128 {
                None
            } else if qm == 0x80u128 {
                Some(i8::MIN)
            } else {
                Some(-(qm as i8))
            }
        } else {
            if qm > i8::MAX as u128 {
                None
            } else {
                Some(qm as i8)
            }
        }
    }

    fn mul_div_ceil(self, num: Self, denom: Self) -> (r: Option<Self>) {
        if denom == 0 {
            return None;
        }
        proof {
            lemma_mdiv_split(self as int, num as int, denom as int);
            lemma_mul_upper_bound(
                abs(self as int) as int,
                0x80,
                abs(num as int) as int,
                0x80,
            );
        }
        let (sa, na) = self.to_wide();
        let (sn, nn) = num.to_wide();
        let (sd, _) = denom.to_wide();
        let neg = (na != nn) != (denom < 0);
        let p: u128 = sa * sn;
        if neg {
            let qm = div_floor_u128(p, sd);
            if qm > 0x80u128 {
                None
            } else if qm == 0x80u128 {
                Some(i8::MIN)
            } else {
                Some(-(qm as i8))
            }
        } else {
            let qm = div_ceil_u128(p, sd);
            if qm > i8::MAX as u128 {
                None
            } else {
                Some(qm as i8)
            }
        }
    }
}

impl FixBits for i16 {
    open spec fn val(self) -> int {
        self as int
    }

    open spec fn min_val() -> int {
        i16::MIN as int
    }

    open spec fn max_val() -> int {
        i16::MAX as int
    }

    proof fn lemma_range() {
    }

    proof fn lemma_in_range(self) {
    }

    fn zero() -> (r: Self) {
        0
    }

    fn eq_bits(self, o: Self) -> (r: bool) {
        self == o
    }

    fn lt_bits(self, o: Self) -> (r: bool) {
        self < o
    }

    fn plus(self, o: Self) -> (r: Self) {
        self + o
    }

    fn minus(self, o: Self) -> (r: Self) {
        self - o
    }

    fn times(self, o: Self) -> (r: Self) {
        self * o
    }

    fn div_trunc(self, o: Self) -> (r: Self) {
        proof {
            lemma_tdiv_cases(self as int, o as int);
        }
        self.checked_div(o).unwrap()
    }

    fn rem_trunc(self, o: Self) -> (r: Self) {
        proof {
            lemma_tdiv_cases(self as int, o as int);
            if self == i16::MIN && o == -1 {
                vstd::arithmetic::div_mod::lemma_div_basics(-(i16::MIN as int));
                assert(false);
            }
        }
        self.checked_rem(o).unwrap()
    }

    fn negated(self) -> (r: Self) {
        -self
    }

    fn checked_plus(self, o: Self) -> (r: Option<Self>) {
        self.checked_add(o)
    }

    fn checked_minus(self, o: Self) -> (r: Option<Self>) {
        self.checked_sub(o)
    }

    fn to_wide(self) -> (r: (u128, bool)) {
        if self < 0 {
            ((-(self as i128)) as u128, true)
        } else {
            (self as u128, false)
        }
    }

    fn from_wide(mag: u128, neg: bool) -> (r: Option<Self>) {
        if neg {
            if mag > 0x8000u128 {
                None
            } else if mag == 0x8000u128 {
                Some(i16::MIN)
            } else {
                Some(-(mag as i16))
            }
        } else {
            if mag > i16::MAX as u128 {
                None
            } else {
                Some(mag as i16)
            }
        }
    }
}

impl FromUnsigned for i16 {
    fn from_unsigned(u: u64) -> (r: Self) {
        u as i16
    }
}

impl Pow for i16 {
    fn pow(self, exp: u32) -> (r: Self) {
        Pow::checked_pow(self, exp).unwrap()
    }

    fn checked_pow(self, exp: u32) -> (r: Option<Self>) {
        let mut acc: i16 = 1;
        let mut i: u32 = 0;
        proof {
            lemma_pow0(self as int);
        }
        while i < exp
            invariant
                i <= exp,
                acc == pow(self as int, i as nat),
            decreases exp - i,
        {
            proof {
                lemma_pow_unfold(self as int, i as nat);
            }
            acc = match acc.checked_mul(self) {
                Some(v) => v,
                None => {
                    proof {
                        lemma_pow_overflow(
                            self as int,
                            (i + 1) as nat,
                            exp as nat,
                            i16::MIN as int,
                            i16::MAX as int,
                        );
                    }
                    return None;
                },
            };
            i = i + 1;
        }
        Some(acc)
    }
}

impl CheckedMulFix for i16 {
    fn checked_mul(&self, v: &Self) -> (r: Option<Self>) {
        (*self).checked_mul(*v)
    }
}

impl CheckedDivFix for i16 {
    fn checked_div(&self, v: &Self) -> (r: Option<Self>) {
        proof {
            if v.val() != 0 {
                lemma_tdiv_cases(*self as int, *v as int);
            }
        }
        (*self).checked_div(*v)
    }
}

impl MulDiv for i16 {
    fn mul_div_floor(self, num: Self, denom: Self) -> (r: Option<Self>) {
        if denom == 0 {
            return None;
        }
        proof {
            lemma_mdiv_split(self as int, num as int, denom as int);
            lemma_mul_upper_bound(
                abs(self as int) as int,
                0x8000,
                abs(num as int) as int,
                0x8000,
            );
        }
        let (sa, na) = self.to_wide();
        let (sn, nn) = num.to_wide();
        let (sd, _) = denom.to_wide();
        let neg = (na != nn) != (denom < 0);
        let p: u128 = sa * sn;
        if neg {
            let qm = div_ceil_u128(p, sd);
            if qm > 0x8000u128 {
                None
            } else if qm == 0x8000u128 {
                Some(i16::MIN)
            } else {
                Some(-(qm as i16))
            }
        } else {
            let qm = div_floor_u128(p, sd);
            if qm > i16::MAX as u128 {
                None
            } else {
                Some(qm as i16)
            }
        }
    }

    fn mul_div_round(self, num: Self, denom: Self) -> (r: Option<Self>) {
        if denom == 0 {
            return None;
        }
        proof {
            lemma_mdiv_split(self as int, num as int, denom as int);
            lemma_mul_upper_bound(
                abs(self as int) as int,
                0x8000,
                abs(num as int) as int,
                0x8000,
            );
        }
        let (sa, na) = self.to_wide();
        let (sn, nn) = num.to_wide();
        let (sd, _) = denom.to_wide();
        let neg = (na != nn) != (denom < 0);
        let p: u128 = sa * sn;
        let qm = div_round_u128(p, sd);
        if neg {
            if qm > 0x8000u128 {
                None
            } else if qm == 0x8000u128 {
                Some(i16::MIN)
            } else {
                Some(-(qm as i16))
            }
        } else {
            if qm > i16::MAX as u128 {
                None
            } else {
                Some(qm as i16)
            }
        }
    }

    fn mul_div_ceil(self, num: Self, denom: Self) -> (r: Option<Self>) {
        if denom == 0 {
            return None;
        }
        proof {
            lemma_mdiv_split(self as int, num as int, denom as int);
            lemma_mul_upper_bound(
                abs(self as int) as int,
                0x8000,
                abs(num as int) as int,
                0x8000,
            );
        }
        let (sa, na) = self.to_wide();
        let (sn, nn) = num.to_wide();
        let (sd, _) = denom.to_wide();
        let neg = (na != nn) != (denom < 0);
        let p: u128 = sa * sn;
        if neg {
            let qm = div_floor_u128(p, sd);
            if qm > 0x8000u128 {
                None
            } else if qm == 0x8000u128 {
                Some(i16::MIN)
            } else {
                Some(-(qm as i16))
            }
        } else {
            let qm = div_ceil_u128(p, sd);
            if qm > i16::MAX as u128 {
                None
            } else {
                Some(qm as i16)
            }
        }
    }
}

impl FixBits for i32 {
    open spec fn val(self) -> int {
        self as int
    }

    open spec fn min_val() -> int {
        i32::MIN as int
    }

    open spec fn max_val() -> int {
        i32::MAX as int
    }

    proof fn lemma_range() {
    }

    proof fn lemma_in_range(self) {
    }

    fn zero() -> (r: Self) {
        0
    }

    fn eq_bits(self, o: Self) -> (r: bool) {
        self == o
    }

    fn lt_bits(self, o: Self) -> (r: bool) {
        self < o
    }

    fn plus(self, o: Self) -> (r: Self) {
        self + o
    }

    fn minus(self, o: Self) -> (r: Self) {
        self - o
    }

    fn times(self, o: Self) -> (r: Self) {
        self * o
    }

    fn div_trunc(self, o: Self) -> (r: Self) {
        proof {
            lemma_tdiv_cases(self as int, o as int);
        }
        self.checked_div(o).unwrap()
    }

    fn rem_trunc(self, o: Self) -> (r: Self) {
        proof {
            lemma_tdiv_cases(self as int, o as int);
            if self == i32::MIN && o == -1 {
                vstd::arithmetic::div_mod::lemma_div_basics(-(i32::MIN as int));
                assert(false);
            }
        }
        self.checked_rem(o).unwrap()
    }

    fn negated(self) -> (r: Self) {
        -self
    }

    fn checked_plus(self, o: Self) -> (r: Option<Self>) {
        self.checked_add(o)
    }

    fn checked_minus(self, o: Self) -> (r: Option<Self>) {
        self.checked_sub(o)
    }

    fn to_wide(self) -> (r: (u128, bool)) {
        if self < 0 {
            ((-(self as i128)) as u128, true)
        } else {
            (self as u128, false)
        }
    }

    fn from_wide(mag: u128, neg: bool) -> (r: Option<Self>) {
        if neg {
            if mag > 0x8000_0000u128 {
                None
            } else if mag == 0x8000_0000u128 {
                Some(i32::MIN)
            } else {
                Some(-(mag as i32))
            }
        } else {
            if mag > i32::MAX as u128 {
                None
            } else {
                Some(mag as i32)
            }
        }
    }
}

impl FromUnsigned for i32 {
    fn from_unsigned(u: u64) -> (r: Self) {
        u as i32
    }
}

impl Pow for i32 {
    fn pow(self, exp: u32) -> (r: Self) {
        Pow::checked_pow(self, exp).unwrap()
    }

    fn checked_pow(self, exp: u32) -> (r: Option<Self>) {
        let mut acc: i32 = 1;
        let mut i: u32 = 0;
        proof {
            lemma_pow0(self as int);
        }
        while i < exp
            invariant
                i <= exp,
                acc == pow(self as int, i as nat),
            decreases exp - i,
        {
            proof {
                lemma_pow_unfold(self as int, i as nat);
            }
            acc = match acc.checked_mul(self) {
                Some(v) => v,
                None => {
                    proof {
                        lemma_pow_overflow(
                            self as int,
                            (i + 1) as nat,
                            exp as nat,
                            i32::MIN as int,
                            i32::MAX as int,
                        );
                    }
                    return None;
                },
            };
            i = i + 1;
        }
        Some(acc)
    }
}

impl CheckedMulFix for i32 {
    fn checked_mul(&self, v: &Self) -> (r: Option<Self>) {
        (*self).checked_mul(*v)
    }
}

impl CheckedDivFix for i32 {
    fn checked_div(&self, v: &Self) -> (r: Option<Self>) {
        proof {
            if v.val() != 0 {
                lemma_tdiv_cases(*self as int, *v as int);
            }
        }
        (*self).checked_div(*v)
    }
}

impl MulDiv for i32 {
    fn mul_div_floor(self, num: Self, denom: Self) -> (r: Option<Self>) {
        if denom == 0 {
            return None;
        }
        proof {
            lemma_mdiv_split(self as int, num as int, denom as int);
            lemma_mul_upper_bound(
                abs(self as int) as int,
                0x8000_0000,
                abs(num as int) as int,
                0x8000_0000,
            );
        }
        let (sa, na) = self.to_wide();
        let (sn, nn) = num.to_wide();
        let (sd, _) = denom.to_wide();
        let neg = (na != nn) != (denom < 0);
        let p: u128 = sa * sn;
        if neg {
            let qm = div_ceil_u128(p, sd);
            if qm > 0x8000_0000u128 {
                None
            } else if qm == 0x8000_0000u128 {
                Some(i32::MIN)
            } else {
                Some(-(qm as i32))
            }
        } else {
            let qm = div_floor_u128(p, sd);
            if qm > i32::MAX as u128 {
                None
            } else {
                Some(qm as i32)
            }
        }
    }

    fn mul_div_round(self, num: Self, denom: Self) -> (r: Option<Self>) {
        if denom == 0 {
            return None;
        }
        proof {
            lemma_mdiv_split(self as int, num as int, denom as int);
            lemma_mul_upper_bound(
                abs(self as int) as int,
                0x8000_0000,
                abs(num as int) as int,
                0x8000_0000,
            );
        }
        let (sa, na) = self.to_wide();
        let (sn, nn) = num.to_wide();
        let (sd, _) = denom.to_wide();
        let neg = (na != nn) != (denom < 0);
        let p: u128 = sa * sn;
        let qm = div_round_u128(p, sd);
        if neg {
            if qm > 0x8000_0000u128 {
                None
            } else if qm == 0x8000_0000u128 {
                Some(i32::MIN)
            } else {
                Some(-(qm as i32))
            }
        } else {
            if qm > i32::MAX as u128 {
                None
            } else {
                Some(qm as i32)
            }
        }
    }

    fn mul_div_ceil(self, num: Self, denom: Self) -> (r: Option<Self>) {
        if denom == 0 {
            return None;
        }
        proof {
            lemma_mdiv_split(self as int, num as int, denom as int);
            lemma_mul_upper_bound(
                abs(self as int) as int,
                0x8000_0000,
                abs(num as int) as int,
                0x8000_0000,
            );
        }
        let (sa, na) = self.to_wide();
        let (sn, nn) = num.to_wide();
        let (sd, _) = denom.to_wide();
        let neg = (na != nn) != (denom < 0);
        let p: u128 = sa * sn;
        if neg {
            let qm = div_floor_u128(p, sd);
            if qm > 0x8000_0000u128 {
                None
            } else if qm == 0x8000_0000u128 {
                Some(i32::MIN)
            } else {
                Some(-(qm as i32))
            }
        } else {
            let qm = div_ceil_u128(p, sd);
            if qm > i32::MAX as u128 {
                None
            } else {
                Some(qm as i32)
            }
        }
    }
}

impl FixBits for i128 {
    open spec fn val(self) -> int {
        self as int
    }

    open spec fn min_val() -> int {
        i128::MIN as int
    }

    open spec fn max_val() -> int {
        i128::MAX as int
    }

    proof fn lemma_range() {
    }

    proof fn lemma_in_range(self) {
    }

    fn zero() -> (r: Self) {
        0
    }

    fn eq_bits(self, o: Self) -> (r: bool) {
        self == o
    }

    fn lt_bits(self, o: Self) -> (r: bool) {
        self < o
    }

    fn plus(self, o: Self) -> (r: Self) {
        self + o
    }

    fn minus(self, o: Self) -> (r: Self) {
        self - o
    }

    fn times(self, o: Self) -> (r: Self) {
        self * o
    }

    fn div_trunc(self, o: Self) -> (r: Self) {
        proof {
            lemma_tdiv_cases(self as int, o as int);
        }
        self.checked_div(o).unwrap()
    }

    fn rem_trunc(self, o: Self) -> (r: Self) {
        proof {
            lemma_tdiv_cases(self as int, o as int);
            if self == i128::MIN && o == -1 {
                vstd::arithmetic::div_mod::lemma_div_basics(-(i128::MIN as int));
                assert(false);
            }
        }
        self.checked_rem(o).unwrap()
    }

    fn negated(self) -> (r: Self) {
        -self
    }

    fn checked_plus(self, o: Self) -> (r: Option<Self>) {
        self.checked_add(o)
    }

    fn checked_minus(self, o: Self) -> (r: Option<Self>) {
        self.checked_sub(o)
    }

    fn to_wide(self) -> (r: (u128, bool)) {
        if self == i128::MIN {
            (0x8000_0000_0000_0000_0000_0000_0000_0000u128, true)
        } else if self < 0 {
            ((-self) as u128, true)
        } else {
            (self as u128, false)
        }
    }

    fn from_wide(mag: u128, neg: bool) -> (r: Option<Self>) {
        if neg {
            if mag > 0x8000_0000_0000_0000_0000_0000_0000_0000u128 {
                None
            } else if mag == 0x8000_0000_0000_0000_0000_0000_0000_0000u128 {
                Some(i128::MIN)
            } else {
                Some(-(mag as i128))
            }
        } else {
            if mag > i128::MAX as u128 {
                None
            } else {
                Some(mag as i128)
            }
        }
    }
}

impl FromUnsigned for i128 {
    fn from_unsigned(u: u64) -> (r: Self) {
        u as i128
    }
}

impl Pow for i128 {
    fn pow(self, exp: u32) -> (r: Self) {
        Pow::checked_pow(self, exp).unwrap()
    }

    fn checked_pow(self, exp: u32) -> (r: Option<Self>) {
        let mut acc: i128 = 1;
        let mut i: u32 = 0;
        proof {
            lemma_pow0(self as int);
        }
        while i < exp
            invariant
                i <= exp,
                acc == pow(self as int, i as nat),
            decreases exp - i,
        {
            proof {
                lemma_pow_unfold(self as int, i as nat);
            }
            acc = match acc.checked_mul(self) {
                Some(v) => v,
                None => {
                    proof {
                        lemma_pow_overflow(
                            self as int,
                            (i + 1) as nat,
                            exp as nat,
                            i128::MIN as int,
                            i128::MAX as int,
                        );
                    }
                    return None;
                },
            };
            i = i + 1;
        }
        Some(acc)
    }
}

impl CheckedMulFix for i128 {
    fn checked_mul(&self, v: &Self) -> (r: Option<Self>) {
        (*self).checked_mul(*v)
    }
}

impl CheckedDivFix for i128 {
    fn checked_div(&self, v: &Self) -> (r: Option<Self>) {
        proof {
            if v.val() != 0 {
                lemma_tdiv_cases(*self as int, *v as int);
            }
        }
        (*self).checked_div(*v)
    }
}

impl FixBits for isize {
    open spec fn val(self) -> int {
        self as int
    }

    open spec fn min_val() -> int {
        isize::MIN as int
    }

    open spec fn max_val() -> int {
        isize::MAX as int
    }

    proof fn lemma_range() {
    }

    proof fn lemma_in_range(self) {
    }

    fn zero() -> (r: Self) {
        0
    }

    fn eq_bits(self, o: Self) -> (r: bool) {
        self == o
    }

    fn lt_bits(self, o: Self) -> (r: bool) {
        self < o
    }

    fn plus(self, o: Self) -> (r: Self) {
        self + o
    }

    fn minus(self, o: Self) -> (r: Self) {
        self - o
    }

    fn times(self, o: Self) -> (r: Self) {
        self * o
    }

    fn div_trunc(self, o: Self) -> (r: Self) {
        proof {
            lemma_tdiv_cases(self as int, o as int);
        }
        self.checked_div(o).unwrap()
    }

    fn rem_trunc(self, o: Self) -> (r: Self) {
        proof {
            lemma_tdiv_cases(self as int, o as int);
            if self == isize::MIN && o == -1 {
                vstd::arithmetic::div_mod::lemma_div_basics(-(isize::MIN as int));
                assert(false);
            }
        }
        self.checked_rem(o).unwrap()
    }

    fn negated(self) -> (r: Self) {
        -self
    }

    fn checked_plus(self, o: Self) -> (r: Option<Self>) {
        self.checked_add(o)
    }

    fn checked_minus(self, o: Self) -> (r: Option<Self>) {
        self.checked_sub(o)
    }

    fn to_wide(self) -> (r: (u128, bool)) {
        if self < 0 {
            ((-(self as i128)) as u128, true)
        } else {
            (self as u128, false)
        }
    }

    fn from_wide(mag: u128, neg: bool) -> (r: Option<Self>) {
        let half: u128 = (isize::MAX as u128) + 1;
        if neg {
            if mag > half {
                None
            } else if mag == half {
                Some(isize::MIN)
            } else {
                Some(-(mag as isize))
            }
        } else {
            if mag > isize::MAX as u128 {
                None
            } else {
                Some(mag as isize)
            }
        }
    }
}

impl FromUnsigned for isize {
    fn from_unsigned(u: u64) -> (r: Self) {
        u as isize
    }
}

impl Pow for isize {
    fn pow(self, exp: u32) -> (r: Self) {
        Pow::checked_pow(self, exp).unwrap()
    }

    fn checked_pow(self, exp: u32) -> (r: Option<Self>) {
        let mut acc: isize = 1;
        let mut i: u32 = 0;
        proof {
            lemma_pow0(self as int);
        }
        while i < exp
            invariant
                i <= exp,
                acc == pow(self as int, i as nat),
            decreases exp - i,
        {
            proof {
                lemma_pow_unfold(self as int, i as nat);
            }
            acc = match acc.checked_mul(self) {
                Some(v) => v,
                None => {
                    proof {
                        lemma_pow_overflow(
                            self as int,
                            (i + 1) as nat,
                            exp as nat,
                            isize::MIN as int,
                            isize::MAX as int,
                        );
                    }
                    return None;
                },
            };
            i = i + 1;
        }
        Some(acc)
    }
}

impl CheckedMulFix for isize {
    fn checked_mul(&self, v: &Self) -> (r: Option<Self>) {
        (*self).checked_mul(*v)
    }
}

impl CheckedDivFix for isize {
    fn checked_div(&self, v: &Self) -> (r: Option<Self>) {
        proof {
            if v.val() != 0 {
                lemma_tdiv_cases(*self as int, *v as int);
            }
        }
        (*self).checked_div(*v)
    }
}

} // verus!
