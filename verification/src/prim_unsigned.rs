//! Capability implementations for the unsigned widths.

use crate::bits::{CheckedDivFix, CheckedMulFix, FixBits, FromUnsigned, MulDiv, Pow};
use crate::num::{div_ceil_nat, div_floor_nat, div_round_nat, lemma_pow_overflow, lemma_pow_unfold};
use vstd::arithmetic::div_mod::lemma_div_nonincreasing;
use vstd::arithmetic::mul::{lemma_mul_nonnegative, lemma_mul_upper_bound};
use vstd::arithmetic::power::{lemma_pow0, pow};
use vstd::prelude::*;

verus! {

/// Quotient of wide nonnegative operands, rounded down.
pub(crate) fn div_floor_u128(p: u128, d: u128) -> (q: u128)
    requires
        d != 0,
    ensures
        q == div_floor_nat(p as nat, d as nat),
{
    p / d
}

/// Quotient of wide nonnegative operands, rounded up.
pub(crate) fn div_ceil_u128(p: u128, d: u128) -> (q: u128)
    requires
        d != 0,
        p < u128::MAX,
    ensures
        q == div_ceil_nat(p as nat, d as nat),
{
    let q0 = p / d;
    let r = p % d;
    if r == 0 {
        q0
    } else {
        proof {
            lemma_div_nonincreasing(p as int, d as int);
        }
        q0 + 1
    }
}

/// Quotient of wide nonnegative operands, rounded to the nearest integer
/// with halves rounded up.
pub(crate) fn div_round_u128(p: u128, d: u128) -> (q: u128)
    requires
        d != 0,
        p + d / 2 <= u128::MAX,
    ensures
        q == div_round_nat(p as nat, d as nat),
{
    (p + d / 2) / d
}

impl FixBits for u64 {
    open spec fn val(self) -> int {
        self as int
    }

    open spec fn min_val() -> int {
        0
    }

    open spec fn max_val() -> int {
        u64::MAX as int
    }

    proof fn lemma_range() {
    }

    proof fn lemma_in_range(self) {
    }

    fn zero() -> (r: Self) {
        0
    }

    fn eq_bits(self, o: Self) -> (r: bool) {
        self == o
    }

    fn lt_bits(self, o: Self) -> (r: bool) {
        self < o
    }

    fn plus(self, o: Self) -> (r: Self) {
        self + o
    }

    fn minus(self, o: Self) -> (r: Self) {
        self - o
    }

    fn times(self, o: Self) -> (r: Self) {
        self * o
    }

    fn div_trunc(self, o: Self) -> (r: Self) {
        self / o
    }

    fn rem_trunc(self, o: Self) -> (r: Self) {
        self % o
    }

    fn negated(self) -> (r: Self) {
        self
    }

    fn checked_plus(self, o: Self) -> (r: Option<Self>) {
        self.checked_add(o)
    }

    fn checked_minus(self, o: Self) -> (r: Option<Self>) {
        self.checked_sub(o)
    }

    fn to_wide(self) -> (r: (u128, bool)) {
        (self as u128, false)
    }

    fn from_wide(mag: u128, neg: bool) -> (r: Option<Self>) {
        if neg && mag != 0 {
            None
        } else if mag > u64::MAX as u128 {
            None
        } else {
            Some(mag as u64)
        }
    }
}

impl FromUnsigned for u64 {
    fn from_unsigned(u: u64) -> (r: Self) {
        u
    }
}

impl Pow for u64 {
    fn pow(self, exp: u32) -> (r: Self) {
        Pow::checked_pow(self, exp).unwrap()
    }

    fn checked_pow(self, exp: u32) -> (r: Option<Self>) {
        let mut acc: u64 = 1;
        let mut i: u32 = 0;
        proof {
            lemma_pow0(self as int);
        }
        while i < exp
            invariant
                i <= exp,
                acc == pow(self as int, i as nat),
            decreases exp - i,
        {
            proof {
                lemma_pow_unfold(self as int, i as nat);
            }
            acc = match acc.checked_mul(self) {
                Some(v) => v,
                None => {
                    proof {
                        lemma_pow_overflow(
                            self as int,
                            (i + 1) as nat,
                            exp as nat,
                            0,
                            u64::MAX as int,
                        );
                    }
                    return None;
                },
            };
            i = i + 1;
        }
        Some(acc)
    }
}

impl CheckedMulFix for u64 {
    fn checked_mul(&self, v: &Self) -> (r: Option<Self>) {
        (*self).checked_mul(*v)
    }
}

impl CheckedDivFix for u64 {
    fn checked_div(&self, v: &Self) -> (r: Option<Self>) {
        (*self).checked_div(*v)
    }
}

impl MulDiv for u64 {
    fn mul_div_floor(self, num: Self, denom: Self) -> (r: Option<Self>) {
        if denom == 0 {
            return None;
        }
        proof {
            lemma_mul_nonnegative(self as int, num as int);
            lemma_mul_upper_bound(self as int, u64::MAX as int, num as int, u64::MAX as int);
        }
        let p: u128 = (self as u128) * (num as u128);
        let q: u128 = div_floor_u128(p, denom as u128);
        if q > u64::MAX as u128 {
            None
        } else {
            Some(q as u64)
        }
    }

    fn mul_div_round(self, num: Self, denom: Self) -> (r: Option<Self>) {
        if denom == 0 {
            return None;
        }
        proof {
            lemma_mul_nonnegative(self as int, num as int);
            lemma_mul_upper_bound(self as int, u64::MAX as int, num as int, u64::MAX as int);
        }
        let p: u128 = (self as u128) * (num as u128);
        let q: u128 = div_round_u128(p, denom as u128);
        if q > u64::MAX as u128 {
            None
        } else {
            Some(q as u64)
        }
    }

    fn mul_div_ceil(self, num: Self, denom: Self) -> (r: Option<Self>) {
        if denom == 0 {
            return None;
        }
        proof {
            lemma_mul_nonnegative(self as int, num as int);
            lemma_mul_upper_bound(self as int, u64::MAX as int, num as int, u64::MAX as int);
        }
        let p: u128 = (self as u128) * (num as u128);
        let q: u128 = div_ceil_u128(p, denom as u128);
        if q > u64::MAX as u128 {
            None
        } else {
            Some(q as u64)
        }
    }
}


impl FixBits for u8 {
    open spec fn val(self) -> int {
        self as int
    }

    open spec fn min_val() -> int {
        0
    }

    open spec fn max_val() -> int {
        u8::MAX as int
    }

    proof fn lemma_range() {
    }

    proof fn lemma_in_range(self) {
    }

    fn zero() -> (r: Self) {
        0
    }

    fn eq_bits(self, o: Self) -> (r: bool) {
        self == o
    }

    fn lt_bits(self, o: Self) -> (r: bool) {
        self < o
    }

    fn plus(self, o: Self) -> (r: Self) {
        self + o
    }

    fn minus(self, o: Self) -> (r: Self) {
        self - o
    }

    fn times(self, o: Self) -> (r: Self) {
        self * o
    }

    fn div_trunc(self, o: Self) -> (r: Self) {
        self / o
    }

    fn rem_trunc(self, o: Self) -> (r: Self) {
        self % o
    }

    fn negated(self) -> (r: Self) {
        self
    }

    fn checked_plus(self, o: Self) -> (r: Option<Self>) {
        self.checked_add(o)
    }

    fn checked_minus(self, o: Self) -> (r: Option<Self>) {
        self.checked_sub(o)
    }

    fn to_wide(self) -> (r: (u128, bool)) {
        (self as u128, false)
    }

    fn from_wide(mag: u128, neg: bool) -> (r: Option<Self>) {
        if neg && mag != 0 {
            None
        } else if mag > u8::MAX as u128 {
            None
        } else {
            Some(mag as u8)
        }
    }
}

impl FromUnsigned for u8 {
    fn from_unsigned(u: u64) -> (r: Self) {
        u as u8
    }
}

impl Pow for u8 {
    fn pow(self, exp: u32) -> (r: Self) {
        Pow::checked_pow(self, exp).unwrap()
    }

    fn checked_pow(self, exp: u32) -> (r: Option<Self>) {
        let mut acc: u8 = 1;
        let mut i: u32 = 0;
        proof {
            lemma_pow0(self as int);
        }
        while i < exp
            invariant
                i <= exp,
                acc == pow(self as int, i as nat),
            decreases exp - i,
        {
            proof {
                lemma_pow_unfold(self as int, i as nat);
            }
            acc = match acc.checked_mul(self) {
                Some(v) => v,
                None => {
                    proof {
                        lemma_pow_overflow(
                            self as int,
                            (i + 1) as nat,
                            exp as nat,
                            0,
                            u8::MAX as int,
                        );
                    }
                    return None;
                },
            };
            i = i + 1;
        }
        Some(acc)
    }
}

impl CheckedMulFix for u8 {
    fn checked_mul(&self, v: &Self) -> (r: Option<Self>) {
        (*self).checked_mul(*v)
    }
}

impl CheckedDivFix for u8 {
    fn checked_div(&self, v: &Self) -> (r: Option<Self>) {
        (*self).checked_div(*v)
    }
}


impl MulDiv for u8 {
    fn mul_div_floor(self, num: Self, denom: Self) -> (r: Option<Self>) {
        if denom == 0 {
            return None;
        }
        proof {
            lemma_mul_nonnegative(self as int, num as int);
            lemma_mul_upper_bound(self as int, u8::MAX as int, num as int, u8::MAX as int);
        }
        let p: u128 = (self as u128) * (num as u128);
        let q: u128 = div_floor_u128(p, denom as u128);
        if q > u8::MAX as u128 {
            None
        } else {
            Some(q as u8)
        }
    }

    fn mul_div_round(self, num: Self, denom: Self) -> (r: Option<Self>) {
        if denom == 0 {
            return None;
        }
        proof {
            lemma_mul_nonnegative(self as int, num as int);
            lemma_mul_upper_bound(self as int, u8::MAX as int, num as int, u8::MAX as int);
        }
        let p: u128 = (self as u128) * (num as u128);
        let q: u128 = div_round_u128(p, denom as u128);
        if q > u8::MAX as u128 {
            None
        } else {
            Some(q as u8)
        }
    }

    fn mul_div_ceil(self, num: Self, denom: Self) -> (r: Option<Self>) {
        if denom == 0 {
            return None;
        }
        proof {
            lemma_mul_nonnegative(self as int, num as int);
            lemma_mul_upper_bound(self as int, u8::MAX as int, num as int, u8::MAX as int);
        }
        let p: u128 = (self as u128) * (num as u128);
        let q: u128 = div_ceil_u128(p, denom as u128);
        if q > u8::MAX as u128 {
            None
        } else {
            Some(q as u8)
        }
    }
}


impl FixBits for u16 {
    open spec fn val(self) -> int {
        self as int
    }

    open spec fn min_val() -> int {
        0
    }

    open spec fn max_val() -> int {
        u16::MAX as int
    }

    proof fn lemma_range() {
    }

    proof fn lemma_in_range(self) {
    }

    fn zero() -> (r: Self) {
        0
    }

    fn eq_bits(self, o: Self) -> (r: bool) {
        self == o
    }

    fn lt_bits(self, o: Self) -> (r: bool) {
        self < o
    }

    fn plus(self, o: Self) -> (r: Self) {
        self + o
    }

    fn minus(self, o: Self) -> (r: Self) {
        self - o
    }

    fn times(self, o: Self) -> (r: Self) {
        self * o
    }

    fn div_trunc(self, o: Self) -> (r: Self) {
        self / o
    }

    fn rem_trunc(self, o: Self) -> (r: Self) {
        self % o
    }

    fn negated(self) -> (r: Self) {
        self
    }

    fn checked_plus(self, o: Self) -> (r: Option<Self>) {
        self.checked_add(o)
    }

    fn checked_minus(self, o: Self) -> (r: Option<Self>) {
        self.checked_sub(o)
    }

    fn to_wide(self) -> (r: (u128, bool)) {
        (self as u128, false)
    }

    fn from_wide(mag: u128, neg: bool) -> (r: Option<Self>) {
        if neg && mag != 0 {
            None
        } else if mag > u16::MAX as u128 {
            None
        } else {
            Some(mag as u16)
        }
    }
}

impl FromUnsigned for u16 {
    fn from_unsigned(u: u64) -> (r: Self) {
        u as u16
    }
}

impl Pow for u16 {
    fn pow(self, exp: u32) -> (r: Self) {
        Pow::checked_pow(self, exp).unwrap()
    }

    fn checked_pow(self, exp: u32) -> (r: Option<Self>) {
        let mut acc: u16 = 1;
        let mut i: u32 = 0;
        proof {
            lemma_pow0(self as int);
        }
        while i < exp
            invariant
                i <= exp,
                acc == pow(self as int, i as nat),
            decreases exp - i,
        {
            proof {
                lemma_pow_unfold(self as int, i as nat);
            }
            acc = match acc.checked_mul(self) {
                Some(v) => v,
                None => {
                    proof {
                        lemma_pow_overflow(
                            self as int,
                            (i + 1) as nat,
                            exp as nat,
                            0,
                            u16::MAX as int,
                        );
                    }
                    return None;
                },
            };
            i = i + 1;
        }
        Some(acc)
    }
}

impl CheckedMulFix for u16 {
    fn checked_mul(&self, v: &Self) -> (r: Option<Self>) {
        (*self).checked_mul(*v)
    }
}

impl CheckedDivFix for u16 {
    fn checked_div(&self, v: &Self) -> (r: Option<Self>) {
        (*self).checked_div(*v)
    }
}


impl MulDiv for u16 {
    fn mul_div_floor(self, num: Self, denom: Self) -> (r: Option<Self>) {
        if denom == 0 {
            return None;
        }
        proof {
            lemma_mul_nonnegative(self as int, num as int);
            lemma_mul_upper_bound(self as int, u16::MAX as int, num as int, u16::MAX as int);
        }
        let p: u128 = (self as u128) * (num as u128);
        let q: u128 = div_floor_u128(p, denom as u128);
        if q > u16::MAX as u128 {
            None
        } else {
            Some(q as u16)
        }
    }

    fn mul_div_round(self, num: Self, denom: Self) -> (r: Option<Self>) {
        if denom == 0 {
            return None;
        }
        proof {
            lemma_mul_nonnegative(self as int, num as int);
            lemma_mul_upper_bound(self as int, u16::MAX as int, num as int, u16::MAX as int);
        }
        let p: u128 = (self as u128) * (num as u128);
        let q: u128 = div_round_u128(p, denom as u128);
        if q > u16::MAX as u128 {
            None
        } else {
            Some(q as u16)
        }
    }

    fn mul_div_ceil(self, num: Self, denom: Self) -> (r: Option<Self>) {
        if denom == 0 {
            return None;
        }
        proof {
            lemma_mul_nonnegative(self as int, num as int);
            lemma_mul_upper_bound(self as int, u16::MAX as int, num as int, u16::MAX as int);
        }
        let p: u128 = (self as u128) * (num as u128);
        let q: u128 = div_ceil_u128(p, denom as u128);
        if q > u16::MAX as u128 {
            None
        } else {
            Some(q as u16)
        }
    }
}


impl FixBits for u32 {
    open spec fn val(self) -> int {
        self as int
    }

    open spec fn min_val() -> int {
        0
    }

    open spec fn max_val() -> int {
        u32::MAX as int
    }

    proof fn lemma_range() {
    }

    proof fn lemma_in_range(self) {
    }

    fn zero() -> (r: Self) {
        0
    }

    fn eq_bits(self, o: Self) -> (r: bool) {
        self == o
    }

    fn lt_bits(self, o: Self) -> (r: bool) {
        self < o
    }

    fn plus(self, o: Self) -> (r: Self) {
        self + o
    }

    fn minus(self, o: Self) -> (r: Self) {
        self - o
    }

    fn times(self, o: Self) -> (r: Self) {
        self * o
    }

    fn div_trunc(self, o: Self) -> (r: Self) {
        self / o
    }

    fn rem_trunc(self, o: Self) -> (r: Self) {
        self % o
    }

    fn negated(self) -> (r: Self) {
        self
    }

    fn checked_plus(self, o: Self) -> (r: Option<Self>) {
        self.checked_add(o)
    }

    fn checked_minus(self, o: Self) -> (r: Option<Self>) {
        self.checked_sub(o)
    }

    fn to_wide(self) -> (r: (u128, bool)) {
        (self as u128, false)
    }

    fn from_wide(mag: u128, neg: bool) -> (r: Option<Self>) {
        if neg && mag != 0 {
            None
        } else if mag > u32::MAX as u128 {
            None
        } else {
            Some(mag as u32)
        }
    }
}

impl FromUnsigned for u32 {
    fn from_unsigned(u: u64) -> (r: Self) {
        u as u32
    }
}

impl Pow for u32 {
    fn pow(self, exp: u32) -> (r: Self) {
        Pow::checked_pow(self, exp).unwrap()
    }

    fn checked_pow(self, exp: u32) -> (r: Option<Self>) {
        let mut acc: u32 = 1;
        let mut i: u32 = 0;
        proof {
            lemma_pow0(self as int);
        }
        while i < exp
            invariant
                i <= exp,
                acc == pow(self as int, i as nat),
            decreases exp - i,
        {
            proof {
                lemma_pow_unfold(self as int, i as nat);
            }
            acc = match acc.checked_mul(self) {
                Some(v) => v,
                None => {
                    proof {
                        lemma_pow_overflow(
                            self as int,
                            (i + 1) as nat,
                            exp as nat,
                            0,
                            u32::MAX as int,
                        );
                    }
                    return None;
                },
            };
            i = i + 1;
        }
        Some(acc)
    }
}

impl CheckedMulFix for u32 {
    fn checked_mul(&self, v: &Self) -> (r: Option<Self>) {
        (*self).checked_mul(*v)
    }
}

impl CheckedDivFix for u32 {
    fn checked_div(&self, v: &Self) -> (r: Option<Self>) {
        (*self).checked_div(*v)
    }
}


impl MulDiv for u32 {
    fn mul_div_floor(self, num: Self, denom: Self) -> (r: Option<Self>) {
        if denom == 0 {
            return None;
        }
        proof {
            lemma_mul_nonnegative(self as int, num as int);
            lemma_mul_upper_bound(self as int, u32::MAX as int, num as int, u32::MAX as int);
        }
        let p: u128 = (self as u128) * (num as u128);
        let q: u128 = div_floor_u128(p, denom as u128);
        if q > u32::MAX as u128 {
            None
        } else {
            Some(q as u32)
        }
    }

    fn mul_div_round(self, num: Self, denom: Self) -> (r: Option<Self>) {
        if denom == 0 {
            return None;
        }
        proof {
            lemma_mul_nonnegative(self as int, num as int);
            lemma_mul_upper_bound(self as int, u32::MAX as int, num as int, u32::MAX as int);
        }
        let p: u128 = (self as u128) * (num as u128);
        let q: u128 = div_round_u128(p, denom as u128);
        if q > u32::MAX as u128 {
            None
        } else {
            Some(q as u32)
        }
    }

    fn mul_div_ceil(self, num: Self, denom: Self) -> (r: Option<Self>) {
        if denom == 0 {
            return None;
        }
        proof {
            lemma_mul_nonnegative(self as int, num as int);
            lemma_mul_upper_bound(self as int, u32::MAX as int, num as int, u32::MAX as int);
        }
        let p: u128 = (self as u128) * (num as u128);
        let q: u128 = div_ceil_u128(p, denom as u128);
        if q > u32::MAX as u128 {
            None
        } else {
            Some(q as u32)
        }
    }
}


impl FixBits for usize {
    open spec fn val(self) -> int {
        self as int
    }

    open spec fn min_val() -> int {
        0
    }

    open spec fn max_val() -> int {
        usize::MAX as int
    }

    proof fn lemma_range() {
    }

    proof fn lemma_in_range(self) {
    }

    fn zero() -> (r: Self) {
        0
    }

    fn eq_bits(self, o: Self) -> (r: bool) {
        self == o
    }

    fn lt_bits(self, o: Self) -> (r: bool) {
        self < o
    }

    fn plus(self, o: Self) -> (r: Self) {
        self + o
    }

    fn minus(self, o: Self) -> (r: Self) {
        self - o
    }

    fn times(self, o: Self) -> (r: Self) {
        self * o
    }

    fn div_trunc(self, o: Self) -> (r: Self) {
        self / o
    }

    fn rem_trunc(self, o: Self) -> (r: Self) {
        self % o
    }

    fn negated(self) -> (r: Self) {
        self
    }

    fn checked_plus(self, o: Self) -> (r: Option<Self>) {
        self.checked_add(o)
    }

    fn checked_minus(self, o: Self) -> (r: Option<Self>) {
        self.checked_sub(o)
    }

    fn to_wide(self) -> (r: (u128, bool)) {
        (self as u128, false)
    }

    fn from_wide(mag: u128, neg: bool) -> (r: Option<Self>) {
        if neg && mag != 0 {
            None
        } else if mag > usize::MAX as u128 {
            None
        } else {
            Some(mag as usize)
        }
    }
}

impl FromUnsigned for usize {
    fn from_unsigned(u: u64) -> (r: Self) {
        u as usize
    }
}

impl Pow for usize {
    fn pow(self, exp: u32) -> (r: Self) {
        Pow::checked_pow(self, exp).unwrap()
    }

    fn checked_pow(self, exp: u32) -> (r: Option<Self>) {
        let mut acc: usize = 1;
        let mut i: u32 = 0;
        proof {
            lemma_pow0(self as int);
        }
        while i < exp
            invariant
                i <= exp,
                acc == pow(self as int, i as nat),
            decreases exp - i,
        {
            proof {
                lemma_pow_unfold(self as int, i as nat);
            }
            acc = match acc.checked_mul(self) {
                Some(v) => v,
                None => {
                    proof {
                        lemma_pow_overflow(
                            self as int,
                            (i + 1) as nat,
                            exp as nat,
                            0,
                            usize::MAX as int,
                        );
                    }
                    return None;
                },
            };
            i = i + 1;
        }
        Some(acc)
    }
}

impl CheckedMulFix for usize {
    fn checked_mul(&self, v: &Self) -> (r: Option<Self>) {
        (*self).checked_mul(*v)
    }
}

impl CheckedDivFix for usize {
    fn checked_div(&self, v: &Self) -> (r: Option<Self>) {
        (*self).checked_div(*v)
    }
}


impl FixBits for u128 {
    open spec fn val(self) -> int {
        self as int
    }

    open spec fn min_val() -> int {
        0
    }

    open spec fn max_val() -> int {
        u128::MAX as int
    }

    proof fn lemma_range() {
    }

    proof fn lemma_in_range(self) {
    }

    fn zero() -> (r: Self) {
        0
    }

    fn eq_bits(self, o: Self) -> (r: bool) {
        self == o
    }

    fn lt_bits(self, o: Self) -> (r: bool) {
        self < o
    }

    fn plus(self, o: Self) -> (r: Self) {
        self + o
    }

    fn minus(self, o: Self) -> (r: Self) {
        self - o
    }

    fn times(self, o: Self) -> (r: Self) {
        self * o
    }

    fn div_trunc(self, o: Self) -> (r: Self) {
        self / o
    }

    fn rem_trunc(self, o: Self) -> (r: Self) {
        self % o
    }

    fn negated(self) -> (r: Self) {
        self
    }

    fn checked_plus(self, o: Self) -> (r: Option<Self>) {
        self.checked_add(o)
    }

    fn checked_minus(self, o: Self) -> (r: Option<Self>) {
        self.checked_sub(o)
    }

    fn to_wide(self) -> (r: (u128, bool)) {
        (self, false)
    }

    fn from_wide(mag: u128, neg: bool) -> (r: Option<Self>) {
        if neg && mag != 0 {
            None
        } else {
            Some(mag)
        }
    }
}

impl FromUnsigned for u128 {
    fn from_unsigned(u: u64) -> (r: Self) {
        u as u128
    }
}

impl Pow for u128 {
    fn pow(self, exp: u32) -> (r: Self) {
        Pow::checked_pow(self, exp).unwrap()
    }

    fn checked_pow(self, exp: u32) -> (r: Option<Self>) {
        let mut acc: u128 = 1;
        let mut i: u32 = 0;
        proof {
            lemma_pow0(self as int);
        }
        while i < exp
            invariant
                i <= exp,
                acc == pow(self as int, i as nat),
            decreases exp - i,
        {
            proof {
                lemma_pow_unfold(self as int, i as nat);
            }
            acc = match acc.checked_mul(self) {
                Some(v) => v,
                None => {
                    proof {
                        lemma_pow_overflow(
                            self as int,
                            (i + 1) as nat,
                            exp as nat,
                            0,
                            u128::MAX as int,
                        );
                    }
                    return None;
                },
            };
            i = i + 1;
        }
        Some(acc)
    }
}

impl CheckedMulFix for u128 {
    fn checked_mul(&self, v: &Self) -> (r: Option<Self>) {
        (*self).checked_mul(*v)
    }
}

impl CheckedDivFix for u128 {
    fn checked_div(&self, v: &Self) -> (r: Option<Self>) {
        (*self).checked_div(*v)
    }
}

} // verus!
