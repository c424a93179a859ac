//! Mathematical vocabulary for the contracts of this crate.
//!
//! Rust's machine division truncates toward zero, while division in
//! specifications is Euclidean, so the contracts speak in terms of the
//! sign-and-magnitude functions below.  The power helpers bound every
//! intermediate value of an exponentiation loop by the final result, which is
//! what lets the loops in this crate run without overflow.

use vstd::arithmetic::power::{
    lemma_pow1, lemma_pow_adds, lemma_pow_increases, lemma_pow_strictly_increases, pow,
};
use vstd::math::abs;
use vstd::prelude::*;

verus! {

/// Rust's truncating division: magnitudes divide, signs combine, and the
/// quotient is rounded toward zero.  Meaningful only for `d != 0`.
pub open spec fn tdiv(x: int, d: int) -> int {
    if (x < 0) == (d < 0) {
        abs(x) as int / abs(d) as int
    } else {
        -(abs(x) as int / abs(d) as int)
    }
}

/// Rust's truncating remainder: the magnitude of `x % d` with the sign of
/// `x`.  Meaningful only for `d != 0`.
pub open spec fn tmod(x: int, d: int) -> int {
    if x < 0 {
        -(abs(x) as int % abs(d) as int)
    } else {
        abs(x) as int % abs(d) as int
    }
}

/// Quotient of nonnegative operands rounded down.
pub open spec fn div_floor_nat(p: nat, d: nat) -> nat {
    p / d
}

/// Quotient of nonnegative operands rounded up.
pub open spec fn div_ceil_nat(p: nat, d: nat) -> nat {
    if p % d == 0 {
        p / d
    } else {
        p / d + 1
    }
}

/// Quotient of nonnegative operands rounded to the nearest integer, with
/// halves rounded up.
pub open spec fn div_round_nat(p: nat, d: nat) -> nat {
    (p + d / 2) / d
}

/// The floor of the rational `x / d`, for `d != 0`.
pub open spec fn mdiv_floor(x: int, d: int) -> int {
    if (x < 0) == (d < 0) {
        div_floor_nat(abs(x), abs(d)) as int
    } else {
        -(div_ceil_nat(abs(x), abs(d)) as int)
    }
}

/// The ceiling of the rational `x / d`, for `d != 0`.
pub open spec fn mdiv_ceil(x: int, d: int) -> int {
    if (x < 0) == (d < 0) {
        div_ceil_nat(abs(x), abs(d)) as int
    } else {
        -(div_floor_nat(abs(x), abs(d)) as int)
    }
}

/// The rational `x / d` rounded to the nearest integer, with halves rounded
/// away from zero, for `d != 0`.
pub open spec fn mdiv_round(x: int, d: int) -> int {
    if (x < 0) == (d < 0) {
        div_round_nat(abs(x), abs(d)) as int
    } else {
        -(div_round_nat(abs(x), abs(d)) as int)
    }
}

/// Truncating division and remainder written as the sign-split case
/// formulas that the machine operations satisfy.
pub proof fn lemma_tdiv_cases(x: int, d: int)
    requires
        d != 0,
    ensures
        tdiv(x, d) == if x == 0 {
            0int
        } else if x > 0 && d > 0 {
            x / d
        } else if x < 0 && d < 0 {
            (x * -1) / (d * -1)
        } else if x < 0 {
            ((x * -1) / d) * -1
        } else {
            (x / (d * -1)) * -1
        },
        tmod(x, d) == if x == 0 {
            0int
        } else if x > 0 && d > 0 {
            x % d
        } else if x < 0 && d < 0 {
            ((x * -1) % (d * -1)) * -1
        } else if x < 0 {
            ((x * -1) % d) * -1
        } else {
            x % (d * -1)
        },
{
    vstd::arithmetic::div_mod::lemma_div_basics(abs(d) as int);
    if x == 0 {
        vstd::arithmetic::div_mod::lemma_div_of0(abs(d) as int);
        vstd::arithmetic::div_mod::lemma_small_mod(0, abs(d));
    }
}

/// The magnitude of a product is the product of the magnitudes.
pub proof fn lemma_abs_mul(x: int, y: int)
    ensures
        abs(x * y) == abs(x) * abs(y),
{
    assert(abs(x * y) == abs(x) * abs(y)) by (nonlinear_arith);
}

/// A truncated quotient by a positive divisor never grows in magnitude and
/// keeps the dividend's sign, so it stays inside any range holding the
/// dividend and zero.
pub proof fn lemma_tdiv_by_pos(x: int, d: int)
    requires
        d >= 1,
    ensures
        x >= 0 ==> 0 <= tdiv(x, d) <= x,
        x < 0 ==> x <= tdiv(x, d) <= 0,
{
    vstd::arithmetic::div_mod::lemma_div_nonincreasing(abs(x) as int, d);
    vstd::arithmetic::div_mod::lemma_div_pos_is_pos(abs(x) as int, d);
}

/// The floor of dividing by one is the dividend itself.
pub proof fn lemma_mdiv_floor_by_one(x: int)
    ensures
        mdiv_floor(x, 1) == x,
{
    vstd::arithmetic::div_mod::lemma_div_basics(abs(x) as int);
    vstd::arithmetic::div_mod::lemma_mod_multiples_basic(abs(x) as int, 1);
}

/// A positive power of a base beyond some bound is itself beyond it.
pub proof fn lemma_pow_exceeds(b: int, e: nat, hi: int)
    requires
        b > hi,
        hi >= 1,
        e >= 1,
    ensures
        pow(b, e) > hi,
{
    lemma_pow1(b);
    lemma_pow_increases(b as nat, 1, e);
}

/// The sign of a product follows the signs of its factors.
pub proof fn lemma_mul_sign(a: int, b: int)
    ensures
        (a * b < 0) <==> (((a < 0) != (b < 0)) && a != 0 && b != 0),
        (a * b == 0) <==> (a == 0 || b == 0),
{
    assert((a * b < 0) <==> (((a < 0) != (b < 0)) && a != 0 && b != 0)) by (nonlinear_arith);
    assert((a * b == 0) <==> (a == 0 || b == 0)) by (nonlinear_arith);
}

/// A rounded quotient of a product, written over the factors' magnitudes
/// and a single result sign, the way a machine computes it.
pub proof fn lemma_mdiv_split(a: int, n: int, d: int)
    requires
        d != 0,
    ensures
        abs(a * n) == abs(a) * abs(n),
        mdiv_floor(a * n, d) == if ((a < 0) != (n < 0)) != (d < 0) {
            -(div_ceil_nat(abs(a * n), abs(d)) as int)
        } else {
            div_floor_nat(abs(a * n), abs(d)) as int
        },
        mdiv_ceil(a * n, d) == if ((a < 0) != (n < 0)) != (d < 0) {
            -(div_floor_nat(abs(a * n), abs(d)) as int)
        } else {
            div_ceil_nat(abs(a * n), abs(d)) as int
        },
        mdiv_round(a * n, d) == if ((a < 0) != (n < 0)) != (d < 0) {
            -(div_round_nat(abs(a * n), abs(d)) as int)
        } else {
            div_round_nat(abs(a * n), abs(d)) as int
        },
{
    lemma_abs_mul(a, n);
    lemma_mul_sign(a, n);
    let x = a * n;
    if x == 0 {
        vstd::arithmetic::div_mod::lemma_div_of0(abs(d) as int);
        vstd::arithmetic::div_mod::lemma_small_mod(0, abs(d));
        vstd::arithmetic::div_mod::lemma_div_decreases(abs(d) as int, 2);
        vstd::arithmetic::div_mod::lemma_basic_div(abs(d) as int / 2, abs(d) as int);
    }
}

/// A power's magnitude is the power of the magnitude.
pub proof fn lemma_pow_abs(b: int, e: nat)
    ensures
        abs(pow(b, e)) == pow(abs(b) as int, e),
    decreases e,
{
    if e == 0 {
        assert(pow(b, 0) == 1 && pow(abs(b) as int, 0) == 1) by {
            reveal(pow);
        }
    } else {
        lemma_pow_abs(b, (e - 1) as nat);
        assert(pow(b, e) == b * pow(b, (e - 1) as nat)) by {
            reveal(pow);
        }
        assert(pow(abs(b) as int, e) == abs(b) * pow(abs(b) as int, (e - 1) as nat)) by {
            reveal(pow);
        }
        lemma_abs_mul(b, pow(b, (e - 1) as nat));
    }
}

/// A power of a nonnegative base is nonnegative.
pub proof fn lemma_pow_nonneg(b: int, e: nat)
    requires
        b >= 0,
    ensures
        pow(b, e) >= 0,
    decreases e,
{
    if e == 0 {
        reveal(pow);
    } else {
        lemma_pow_nonneg(b, (e - 1) as nat);
        assert(pow(b, e) == b * pow(b, (e - 1) as nat)) by {
            reveal(pow);
        }
        vstd::arithmetic::mul::lemma_mul_nonnegative(b, pow(b, (e - 1) as nat));
    }
}

/// While `pow(b, e)` still fits a machine range whose bounds are `-(hi + 1)`
/// (or zero) and `hi`, every earlier power fits that range as well: raising a
/// magnitude of at least two strictly grows, and smaller magnitudes never
/// leave the range at all.
pub proof fn lemma_pow_step_in_range(b: int, j: nat, e: nat, lo: int, hi: int)
    requires
        0 < j <= e,
        hi >= 1,
        lo == 0 || lo == -(hi + 1),
        lo == 0 ==> b >= 0,
        lo <= pow(b, e) <= hi,
    ensures
        lo <= pow(b, j),
        pow(b, j) <= hi,
{
    lemma_pow_abs(b, j);
    lemma_pow_abs(b, e);
    let m = abs(b);
    if m == 0 {
        assert(pow(m as int, j) == 0) by {
            reveal(pow);
        }
    } else if m == 1 {
        vstd::arithmetic::power::lemma1_pow(j);
    } else {
        if j < e {
            lemma_pow_strictly_increases(m, j, e);
        }
        lemma_pow_increases(m, j, e);
    }
    if lo == 0 {
        lemma_pow_nonneg(b, j);
    }
}

/// Once some power of `b` has left the machine range, the final power
/// `pow(b, e)` lies outside it too.
pub proof fn lemma_pow_overflow(b: int, j: nat, e: nat, lo: int, hi: int)
    requires
        j <= e,
        hi >= 1,
        lo == 0 || lo == -(hi + 1),
        lo == 0 ==> b >= 0,
        !(lo <= pow(b, j) <= hi),
    ensures
        !(lo <= pow(b, e) <= hi),
{
    if j == 0 {
        assert(pow(b, 0) == 1) by {
            reveal(pow);
        }
    } else if lo <= pow(b, e) <= hi {
        lemma_pow_step_in_range(b, j, e, lo, hi);
        assert(false);
    }
}

/// One more factor of the base: `pow(b, j + 1) == pow(b, j) * b`.
pub proof fn lemma_pow_unfold(b: int, j: nat)
    ensures
        pow(b, j + 1) == pow(b, j) * b,
{
    lemma_pow_adds(b, j, 1);
    lemma_pow1(b);
}

} // verus!
