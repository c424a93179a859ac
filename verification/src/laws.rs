//! Laws of the library, stated over the same spec functions its contracts
//! use and proved once for every scale and width.

use crate::bits::{fits, FixBits};
use crate::num::{lemma_abs_mul, lemma_mul_sign, tdiv, tmod};
use crate::Fix;
use core::cmp::Ordering;
use vstd::arithmetic::div_mod::{lemma_div_multiples_vanish, lemma_fundamental_div_mod};
use vstd::math::abs;
use vstd::prelude::*;
use vstd::std_specs::cmp::{PartialEqSpec, PartialOrdSpec};

verus! {

/// Law: rescaling to a finer exponent and back returns the original value.
/// Multiplying the underlying integer by a unit ratio and then dividing by
/// the same ratio is the identity whenever the multiplication is
/// representable: the division is exact, so nothing is truncated.
pub proof fn lemma_convert_round_trip(b: int, ratio: int)
    requires
        ratio >= 1,
    ensures
        tdiv(b * ratio, ratio) == b,
{
    lemma_abs_mul(b, ratio);
    lemma_mul_sign(b, ratio);
    lemma_div_multiples_vanish(abs(b) as int, ratio);
    assert(ratio * (abs(b) as int) == (abs(b * ratio)) as int) by (nonlinear_arith)
        requires
            abs(b * ratio) == abs(b) * abs(ratio),
            abs(ratio) == ratio,
    ;
}

/// Law: rescaling to a coarser exponent and back returns the original value
/// exactly when the unit ratio divides the underlying integer — that is,
/// whenever the division truncated nothing.
pub proof fn lemma_convert_round_trip_exact(b: int, ratio: int)
    requires
        ratio >= 1,
        tmod(b, ratio) == 0,
    ensures
        tdiv(b, ratio) * ratio == b,
{
    lemma_fundamental_div_mod(abs(b) as int, ratio);
    assert(tdiv(b, ratio) * ratio == b) by (nonlinear_arith)
        requires
            ratio >= 1,
            abs(b) as int == ratio * ((abs(b) as int) / ratio) + (abs(b) as int) % ratio,
            (abs(b) as int) % ratio == 0,
            tdiv(b, ratio) == if b < 0 {
                -((abs(b) as int) / ratio)
            } else {
                (abs(b) as int) / ratio
            },
            abs(b) == if b < 0 {
                (-b) as nat
            } else {
                b as nat
            },
    ;
}

/// Law: widening is lossless and reversible.  A value in the source
/// integer's range lies in the wider integer's range, so widening keeps it
/// and narrowing back to the source width succeeds and returns it.
pub proof fn lemma_widen_narrow_round_trip<A: FixBits, B: FixBits>(v: int)
    requires
        fits::<A>(v),
        B::min_val() <= A::min_val(),
        A::max_val() <= B::max_val(),
    ensures
        fits::<B>(v),
        fits::<A>(v),
{
}

/// Law: equality and ordering of same-scale values are those of the
/// underlying integer alone — nothing else enters the comparison.
pub proof fn lemma_cmp_by_bits<Bits: FixBits, const BASE: u64, const EMAG: u64, const ENEG: bool>(
    a: Fix<Bits, BASE, EMAG, ENEG>,
    b: Fix<Bits, BASE, EMAG, ENEG>,
)
    ensures
        a.eq_spec(&b) <==> a.bits.val() == b.bits.val(),
        (a.partial_cmp_spec(&b) == Some(Ordering::Less)) <==> a.bits.val() < b.bits.val(),
        (a.partial_cmp_spec(&b) == Some(Ordering::Equal)) <==> a.bits.val() == b.bits.val(),
        (a.partial_cmp_spec(&b) == Some(Ordering::Greater)) <==> a.bits.val() > b.bits.val(),
{
}

} // verus!
