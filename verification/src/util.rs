//! Domain-specific extensions to the `Fix` type as this project uses it.

use crate::bits::{fits, FixBits, FromUnsigned, Pow};
use crate::Fix;
use vstd::arithmetic::power::pow;
use vstd::prelude::*;

verus! {

/// Distinguished constants of a scale.
pub trait FixExt: Sized {
    /// The underlying-integer value that stands for one whole unit.
    spec fn one_spec() -> int;

    /// Whether one whole unit is representable in the underlying integer.
    spec fn one_in_range() -> bool;

    /// The mathematical value of the underlying integer.
    spec fn ext_val(self) -> int;

    /// This precision's equivalent of 1.
    fn one() -> (r: Self)
        requires
            Self::one_in_range(),
        ensures
            r.ext_val() == Self::one_spec(),
    ;

    /// This precision's zero.
    fn zero() -> (r: Self)
        ensures
            r.ext_val() == 0,
    ;
}

impl<Bits: FromUnsigned + Pow, const EMAG: u64> FixExt for Fix<Bits, 10, EMAG, true> {
    /// With exponent `-EMAG` in base ten, one whole unit is `10^EMAG` in
    /// underlying-integer terms.
    open spec fn one_spec() -> int {
        pow(10, EMAG as nat)
    }

    open spec fn one_in_range() -> bool {
        EMAG <= u32::MAX && 10 <= Bits::max_val() && fits::<Bits>(pow(10, EMAG as nat))
    }

    open spec fn ext_val(self) -> int {
        self.val()
    }

    fn one() -> (r: Self) {
        Fix::new(Bits::from_unsigned(10).pow(EMAG as u32))
    }

    fn zero() -> (r: Self) {
        Fix::new(Bits::zero())
    }
}

} // verus!
