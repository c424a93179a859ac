//! Flattened value forms for storage at the system boundary.
//!
//! A [`FixValue`] carries the base and the exponent as runtime fields
//! instead of compile-time parameters, the shape a ledger account stores.
//! Turning one back into a typed [`Fix`] re-validates that the stored base
//! and exponent equal the target type's compile-time scale exactly; a
//! mismatch is an error, never a silent reinterpretation.

use crate::{exp_val, Fix};
use vstd::prelude::*;

verus! {

/// Decoding failures of the flattened forms.
#[derive(Clone, Copy, Debug, PartialEq, Eq)]
pub enum FixError {
    /// The stored base or exponent did not match the expected scale.
    ShapeMismatch,
}

/// A value-space `Fix` with no base or exponent types: the scale is stored
/// alongside the bits instead of being carried by the type.
#[derive(Clone, Copy, Debug, PartialEq, Eq)]
pub struct FixValue<Bits> {
    /// The underlying integer.
    pub bits: Bits,
    /// The stored base.
    pub base: u8,
    /// The stored exponent.
    pub exp: i8,
}

impl<Bits> FixValue<Bits> {
    /// Creates a flattened value from its parts.
    pub fn new(bits: Bits, base: u8, exp: i8) -> (r: Self)
        ensures
            r.bits == bits,
            r.base == base,
            r.exp == exp,
    {
        FixValue { bits, base, exp }
    }

    /// A typed value of the expected scale, exactly when the stored base
    /// and exponent equal that scale; a shape-mismatch error otherwise.
    pub fn try_into<const BASE: u64, const EMAG: u64, const ENEG: bool>(self) -> (r: Result<
        Fix<Bits, BASE, EMAG, ENEG>,
        FixError,
    >)
        ensures
            r is Ok <==> (self.base == BASE && self.exp == exp_val(EMAG, ENEG)),
            r matches Ok(f) ==> f.bits == self.bits,
            r matches Err(e) ==> e == FixError::ShapeMismatch,
    {
        let expected: i128 = if ENEG {
            -(EMAG as i128)
        } else {
            EMAG as i128
        };
        if self.base as u64 == BASE && self.exp as i128 == expected {
            Ok(Fix::new(self.bits))
        } else {
            Err(FixError::ShapeMismatch)
        }
    }
}

impl<Bits, const BASE: u64, const EMAG: u64, const ENEG: bool> Fix<Bits, BASE, EMAG, ENEG> {
    /// Flattens this number, storing its compile-time scale as runtime
    /// fields.  The stored fields are narrow, so the scale must fit them.
    pub fn into_value(self) -> (r: FixValue<Bits>)
        requires
            BASE <= u8::MAX,
            i8::MIN <= exp_val(EMAG, ENEG) <= i8::MAX,
        ensures
            r.bits == self.bits,
            r.base == BASE,
            r.exp == exp_val(EMAG, ENEG),
    {
        let e: i128 = if ENEG {
            -(EMAG as i128)
        } else {
            EMAG as i128
        };
        FixValue { bits: self.bits, base: BASE as u8, exp: e as i8 }
    }
}

/// A flattened `Fix` with concrete sixty-four-bit storage, for account
/// layouts where generics cannot appear.
#[derive(Clone, Copy, Debug, PartialEq, Eq)]
pub struct FixU64 {
    /// The underlying integer.
    pub bits: u64,
    /// The stored base.
    pub base: u8,
    /// The stored exponent.
    pub exp: i8,
}

impl FixU64 {
    /// Creates a flattened value from its parts.
    pub fn new(bits: u64, base: u8, exp: i8) -> (r: Self)
        ensures
            r.bits == bits,
            r.base == base,
            r.exp == exp,
    {
        FixU64 { bits, base, exp }
    }

    /// Flattens a typed number whose scale fits the stored fields.
    pub fn from_fix<const BASE: u64, const EMAG: u64, const ENEG: bool>(
        fix: Fix<u64, BASE, EMAG, ENEG>,
    ) -> (r: Self)
        requires
            BASE <= u8::MAX,
            i8::MIN <= exp_val(EMAG, ENEG) <= i8::MAX,
        ensures
            r.bits == fix.bits,
            r.base == BASE,
            r.exp == exp_val(EMAG, ENEG),
    {
        let e: i128 = if ENEG {
            -(EMAG as i128)
        } else {
            EMAG as i128
        };
        FixU64 { bits: fix.bits, base: BASE as u8, exp: e as i8 }
    }

    /// A typed value of the expected scale, exactly when the stored base
    /// and exponent equal that scale; a shape-mismatch error otherwise.
    pub fn try_into<const BASE: u64, const EMAG: u64, const ENEG: bool>(self) -> (r: Result<
        Fix<u64, BASE, EMAG, ENEG>,
        FixError,
    >)
        ensures
            r is Ok <==> (self.base == BASE && self.exp == exp_val(EMAG, ENEG)),
            r matches Ok(f) ==> f.bits == self.bits,
            r matches Err(e) ==> e == FixError::ShapeMismatch,
    {
        let expected: i128 = if ENEG {
            -(EMAG as i128)
        } else {
            EMAG as i128
        };
        if self.base as u64 == BASE && self.exp as i128 == expected {
            Ok(Fix::new(self.bits))
        } else {
            Err(FixError::ShapeMismatch)
        }
    }
}

/// A typed number kept whole behind a flattened name, for layouts that
/// carry the scale in the type after all.
pub struct FixValue2<Bits, const BASE: u64, const EMAG: u64, const ENEG: bool>(
    Fix<Bits, BASE, EMAG, ENEG>,
);

} // verus!
