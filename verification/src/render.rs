//! Verified decimal rendering of the scale and the value.
//!
//! `Formatter`-based traits are out of reach of the verifier, so the number's
//! human-readable form — the value, the base and the exponent, as in
//! `42x10^-2` — is built here as a `String` with an exact contract.

use crate::bits::FixBits;
use crate::Fix;
use vstd::math::abs;
use vstd::prelude::*;
use vstd::string::StringExecFns;

verus! {

/// The decimal digit character for `d`, meaningful for `d < 10`.
pub open spec fn digit_char(d: nat) -> char {
    if d == 0 {
        '0'
    } else if d == 1 {
        '1'
    } else if d == 2 {
        '2'
    } else if d == 3 {
        '3'
    } else if d == 4 {
        '4'
    } else if d == 5 {
        '5'
    } else if d == 6 {
        '6'
    } else if d == 7 {
        '7'
    } else if d == 8 {
        '8'
    } else {
        '9'
    }
}

/// The decimal digits of `n`, most significant first.
pub open spec fn dec_str(n: nat) -> Seq<char>
    decreases n,
{
    if n < 10 {
        seq![digit_char(n)]
    } else {
        dec_str(n / 10) + seq![digit_char(n % 10)]
    }
}

/// One decimal digit as a string slice.
fn digit_str(d: u8) -> (s: &'static str)
    requires
        d < 10,
    ensures
        s@ == seq![digit_char(d as nat)],
{
    proof {
        reveal_strlit("0");
        reveal_strlit("1");
        reveal_strlit("2");
        reveal_strlit("3");
        reveal_strlit("4");
        reveal_strlit("5");
        reveal_strlit("6");
        reveal_strlit("7");
        reveal_strlit("8");
        reveal_strlit("9");
    }
    if d == 0 {
        "0"
    } else if d == 1 {
        "1"
    } else if d == 2 {
        "2"
    } else if d == 3 {
        "3"
    } else if d == 4 {
        "4"
    } else if d == 5 {
        "5"
    } else if d == 6 {
        "6"
    } else if d == 7 {
        "7"
    } else if d == 8 {
        "8"
    } else {
        "9"
    }
}

/// The decimal rendering of a nonnegative number.
pub fn dec_string(n: u128) -> (s: String)
    ensures
        s@ == dec_str(n as nat),
    decreases n,
{
    if n < 10 {
        String::from_str(digit_str(n as u8))
    } else {
        let mut s = dec_string(n / 10);
        s.append(digit_str((n % 10) as u8));
        s
    }
}

impl<Bits: FixBits, const BASE: u64, const EMAG: u64, const ENEG: bool> Fix<
    Bits,
    BASE,
    EMAG,
    ENEG,
> {
    /// The number with its scale, as in `42x10^-2`: the underlying
    /// integer, then the base and the exponent read off the compile-time
    /// markers at render time.
    pub fn describe(&self) -> (s: String)
        ensures
            s@ == (if self.val() < 0 {
                seq!['-']
            } else {
                Seq::<char>::empty()
            }) + dec_str(abs(self.val())) + seq!['x'] + dec_str(BASE as nat) + seq!['^'] + (
            if Self::exponent() < 0 {
                seq!['-']
            } else {
                Seq::<char>::empty()
            }) + dec_str(abs(Self::exponent())),
    {
        proof {
            reveal_strlit("-");
            reveal_strlit("x");
            reveal_strlit("^");
        }
        let (mag, negb) = self.bits.to_wide();
        let mut s = if negb {
            String::from_str("-")
        } else {
            String::new()
        };
        let dv = dec_string(mag);
        s.append(dv.as_str());
        s.append("x");
        let db = dec_string(BASE as u128);
        s.append(db.as_str());
        s.append("^");
        if ENEG && EMAG > 0 {
            s.append("-");
        }
        let de = dec_string(EMAG as u128);
        s.append(de.as_str());
        s
    }
}

} // verus!
