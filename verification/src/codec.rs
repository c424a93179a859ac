//! Byte-level encoding of the flattened value forms.
//!
//! The storage layout of a flattened value is the underlying integer in
//! two's complement, little-endian, followed by one base byte and one
//! exponent byte.  Encoding and decoding are defined here over the byte
//! sequences themselves, with decoding re-checking nothing — every byte
//! pattern of the right length denotes a value — so that the scale check
//! stays where it belongs, in the typed conversion.

use crate::value::{FixU64, FixValue};
use vstd::arithmetic::div_mod::{
    lemma_breakdown, lemma_fundamental_div_mod_converse_mod, lemma_mod_add_multiples_vanish,
    lemma_mod_multiples_basic, lemma_small_mod,
};
use vstd::arithmetic::power2::lemma_pow2_strictly_increases;
use vstd::arithmetic::power2::{lemma2_to64, lemma2_to64_rest, lemma_pow2_adds, lemma_pow2_pos, pow2};
use crate::bits::FixBits;
use vstd::prelude::*;

verus! {

/// The low `n` bytes of `m`, little-endian.
pub open spec fn le_of(m: nat, n: nat) -> Seq<u8>
    decreases n,
{
    if n == 0 {
        Seq::empty()
    } else {
        seq![(m % 256) as u8] + le_of(m / 256, (n - 1) as nat)
    }
}

/// The number whose little-endian bytes are `s`.
pub open spec fn nat_of_le(s: Seq<u8>) -> nat
    decreases s.len(),
{
    if s.len() == 0 {
        0
    } else {
        (s[0] + 256 * nat_of_le(s.subrange(1, s.len() as int))) as nat
    }
}

/// The signed reading of little-endian bytes: two's complement when the
/// type is signed and the highest bit is set.
pub open spec fn int_of_le(s: Seq<u8>, signed: bool) -> int {
    let m = nat_of_le(s);
    if signed && 2 * m >= pow2(8 * s.len()) {
        m - pow2(8 * s.len())
    } else {
        m as int
    }
}

/// The two's-complement representative of `v` in the widest intermediate.
pub open spec fn tc128(v: int) -> nat {
    (v % (pow2(128) as int)) as nat
}

/// Reading back the bytes of `m` yields `m` reduced to those bytes.
pub proof fn lemma_le_of_inverse(m: nat, n: nat)
    ensures
        nat_of_le(le_of(m, n)) == m % pow2(8 * n),
    decreases n,
{
    lemma2_to64();
    if n == 0 {
        lemma_mod_multiples_basic(m as int, 1);
    } else {
        lemma_le_of_inverse(m / 256, (n - 1) as nat);
        let s = le_of(m, n);
        assert(s.subrange(1, s.len() as int) =~= le_of(m / 256, (n - 1) as nat));
        lemma_pow2_adds(8, 8 * (n - 1) as nat);
        lemma_pow2_pos(8 * (n - 1) as nat);
        lemma_breakdown(m as int, 256, pow2(8 * (n - 1) as nat) as int);
    }
}

/// Little-endian bytes denote less than the corresponding power of two.
pub proof fn lemma_nat_of_le_bound(s: Seq<u8>)
    ensures
        nat_of_le(s) < pow2(8 * s.len()),
    decreases s.len(),
{
    lemma2_to64();
    if s.len() > 0 {
        lemma_nat_of_le_bound(s.subrange(1, s.len() as int));
        lemma_pow2_adds(8, 8 * (s.len() - 1) as nat);
    }
}


/// Law: decoding the bytes of a value returns the value.  Reading back the
/// two's-complement little-endian bytes of `v`, signed as `v`'s type is,
/// yields `v` again whenever `v` lies in that width's range — so the byte
/// layout loses nothing.
pub proof fn lemma_codec_round_trip(v: int, n: nat, signed: bool)
    requires
        1 <= n <= 16,
        signed ==> -(pow2((8 * n - 1) as nat) as int) <= v < pow2((8 * n - 1) as nat),
        !signed ==> 0 <= v < pow2(8 * n),
    ensures
        int_of_le(le_of(tc128(v), n), signed) == v,
{
    lemma2_to64();
    lemma_le_of_inverse(tc128(v), n);
    lemma_pow2_wide_vals();
    lemma_pow2_pos((8 * n) as nat);
    lemma_pow2_adds((8 * n) as nat, (128 - 8 * n) as nat);
    lemma_pow2_pos((128 - 8 * n) as nat);
    vstd::arithmetic::div_mod::lemma_mod_mod(
        v,
        pow2((8 * n) as nat) as int,
        pow2((128 - 8 * n) as nat) as int,
    );
    vstd::arithmetic::div_mod::lemma_mod_division_less_than_divisor(v, pow2(128) as int);
    if signed {
        lemma_pow2_adds((8 * n - 1) as nat, 1);
    }
    if v >= 0 {
        lemma_small_mod(v as nat, pow2((8 * n) as nat));
    } else {
        lemma_fundamental_div_mod_converse_mod(
            v,
            pow2((8 * n) as nat) as int,
            -1,
            v + pow2((8 * n) as nat),
        );
    }
    assert(le_of(tc128(v), n).len() == n) by {
        lemma_le_of_len(tc128(v), n);
    }
}

/// The byte string of `m` over `n` bytes has length `n`.
pub proof fn lemma_le_of_len(m: nat, n: nat)
    ensures
        le_of(m, n).len() == n,
    decreases n,
{
    if n > 0 {
        lemma_le_of_len(m / 256, (n - 1) as nat);
    }
}

/// An integer of a fixed byte width, encodable in the storage layout.
///
/// The width and the signedness tie the type's range to its bytes: the
/// range is exactly what two's complement of that width can hold.
pub trait FixBytes: FixBits {
    /// The number of bytes of the type.
    spec fn byte_len_spec() -> nat;

    /// Whether the type is signed.
    spec fn signed_spec() -> bool;

    /// The type's range is exactly that of its width and signedness.
    proof fn lemma_width()
        ensures
            Self::signed_spec() == (Self::min_val() < 0),
            1 <= Self::byte_len_spec() <= 16,
            Self::signed_spec() ==> Self::min_val() == -(pow2((8 * Self::byte_len_spec() - 1) as nat) as int),
            Self::signed_spec() ==> Self::max_val() == pow2((8 * Self::byte_len_spec() - 1) as nat) - 1,
            !Self::signed_spec() ==> Self::min_val() == 0,
            !Self::signed_spec() ==> Self::max_val() == pow2(8 * Self::byte_len_spec()) - 1,
    ;

    /// The number of bytes of the type.
    fn byte_len() -> (r: usize)
        ensures
            r == Self::byte_len_spec(),
    ;

    /// Whether the type is signed.
    fn signed() -> (r: bool)
        ensures
            r == Self::signed_spec(),
    ;
}

impl FixBytes for u8 {
    open spec fn byte_len_spec() -> nat {
        1
    }

    open spec fn signed_spec() -> bool {
        false
    }

    proof fn lemma_width() {
        lemma2_to64();
        lemma2_to64_rest();
    }

    fn byte_len() -> (r: usize) {
        1
    }

    fn signed() -> (r: bool) {
        false
    }
}

impl FixBytes for u16 {
    open spec fn byte_len_spec() -> nat {
        2
    }

    open spec fn signed_spec() -> bool {
        false
    }

    proof fn lemma_width() {
        lemma2_to64();
        lemma2_to64_rest();
    }

    fn byte_len() -> (r: usize) {
        2
    }

    fn signed() -> (r: bool) {
        false
    }
}

impl FixBytes for u32 {
    open spec fn byte_len_spec() -> nat {
        4
    }

    open spec fn signed_spec() -> bool {
        false
    }

    proof fn lemma_width() {
        lemma2_to64();
        lemma2_to64_rest();
    }

    fn byte_len() -> (r: usize) {
        4
    }

    fn signed() -> (r: bool) {
        false
    }
}

impl FixBytes for u64 {
    open spec fn byte_len_spec() -> nat {
        8
    }

    open spec fn signed_spec() -> bool {
        false
    }

    proof fn lemma_width() {
        lemma2_to64();
        lemma2_to64_rest();
    }

    fn byte_len() -> (r: usize) {
        8
    }

    fn signed() -> (r: bool) {
        false
    }
}

impl FixBytes for u128 {
    open spec fn byte_len_spec() -> nat {
        16
    }

    open spec fn signed_spec() -> bool {
        false
    }

    proof fn lemma_width() {
        lemma2_to64();
        lemma2_to64_rest();
        lemma_pow2_adds(64, 63);
        lemma_pow2_adds(64, 64);
    }

    fn byte_len() -> (r: usize) {
        16
    }

    fn signed() -> (r: bool) {
        false
    }
}

impl FixBytes for i8 {
    open spec fn byte_len_spec() -> nat {
        1
    }

    open spec fn signed_spec() -> bool {
        true
    }

    proof fn lemma_width() {
        lemma2_to64();
        lemma2_to64_rest();
    }

    fn byte_len() -> (r: usize) {
        1
    }

    fn signed() -> (r: bool) {
        true
    }
}

impl FixBytes for i16 {
    open spec fn byte_len_spec() -> nat {
        2
    }

    open spec fn signed_spec() -> bool {
        true
    }

    proof fn lemma_width() {
        lemma2_to64();
        lemma2_to64_rest();
    }

    fn byte_len() -> (r: usize) {
        2
    }

    fn signed() -> (r: bool) {
        true
    }
}

impl FixBytes for i32 {
    open spec fn byte_len_spec() -> nat {
        4
    }

    open spec fn signed_spec() -> bool {
        true
    }

    proof fn lemma_width() {
        lemma2_to64();
        lemma2_to64_rest();
    }

    fn byte_len() -> (r: usize) {
        4
    }

    fn signed() -> (r: bool) {
        true
    }
}

impl FixBytes for i64 {
    open spec fn byte_len_spec() -> nat {
        8
    }

    open spec fn signed_spec() -> bool {
        true
    }

    proof fn lemma_width() {
        lemma2_to64();
        lemma2_to64_rest();
    }

    fn byte_len() -> (r: usize) {
        8
    }

    fn signed() -> (r: bool) {
        true
    }
}

impl FixBytes for i128 {
    open spec fn byte_len_spec() -> nat {
        16
    }

    open spec fn signed_spec() -> bool {
        true
    }

    proof fn lemma_width() {
        lemma2_to64();
        lemma2_to64_rest();
        lemma_pow2_adds(64, 63);
        lemma_pow2_adds(64, 64);
    }

    fn byte_len() -> (r: usize) {
        16
    }

    fn signed() -> (r: bool) {
        true
    }
}

/// The values of the two widest powers the codec touches.
pub proof fn lemma_pow2_wide_vals()
    ensures
        pow2(128) == 0x100000000000000000000000000000000,
        pow2(127) == 0x80000000000000000000000000000000,
{
    lemma2_to64();
    lemma2_to64_rest();
    lemma_pow2_adds(64, 64);
    lemma_pow2_adds(64, 63);
    assert(pow2(128) == 0x100000000000000000000000000000000 && pow2(127)
        == 0x80000000000000000000000000000000) by (nonlinear_arith)
        requires
            pow2(128) == pow2(64) * pow2(64),
            pow2(127) == pow2(64) * pow2(63),
            pow2(64) == 0x10000000000000000,
            pow2(63) == 0x8000000000000000,
    ;
}

/// Powers of two never decrease with the exponent.
pub proof fn lemma_pow2_le(e1: nat, e2: nat)
    requires
        e1 <= e2,
    ensures
        pow2(e1) <= pow2(e2),
{
    if e1 < e2 {
        lemma_pow2_strictly_increases(e1, e2);
    }
}

/// Two to a small power, as a wide machine integer.
fn pow2_u128(k: u32) -> (r: u128)
    requires
        k <= 127,
    ensures
        r == pow2(k as nat),
{
    proof {
        lemma2_to64();
        lemma2_to64_rest();
        lemma_pow2_adds(64, 63);
    }
    let mut r: u128 = 1;
    let mut j: u32 = 0;
    while j < k
        invariant
            j <= k,
            k <= 127,
            r == pow2(j as nat),
        decreases k - j,
    {
        proof {
            lemma2_to64();
            lemma_pow2_wide_vals();
            lemma_pow2_adds(j as nat, 1);
            lemma_pow2_le((j + 1) as nat, 127);
        }
        r = r * 2;
        j = j + 1;
    }
    r
}

impl<Bits: FixBytes> FixValue<Bits> {
    /// The storage bytes of this value: the underlying integer in two's
    /// complement, little-endian, then the base byte, then the exponent
    /// byte.
    pub fn to_bytes(&self) -> (r: Vec<u8>)
        ensures
            r@ == le_of(tc128(self.bits.val()), Bits::byte_len_spec()) + seq![self.base] + seq![
                (((self.exp as int) % 256) as u8),
            ],
            r@.len() == Bits::byte_len_spec() + 2,
    {
        proof {
            lemma2_to64();
            lemma2_to64_rest();
            lemma_pow2_adds(64, 64);
            self.bits.lemma_in_range();
            Bits::lemma_width();
        }
        let (mag, negb) = self.bits.to_wide();
        let t_start: u128 = if negb {
            (u128::MAX - mag) + 1
        } else {
            mag
        };
        proof {
            if negb {
                lemma_fundamental_div_mod_converse_mod(
                    self.bits.val(),
                    pow2(128) as int,
                    -1,
                    t_start as int,
                );
            } else {
                lemma_small_mod(self.bits.val() as nat, pow2(128));
            }
        }
        let n = Bits::byte_len();
        let mut out: Vec<u8> = Vec::new();
        let mut t: u128 = t_start;
        let mut i: usize = 0;
        while i < n
            invariant
                i <= n,
                n == Bits::byte_len_spec(),
                out@.len() == i,
                out@ + le_of(t as nat, (n - i) as nat) == le_of(t_start as nat, n as nat),
            decreases n - i,
        {
            let b: u8 = (t % 256) as u8;
            proof {
                assert(out@.push(b) + le_of((t / 256) as nat, (n - i - 1) as nat) =~= out@
                    + le_of(t as nat, (n - i) as nat));
            }
            out.push(b);
            t = t / 256;
            i = i + 1;
        }
        proof {
            assert(out@ + le_of(t as nat, 0) =~= out@);
        }
        out.push(self.base);
        let eb: u8 = if self.exp >= 0 {
            self.exp as u8
        } else {
            ((self.exp as i16) + 256) as u8
        };
        proof {
            if self.exp < 0 {
                lemma_mod_add_multiples_vanish(self.exp as int, 256);
                lemma_small_mod((self.exp + 256) as nat, 256);
            } else {
                lemma_small_mod(self.exp as nat, 256);
            }
        }
        out.push(eb);
        proof {
            assert(out@ =~= le_of(tc128(self.bits.val()), Bits::byte_len_spec()) + seq![self.base]
                + seq![(((self.exp as int) % 256) as u8)]);
        }
        out
    }

    /// The declared storage size of this flattened form: the width of the
    /// integer field plus one byte each for the base and the exponent.
    pub fn declared_size() -> (r: usize)
        ensures
            r == Bits::byte_len_spec() + 2,
    {
        proof {
            Bits::lemma_width();
        }
        Bits::byte_len() + 2
    }

    /// The value whose storage bytes these are, absent exactly when the
    /// length is not the layout's.  Every byte pattern of the right length
    /// denotes a value; checking the scale is the typed conversion's job.
    pub fn from_bytes(bytes: &[u8]) -> (r: Option<FixValue<Bits>>)
        ensures
            r is Some <==> bytes@.len() == Bits::byte_len_spec() + 2,
            r matches Some(v) ==> ({
                &&& v.bits.val() == int_of_le(
                    bytes@.subrange(0, Bits::byte_len_spec() as int),
                    Bits::signed_spec(),
                )
                &&& v.base == bytes@[Bits::byte_len_spec() as int]
                &&& v.exp == ({
                    let b = bytes@[Bits::byte_len_spec() as int + 1];
                    if b >= 128 {
                        b - 256
                    } else {
                        b as int
                    }
                })
            }),
    {
        proof {
            Bits::lemma_width();
            lemma2_to64();
            lemma2_to64_rest();
            lemma_pow2_adds(64, 64);
        }
        let n = Bits::byte_len();
        if bytes.len() != n + 2 {
            return None;
        }
        let ghost prefix = bytes@.subrange(0, n as int);
        let mut m: u128 = 0;
        let mut j: usize = n;
        while j > 0
            invariant
                j <= n,
                n == Bits::byte_len_spec(),
                n <= 16,
                bytes@.len() == n + 2,
                m == nat_of_le(bytes@.subrange(j as int, n as int)),
            decreases j,
        {
            proof {
                let tail = bytes@.subrange((j - 1) as int, n as int);
                assert(tail.subrange(1, tail.len() as int) =~= bytes@.subrange(
                    j as int,
                    n as int,
                ));
                lemma_nat_of_le_bound(tail);
                lemma_pow2_wide_vals();
                lemma_pow2_le((8 * (n - j + 1)) as nat, 128);
            }
            m = m * 256 + (bytes[j - 1] as u128);
            j = j - 1;
        }
        proof {
            assert(bytes@.subrange(0, n as int) =~= prefix);
            lemma_nat_of_le_bound(prefix);
            lemma_pow2_le((8 * n) as nat, 128);
        }
        let signed = Bits::signed();
        let bits_v: Bits;
        if signed {
            let half = pow2_u128(8 * (n as u32) - 1);
            proof {
                lemma_pow2_adds((8 * n - 1) as nat, 1);
            }
            if m >= half {
                let mg = half - (m - half);
                bits_v = Bits::from_wide(mg, true).unwrap();
            } else {
                bits_v = Bits::from_wide(m, false).unwrap();
            }
        } else {
            bits_v = Bits::from_wide(m, false).unwrap();
        }
        let base_b = bytes[n];
        let e_raw = bytes[n + 1];
        let exp_v: i8 = if e_raw >= 128 {
            ((e_raw as i16) - 256) as i8
        } else {
            e_raw as i8
        };
        Some(FixValue { bits: bits_v, base: base_b, exp: exp_v })
    }
}

impl FixU64 {
    /// The storage bytes of this value, laid out as a flattened value's.
    pub fn to_bytes(&self) -> (r: Vec<u8>)
        ensures
            r@ == le_of(self.bits as nat, 8) + seq![self.base] + seq![
                (((self.exp as int) % 256) as u8),
            ],
            r@.len() == 10,
    {
        proof {
            lemma2_to64();
            lemma2_to64_rest();
            lemma_pow2_adds(64, 64);
            lemma_small_mod(self.bits as nat, pow2(128));
        }
        FixValue::new(self.bits, self.base, self.exp).to_bytes()
    }

    /// The declared storage size of this flattened form.
    pub fn declared_size() -> (r: usize)
        ensures
            r == 10,
    {
        10
    }

    /// The value whose storage bytes these are, absent exactly when the
    /// length is not the layout's.
    pub fn from_bytes(bytes: &[u8]) -> (r: Option<FixU64>)
        ensures
            r is Some <==> bytes@.len() == 10,
            r matches Some(v) ==> ({
                &&& v.bits == nat_of_le(bytes@.subrange(0, 8))
                &&& v.base == bytes@[8]
                &&& v.exp == ({
                    let b = bytes@[9];
                    if b >= 128 {
                        b - 256
                    } else {
                        b as int
                    }
                })
            }),
    {
        match FixValue::<u64>::from_bytes(bytes) {
            Some(v) => Some(FixU64::new(v.bits, v.base, v.exp)),
            None => None,
        }
    }
}

} // verus!
