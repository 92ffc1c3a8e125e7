//! IEEE-754 binary64 and binary32 values, carried as their bit patterns.
//!
//! The crate stores every floating-point quantity (timestamps, clock offsets,
//! sampling rates, the file version) as the `u64` or `u32` bit pattern of the
//! corresponding IEEE-754 value, little-endian as it appears on disk.
//! Classification and ordering of such values are plain integer logic on the
//! bit pattern and are verified here.  Rounded arithmetic is delegated to the
//! `rustc_apfloat` soft-float library behind trusted wrappers; each operation
//! is a pure function of its operand bits and is named by an uninterpreted
//! spec function.

use rustc_apfloat::Float;
use vstd::prelude::*;

verus! {

/// Bit pattern of `1.0` in IEEE-754 binary64.
pub const F64_ONE_BITS: u64 = 0x3ff0_0000_0000_0000;

/// Bit pattern of `+0.0` in IEEE-754 binary64.
pub const F64_ZERO_BITS: u64 = 0;

/// Magnitude (everything but the sign bit) of a binary64 bit pattern.
pub open spec fn f64_mag(b: u64) -> u64 {
    b & 0x7fff_ffff_ffff_ffff
}

/// Sign bit of a binary64 bit pattern.
pub open spec fn f64_sign(b: u64) -> bool {
    b >> 63 == 1
}

/// Biased exponent field of a binary64 bit pattern.
pub open spec fn f64_exp(b: u64) -> u64 {
    (b >> 52) & 0x7ff
}

/// Fraction field of a binary64 bit pattern.
pub open spec fn f64_frac(b: u64) -> u64 {
    b & 0xf_ffff_ffff_ffff
}

/// A binary64 bit pattern denotes NaN when the exponent field is all ones and
/// the fraction is non-zero.
pub open spec fn f64_is_nan(b: u64) -> bool {
    f64_exp(b) == 0x7ff && f64_frac(b) != 0
}

/// A binary64 bit pattern denotes a finite number (neither NaN nor infinite)
/// when the exponent field is not all ones.
pub open spec fn f64_is_finite(b: u64) -> bool {
    f64_exp(b) != 0x7ff
}

/// Order-preserving integer key of a non-NaN binary64 bit pattern: the
/// magnitude, negated for negative values.  For non-NaN values `a` and `b`,
/// `a < b` as floating-point numbers exactly when `f64_key(a) < f64_key(b)`,
/// and `-0.0` and `+0.0` share the key `0`.
pub open spec fn f64_key(b: u64) -> int {
    if f64_sign(b) {
        -(f64_mag(b) as int)
    } else {
        f64_mag(b) as int
    }
}

/// IEEE-754 `<` on bit patterns: false whenever either side is NaN.
pub open spec fn f64_lt(a: u64, b: u64) -> bool {
    !f64_is_nan(a) && !f64_is_nan(b) && f64_key(a) < f64_key(b)
}

/// IEEE-754 `<=` on bit patterns: false whenever either side is NaN.
pub open spec fn f64_le(a: u64, b: u64) -> bool {
    !f64_is_nan(a) && !f64_is_nan(b) && f64_key(a) <= f64_key(b)
}

/// Decides whether a binary64 bit pattern denotes NaN.
pub fn fp64_is_nan(b: u64) -> (r: bool)
    ensures
        r == f64_is_nan(b),
{
    (b >> 52) & 0x7ff == 0x7ff && b & 0xf_ffff_ffff_ffff != 0
}

/// Decides whether a binary64 bit pattern denotes a finite number.
pub fn fp64_is_finite(b: u64) -> (r: bool)
    ensures
        r == f64_is_finite(b),
{
    (b >> 52) & 0x7ff != 0x7ff
}

/// Decides IEEE-754 `<` on binary64 bit patterns.
pub fn fp64_lt(a: u64, b: u64) -> (r: bool)
    ensures
        r == f64_lt(a, b),
{
    proof {
        assert(a >> 63 == 0 || a >> 63 == 1) by (bit_vector);
        assert(b >> 63 == 0 || b >> 63 == 1) by (bit_vector);
    }
    if fp64_is_nan(a) || fp64_is_nan(b) {
        false
    } else {
        let sa = a >> 63;
        let sb = b >> 63;
        let ma = a & 0x7fff_ffff_ffff_ffff;
        let mb = b & 0x7fff_ffff_ffff_ffff;
        if sa != sb {
            sa == 1 && !(ma == 0 && mb == 0)
        } else if sa == 0 {
            ma < mb
        } else {
            mb < ma
        }
    }
}

/// Decides IEEE-754 `<=` on binary64 bit patterns.
pub fn fp64_le(a: u64, b: u64) -> (r: bool)
    ensures
        r == f64_le(a, b),
{
    proof {
        assert(a >> 63 == 0 || a >> 63 == 1) by (bit_vector);
        assert(b >> 63 == 0 || b >> 63 == 1) by (bit_vector);
    }
    if fp64_is_nan(a) || fp64_is_nan(b) {
        false
    } else {
        let sa = a >> 63;
        let sb = b >> 63;
        let ma = a & 0x7fff_ffff_ffff_ffff;
        let mb = b & 0x7fff_ffff_ffff_ffff;
        if sa != sb {
            sa == 1 || (ma == 0 && mb == 0)
        } else if sa == 0 {
            ma <= mb
        } else {
            mb <= ma
        }
    }
}

/// Result bits of IEEE-754 binary64 addition, round to nearest, ties to even.
pub uninterp spec fn spec_fp64_add(a: u64, b: u64) -> u64;

/// Result bits of IEEE-754 binary64 subtraction, round to nearest, ties to even.
pub uninterp spec fn spec_fp64_sub(a: u64, b: u64) -> u64;

/// Result bits of IEEE-754 binary64 multiplication, round to nearest, ties to even.
pub uninterp spec fn spec_fp64_mul(a: u64, b: u64) -> u64;

/// Result bits of IEEE-754 binary64 division, round to nearest, ties to even.
pub uninterp spec fn spec_fp64_div(a: u64, b: u64) -> u64;

/// Result bits of converting an unsigned integer to binary64, round to
/// nearest, ties to even.
pub uninterp spec fn spec_fp64_of_uint(n: u64) -> u64;

/// Result of parsing a decimal string as a binary64 value, round to nearest,
/// ties to even; `None` when the string is not a valid number.
pub uninterp spec fn spec_fp64_of_dec(s: Seq<char>) -> Option<u64>;

/// Result of parsing a decimal string as a binary32 value, round to nearest,
/// ties to even; `None` when the string is not a valid number.
pub uninterp spec fn spec_fp32_of_dec(s: Seq<char>) -> Option<u32>;

/// Relies on `rustc_apfloat::ieee::Double`'s `Add`: IEEE-754 binary64
/// addition, round to nearest ties to even, a function of the operand bits
/// alone.
#[verifier::external_body]
pub fn fp64_add(a: u64, b: u64) -> (r: u64)
    ensures
        r == spec_fp64_add(a, b),
{
    let x = rustc_apfloat::ieee::Double::from_bits(a as u128);
    let y = rustc_apfloat::ieee::Double::from_bits(b as u128);
    (x + y).value.to_bits() as u64
}

/// Relies on `rustc_apfloat::ieee::Double`'s `Sub`: IEEE-754 binary64
/// subtraction, round to nearest ties to even, a function of the operand bits
/// alone.  IEEE-754 further gives `x - x == +0.0` and `x - (+0.0) == x` for
/// every finite `x` under this rounding mode.
#[verifier::external_body]
pub fn fp64_sub(a: u64, b: u64) -> (r: u64)
    ensures
        r == spec_fp64_sub(a, b),
        a == b && f64_is_finite(a) ==> r == F64_ZERO_BITS,
        b == F64_ZERO_BITS && f64_is_finite(a) ==> r == a,
{
    let x = rustc_apfloat::ieee::Double::from_bits(a as u128);
    let y = rustc_apfloat::ieee::Double::from_bits(b as u128);
    (x - y).value.to_bits() as u64
}

/// Relies on `rustc_apfloat::ieee::Double`'s `Mul`: IEEE-754 binary64
/// multiplication, round to nearest ties to even, a function of the operand
/// bits alone.
#[verifier::external_body]
pub fn fp64_mul(a: u64, b: u64) -> (r: u64)
    ensures
        r == spec_fp64_mul(a, b),
{
    let x = rustc_apfloat::ieee::Double::from_bits(a as u128);
    let y = rustc_apfloat::ieee::Double::from_bits(b as u128);
    (x * y).value.to_bits() as u64
}

/// Relies on `rustc_apfloat::ieee::Double`'s `Div`: IEEE-754 binary64
/// division, round to nearest ties to even, a function of the operand bits
/// alone.
#[verifier::external_body]
pub fn fp64_div(a: u64, b: u64) -> (r: u64)
    ensures
        r == spec_fp64_div(a, b),
{
    let x = rustc_apfloat::ieee::Double::from_bits(a as u128);
    let y = rustc_apfloat::ieee::Double::from_bits(b as u128);
    (x / y).value.to_bits() as u64
}

/// Relies on `rustc_apfloat::Float::from_u128`: conversion of an unsigned
/// integer to the nearest binary64 value, a function of the integer alone.
#[verifier::external_body]
pub fn fp64_of_uint(n: u64) -> (r: u64)
    ensures
        r == spec_fp64_of_uint(n),
{
    rustc_apfloat::ieee::Double::from_u128(n as u128).value.to_bits() as u64
}

/// Relies on `rustc_apfloat::ieee::Double`'s `FromStr`: correctly rounded
/// decimal-to-binary64 conversion, a function of the string alone.
#[verifier::external_body]
pub fn fp64_of_dec(s: &str) -> (r: Option<u64>)
    ensures
        r == spec_fp64_of_dec(s@),
{
    match s.parse::<rustc_apfloat::ieee::Double>() {
        Ok(d) => Some(d.to_bits() as u64),
        Err(_) => None,
    }
}

/// Relies on `rustc_apfloat::ieee::Single`'s `FromStr`: correctly rounded
/// decimal-to-binary32 conversion, a function of the string alone.
#[verifier::external_body]
pub fn fp32_of_dec(s: &str) -> (r: Option<u32>)
    ensures
        r == spec_fp32_of_dec(s@),
{
    match s.parse::<rustc_apfloat::ieee::Single>() {
        Ok(d) => Some(d.to_bits() as u32),
        Err(_) => None,
    }
}

} // verus!
