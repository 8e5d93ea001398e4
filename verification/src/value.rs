use vstd::prelude::*;

use rustc_apfloat::Float;
use rustc_apfloat::ieee::Double;

verus! {

/// A runtime value is an IEEE-754 double, carried as its bit pattern.
/// Everything the toolchain decides on (zero tests, sign handling) is a
/// function of the bits; the arithmetic itself goes through the software
/// float implementation of `rustc_apfloat`.
pub type Value = u64;

/// Bit pattern of the double `+0.0`.
pub const POS_ZERO_BITS: Value = 0x0000_0000_0000_0000;

/// Bit pattern of the double `-0.0`.
pub const NEG_ZERO_BITS: Value = 0x8000_0000_0000_0000;

/// Bit pattern of the double `1.0`, the truth value the comparison
/// instructions push.
pub const TRUE_BITS: Value = 0x3ff0_0000_0000_0000;

/// Bit pattern of the double `0.0`, the falsehood value the comparison
/// instructions push.
pub const FALSE_BITS: Value = 0x0000_0000_0000_0000;

/// `cmp_bits` result: the left double orders below the right one.
pub const CMP_LT: u8 = 0;

/// `cmp_bits` result: the two doubles compare equal.
pub const CMP_EQ: u8 = 1;

/// `cmp_bits` result: the left double orders above the right one.
pub const CMP_GT: u8 = 2;

/// A double compares equal to `0.0` exactly when its bits are one of the
/// two zeros (`+0.0` or `-0.0`); every other pattern, `NaN` included, does
/// not.
pub open spec fn spec_is_zero(v: Value) -> bool {
    v == POS_ZERO_BITS || v == NEG_ZERO_BITS
}

pub fn is_zero(v: Value) -> (r: bool)
    ensures
        r == spec_is_zero(v),
{
    v == POS_ZERO_BITS || v == NEG_ZERO_BITS
}

/// IEEE-754 negation flips the sign bit and leaves the rest of the pattern
/// unchanged.
pub open spec fn spec_negate(v: Value) -> Value {
    v ^ NEG_ZERO_BITS
}

pub fn negate(v: Value) -> (r: Value)
    ensures
        r == spec_negate(v),
{
    v ^ NEG_ZERO_BITS
}

/// IEEE-754 absolute value clears the sign bit and leaves the rest of the
/// pattern unchanged.
pub open spec fn spec_abs(v: Value) -> Value {
    v & 0x7fff_ffff_ffff_ffff
}

pub fn abs(v: Value) -> (r: Value)
    ensures
        r == spec_abs(v),
{
    v & 0x7fff_ffff_ffff_ffff
}

/// The bit pattern of the IEEE-754 sum of the doubles with bit patterns
/// `a` and `b`, rounded to nearest even.
pub uninterp spec fn add_bits(a: Value, b: Value) -> Value;

/// Relies on `rustc_apfloat`'s double addition: the sum of two doubles is
/// a function of their bit patterns alone.
#[verifier::external_body]
pub(crate) fn value_add(a: Value, b: Value) -> (r: Value)
    ensures
        r == add_bits(a, b),
{
    (Double::from_bits(a as u128) + Double::from_bits(b as u128)).value.to_bits() as u64
}

/// The bit pattern of the IEEE-754 difference of the doubles with bit
/// patterns `a` and `b`, rounded to nearest even.
pub uninterp spec fn sub_bits(a: Value, b: Value) -> Value;

/// Relies on `rustc_apfloat`'s double subtraction: the difference of two
/// doubles is a function of their bit patterns alone.
#[verifier::external_body]
pub(crate) fn value_sub(a: Value, b: Value) -> (r: Value)
    ensures
        r == sub_bits(a, b),
{
    (Double::from_bits(a as u128) - Double::from_bits(b as u128)).value.to_bits() as u64
}

/// The bit pattern of the IEEE-754 product of the doubles with bit
/// patterns `a` and `b`, rounded to nearest even.
pub uninterp spec fn mul_bits(a: Value, b: Value) -> Value;

/// Relies on `rustc_apfloat`'s double multiplication: the product of two
/// doubles is a function of their bit patterns alone.
#[verifier::external_body]
pub(crate) fn value_mul(a: Value, b: Value) -> (r: Value)
    ensures
        r == mul_bits(a, b),
{
    (Double::from_bits(a as u128) * Double::from_bits(b as u128)).value.to_bits() as u64
}

/// The bit pattern of the IEEE-754 quotient of the doubles with bit
/// patterns `a` and `b`, rounded to nearest even.
pub uninterp spec fn div_bits(a: Value, b: Value) -> Value;

/// Relies on `rustc_apfloat`'s double division: the quotient of two
/// doubles is a function of their bit patterns alone.
#[verifier::external_body]
pub(crate) fn value_div(a: Value, b: Value) -> (r: Value)
    ensures
        r == div_bits(a, b),
{
    (Double::from_bits(a as u128) / Double::from_bits(b as u128)).value.to_bits() as u64
}

/// How the doubles with bit patterns `a` and `b` compare under the IEEE-754
/// partial order: `None` when unordered (a `NaN` on either side), otherwise
/// one of `CMP_LT`, `CMP_EQ`, `CMP_GT`.
pub uninterp spec fn cmp_bits(a: Value, b: Value) -> Option<u8>;

/// Relies on `rustc_apfloat`'s double comparison (`partial_cmp`): how two
/// doubles order is a function of their bit patterns alone.
#[verifier::external_body]
pub(crate) fn value_cmp(a: Value, b: Value) -> (r: Option<u8>)
    ensures
        r == cmp_bits(a, b),
{
    match Double::from_bits(a as u128).partial_cmp(&Double::from_bits(b as u128)) {
        Some(core::cmp::Ordering::Less) => Some(0),
        Some(core::cmp::Ordering::Equal) => Some(1),
        Some(core::cmp::Ordering::Greater) => Some(2),
        None => None,
    }
}

/// The double, as a bit pattern, that the decimal literal `s` denotes, or
/// `None` where `s` is not a well-formed literal.
pub uninterp spec fn num_lit_bits(s: Seq<char>) -> Option<Value>;

/// Relies on `rustc_apfloat`'s decimal-to-double conversion (`from_str`,
/// round to nearest even): what a literal denotes is a function of its
/// characters alone.
#[verifier::external_body]
pub(crate) fn parse_num_lit(buf: &Vec<char>) -> (r: Option<Value>)
    ensures
        r == num_lit_bits(buf@),
{
    let s: String = buf.iter().collect();
    match <Double as core::str::FromStr>::from_str(&s) {
        Ok(d) => Some(d.to_bits() as u64),
        Err(_) => None,
    }
}

} // verus!
