use vstd::prelude::*;

use crate::bits::{is_nan_bits, NEG_ZERO_BITS, POS_ZERO_BITS};
use rustc_apfloat::Float;

verus! {

// The four operations below are the only numeric work the library does not
// carry out itself: rounding binary64 addition and division, conversion of
// a count to binary64, and parsing a decimal text. Each is a deterministic
// function of its arguments, performed by rustc_apfloat on raw bit
// patterns, and each result is given a name rather than a definition.

/// The rounded binary64 sum (nearest, ties to even) of the values encoded
/// by two bit patterns.
pub uninterp spec fn add_of(a: u64, b: u64) -> u64;

/// The rounded binary64 quotient (nearest, ties to even) of the values
/// encoded by two bit patterns.
pub uninterp spec fn div_of(a: u64, b: u64) -> u64;

/// The bit pattern of the binary64 value nearest to a count.
pub uninterp spec fn from_count_of(c: u64) -> u64;

/// What parsing a text as a binary64 number yields: the bit pattern of the
/// rounded value, or nothing when the text is not a number.
pub uninterp spec fn parse_of(s: Seq<char>) -> Option<u64>;

/// Relies on rustc_apfloat's binary64 addition (`Double::add_r`, round to
/// nearest, ties to even): the result depends on the two operands alone.
/// By the IEEE-754 rules that addition follows, adding positive zero
/// returns the other operand unchanged whenever that operand is neither a
/// NaN nor negative zero.
#[verifier::external_body]
pub fn add_bits(a: u64, b: u64) -> (r: u64)
    ensures
        r == add_of(a, b),
        b == POS_ZERO_BITS && !is_nan_bits(a) && a != NEG_ZERO_BITS ==> r == a,
{
    let x = rustc_apfloat::ieee::Double::from_bits(a as u128);
    let y = rustc_apfloat::ieee::Double::from_bits(b as u128);
    (x + y).value.to_bits() as u64
}

/// Relies on rustc_apfloat's binary64 division (`Double::div_r`, round to
/// nearest, ties to even): the result depends on the two operands alone.
#[verifier::external_body]
pub fn div_bits(a: u64, b: u64) -> (r: u64)
    ensures
        r == div_of(a, b),
{
    let x = rustc_apfloat::ieee::Double::from_bits(a as u128);
    let y = rustc_apfloat::ieee::Double::from_bits(b as u128);
    (x / y).value.to_bits() as u64
}

/// Relies on rustc_apfloat's integer conversion (`Double::from_u128`,
/// round to nearest, ties to even): the result depends on the count alone.
#[verifier::external_body]
pub fn from_count_bits(c: u64) -> (r: u64)
    ensures
        r == from_count_of(c),
{
    rustc_apfloat::ieee::Double::from_u128(c as u128).value.to_bits() as u64
}

/// Relies on rustc_apfloat's decimal parsing (`Double::from_str_r`, round
/// to nearest, ties to even): the result depends on the text alone.
#[verifier::external_body]
pub fn parse_float_bits(s: &str) -> (r: Option<u64>)
    ensures
        r == parse_of(s@),
{
    match rustc_apfloat::ieee::Double::from_str_r(s, rustc_apfloat::Round::NearestTiesToEven) {
        Ok(sa) => Some(sa.value.to_bits() as u64),
        Err(_) => None,
    }
}

} // verus!
