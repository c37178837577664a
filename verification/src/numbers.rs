//! Arithmetic on language numbers.
//!
//! A language number is an IEEE-754 binary64 value, carried everywhere as its
//! 64-bit pattern. The operations themselves are performed by the
//! `rustc_apfloat` software implementation of IEEE-754 through the trusted
//! wrappers below; each result is named by an uninterpreted spec function of
//! the operand bits, so contracts further up can speak of it exactly.

use vstd::prelude::*;
use core::str::FromStr;
use rustc_apfloat::Float;
use rustc_apfloat::ieee::Double;

verus! {

/// The bits of the IEEE-754 sum of the numbers `a` and `b` denote.
pub uninterp spec fn add_bits(a: u64, b: u64) -> u64;

/// The bits of the IEEE-754 difference of the numbers `a` and `b` denote.
pub uninterp spec fn sub_bits(a: u64, b: u64) -> u64;

/// The bits of the IEEE-754 product of the numbers `a` and `b` denote.
pub uninterp spec fn mul_bits(a: u64, b: u64) -> u64;

/// The bits of the IEEE-754 quotient of the numbers `a` and `b` denote.
pub uninterp spec fn div_bits(a: u64, b: u64) -> u64;

/// The bits of the IEEE-754 negation of the number `a` denotes.
pub uninterp spec fn neg_bits(a: u64) -> u64;

/// Whether the number `a` denotes is IEEE-754 less than the one `b` denotes.
pub uninterp spec fn lt_bits(a: u64, b: u64) -> bool;

/// Whether the numbers `a` and `b` denote are IEEE-754 equal.
pub uninterp spec fn eq_bits(a: u64, b: u64) -> bool;

/// The bits of the binary64 number nearest to the decimal numeral `s`.
pub uninterp spec fn bits_of_decimal(s: Seq<u8>) -> u64;

/// The bits of the binary64 number of seconds that `ms` milliseconds make.
pub uninterp spec fn seconds_bits(ms: u64) -> u64;

/// An ASCII decimal digit.
pub open spec fn is_ascii_digit(b: u8) -> bool {
    48 <= b <= 57
}

/// The shape of a number literal: one or more digits, optionally followed by
/// a point and one or more digits.
pub open spec fn is_number_lexeme(s: Seq<u8>) -> bool {
    &&& s.len() > 0
    &&& is_ascii_digit(s[0])
    &&& is_ascii_digit(s[s.len() - 1])
    &&& forall|i: int| 0 <= i < s.len() ==> (is_ascii_digit(s[i]) || s[i] == 46)
    &&& forall|i: int, j: int|
        0 <= i < s.len() && 0 <= j < s.len() && s[i] == 46 && s[j] == 46 ==> i == j
}

/// Relies on `rustc_apfloat`: addition of two `Double`s, rounding to nearest
/// even; the result depends on the operand bits alone.
#[verifier::external_body]
pub(crate) fn num_add(a: u64, b: u64) -> (r: u64)
    ensures
        r == add_bits(a, b),
{
    let x = Double::from_bits(a as u128);
    let y = Double::from_bits(b as u128);
    (x + y).value.to_bits() as u64
}

/// Relies on `rustc_apfloat`: subtraction of two `Double`s, rounding to
/// nearest even; the result depends on the operand bits alone.
#[verifier::external_body]
pub(crate) fn num_sub(a: u64, b: u64) -> (r: u64)
    ensures
        r == sub_bits(a, b),
{
    let x = Double::from_bits(a as u128);
    let y = Double::from_bits(b as u128);
    (x - y).value.to_bits() as u64
}

/// Relies on `rustc_apfloat`: multiplication of two `Double`s, rounding to
/// nearest even; the result depends on the operand bits alone.
#[verifier::external_body]
pub(crate) fn num_mul(a: u64, b: u64) -> (r: u64)
    ensures
        r == mul_bits(a, b),
{
    let x = Double::from_bits(a as u128);
    let y = Double::from_bits(b as u128);
    (x * y).value.to_bits() as u64
}

/// Relies on `rustc_apfloat`: division of two `Double`s, rounding to nearest
/// even; the result depends on the operand bits alone.
#[verifier::external_body]
pub(crate) fn num_div(a: u64, b: u64) -> (r: u64)
    ensures
        r == div_bits(a, b),
{
    let x = Double::from_bits(a as u128);
    let y = Double::from_bits(b as u128);
    (x / y).value.to_bits() as u64
}

/// Relies on `rustc_apfloat`: negation of a `Double`; the result depends on
/// the operand bits alone.
#[verifier::external_body]
pub(crate) fn num_neg(a: u64) -> (r: u64)
    ensures
        r == neg_bits(a),
{
    let x = Double::from_bits(a as u128);
    (-x).to_bits() as u64
}

/// Relies on `rustc_apfloat`: the IEEE-754 partial order on `Double`s, under
/// which a NaN is neither below nor above anything; the result depends on the
/// operand bits alone.
#[verifier::external_body]
pub(crate) fn num_lt(a: u64, b: u64) -> (r: bool)
    ensures
        r == lt_bits(a, b),
{
    let x = Double::from_bits(a as u128);
    let y = Double::from_bits(b as u128);
    x < y
}

/// Relies on `rustc_apfloat`: IEEE-754 equality of `Double`s, under which a
/// NaN equals nothing and the two zeroes are equal; the result depends on the
/// operand bits alone.
#[verifier::external_body]
pub(crate) fn num_eq(a: u64, b: u64) -> (r: bool)
    ensures
        r == eq_bits(a, b),
{
    let x = Double::from_bits(a as u128);
    let y = Double::from_bits(b as u128);
    x == y
}

/// Relies on `rustc_apfloat`: parsing a decimal numeral into the nearest
/// `Double`, rounding to nearest even; the result depends on the text alone.
/// Parsing cannot fail on text of the number-literal shape.
#[verifier::external_body]
pub(crate) fn num_of_decimal(s: &Vec<u8>) -> (r: u64)
    requires
        is_number_lexeme(s@),
    ensures
        r == bits_of_decimal(s@),
{
    let text = core::str::from_utf8(s.as_slice()).unwrap();
    Double::from_str(text).unwrap().to_bits() as u64
}

/// Relies on `std::time::SystemTime`: the milliseconds the system clock is
/// past the Unix epoch, or zero if it stands before it. The result depends on
/// the moment of the call; nothing is promised of it.
#[verifier::external_body]
pub(crate) fn clock_millis() -> u64 {
    match std::time::SystemTime::now().duration_since(std::time::UNIX_EPOCH) {
        Ok(d) => d.as_millis() as u64,
        Err(_) => 0,
    }
}

/// Relies on `rustc_apfloat`: dividing a whole number of milliseconds by a
/// thousand gives the seconds they make as a `Double`; the result depends on
/// the argument alone.
#[verifier::external_body]
pub(crate) fn num_seconds_of_millis(ms: u64) -> (r: u64)
    ensures
        r == seconds_bits(ms),
{
    let n = Double::from_u128(ms as u128).value;
    let d = Double::from_u128(1000).value;
    (n / d).value.to_bits() as u64
}

} // verus!
