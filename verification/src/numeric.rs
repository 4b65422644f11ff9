use rustc_apfloat::Float;
use vstd::prelude::*;

verus! {

// Numbers are IEEE-754 binary64 values carried as their 64-bit patterns, so
// that every structural step of the evaluator is verified while the scalar
// arithmetic itself is delegated to rustc_apfloat, a software implementation
// of IEEE-754.

/// The IEEE-754 binary64 value, as its bit pattern, denoted by the literal
/// `s`, or `None` when `s` does not read as a numeric literal.
pub uninterp spec fn float_of_decimal(s: Seq<char>) -> Option<u64>;

/// The IEEE-754 binary64 sum of the values with bit patterns `l` and `r`,
/// rounded to nearest, ties to even.
pub uninterp spec fn add_bits(l: u64, r: u64) -> u64;

/// The IEEE-754 binary64 difference of the values with bit patterns `l` and
/// `r`, rounded to nearest, ties to even.
pub uninterp spec fn sub_bits(l: u64, r: u64) -> u64;

/// The IEEE-754 binary64 product of the values with bit patterns `l` and `r`,
/// rounded to nearest, ties to even.
pub uninterp spec fn mul_bits(l: u64, r: u64) -> u64;

/// The IEEE-754 binary64 quotient of the values with bit patterns `l` and
/// `r`, rounded to nearest, ties to even.
pub uninterp spec fn div_bits(l: u64, r: u64) -> u64;

/// Relies on rustc_apfloat's string parsing for `Double` (IEEE-754 binary64):
/// the result is a function of the characters alone. Strings of 2^31 or more
/// characters are excluded because the crate's significand indexing uses
/// 32-bit exponents.
#[verifier::external_body]
pub(crate) fn parse_number(s: &str) -> (r: Option<u64>)
    requires
        s@.len() < 0x8000_0000,
    ensures
        r == float_of_decimal(s@),
{
    match s.parse::<rustc_apfloat::ieee::Double>() {
        Ok(d) => Some(rustc_apfloat::Float::to_bits(d) as u64),
        Err(_) => None,
    }
}

/// Relies on rustc_apfloat's `Double` addition: IEEE-754 binary64 with the
/// default round-to-nearest-even, a function of the two bit patterns alone.
#[verifier::external_body]
pub(crate) fn add_values(l: u64, r: u64) -> (res: u64)
    ensures
        res == add_bits(l, r),
{
    let x = rustc_apfloat::ieee::Double::from_bits(l as u128);
    let y = rustc_apfloat::ieee::Double::from_bits(r as u128);
    rustc_apfloat::Float::to_bits((x + y).value) as u64
}

/// Relies on rustc_apfloat's `Double` subtraction: IEEE-754 binary64 with the
/// default round-to-nearest-even, a function of the two bit patterns alone.
#[verifier::external_body]
pub(crate) fn sub_values(l: u64, r: u64) -> (res: u64)
    ensures
        res == sub_bits(l, r),
{
    let x = rustc_apfloat::ieee::Double::from_bits(l as u128);
    let y = rustc_apfloat::ieee::Double::from_bits(r as u128);
    rustc_apfloat::Float::to_bits((x - y).value) as u64
}

/// Relies on rustc_apfloat's `Double` multiplication: IEEE-754 binary64 with
/// the default round-to-nearest-even, a function of the two bit patterns
/// alone.
#[verifier::external_body]
pub(crate) fn mul_values(l: u64, r: u64) -> (res: u64)
    ensures
        res == mul_bits(l, r),
{
    let x = rustc_apfloat::ieee::Double::from_bits(l as u128);
    let y = rustc_apfloat::ieee::Double::from_bits(r as u128);
    rustc_apfloat::Float::to_bits((x * y).value) as u64
}

/// Relies on rustc_apfloat's `Double` division: IEEE-754 binary64 with the
/// default round-to-nearest-even, a function of the two bit patterns alone.
/// Division by zero yields an infinity or NaN as IEEE-754 prescribes.
#[verifier::external_body]
pub(crate) fn div_values(l: u64, r: u64) -> (res: u64)
    ensures
        res == div_bits(l, r),
{
    let x = rustc_apfloat::ieee::Double::from_bits(l as u128);
    let y = rustc_apfloat::ieee::Double::from_bits(r as u128);
    rustc_apfloat::Float::to_bits((x / y).value) as u64
}

/// Relies on `String::push`: appends exactly the given character.
#[verifier::external_body]
pub(crate) fn push_char(s: &mut String, c: char)
    ensures
        final(s)@ == old(s)@.push(c),
{
    s.push(c)
}

} // verus!
