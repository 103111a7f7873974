//! Decimal integers, as the standard library's `FromStr` reads them.
use vstd::prelude::*;

verus! {

pub open spec fn is_digit(c: char) -> bool {
    '0' <= c && c <= '9'
}

/// A non-empty run of decimal digits.
pub open spec fn all_digits(s: Seq<char>) -> bool {
    s.len() > 0 && forall|i: int| 0 <= i < s.len() ==> is_digit(#[trigger] s[i])
}

/// The value of a run of decimal digits.
pub open spec fn digits_value(s: Seq<char>) -> int
    decreases s.len(),
{
    if s.len() == 0 {
        0
    } else {
        digits_value(s.drop_last()) * 10 + (s.last() as int - '0' as int)
    }
}

/// The value of a decimal numeral: digits with an optional leading `+`, or,
/// when `signed`, a leading `-`.
pub open spec fn numeral_value(s: Seq<char>, signed: bool) -> Option<int> {
    if s.len() > 0 && s[0] == '+' && all_digits(s.skip(1)) {
        Some(digits_value(s.skip(1)))
    } else if signed && s.len() > 0 && s[0] == '-' && all_digits(s.skip(1)) {
        Some(-digits_value(s.skip(1)))
    } else if all_digits(s) {
        Some(digits_value(s))
    } else {
        None
    }
}

/// Whether `s` is a numeral whose value lies in `lo..=hi`.
pub open spec fn numeral_in(s: Seq<char>, signed: bool, lo: int, hi: int) -> bool {
    numeral_value(s, signed) matches Some(v) && lo <= v <= hi
}

/// Relies on `<u8 as FromStr>::from_str`: it accepts exactly the numerals
/// of `numeral_value` whose value fits in `u8`, and returns that value.
#[verifier::external_body]
pub(crate) fn parse_u8(s: &str) -> (r: Result<u8, std::num::ParseIntError>)
    ensures
        r is Ok <==> numeral_in(s@, false, 0, u8::MAX as int),
        r matches Ok(v) ==> numeral_value(s@, false) == Some(v as int),
{
    s.parse::<u8>()
}

/// Relies on `<u16 as FromStr>::from_str`: it accepts exactly the numerals
/// of `numeral_value` whose value fits in `u16`, and returns that value.
#[verifier::external_body]
pub(crate) fn parse_u16(s: &str) -> (r: Result<u16, std::num::ParseIntError>)
    ensures
        r is Ok <==> numeral_in(s@, false, 0, u16::MAX as int),
        r matches Ok(v) ==> numeral_value(s@, false) == Some(v as int),
{
    s.parse::<u16>()
}

/// Relies on `<u32 as FromStr>::from_str`: it accepts exactly the numerals
/// of `numeral_value` whose value fits in `u32`, and returns that value.
#[verifier::external_body]
pub(crate) fn parse_u32(s: &str) -> (r: Result<u32, std::num::ParseIntError>)
    ensures
        r is Ok <==> numeral_in(s@, false, 0, u32::MAX as int),
        r matches Ok(v) ==> numeral_value(s@, false) == Some(v as int),
{
    s.parse::<u32>()
}

/// Relies on `<u64 as FromStr>::from_str`: it accepts exactly the numerals
/// of `numeral_value` whose value fits in `u64`, and returns that value.
#[verifier::external_body]
pub(crate) fn parse_u64(s: &str) -> (r: Result<u64, std::num::ParseIntError>)
    ensures
        r is Ok <==> numeral_in(s@, false, 0, u64::MAX as int),
        r matches Ok(v) ==> numeral_value(s@, false) == Some(v as int),
{
    s.parse::<u64>()
}

/// Relies on `<u128 as FromStr>::from_str`: it accepts exactly the numerals
/// of `numeral_value` whose value fits in `u128`, and returns that value.
#[verifier::external_body]
pub(crate) fn parse_u128(s: &str) -> (r: Result<u128, std::num::ParseIntError>)
    ensures
        r is Ok <==> numeral_in(s@, false, 0, u128::MAX as int),
        r matches Ok(v) ==> numeral_value(s@, false) == Some(v as int),
{
    s.parse::<u128>()
}

/// Relies on `<usize as FromStr>::from_str`: it accepts exactly the numerals
/// of `numeral_value` whose value fits in `usize`, and returns that value.
#[verifier::external_body]
pub(crate) fn parse_usize(s: &str) -> (r: Result<usize, std::num::ParseIntError>)
    ensures
        r is Ok <==> numeral_in(s@, false, 0, usize::MAX as int),
        r matches Ok(v) ==> numeral_value(s@, false) == Some(v as int),
{
    s.parse::<usize>()
}

/// Relies on `<i8 as FromStr>::from_str`: it accepts exactly the numerals
/// of `numeral_value` whose value fits in `i8`, and returns that value.
#[verifier::external_body]
pub(crate) fn parse_i8(s: &str) -> (r: Result<i8, std::num::ParseIntError>)
    ensures
        r is Ok <==> numeral_in(s@, true, i8::MIN as int, i8::MAX as int),
        r matches Ok(v) ==> numeral_value(s@, true) == Some(v as int),
{
    s.parse::<i8>()
}

/// Relies on `<i16 as FromStr>::from_str`: it accepts exactly the numerals
/// of `numeral_value` whose value fits in `i16`, and returns that value.
#[verifier::external_body]
pub(crate) fn parse_i16(s: &str) -> (r: Result<i16, std::num::ParseIntError>)
    ensures
        r is Ok <==> numeral_in(s@, true, i16::MIN as int, i16::MAX as int),
        r matches Ok(v) ==> numeral_value(s@, true) == Some(v as int),
{
    s.parse::<i16>()
}

/// Relies on `<i32 as FromStr>::from_str`: it accepts exactly the numerals
/// of `numeral_value` whose value fits in `i32`, and returns that value.
#[verifier::external_body]
pub(crate) fn parse_i32(s: &str) -> (r: Result<i32, std::num::ParseIntError>)
    ensures
        r is Ok <==> numeral_in(s@, true, i32::MIN as int, i32::MAX as int),
        r matches Ok(v) ==> numeral_value(s@, true) == Some(v as int),
{
    s.parse::<i32>()
}

/// Relies on `<i64 as FromStr>::from_str`: it accepts exactly the numerals
/// of `numeral_value` whose value fits in `i64`, and returns that value.
#[verifier::external_body]
pub(crate) fn parse_i64(s: &str) -> (r: Result<i64, std::num::ParseIntError>)
    ensures
        r is Ok <==> numeral_in(s@, true, i64::MIN as int, i64::MAX as int),
        r matches Ok(v) ==> numeral_value(s@, true) == Some(v as int),
{
    s.parse::<i64>()
}

/// Relies on `<i128 as FromStr>::from_str`: it accepts exactly the numerals
/// of `numeral_value` whose value fits in `i128`, and returns that value.
#[verifier::external_body]
pub(crate) fn parse_i128(s: &str) -> (r: Result<i128, std::num::ParseIntError>)
    ensures
        r is Ok <==> numeral_in(s@, true, i128::MIN as int, i128::MAX as int),
        r matches Ok(v) ==> numeral_value(s@, true) == Some(v as int),
{
    s.parse::<i128>()
}

/// Relies on `<isize as FromStr>::from_str`: it accepts exactly the numerals
/// of `numeral_value` whose value fits in `isize`, and returns that value.
#[verifier::external_body]
pub(crate) fn parse_isize(s: &str) -> (r: Result<isize, std::num::ParseIntError>)
    ensures
        r is Ok <==> numeral_in(s@, true, isize::MIN as int, isize::MAX as int),
        r matches Ok(v) ==> numeral_value(s@, true) == Some(v as int),
{
    s.parse::<isize>()
}

} // verus!
