//! Numerals: reading unsigned numbers from text.

use vstd::prelude::*;

verus! {

/// Trusted: declares `std::num::ParseIntError`.
#[verifier::external_type_specification]
#[verifier::external_body]
pub struct ExParseIntError(std::num::ParseIntError);

/// Whether `c` is a decimal digit.
pub open spec fn is_digit(c: char) -> bool {
    '0' <= c && c <= '9'
}

/// The number that the decimal digits `d` write.
pub open spec fn digits_value(d: Seq<char>) -> nat
    decreases d.len(),
{
    if d.len() == 0 {
        0
    } else {
        (digits_value(d.drop_last()) * 10 + (d.last() as nat - 48)) as nat
    }
}

/// The digits of a numeral: what follows its `+` sign, if it has one.
pub open spec fn numeral_digits(s: Seq<char>) -> Seq<char> {
    if s.len() > 0 && s[0] == '+' {
        s.skip(1)
    } else {
        s
    }
}

/// Whether `s` is an unsigned numeral: an optional `+` and then one or more
/// decimal digits, and nothing else.
pub open spec fn is_numeral(s: Seq<char>) -> bool {
    let d = numeral_digits(s);
    d.len() > 0 && forall|i: int| 0 <= i < d.len() ==> is_digit(#[trigger] d[i])
}

/// The number that the numeral `s` writes.
pub open spec fn numeral_value(s: Seq<char>) -> nat {
    digits_value(numeral_digits(s))
}

/// Whether `s` is a numeral that writes a number of at most `max`.
pub open spec fn reads_within(s: Seq<char>, max: nat) -> bool {
    is_numeral(s) && numeral_value(s) <= max
}

/// Trusted: the `Display` text of a `ParseIntError`, through `to_string`.
/// Nothing is stated of the text.
#[verifier::external_body]
pub(crate) fn int_error_text(error: &std::num::ParseIntError) -> (text: String) {
    error.to_string()
}

/// Trusted: `str::parse::<usize>`. It accepts an optional `+` sign followed by
/// decimal digits only, and returns the number they write where it fits.
#[verifier::external_body]
pub(crate) fn parse_usize(s: &str) -> (r: Result<usize, std::num::ParseIntError>)
    ensures
        r is Ok <==> reads_within(s@, usize::MAX as nat),
        r matches Ok(n) ==> n == numeral_value(s@),
{
    s.parse::<usize>()
}

/// Trusted: `str::parse::<u32>`. It accepts an optional `+` sign followed by
/// decimal digits only, and returns the number they write where it fits.
#[verifier::external_body]
pub(crate) fn parse_u32(s: &str) -> (r: Result<u32, std::num::ParseIntError>)
    ensures
        r is Ok <==> reads_within(s@, u32::MAX as nat),
        r matches Ok(n) ==> n == numeral_value(s@),
{
    s.parse::<u32>()
}

/// Trusted: `str::parse::<u64>`. It accepts an optional `+` sign followed by
/// decimal digits only, and returns the number they write where it fits.
#[verifier::external_body]
pub(crate) fn parse_u64(s: &str) -> (r: Result<u64, std::num::ParseIntError>)
    ensures
        r is Ok <==> reads_within(s@, u64::MAX as nat),
        r matches Ok(n) ==> n == numeral_value(s@),
{
    s.parse::<u64>()
}

} // verus!
