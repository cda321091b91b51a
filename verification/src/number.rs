//! Integer literals: decimal by default, octal after a leading `0`,
//! hexadecimal after a leading `0x`.

use vstd::prelude::*;
use vstd::string::StrSliceExecFns;
use crate::error::outcome;
use crate::error::Error;
use crate::error::ErrorView;

verus! {

/// The value of `c` as a digit, whatever the radix: `0`-`9` are 0 to 9,
/// letters of either case are 10 to 35.
pub open spec fn digit_value(c: char) -> Option<nat> {
    let n = c as u32;
    if 0x30 <= n <= 0x39 {
        Some((n - 0x30) as nat)
    } else if 0x61 <= n <= 0x7A {
        Some((n - 0x61 + 10) as nat)
    } else if 0x41 <= n <= 0x5A {
        Some((n - 0x41 + 10) as nat)
    } else {
        None
    }
}

/// Whether `c` is a digit of the given radix.
pub open spec fn is_digit(c: char, radix: u32) -> bool {
    digit_value(c) matches Some(d) && d < radix
}

/// Whether `s` consists of digits of the given radix only.
pub open spec fn all_digits(s: Seq<char>, radix: u32) -> bool {
    forall|i: int| 0 <= i < s.len() ==> is_digit(#[trigger] s[i], radix)
}

/// The number that the digits `s` denote in the given radix, most
/// significant digit first.
pub open spec fn digits_value(s: Seq<char>, radix: u32) -> nat
    decreases s.len(),
{
    if s.len() == 0 {
        0
    } else {
        digits_value(s.drop_last(), radix) * (radix as nat) + digit_value(s.last()).unwrap()
    }
}

/// The number that `s` denotes in the given radix, if it denotes one that
/// fits 32 bits: an optional `+`, then at least one digit, and nothing else.
pub open spec fn radix_value(s: Seq<char>, radix: u32) -> Option<u32> {
    let digits = if s.len() > 0 && s[0] == '+' {
        s.skip(1)
    } else {
        s
    };
    if digits.len() > 0 && all_digits(digits, radix) && digits_value(digits, radix) <= u32::MAX {
        Some(digits_value(digits, radix) as u32)
    } else {
        None
    }
}

/// The error that the standard library reports for a text that denotes no
/// 32-bit number in the given radix.
pub uninterp spec fn radix_failure(s: Seq<char>, radix: u32) -> std::num::ParseIntError;

/// What parsing `s` in the given radix gives.
pub open spec fn radix_parse(s: Seq<char>, radix: u32) -> Result<u32, std::num::ParseIntError> {
    match radix_value(s, radix) {
        Some(v) => Ok(v),
        None => Err(radix_failure(s, radix)),
    }
}

/// `u32::from_str_radix` of the standard library. It accepts an optional
/// `+` followed by one or more digits of the radix, where letters of either
/// case count from ten upwards, and returns the number they denote if it
/// fits 32 bits. Every other text is an error, and the same text always
/// gives the same error. A radix outside 2 to 36 makes it panic, so it is
/// ruled out. Assumed, not proved.
pub assume_specification[ u32::from_str_radix ](src: &str, radix: u32) -> (r: Result<
    u32,
    std::num::ParseIntError,
>)
    requires
        2 <= radix <= 36,
    ensures
        r == match radix_value(src@, radix) {
            Some(v) => Ok::<u32, std::num::ParseIntError>(v),
            None => Err(radix_failure(src@, radix)),
        },
;

/// What an integer literal denotes. A lone `0` is zero; after `0x` the rest
/// is read in base 16; after any other leading `0` the rest is read in
/// base 8; everything else is read in base 10.
pub open spec fn int_literal(s: Seq<char>) -> Result<u32, std::num::ParseIntError> {
    if s.len() > 0 && s[0] == '0' {
        if s.len() == 1 {
            Ok(0u32)
        } else if s[1] == 'x' {
            radix_parse(s.skip(2), 16)
        } else {
            radix_parse(s.skip(1), 8)
        }
    } else {
        radix_parse(s, 10)
    }
}

/// What reading an integer literal gives: its value, or the parse error.
pub open spec fn parse_int_spec(s: Seq<char>) -> Result<u32, ErrorView> {
    match int_literal(s) {
        Ok(v) => Ok(v),
        Err(e) => Err(ErrorView::ParseInt { source: e }),
    }
}

/// Reads an integer literal.
pub fn parse_int(input: &str) -> (r: Result<u32, Error>)
    ensures
        outcome(r) == parse_int_spec(input@),
{
    let n = input.unicode_len();
    let parsed = if n > 0 && input.get_char(0) == '0' {
        if n == 1 {
            return Ok(0);
        }
        if input.get_char(1) == 'x' {
            u32::from_str_radix(input.substring_char(2, n), 16)
        } else {
            u32::from_str_radix(input.substring_char(1, n), 8)
        }
    } else {
        u32::from_str_radix(input, 10)
    };
    match parsed {
        Ok(v) => Ok(v),
        Err(e) => Err(Error::ParseInt { source: e }),
    }
}

} // verus!
