//! Unsigned integers written in decimal or hexadecimal, read the way the
//! standard library's `from_str_radix` reads them, with the same failures.

use vstd::prelude::*;

use crate::text::{chars_of, hex_digit_value, is_hex_digit};

verus! {

/// Why a number does not parse (the kinds of `std::num::ParseIntError`
/// that an unsigned type can give).
#[derive(Debug, Clone, Copy, PartialEq, Eq)]
pub enum IntError {
    Empty,
    InvalidDigit,
    PosOverflow,
}

pub open spec fn int_error_text(e: IntError) -> Seq<char> {
    match e {
        IntError::Empty => "cannot parse integer from empty string"@,
        IntError::InvalidDigit => "invalid digit found in string"@,
        IntError::PosOverflow => "number too large to fit in target type"@,
    }
}

impl IntError {
    /// The message `ParseIntError` displays for this kind.
    pub fn message(&self) -> (s: &'static str)
        ensures
            s@ == int_error_text(*self),
    {
        match self {
            IntError::Empty => "cannot parse integer from empty string",
            IntError::InvalidDigit => "invalid digit found in string",
            IntError::PosOverflow => "number too large to fit in target type",
        }
    }
}

pub open spec fn is_decimal_digit(c: char) -> bool {
    '0' <= c && c <= '9'
}

/// The value of `c` as a digit in base `radix` (10 or 16).
pub open spec fn digit_in(c: char, radix: nat) -> Option<nat> {
    if radix == 10 {
        if is_decimal_digit(c) {
            Some(hex_digit_value(c))
        } else {
            None
        }
    } else if is_hex_digit(c) {
        Some(hex_digit_value(c))
    } else {
        None
    }
}

/// Reading the digits of `d` from index `i` with `acc` accumulated so far:
/// left to right, a non-digit fails, and so does a value above `max`.
pub open spec fn digits_from(d: Seq<char>, radix: nat, max: nat, i: int, acc: nat) -> Result<nat, IntError>
    decreases d.len() - i,
{
    if i < 0 || i >= d.len() {
        Ok(acc)
    } else {
        match digit_in(d[i], radix) {
            None => Err(IntError::InvalidDigit),
            Some(x) => if acc * radix + x > max {
                Err(IntError::PosOverflow)
            } else {
                digits_from(d, radix, max, i + 1, acc * radix + x)
            },
        }
    }
}

/// `from_str_radix` for an unsigned type whose largest value is `max`: an
/// optional `+`, then digits.
pub open spec fn parse_uint(s: Seq<char>, radix: nat, max: nat) -> Result<nat, IntError> {
    if s.len() == 0 {
        Err(IntError::Empty)
    } else if s.len() == 1 && (s[0] == '+' || s[0] == '-') {
        Err(IntError::InvalidDigit)
    } else if s[0] == '+' {
        digits_from(s, radix, max, 1, 0)
    } else {
        digits_from(s, radix, max, 0, 0)
    }
}

fn digit_of(c: char, radix: u32) -> (r: Option<u32>)
    requires
        radix == 10 || radix == 16,
    ensures
        match digit_in(c, radix as nat) {
            Some(x) => r == Some(x as u32),
            None => r is None,
        },
        r matches Some(x) ==> x < radix,
{
    if '0' <= c && c <= '9' {
        Some(c as u32 - '0' as u32)
    } else if radix == 16 && 'a' <= c && c <= 'f' {
        Some(c as u32 - 'a' as u32 + 10)
    } else if radix == 16 && 'A' <= c && c <= 'F' {
        Some(c as u32 - 'A' as u32 + 10)
    } else {
        None
    }
}

/// Parse the characters `s` as an unsigned number in base `radix` no larger than `max`.
pub fn parse_uint_chars(s: &[char], radix: u32, max: u32) -> (r: Result<u32, IntError>)
    requires
        radix == 10 || radix == 16,
    ensures
        match parse_uint(s@, radix as nat, max as nat) {
            Ok(v) => r == Ok::<u32, IntError>(v as u32),
            Err(e) => r == Err::<u32, IntError>(e),
        },
        r matches Ok(v) ==> v <= max,
        parse_uint(s@, radix as nat, max as nat) matches Ok(v) ==> v <= max,
{
    if s.len() == 0 {
        return Err(IntError::Empty);
    }
    if s.len() == 1 && (s[0] == '+' || s[0] == '-') {
        return Err(IntError::InvalidDigit);
    }
    let mut i: usize = if s[0] == '+' { 1 } else { 0 };
    let ghost i0 = i as int;
    let mut acc: u64 = 0;
    while i < s.len()
        invariant
            i <= s@.len(),
            radix == 10 || radix == 16,
            acc <= max,
            parse_uint(s@, radix as nat, max as nat) == digits_from(
                s@,
                radix as nat,
                max as nat,
                i as int,
                acc as nat,
            ),
        decreases s@.len() - i,
    {
        match digit_of(s[i], radix) {
            None => return Err(IntError::InvalidDigit),
            Some(x) => {
                assert(acc * (radix as u64) <= 0xFFFF_FFFFu64 * 16) by (nonlinear_arith)
                    requires
                        acc <= 0xFFFF_FFFFu64,
                        radix <= 16,
                ;
                let next = acc * (radix as u64) + x as u64;
                if next > max as u64 {
                    return Err(IntError::PosOverflow);
                }
                acc = next;
            },
        }
        i += 1;
    }
    Ok(acc as u32)
}

} // verus!
