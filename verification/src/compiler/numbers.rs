//! Decimal numerals: writing numbers, and reading them as `str::parse` does
//! for the integer types the compiler uses.
use vstd::prelude::*;

use crate::compiler::chars::chars_of;
use vstd::string::StringExecFns;

verus! {

/// A decimal digit.
pub open spec fn digit_char(d: nat) -> char {
    if d == 0 {
        '0'
    } else if d == 1 {
        '1'
    } else if d == 2 {
        '2'
    } else if d == 3 {
        '3'
    } else if d == 4 {
        '4'
    } else if d == 5 {
        '5'
    } else if d == 6 {
        '6'
    } else if d == 7 {
        '7'
    } else if d == 8 {
        '8'
    } else {
        '9'
    }
}

/// The decimal numeral of a number.
pub open spec fn decimal(n: nat) -> Seq<char>
    decreases n,
{
    if n < 10 {
        seq![digit_char(n)]
    } else {
        decimal(n / 10).push(digit_char(n % 10))
    }
}

/// The decimal numeral of a number.
pub fn decimal_chars(n: usize) -> (r: Vec<char>)
    ensures
        r@ == decimal(n as nat),
    decreases n,
{
    let d = n % 10;
    let c = if d == 0 {
        '0'
    } else if d == 1 {
        '1'
    } else if d == 2 {
        '2'
    } else if d == 3 {
        '3'
    } else if d == 4 {
        '4'
    } else if d == 5 {
        '5'
    } else if d == 6 {
        '6'
    } else if d == 7 {
        '7'
    } else if d == 8 {
        '8'
    } else {
        '9'
    };
    if n < 10 {
        let mut v = Vec::new();
        v.push(c);
        assert(v@ =~= seq![digit_char(n as nat)]);
        v
    } else {
        let mut v = decimal_chars(n / 10);
        v.push(c);
        v
    }
}

/// The numeral of a signed number: a minus sign before the digits of a
/// negative one.
pub open spec fn signed_decimal(n: int) -> Seq<char> {
    if n < 0 {
        seq!['-'] + decimal((-n) as nat)
    } else {
        decimal(n as nat)
    }
}

/// The numeral of an `i32`, as `to_string` writes it.
pub fn i32_chars(n: i32) -> (r: Vec<char>)
    ensures
        r@ == signed_decimal(n as int),
{
    if n < 0 {
        let m: i64 = -(n as i64);
        let digits = decimal_chars(m as usize);
        let mut r: Vec<char> = Vec::new();
        r.push('-');
        let mut i: usize = 0;
        while i < digits.len()
            invariant
                i <= digits@.len(),
                r@ == seq!['-'] + digits@.take(i as int),
            decreases digits@.len() - i,
        {
            r.push(digits[i]);
            i += 1;
            assert(r@ =~= seq!['-'] + digits@.take(i as int));
        }
        assert(digits@.take(digits@.len() as int) =~= digits@);
        r
    } else {
        decimal_chars(n as usize)
    }
}

/// Why a numeral could not be read.
#[derive(Clone, Copy, Debug, PartialEq, Eq, Structural)]
pub enum IntError {
    /// The text is empty.
    Empty,
    /// A character is not a digit (or a sign stands alone).
    InvalidDigit,
    /// The number is above the type's maximum.
    PosOverflow,
    /// The number is below the type's minimum.
    NegOverflow,
}

/// The value of a decimal digit.
pub open spec fn digit_value(c: char) -> Option<nat> {
    if '0' <= c && c <= '9' {
        Some((c as int - '0' as int) as nat)
    } else {
        None
    }
}

/// Reads the digits of `s` from `i` on, after the value `acc` read so far,
/// with `max` the largest magnitude allowed: the first character that is
/// not a digit, or the first digit that takes the value above `max`, stops
/// the reading with an error.
pub open spec fn scan_digits(s: Seq<char>, i: int, acc: nat, max: nat, neg: bool) -> Result<
    nat,
    IntError,
>
    decreases s.len() - i,
{
    if i < 0 || i >= s.len() {
        Ok(acc)
    } else {
        match digit_value(s[i]) {
            None => Err(IntError::InvalidDigit),
            Some(d) => if acc * 10 + d > max {
                Err(
                    if neg {
                        IntError::NegOverflow
                    } else {
                        IntError::PosOverflow
                    },
                )
            } else {
                scan_digits(s, i + 1, acc * 10 + d, max, neg)
            },
        }
    }
}

/// An unsigned number read from a text with an optional `+`, at most `max`.
pub open spec fn parse_unsigned(s: Seq<char>, max: nat) -> Result<nat, IntError> {
    if s.len() == 0 {
        Err(IntError::Empty)
    } else if s.len() == 1 && (s[0] == '+' || s[0] == '-') {
        Err(IntError::InvalidDigit)
    } else if s[0] == '+' {
        scan_digits(s, 1, 0, max, false)
    } else {
        scan_digits(s, 0, 0, max, false)
    }
}

/// A signed number read from a text with an optional sign, from
/// `-(max + 1)` to `max`.
pub open spec fn parse_signed(s: Seq<char>, max: nat) -> Result<int, IntError> {
    if s.len() == 0 {
        Err(IntError::Empty)
    } else if s.len() == 1 && (s[0] == '+' || s[0] == '-') {
        Err(IntError::InvalidDigit)
    } else if s[0] == '+' {
        match scan_digits(s, 1, 0, max, false) {
            Ok(v) => Ok(v as int),
            Err(e) => Err(e),
        }
    } else if s[0] == '-' {
        match scan_digits(s, 1, 0, max + 1, true) {
            Ok(v) => Ok(-v),
            Err(e) => Err(e),
        }
    } else {
        match scan_digits(s, 0, 0, max, false) {
            Ok(v) => Ok(v as int),
            Err(e) => Err(e),
        }
    }
}

/// Reads the digits of `s` from `start` on, up to the magnitude `max`.
fn scan_digits_exec(s: &Vec<char>, start: usize, max: u64, neg: bool) -> (r: Result<u64, IntError>)
    requires
        start <= s@.len(),
    ensures
        match scan_digits(s@, start as int, 0, max as nat, neg) {
            Ok(v) => r == Ok::<u64, IntError>(v as u64) && v <= max,
            Err(e) => r == Err::<u64, IntError>(e),
        },
{
    let mut acc: u64 = 0;
    let mut i: usize = start;
    while i < s.len()
        invariant
            start <= i <= s@.len(),
            acc <= max,
            scan_digits(s@, start as int, 0, max as nat, neg) == scan_digits(
                s@,
                i as int,
                acc as nat,
                max as nat,
                neg,
            ),
        decreases s@.len() - i,
    {
        let c = s[i];
        if c < '0' || c > '9' {
            return Err(IntError::InvalidDigit);
        }
        let d: u64 = ((c as u32) - ('0' as u32)) as u64;
        assert(digit_value(c) == Some(d as nat));
        let next: u128 = (acc as u128) * 10 + (d as u128);
        if next > max as u128 {
            if neg {
                return Err(IntError::NegOverflow);
            } else {
                return Err(IntError::PosOverflow);
            }
        }
        acc = next as u64;
        i += 1;
    }
    Ok(acc)
}

/// Reads a `u16` as `str::parse::<u16>` does.
pub fn parse_u16(s: &str) -> (r: Result<u16, IntError>)
    ensures
        match parse_unsigned(s@, 0xffff) {
            Ok(v) => r == Ok::<u16, IntError>(v as u16) && v <= 0xffff,
            Err(e) => r == Err::<u16, IntError>(e),
        },
{
    let chars = chars_of(s);
    if chars.len() == 0 {
        return Err(IntError::Empty);
    }
    if chars.len() == 1 && (chars[0] == '+' || chars[0] == '-') {
        return Err(IntError::InvalidDigit);
    }
    let start: usize = if chars[0] == '+' {
        1
    } else {
        0
    };
    match scan_digits_exec(&chars, start, 0xffff, false) {
        Ok(v) => Ok(v as u16),
        Err(e) => Err(e),
    }
}

/// Reads a `usize` as `str::parse::<usize>` does.
pub fn parse_usize(s: &str) -> (r: Result<usize, IntError>)
    ensures
        match parse_unsigned(s@, usize::MAX as nat) {
            Ok(v) => r == Ok::<usize, IntError>(v as usize) && v <= usize::MAX,
            Err(e) => r == Err::<usize, IntError>(e),
        },
{
    let chars = chars_of(s);
    if chars.len() == 0 {
        return Err(IntError::Empty);
    }
    if chars.len() == 1 && (chars[0] == '+' || chars[0] == '-') {
        return Err(IntError::InvalidDigit);
    }
    let start: usize = if chars[0] == '+' {
        1
    } else {
        0
    };
    match scan_digits_exec(&chars, start, usize::MAX as u64, false) {
        Ok(v) => Ok(v as usize),
        Err(e) => Err(e),
    }
}

/// Reads an `i32` as `str::parse::<i32>` does.
pub fn parse_i32(s: &str) -> (r: Result<i32, IntError>)
    ensures
        match parse_signed(s@, 0x7fff_ffff) {
            Ok(v) => r == Ok::<i32, IntError>(v as i32) && -0x8000_0000 <= v <= 0x7fff_ffff,
            Err(e) => r == Err::<i32, IntError>(e),
        },
{
    let chars = chars_of(s);
    if chars.len() == 0 {
        return Err(IntError::Empty);
    }
    if chars.len() == 1 && (chars[0] == '+' || chars[0] == '-') {
        return Err(IntError::InvalidDigit);
    }
    if chars[0] == '-' {
        match scan_digits_exec(&chars, 1, 0x8000_0000, true) {
            Ok(v) => Ok((-(v as i64)) as i32),
            Err(e) => Err(e),
        }
    } else {
        let start: usize = if chars[0] == '+' {
            1
        } else {
            0
        };
        match scan_digits_exec(&chars, start, 0x7fff_ffff, false) {
            Ok(v) => Ok(v as i32),
            Err(e) => Err(e),
        }
    }
}

/// What `ParseIntError` says of each reason.
pub open spec fn int_error_text(e: IntError) -> Seq<char> {
    match e {
        IntError::Empty => "cannot parse integer from empty string"@,
        IntError::InvalidDigit => "invalid digit found in string"@,
        IntError::PosOverflow => "number too large to fit in target type"@,
        IntError::NegOverflow => "number too small to fit in target type"@,
    }
}

impl IntError {
    /// The text of the error, as `ParseIntError` displays it.
    pub fn message(&self) -> (r: String)
        ensures
            r@ == int_error_text(*self),
    {
        broadcast use vstd::string::group_string_axioms;

        match self {
            IntError::Empty => "cannot parse integer from empty string".to_string(),
            IntError::InvalidDigit => "invalid digit found in string".to_string(),
            IntError::PosOverflow => "number too large to fit in target type".to_string(),
            IntError::NegOverflow => "number too small to fit in target type".to_string(),
        }
    }
}

} // verus!
