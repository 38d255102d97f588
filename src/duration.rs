//! Durations written as an integer with a unit: `1s`, `150ms` or `900us`.
use vstd::prelude::*;

use crate::text::{contains_white_space, ends_with, has_white_space, trim, trim_str};

verus! {

/// Microseconds in one millisecond and in one second.
pub const MICROS_PER_MILLI: u64 = 1000;

pub const MICROS_PER_SEC: u64 = 1_000_000;

/// Why a duration could not be read.
#[derive(Debug)]
pub enum ParseError {
    /// The duration, once trimmed, still holds white space.
    ContainsWhitespace,
    /// The duration does not end in `s`, `ms` or `us`.
    UnknownUnit,
    /// What stands before the unit is not an unsigned 64-bit integer.
    InvalidInt(core::num::ParseIntError),
    /// The duration holds more microseconds than fit in 64 bits.
    TooLarge,
}

#[verifier::external_type_specification]
#[verifier::external_body]
pub struct ExParseIntError(core::num::ParseIntError);

pub open spec fn is_digit(c: char) -> bool {
    '0' <= c && c <= '9'
}

/// The value of a string of decimal digits.
pub open spec fn digits_value(s: Seq<char>) -> nat
    decreases s.len(),
{
    if s.len() == 0 {
        0
    } else {
        digits_value(s.drop_last()) * 10 + ((s.last() as u32 - '0' as u32) as nat)
    }
}

/// The number that `s` writes in the form `u64::from_str` reads: an optional
/// `+` and at least one decimal digit. `None` where `s` has another form.
pub open spec fn unsigned_text_value(s: Seq<char>) -> Option<nat> {
    let d = if s.len() > 0 && s[0] == '+' {
        s.drop_first()
    } else {
        s
    };
    if d.len() > 0 && forall|i: int| 0 <= i < d.len() ==> is_digit(#[trigger] d[i]) {
        Some(digits_value(d))
    } else {
        None
    }
}

/// Whether `s` reads as a `u64`.
pub open spec fn reads_as_u64(s: Seq<char>) -> bool {
    &&& unsigned_text_value(s) is Some
    &&& unsigned_text_value(s)->0 <= u64::MAX
}

/// Relies on `u64::from_str`: an optional `+` and decimal digits whose value
/// fits in `u64` give that value; anything else gives an error.
#[verifier::external_body]
fn parse_u64(s: &str) -> (r: Result<u64, core::num::ParseIntError>)
    ensures
        r is Ok <==> reads_as_u64(s@),
        r is Ok ==> r->Ok_0 as nat == unsigned_text_value(s@)->0,
{
    s.parse::<u64>()
}

/// The number part of a trimmed duration and the microseconds in one unit of
/// it; `None` where the text ends in none of the units.
pub open spec fn split_unit(t: Seq<char>) -> Option<(Seq<char>, nat)> {
    if ends_with(t, seq!['m', 's']) {
        Some((t.subrange(0, t.len() - 2), MICROS_PER_MILLI as nat))
    } else if ends_with(t, seq!['u', 's']) {
        Some((t.subrange(0, t.len() - 2), 1))
    } else if ends_with(t, seq!['s']) {
        Some((t.subrange(0, t.len() - 1), MICROS_PER_SEC as nat))
    } else {
        None
    }
}

/// The microseconds a duration text stands for, when it reads as one.
pub open spec fn duration_micros(s: Seq<char>) -> Option<nat> {
    let t = trim(s);
    if has_white_space(t) {
        None
    } else {
        match split_unit(t) {
            Some((n, scale)) => if reads_as_u64(n) {
                Some(unsigned_text_value(n)->0 * scale)
            } else {
                None
            },
            None => None,
        }
    }
}

/// Reads a duration, in microseconds, from text such as `1s`, `150ms` or
/// `900us`. White space around the text is ignored.
pub fn parse(s: &str) -> (r: Result<u64, ParseError>)
    ensures
        r matches Err(ParseError::ContainsWhitespace) <==> has_white_space(trim(s@)),
        r matches Err(ParseError::UnknownUnit) <==> !has_white_space(trim(s@)) && split_unit(
            trim(s@),
        ) is None,
        r matches Err(ParseError::InvalidInt(_)) <==> !has_white_space(trim(s@)) && (match split_unit(
            trim(s@),
        ) {
            Some((n, _)) => !reads_as_u64(n),
            None => false,
        }),
        r matches Err(ParseError::TooLarge) <==> duration_micros(s@) is Some
            && duration_micros(s@)->0 > u64::MAX,
        r is Ok <==> duration_micros(s@) is Some && duration_micros(s@)->0 <= u64::MAX,
        r is Ok ==> r->Ok_0 as nat == duration_micros(s@)->0,
{
    let t = trim_str(s);
    if contains_white_space(t) {
        return Err(ParseError::ContainsWhitespace);
    }
    let n = t.unicode_len();
    let (number, scale): (&str, u64) = if n >= 2 && t.get_char(n - 2) == 'm' && t.get_char(n - 1)
        == 's' {
        assert(t@.subrange(n - 2, n as int) =~= seq!['m', 's']);
        (t.substring_char(0, n - 2), MICROS_PER_MILLI)
    } else if n >= 2 && t.get_char(n - 2) == 'u' && t.get_char(n - 1) == 's' {
        assert(!ends_with(t@, seq!['m', 's']));
        assert(t@.subrange(n - 2, n as int) =~= seq!['u', 's']);
        (t.substring_char(0, n - 2), 1)
    } else if n >= 1 && t.get_char(n - 1) == 's' {
        assert(!ends_with(t@, seq!['m', 's']));
        assert(!ends_with(t@, seq!['u', 's']));
        assert(t@.subrange(n - 1, n as int) =~= seq!['s']);
        (t.substring_char(0, n - 1), MICROS_PER_SEC)
    } else {
        assert(!ends_with(t@, seq!['m', 's']));
        assert(!ends_with(t@, seq!['u', 's']));
        if n >= 1 {
            assert(t@.subrange(n - 1, n as int)[0] == t@[n - 1]);
        }
        assert(!ends_with(t@, seq!['s']));
        return Err(ParseError::UnknownUnit);
    };
    match parse_u64(number) {
        Err(e) => Err(ParseError::InvalidInt(e)),
        Ok(v) => v.checked_mul(scale).ok_or(ParseError::TooLarge),
    }
}

} // verus!
