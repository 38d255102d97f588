//! The JSON pieces of a recording: numbers, quoted strings and objects, laid
//! out with `", "` between members and `": "` after keys.
use vstd::prelude::*;

use crate::text::push_char;

verus! {

pub open spec fn digit_char(d: nat) -> char {
    (d + 48) as char
}

/// The decimal digits of `n`, without leading zeros.
pub open spec fn decimal(n: nat) -> Seq<char>
    decreases n,
{
    if n < 10 {
        seq![digit_char(n)]
    } else {
        decimal(n / 10).push(digit_char(n % 10))
    }
}

/// `n` in decimal, padded with zeros to six digits.
pub open spec fn six_digits(n: nat) -> Seq<char> {
    Seq::new((6 - decimal(n).len()) as nat, |i: int| '0') + decimal(n)
}

/// A time in microseconds, written as seconds with six decimals.
pub open spec fn seconds_text(micros: nat) -> Seq<char> {
    decimal(micros / 1_000_000) + seq!['.'] + six_digits(micros % 1_000_000)
}

pub open spec fn hex_digit(d: nat) -> char {
    if d < 10 {
        digit_char(d)
    } else {
        (d + 87) as char
    }
}

/// How one character stands inside a JSON string: quote and backslash escaped,
/// the usual short escapes for backspace, form feed, line feed, carriage return
/// and tab, `\u00XX` with lower-case hex for the other control characters below
/// 0x20, and every other character as it is.
pub open spec fn escape_char(c: char) -> Seq<char> {
    if c == '"' {
        seq!['\\', '"']
    } else if c == '\\' {
        seq!['\\', '\\']
    } else if c == '\u{8}' {
        seq!['\\', 'b']
    } else if c == '\u{c}' {
        seq!['\\', 'f']
    } else if c == '\n' {
        seq!['\\', 'n']
    } else if c == '\r' {
        seq!['\\', 'r']
    } else if c == '\t' {
        seq!['\\', 't']
    } else if (c as u32) < 0x20 {
        seq!['\\', 'u', '0', '0', hex_digit(c as nat / 16), hex_digit(c as nat % 16)]
    } else {
        seq![c]
    }
}

pub open spec fn escaped(s: Seq<char>) -> Seq<char>
    decreases s.len(),
{
    if s.len() == 0 {
        Seq::empty()
    } else {
        escaped(s.drop_last()) + escape_char(s.last())
    }
}

/// `s` as a JSON string literal.
pub open spec fn json_string(s: Seq<char>) -> Seq<char> {
    seq!['"'] + escaped(s) + seq!['"']
}

/// One member of a JSON object: the key, quoted, then `": "` and the value.
pub open spec fn member(key: Seq<char>, value: Seq<char>) -> Seq<char> {
    json_string(key) + seq![':', ' '] + value
}

/// The first `k` members, separated by `", "`.
pub open spec fn members(fields: Seq<(Seq<char>, Seq<char>)>, k: int) -> Seq<char>
    decreases k,
{
    if k <= 0 {
        Seq::empty()
    } else if k == 1 {
        member(fields[0].0, fields[0].1)
    } else {
        members(fields, k - 1) + seq![',', ' '] + member(fields[k - 1].0, fields[k - 1].1)
    }
}

/// A JSON object of the given members, in order.
pub open spec fn object(fields: Seq<(Seq<char>, Seq<char>)>) -> Seq<char> {
    seq!['{'] + members(fields, fields.len() as int) + seq!['}']
}

/// Relies on `serde_json::to_string` on a `str`: the string as a JSON literal,
/// escaped as `escape_char` says. Serializing a `str` into memory never fails.
#[verifier::external_body]
fn quote(s: &str) -> (r: String)
    ensures
        r@ == json_string(s@),
{
    match serde_json::to_string(s) {
        Ok(quoted) => quoted,
        Err(_) => String::new(),
    }
}

/// Appends `s` as a JSON string literal.
pub fn push_json_string(out: &mut String, s: &str)
    ensures
        final(out)@ == old(out)@ + json_string(s@),
{
    let q = quote(s);
    out.append(q.as_str());
}

/// Appends the decimal digits of `n`.
pub fn push_decimal(out: &mut String, n: u64)
    ensures
        final(out)@ == old(out)@ + decimal(n as nat),
    decreases n,
{
    if n >= 10 {
        push_decimal(out, n / 10);
    }
    let d = (n % 10) as u8;
    push_char(out, (d + 48) as char);
    assert(final(out)@ =~= old(out)@ + decimal(n as nat));
}

proof fn lemma_decimal_len(n: nat)
    ensures
        decimal(n).len() >= 1,
        n < 10 ==> decimal(n).len() == 1,
        10 <= n < 100 ==> decimal(n).len() == 2,
        100 <= n < 1000 ==> decimal(n).len() == 3,
        1000 <= n < 10_000 ==> decimal(n).len() == 4,
        10_000 <= n < 100_000 ==> decimal(n).len() == 5,
        100_000 <= n < 1_000_000 ==> decimal(n).len() == 6,
    decreases n,
{
    if n >= 10 {
        lemma_decimal_len(n / 10);
    }
}

/// Appends a time in microseconds as seconds with six decimals.
pub fn push_seconds(out: &mut String, micros: u64)
    ensures
        final(out)@ == old(out)@ + seconds_text(micros as nat),
{
    let secs = micros / 1_000_000;
    let frac = micros % 1_000_000;
    push_decimal(out, secs);
    push_char(out, '.');
    let ghost before = out@;
    proof {
        lemma_decimal_len(frac as nat);
    }
    let mut pad: u64 = 100_000;
    let mut zeros: usize = 0;
    while pad > 1 && frac < pad
        invariant
            1 <= pad <= 100_000,
            zeros <= 5,
            frac < 1_000_000,
            out@ == before + Seq::new(zeros as nat, |i: int| '0'),
            pad == 100_000 ==> zeros == 0,
            pad == 10_000 ==> zeros == 1,
            pad == 1000 ==> zeros == 2,
            pad == 100 ==> zeros == 3,
            pad == 10 ==> zeros == 4,
            pad == 1 ==> zeros == 5,
            pad == 100_000 || pad == 10_000 || pad == 1000 || pad == 100 || pad == 10 || pad == 1,
            frac < pad * 10,
        decreases pad,
    {
        push_char(out, '0');
        assert(out@ =~= before + Seq::new((zeros + 1) as nat, |i: int| '0'));
        pad = pad / 10;
        zeros += 1;
    }
    proof {
        lemma_decimal_width(frac as nat, pad as nat, zeros as nat);
    }
    push_decimal(out, frac);
    assert(final(out)@ =~= old(out)@ + seconds_text(micros as nat));
}

proof fn lemma_decimal_width(n: nat, pad: nat, zeros: nat)
    requires
        n < pad * 10,
        pad == 1 ==> zeros == 5,
        pad == 10 ==> zeros == 4 && n >= 10,
        pad == 100 ==> zeros == 3 && n >= 100,
        pad == 1000 ==> zeros == 2 && n >= 1000,
        pad == 10_000 ==> zeros == 1 && n >= 10_000,
        pad == 100_000 ==> zeros == 0 && n >= 100_000,
        pad == 100_000 || pad == 10_000 || pad == 1000 || pad == 100 || pad == 10 || pad == 1,
    ensures
        decimal(n).len() + zeros == 6,
{
    lemma_decimal_len(n);
}

} // verus!
