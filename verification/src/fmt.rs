//! Decimal and hexadecimal rendering of numbers into text.
use vstd::prelude::*;

verus! {

/// The character of a decimal digit.
pub open spec fn digit_char(d: nat) -> char {
    ((48 + d % 10) as u32) as char
}

/// The decimal text of `n`, without leading zeros.
pub open spec fn decimal(n: nat) -> Seq<char>
    decreases n,
{
    if n < 10 {
        seq![digit_char(n)]
    } else {
        decimal(n / 10).push(digit_char(n % 10))
    }
}

/// The decimal text of a number (`u64::to_string`).
pub fn decimal_text(n: u64) -> (r: Vec<char>)
    ensures
        r@ == decimal(n as nat),
    decreases n,
{
    let d: char = ((48 + n % 10) as u8) as char;
    if n < 10 {
        let mut r: Vec<char> = Vec::new();
        r.push(d);
        assert(r@ =~= seq![digit_char(n as nat)]);
        r
    } else {
        let mut r = decimal_text(n / 10);
        r.push(d);
        r
    }
}

/// The decimal text of a number, as a `String`.
pub fn decimal_string(n: u64) -> (r: String)
    ensures
        r@ == decimal(n as nat),
{
    let v = decimal_text(n);
    crate::text::string_of(v.as_slice())
}

/// The lower-case hexadecimal digit of a value below 16.
pub open spec fn hex_char(d: nat) -> char {
    if d % 16 < 10 {
        ((48 + d % 16) as u32) as char
    } else {
        ((87 + d % 16) as u32) as char
    }
}

/// The lower-case hexadecimal text of `n`, without leading zeros (`{:x}`).
pub open spec fn hex(n: nat) -> Seq<char>
    decreases n,
{
    if n < 16 {
        seq![hex_char(n)]
    } else {
        hex(n / 16).push(hex_char(n % 16))
    }
}

/// The lower-case hexadecimal text of a number.
pub fn hex_text(n: u64) -> (r: Vec<char>)
    ensures
        r@ == hex(n as nat),
    decreases n,
{
    let v: u8 = (n % 16) as u8;
    let d: char = if v < 10 {
        (48 + v) as char
    } else {
        (87 + v) as char
    };
    if n < 16 {
        let mut r: Vec<char> = Vec::new();
        r.push(d);
        assert(r@ =~= seq![hex_char(n as nat)]);
        r
    } else {
        let mut r = hex_text(n / 16);
        r.push(d);
        r
    }
}

} // verus!
