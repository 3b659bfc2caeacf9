//! Deterministic decimal rendering of integers for diagnostics and assembly.

use vstd::prelude::*;

verus! {

/// The single-character text of a decimal digit.
pub open spec fn digit_text(digit: nat) -> Seq<char> {
    if digit == 0 {
        "0"@
    } else if digit == 1 {
        "1"@
    } else if digit == 2 {
        "2"@
    } else if digit == 3 {
        "3"@
    } else if digit == 4 {
        "4"@
    } else if digit == 5 {
        "5"@
    } else if digit == 6 {
        "6"@
    } else if digit == 7 {
        "7"@
    } else if digit == 8 {
        "8"@
    } else {
        "9"@
    }
}

/// The shortest decimal spelling of a natural number.
pub open spec fn decimal_text(value: nat) -> Seq<char>
    decreases value,
{
    if value < 10 {
        digit_text(value)
    } else {
        decimal_text(value / 10) + digit_text(value % 10)
    }
}

/// The decimal spelling of a signed number, with a leading `-` when negative.
pub open spec fn signed_decimal_text(value: int) -> Seq<char> {
    if value < 0 {
        "-"@ + decimal_text((-value) as nat)
    } else {
        decimal_text(value as nat)
    }
}

pub fn digit(value: u64) -> (r: &'static str)
    requires
        value < 10,
    ensures
        r@ == digit_text(value as nat),
{
    match value {
        0 => "0",
        1 => "1",
        2 => "2",
        3 => "3",
        4 => "4",
        5 => "5",
        6 => "6",
        7 => "7",
        8 => "8",
        _ => "9",
    }
}

/// Renders an unsigned number in decimal.
pub fn decimal(value: u64) -> (r: String)
    ensures
        r@ == decimal_text(value as nat),
    decreases value,
{
    if value < 10 {
        String::from_str(digit(value))
    } else {
        let mut text = decimal(value / 10);
        text.append(digit(value % 10));
        text
    }
}

/// Renders a signed number in decimal.
pub fn signed_decimal(value: i64) -> (r: String)
    ensures
        r@ == signed_decimal_text(value as int),
{
    if value < 0 {
        let magnitude: u64 = if value == i64::MIN {
            0x8000_0000_0000_0000u64
        } else {
            (-value) as u64
        };
        let mut text = String::from_str("-");
        let digits = decimal(magnitude);
        text.append(digits.as_str());
        text
    } else {
        decimal(value as u64)
    }
}

/// `prefix`, the decimal spelling of `value`, then `suffix`.
pub fn framed_decimal(prefix: &str, value: u64, suffix: &str) -> (r: String)
    ensures
        r@ == prefix@ + decimal_text(value as nat) + suffix@,
{
    let mut text = String::from_str(prefix);
    let digits = decimal(value);
    text.append(digits.as_str());
    text.append(suffix);
    text
}

} // verus!
