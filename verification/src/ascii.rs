//! The classes of ASCII characters that the notation is written in.

use vstd::prelude::*;

verus! {

/// Whether `c` is one of the ten decimal digits.
pub open spec fn is_digit(c: char) -> bool {
    '0' <= c <= '9'
}

/// The number that a decimal digit stands for; 0 for any other character.
pub open spec fn digit_value(c: char) -> nat {
    if is_digit(c) {
        (c as int - '0' as int) as nat
    } else {
        0
    }
}

/// Whether `c` is one of the 26 capital letters.
pub open spec fn is_uppercase(c: char) -> bool {
    'A' <= c <= 'Z'
}

/// Whether `c` is one of the 52 letters of either case.
pub open spec fn is_letter(c: char) -> bool {
    'A' <= c <= 'Z' || 'a' <= c <= 'z'
}

/// The small letter of a capital letter; any other character unchanged.
pub open spec fn lowercase(c: char) -> char {
    if is_uppercase(c) {
        (c as int + 32) as char
    } else {
        c
    }
}

/// The value of a decimal digit, or `None` for a character that is no digit.
pub fn decimal_digit(c: char) -> (res: Option<u8>)
    ensures
        is_digit(c) ==> res == Some(digit_value(c) as u8),
        !is_digit(c) ==> res is None,
        res matches Some(d) ==> d <= 9,
{
    if c >= '0' && c <= '9' {
        Some((c as u8) - 48)
    } else {
        None
    }
}

/// Tells whether `c` is a capital letter.
pub fn is_ascii_uppercase(c: char) -> (res: bool)
    ensures
        res == is_uppercase(c),
{
    c >= 'A' && c <= 'Z'
}

/// Tells whether `c` is a letter of either case.
pub fn is_ascii_alphabetic(c: char) -> (res: bool)
    ensures
        res == is_letter(c),
{
    (c >= 'A' && c <= 'Z') || (c >= 'a' && c <= 'z')
}

/// Maps a capital letter to its small letter and leaves every other character as it is.
pub fn to_ascii_lowercase(c: char) -> (res: char)
    ensures
        res == lowercase(c),
{
    if c >= 'A' && c <= 'Z' {
        ((c as u8) + 32) as char
    } else {
        c
    }
}

} // verus!
