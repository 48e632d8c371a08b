//! Hexadecimal digits, as characters and as bytes.
//!
//! Shared by the signing-key codec (hex-encoded secrets), the form-input
//! decoder (percent escapes) and the link builder (percent encoding).

use vstd::prelude::*;

verus! {

/// A hexadecimal digit character: `0-9`, `a-f` or `A-F`.
pub open spec fn is_hex_digit(c: char) -> bool {
    let u = c as u32;
    (48 <= u <= 57) || (97 <= u <= 102) || (65 <= u <= 70)
}

/// The value of a hexadecimal digit character.
pub open spec fn hex_digit_val(c: char) -> u8
    recommends
        is_hex_digit(c),
{
    let u = c as u32;
    if 48 <= u <= 57 {
        (u - 48) as u8
    } else if 97 <= u <= 102 {
        (u - 87) as u8
    } else {
        (u - 55) as u8
    }
}

/// A byte that is the ASCII code of a hexadecimal digit.
pub open spec fn is_hex_digit_byte(b: u8) -> bool {
    (48 <= b <= 57) || (97 <= b <= 102) || (65 <= b <= 70)
}

/// The value of a hexadecimal digit byte.
pub open spec fn hex_val_byte(b: u8) -> u8
    recommends
        is_hex_digit_byte(b),
{
    if 48 <= b <= 57 {
        (b - 48) as u8
    } else if 97 <= b <= 102 {
        (b - 87) as u8
    } else {
        (b - 55) as u8
    }
}

/// The lowercase hexadecimal digit character for a value below 16.
pub open spec fn hex_digit_char(x: int) -> char
    recommends
        0 <= x < 16,
{
    if x == 0 { '0' }
    else if x == 1 { '1' }
    else if x == 2 { '2' }
    else if x == 3 { '3' }
    else if x == 4 { '4' }
    else if x == 5 { '5' }
    else if x == 6 { '6' }
    else if x == 7 { '7' }
    else if x == 8 { '8' }
    else if x == 9 { '9' }
    else if x == 10 { 'a' }
    else if x == 11 { 'b' }
    else if x == 12 { 'c' }
    else if x == 13 { 'd' }
    else if x == 14 { 'e' }
    else { 'f' }
}

/// The ASCII code of the uppercase hexadecimal digit for a value below 16.
pub open spec fn hex_upper_byte(x: int) -> u8
    recommends
        0 <= x < 16,
{
    if x < 10 {
        (48 + x) as u8
    } else {
        (55 + x) as u8
    }
}

/// Encoding then reading back a digit below 16 yields the same value.
pub proof fn lemma_hex_digit_char_val(x: int)
    requires
        0 <= x < 16,
    ensures
        is_hex_digit(hex_digit_char(x)),
        hex_digit_val(hex_digit_char(x)) == x,
{
}

/// Decides whether a byte is the ASCII code of a hexadecimal digit.
pub fn hex_digit_byte(b: u8) -> (r: bool)
    ensures
        r == is_hex_digit_byte(b),
{
    (48 <= b && b <= 57) || (97 <= b && b <= 102) || (65 <= b && b <= 70)
}

/// Computes the value of a hexadecimal digit byte.
pub fn hex_byte_val(b: u8) -> (r: u8)
    requires
        is_hex_digit_byte(b),
    ensures
        r == hex_val_byte(b),
        r < 16,
{
    if 48 <= b && b <= 57 {
        b - 48
    } else if 97 <= b && b <= 102 {
        b - 87
    } else {
        b - 55
    }
}

/// Computes the ASCII code of the uppercase hexadecimal digit of a value
/// below 16.
pub fn upper_hex_digit(x: u8) -> (r: u8)
    requires
        x < 16,
    ensures
        r == hex_upper_byte(x as int),
{
    if x < 10 {
        48 + x
    } else {
        55 + x
    }
}

} // verus!
