//! Lowercase hexadecimal digits over bytes: the spec-level digit maps and
//! the facts that tie encoding and decoding together.

use vstd::prelude::*;

verus! {

/// The lowercase hexadecimal digit for a nibble (`n < 16`).
pub open spec fn spec_hex_digit(n: u8) -> u8 {
    if n < 10 {
        (0x30 + n) as u8
    } else {
        (0x57 + n) as u8
    }
}

/// The value of one hexadecimal digit byte: `0-9`, `a-f`, lowercase only.
pub open spec fn spec_hex_value(b: u8) -> Option<u8> {
    if 0x30 <= b && b <= 0x39 {
        Some((b - 0x30) as u8)
    } else if 0x61 <= b && b <= 0x66 {
        Some((b - 0x57) as u8)
    } else {
        None
    }
}

/// The value of one hexadecimal digit byte of either case: `0-9`, `a-f`,
/// `A-F`. Percent escapes are decoded with this map.
pub open spec fn spec_hex_value_any(b: u8) -> Option<u8> {
    if 0x41 <= b && b <= 0x46 {
        Some((b - 0x37) as u8)
    } else {
        spec_hex_value(b)
    }
}

/// The executable digit value of either case.
pub fn hex_value_any(b: u8) -> (r: Option<u8>)
    ensures
        r == spec_hex_value_any(b),
{
    if 0x41 <= b && b <= 0x46 {
        Some(b - 0x37)
    } else {
        hex_value(b)
    }
}

/// Decoding a digit undoes encoding a nibble.
pub proof fn lemma_hex_digit_value(n: u8)
    requires
        n < 16,
    ensures
        spec_hex_value(spec_hex_digit(n)) == Some(n),
{
}

/// The executable digit map.
pub fn hex_digit(n: u8) -> (r: u8)
    requires
        n < 16,
    ensures
        r == spec_hex_digit(n),
{
    if n < 10 {
        0x30 + n
    } else {
        0x57 + n
    }
}

/// The executable digit value.
pub fn hex_value(b: u8) -> (r: Option<u8>)
    ensures
        r == spec_hex_value(b),
{
    if 0x30 <= b && b <= 0x39 {
        Some(b - 0x30)
    } else if 0x61 <= b && b <= 0x66 {
        Some(b - 0x57)
    } else {
        None
    }
}

} // verus!
