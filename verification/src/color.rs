//! Parsing of the `#RRGGBB` nickname colors the protocol carries as text.
use vstd::prelude::*;

use vstd::string::StringSliceAdditionalSpecFns;

verus! {

/// The byte of the ASCII number sign.
pub const HASH: u8 = 35;

/// The value of one hexadecimal digit byte.
pub open spec fn hex_digit_val(x: u8) -> Option<u8> {
    if 48 <= x <= 57 {
        Some((x - 48) as u8)
    } else if 97 <= x <= 102 {
        Some((x - 87) as u8)
    } else if 65 <= x <= 70 {
        Some((x - 55) as u8)
    } else {
        None
    }
}

/// The value of one two-byte hexadecimal group: two digits, or a plus sign
/// followed by one digit.
pub open spec fn pair_val(a: u8, b: u8) -> Option<u8> {
    match (hex_digit_val(a), hex_digit_val(b)) {
        (Some(ha), Some(hb)) => Some((ha * 16 + hb) as u8),
        _ => if a == 43 {
            hex_digit_val(b)
        } else {
            None
        },
    }
}

/// How a `#RRGGBB` color string reads as a red, green and blue byte:
/// exactly seven bytes, a leading number sign, and three hexadecimal
/// groups.
pub open spec fn spec_hex_color(b: Seq<u8>) -> Option<(u8, u8, u8)> {
    if b.len() == 7 && b[0] == HASH {
        match (pair_val(b[1], b[2]), pair_val(b[3], b[4]), pair_val(b[5], b[6])) {
            (Some(r), Some(g), Some(bl)) => Some((r, g, bl)),
            _ => None,
        }
    } else {
        None
    }
}

fn hex_digit(x: u8) -> (r: Option<u8>)
    ensures
        r == hex_digit_val(x),
{
    if 48 <= x && x <= 57 {
        Some(x - 48)
    } else if 97 <= x && x <= 102 {
        Some(x - 87)
    } else if 65 <= x && x <= 70 {
        Some(x - 55)
    } else {
        None
    }
}

fn hex_pair(a: u8, b: u8) -> (r: Option<u8>)
    ensures
        r == pair_val(a, b),
{
    match (hex_digit(a), hex_digit(b)) {
        (Option::Some(ha), Option::Some(hb)) => Some(ha * 16 + hb),
        (ha, hb) => {
            proof {
                assert(!(hex_digit_val(a) is Some && hex_digit_val(b) is Some));
            }
            if a == 43 {
                hex_digit(b)
            } else {
                None
            }
        },
    }
}

/// Reads a `#RRGGBB` string as its three color bytes; anything else — a
/// wrong length, a missing number sign, a stray byte — is refused rather
/// than guessed at.
pub fn hex_to_color(s: &str) -> (r: Option<(u8, u8, u8)>)
    ensures
        r == spec_hex_color(s.spec_bytes()),
{
    let b = s.as_bytes();
    if b.len() != 7 {
        return None;
    }
    if b[0] != HASH {
        return None;
    }
    let red = hex_pair(b[1], b[2]);
    let green = hex_pair(b[3], b[4]);
    let blue = hex_pair(b[5], b[6]);
    match (red, green, blue) {
        (Option::Some(r), Option::Some(g), Option::Some(bl)) => Some((r, g, bl)),
        _ => None,
    }
}

} // verus!
