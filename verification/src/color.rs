//! Color tokens: `#RRGGBB` and `#RRGGBBAA` hex strings, parsed into ARGB
//! components; anything else is treated as opaque black.

use vstd::prelude::*;

verus! {

/// An ARGB color with 8-bit components.
#[derive(Clone, Copy, Debug, PartialEq, Eq, Structural)]
pub struct Color {
    pub a: u8,
    pub r: u8,
    pub g: u8,
    pub b: u8,
}

/// Opaque black, the fallback for unparseable color tokens.
pub open spec fn spec_black() -> Color {
    Color { a: 255, r: 0, g: 0, b: 0 }
}

/// Whether `c` is an ASCII hexadecimal digit (either case).
pub open spec fn is_hex_digit(c: char) -> bool {
    ||| 48 <= c as u32 <= 57
    ||| 65 <= c as u32 <= 70
    ||| 97 <= c as u32 <= 102
}

/// The numeric value of a hexadecimal digit.
pub open spec fn hex_digit_val(c: char) -> int {
    if 48 <= c as u32 <= 57 {
        c as u32 - 48
    } else if 65 <= c as u32 <= 70 {
        c as u32 - 55
    } else {
        c as u32 - 87
    }
}

/// The byte written as the two hexadecimal digits `hi`, `lo`.
pub open spec fn hex_byte(hi: char, lo: char) -> int {
    16 * hex_digit_val(hi) + hex_digit_val(lo)
}

/// Whether every character of `s` in `[from, to)` is a hexadecimal digit.
pub open spec fn all_hex(s: Seq<char>, from: int, to: int) -> bool {
    forall|i: int| from <= i < to ==> is_hex_digit(s[i])
}

/// The color denoted by the token `s`: `#` followed by six hex digits is an
/// opaque color with red, green and blue pairs in that order; `#` followed
/// by eight hex digits is an ARGB token, the alpha pair first; any other
/// token denotes opaque black.
pub open spec fn spec_parse_color(s: Seq<char>) -> Color {
    if s.len() == 7 && s[0] == '#' && all_hex(s, 1, 7) {
        Color {
            a: 255,
            r: hex_byte(s[1], s[2]) as u8,
            g: hex_byte(s[3], s[4]) as u8,
            b: hex_byte(s[5], s[6]) as u8,
        }
    } else if s.len() == 9 && s[0] == '#' && all_hex(s, 1, 9) {
        Color {
            a: hex_byte(s[1], s[2]) as u8,
            r: hex_byte(s[3], s[4]) as u8,
            g: hex_byte(s[5], s[6]) as u8,
            b: hex_byte(s[7], s[8]) as u8,
        }
    } else {
        spec_black()
    }
}

/// The numeric value of the hexadecimal digit at position `i`, or `None`
/// when the character there is no hexadecimal digit.
fn hex_val_at(s: &str, i: usize) -> (r: Option<u8>)
    requires
        i < s@.len(),
    ensures
        r is Some <==> is_hex_digit(s@[i as int]),
        r is Some ==> r->0 == hex_digit_val(s@[i as int]),
{
    let c = s.get_char(i);
    let code = c as u32;
    if 48 <= code && code <= 57 {
        Some((code - 48) as u8)
    } else if 65 <= code && code <= 70 {
        Some((code - 55) as u8)
    } else if 97 <= code && code <= 102 {
        Some((code - 87) as u8)
    } else {
        None
    }
}

/// The byte written by the two hexadecimal digits at positions `i`, `i + 1`,
/// or `None` when either character is no hexadecimal digit.
fn hex_byte_at(s: &str, i: usize) -> (r: Option<u8>)
    requires
        i + 1 < s@.len(),
        i < usize::MAX,
    ensures
        r is Some <==> is_hex_digit(s@[i as int]) && is_hex_digit(s@[i + 1]),
        r is Some ==> r->0 == hex_byte(s@[i as int], s@[i + 1]),
{
    let hi = hex_val_at(s, i);
    let lo = hex_val_at(s, i + 1);
    match (hi, lo) {
        (Some(h), Some(l)) => Some(16 * h + l),
        _ => None,
    }
}

/// Parses a color token.  `#` with six hex digits yields an opaque color,
/// `#` with eight hex digits is an ARGB token with the alpha pair first,
/// and any other string falls back to opaque black.
pub fn parse_color(color_str: &str) -> (r: Color)
    ensures
        r == spec_parse_color(color_str@),
{
    let n = color_str.unicode_len();
    if n != 7 && n != 9 {
        return Color { a: 255, r: 0, g: 0, b: 0 };
    }
    if color_str.get_char(0) != '#' {
        return Color { a: 255, r: 0, g: 0, b: 0 };
    }
    let first = hex_byte_at(color_str, 1);
    let second = hex_byte_at(color_str, 3);
    let third = hex_byte_at(color_str, 5);
    match (first, second, third) {
        (Some(v1), Some(v2), Some(v3)) => {
            if n == 7 {
                Color { a: 255, r: v1, g: v2, b: v3 }
            } else {
                match hex_byte_at(color_str, 7) {
                    Some(v4) => Color { a: v1, r: v2, g: v3, b: v4 },
                    None => Color { a: 255, r: 0, g: 0, b: 0 },
                }
            }
        },
        _ => Color { a: 255, r: 0, g: 0, b: 0 },
    }
}

} // verus!
