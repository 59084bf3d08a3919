//! The color literal parser.
//!
//! A color literal is a `#` prefix followed by exactly six hexadecimal
//! digits: two for each of red, green and blue. The alpha channel of a
//! parsed color is always fully opaque; the markup surface has no syntax
//! for it.

use vstd::prelude::*;

use crate::errors::{LiteralError, LiteralErrorV};

verus! {

/// An RGBA color with four 8-bit channels.
#[derive(Clone, Copy, Debug, PartialEq, Eq, Structural)]
pub struct Color {
    pub red: u8,
    pub green: u8,
    pub blue: u8,
    pub alpha: u8,
}

/// The alpha channel given to every color parsed from a six-digit literal.
pub const OPAQUE_ALPHA: u8 = 255;

impl Color {
    /// Packs four channel values into a color.
    pub fn new(red: u8, green: u8, blue: u8, alpha: u8) -> (c: Color)
        ensures
            c == (Color { red, green, blue, alpha }),
    {
        Color { red, green, blue, alpha }
    }
}

/// Whether `c` is a hexadecimal digit, in either case.
pub open spec fn is_hex_digit(c: char) -> bool {
    ('0' <= c && c <= '9') || ('a' <= c && c <= 'f') || ('A' <= c && c <= 'F')
}

/// The numeric value of the hexadecimal digit `c`.
pub open spec fn hex_val(c: char) -> u8
    recommends
        is_hex_digit(c),
{
    if '0' <= c && c <= '9' {
        (c as int - '0' as int) as u8
    } else if 'a' <= c && c <= 'f' {
        (c as int - 'a' as int + 10) as u8
    } else {
        (c as int - 'A' as int + 10) as u8
    }
}

/// The channel value of the two hexadecimal digits `hi`, `lo`.
pub open spec fn hex_byte(hi: char, lo: char) -> int
    recommends
        is_hex_digit(hi),
        is_hex_digit(lo),
{
    hex_val(hi) * 16 + hex_val(lo)
}

/// Whether every character of `s` from position 1 on is a hexadecimal digit.
pub open spec fn digits_are_hex(s: Seq<char>) -> bool {
    forall|i: int| 1 <= i < s.len() ==> is_hex_digit(#[trigger] s[i])
}

/// What [`parse_color`] returns on the character sequence `s`: the checks
/// run in the order prefix, length, digits, and the channels are read as
/// red, green, blue with an opaque alpha.
pub open spec fn spec_parse_color(s: Seq<char>) -> Result<Color, LiteralErrorV> {
    if s.len() == 0 || s[0] != '#' {
        Err(LiteralErrorV::MissingPrefix)
    } else if s.len() != 7 {
        Err(LiteralErrorV::WrongLength)
    } else if !digits_are_hex(s) {
        Err(LiteralErrorV::MalformedDigits)
    } else {
        Ok(
            Color {
                red: hex_byte(s[1], s[2]) as u8,
                green: hex_byte(s[3], s[4]) as u8,
                blue: hex_byte(s[5], s[6]) as u8,
                alpha: OPAQUE_ALPHA,
            },
        )
    }
}

/// The numeric value of a hexadecimal digit character.
fn hex_val_exec(c: char) -> (r: u8)
    requires
        is_hex_digit(c),
    ensures
        r == hex_val(c),
{
    let v = c as u32;
    if '0' <= c && c <= '9' {
        (v - '0' as u32) as u8
    } else if 'a' <= c && c <= 'f' {
        (v - 'a' as u32 + 10) as u8
    } else {
        (v - 'A' as u32 + 10) as u8
    }
}

/// Whether `c` is a hexadecimal digit.
fn is_hex_digit_exec(c: char) -> (r: bool)
    ensures
        r == is_hex_digit(c),
{
    ('0' <= c && c <= '9') || ('a' <= c && c <= 'f') || ('A' <= c && c <= 'F')
}

/// Parses a `#rrggbb` color literal.
///
/// Fails with `MissingPrefix` when the text does not start with `#`, with
/// `WrongLength` when anything but six characters follow the prefix, and
/// with `MalformedDigits` when one of them is not a hexadecimal digit.
pub fn parse_color(s: &str) -> (r: Result<Color, LiteralError>)
    ensures
        match r {
            Ok(c) => spec_parse_color(s@) == Ok::<Color, LiteralErrorV>(c),
            Err(e) => spec_parse_color(s@) == Err::<Color, LiteralErrorV>(e@),
        },
{
    let len = s.unicode_len();
    if len == 0 || s.get_char(0) != '#' {
        return Err(LiteralError::MissingPrefix);
    }
    if len != 7 {
        return Err(LiteralError::WrongLength);
    }
    let mut i: usize = 1;
    while i < 7
        invariant
            1 <= i <= 7,
            s@.len() == 7,
            s@[0] == '#',
            forall|j: int| 1 <= j < i ==> is_hex_digit(#[trigger] s@[j]),
        decreases 7 - i,
    {
        if !is_hex_digit_exec(s.get_char(i)) {
            assert(!digits_are_hex(s@)) by {
                assert(!is_hex_digit(s@[i as int]));
            }
            return Err(LiteralError::MalformedDigits);
        }
        i += 1;
    }
    let red = hex_val_exec(s.get_char(1)) * 16 + hex_val_exec(s.get_char(2));
    let green = hex_val_exec(s.get_char(3)) * 16 + hex_val_exec(s.get_char(4));
    let blue = hex_val_exec(s.get_char(5)) * 16 + hex_val_exec(s.get_char(6));
    Ok(Color { red, green, blue, alpha: OPAQUE_ALPHA })
}

} // verus!
