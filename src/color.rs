//! Colours: reading hex colour codes, and painting text for the terminal.
use vstd::prelude::*;

use colored::Colorize;

verus! {

/// A display colour.
#[derive(Debug, Clone, Copy, PartialEq, Eq, Structural)]
pub enum BoxColor {
    /// The terminal's white, used where a colour code cannot be read.
    White,
    /// A 24-bit colour.
    TrueColor { r: u8, g: u8, b: u8 },
}

/// Value of a hexadecimal digit, either case.
pub open spec fn hex_digit(c: char) -> Option<u8> {
    if '0' <= c <= '9' {
        Some((c as u32 - '0' as u32) as u8)
    } else if 'a' <= c <= 'f' {
        Some((c as u32 - 'a' as u32 + 10) as u8)
    } else if 'A' <= c <= 'F' {
        Some((c as u32 - 'A' as u32 + 10) as u8)
    } else {
        None
    }
}

/// Whether every character of `s` after the first is a hexadecimal digit.
pub open spec fn hex_tail(s: Seq<char>) -> bool {
    forall|i: int| 1 <= i < s.len() ==> #[trigger] hex_digit(s[i]) is Some
}

/// Digit `i` of `s` as a number.
pub open spec fn digit_at(s: Seq<char>, i: int) -> int {
    hex_digit(s[i])->0 as int
}

/// Value of a two-character pair of a long code: two hexadecimal digits, or
/// `+` and one digit (the sign that an unsigned number may carry).
pub open spec fn pair_value(a: char, b: char) -> Option<u8> {
    if a == '+' {
        hex_digit(b)
    } else {
        match (hex_digit(a), hex_digit(b)) {
            (Some(x), Some(y)) => Some((16 * x + y) as u8),
            _ => None,
        }
    }
}

/// Red, green and blue that `hex_color::HexColor::parse` reads from `s`, or
/// `None` where it refuses `s`. It takes `#` and then 3 or 4 hexadecimal
/// digits (a digit `d` standing for `dd`), or 3 or 4 pairs; the fourth
/// component, alpha, is read and left out.
pub open spec fn hex_parse(s: Seq<char>) -> Option<(u8, u8, u8)> {
    if s.len() == 0 || s[0] != '#' {
        None
    } else if s.len() == 4 || s.len() == 5 {
        if hex_tail(s) {
            Some(
                (
                    (17 * digit_at(s, 1)) as u8,
                    (17 * digit_at(s, 2)) as u8,
                    (17 * digit_at(s, 3)) as u8,
                ),
            )
        } else {
            None
        }
    } else if s.len() == 7 || s.len() == 9 {
        let alpha = if s.len() == 9 {
            pair_value(s[7], s[8])
        } else {
            Some(255u8)
        };
        match (pair_value(s[1], s[2]), pair_value(s[3], s[4]), pair_value(s[5], s[6]), alpha) {
            (Some(r), Some(g), Some(b), Some(_)) => Some((r, g, b)),
            _ => None,
        }
    } else {
        None
    }
}

/// Relies on `hex_color::HexColor::parse`: it reads `#RGB`, `#RGBA`, `#RRGGBB`
/// and `#RRGGBBAA` in either case, each pair through `u8::from_str_radix`,
/// and refuses every other text.
#[verifier::external_body]
fn parse_hex(s: &str) -> (r: Option<(u8, u8, u8)>)
    ensures
        r == hex_parse(s@),
{
    match hex_color::HexColor::parse(s) {
        Ok(c) => Some((c.r, c.g, c.b)),
        Err(_) => None,
    }
}

/// The colour that a parse result stands for: white when the code was refused.
pub open spec fn color_from(parsed: Option<(u8, u8, u8)>) -> BoxColor {
    match parsed {
        Some((r, g, b)) => BoxColor::TrueColor { r, g, b },
        None => BoxColor::White,
    }
}

/// The colour of code `s`.
pub open spec fn color_of(s: Seq<char>) -> BoxColor {
    color_from(hex_parse(s))
}

/// The colour that a parse result stands for: white when the code was refused.
pub fn color_from_parsed(parsed: Option<(u8, u8, u8)>) -> (r: BoxColor)
    ensures
        r == color_from(parsed),
{
    match parsed {
        Some((r, g, b)) => BoxColor::TrueColor { r, g, b },
        None => BoxColor::White,
    }
}

/// The colour of hex code `code`, or white when it cannot be read.
pub fn resolve_color(code: &str) -> (r: BoxColor)
    ensures
        r == color_of(code@),
{
    color_from_parsed(parse_hex(code))
}

/// The terminal code that ends a colour: `ESC [ 0 m`.
pub open spec fn reset_code() -> Seq<char> {
    seq!['\x1b', '[', '0', 'm']
}

/// Whether `s` holds the reset code somewhere.
pub open spec fn holds_reset(s: Seq<char>) -> bool {
    exists|i: int| 0 <= i && i + 4 <= s.len() && #[trigger] s.subrange(i, i + 4) == reset_code()
}

/// Whether `r` is `s` wrapped in terminal colour codes: it opens with
/// `ESC [`, closes with the reset code, and, where `s` holds no reset code of
/// its own, ends with `s` followed by the reset code.
pub open spec fn ansi_wrapped(r: Seq<char>, s: Seq<char>) -> bool {
    &&& r.len() >= s.len() + 9
    &&& r.take(2) == seq!['\x1b', '[']
    &&& r.skip(r.len() - 4) == reset_code()
    &&& !holds_reset(s) ==> r.skip(r.len() - s.len() - 4) == s + reset_code()
}

/// Relies on `colored::Colorize::color` and the `Display` of `ColoredString`:
/// the text comes back unchanged where the environment turns colours off, and
/// otherwise as a colour code, the text (with any reset code in it followed
/// by the colour code again) and the reset code.
#[verifier::external_body]
fn paint(text: &str, color: BoxColor) -> (r: String)
    ensures
        r@ == text@ || ansi_wrapped(r@, text@),
{
    let c = match color {
        BoxColor::White => colored::Color::White,
        BoxColor::TrueColor { r, g, b } => colored::Color::TrueColor { r, g, b },
    };
    text.color(c).to_string()
}

/// Text as printed: plain without a colour, and possibly wrapped in colour
/// codes with one.
pub open spec fn printed_as(p: Seq<char>, text: Seq<char>, color: Option<BoxColor>) -> bool {
    match color {
        None => p == text,
        Some(_) => p == text || ansi_wrapped(p, text),
    }
}

/// `text` in `color`, ready for the terminal.
pub fn paint_text(text: &str, color: Option<BoxColor>) -> (r: String)
    ensures
        printed_as(r@, text@, color),
{
    match color {
        Some(c) => paint(text, c),
        None => String::from_str(text),
    }
}

} // verus!
