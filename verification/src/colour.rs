//! RGB colours and their `#rrggbb` notation.

use vstd::prelude::*;
use vstd::string::*;

verus! {

/// An opaque RGB colour with eight bits per channel.
#[derive(Debug, Copy, Clone, PartialEq, Eq, Structural)]
pub struct Colour {
    pub r: u8,
    pub g: u8,
    pub b: u8,
}

/// Why a text is not a colour.
#[derive(Debug, Copy, Clone, PartialEq, Eq, Structural)]
pub enum ColourError {
    /// The text is not a `#` followed by six characters.
    Format,
    /// One of the six characters after the `#` is not a hexadecimal digit.
    Digit,
}

impl ColourError {
    /// What the error says to whoever wrote the text.
    pub open spec fn text(self) -> Seq<char> {
        match self {
            ColourError::Format => "colours should be in #rrggbb format"@,
            ColourError::Digit => "invalid digit found in string"@,
        }
    }

    /// The error in words.
    pub fn message(&self) -> (message: &'static str)
        ensures
            message@ == self.text(),
    {
        match self {
            ColourError::Format => "colours should be in #rrggbb format",
            ColourError::Digit => "invalid digit found in string",
        }
    }
}

/// The value of a hexadecimal digit, in either case; `None` for any other
/// character.
pub open spec fn hex_value(c: char) -> Option<int> {
    if '0' <= c <= '9' {
        Some(c as int - '0' as int)
    } else if 'a' <= c <= 'f' {
        Some(c as int - 'a' as int + 10)
    } else if 'A' <= c <= 'F' {
        Some(c as int - 'A' as int + 10)
    } else {
        None
    }
}

/// The value of the two-digit hexadecimal number at `at` and `at + 1`, or
/// `None` if either character is no digit.
pub open spec fn hex_pair(s: Seq<char>, at: int) -> Option<int> {
    match (hex_value(s[at]), hex_value(s[at + 1])) {
        (Some(high), Some(low)) => Some(16 * high + low),
        _ => None,
    }
}

/// Whether `s` has the shape of a colour: a `#` and six more characters.
pub open spec fn has_colour_shape(s: Seq<char>) -> bool {
    s.len() == 7 && s[0] == '#'
}

/// What a text denotes as a colour.
pub open spec fn parse_colour(s: Seq<char>) -> Result<Colour, ColourError> {
    if !has_colour_shape(s) {
        Err(ColourError::Format)
    } else {
        match (hex_pair(s, 1), hex_pair(s, 3), hex_pair(s, 5)) {
            (Some(r), Some(g), Some(b)) => Ok(Colour { r: r as u8, g: g as u8, b: b as u8 }),
            _ => Err(ColourError::Digit),
        }
    }
}

/// Reads one hexadecimal digit.
fn hex_digit(c: char) -> (digit: Option<u8>)
    ensures
        digit.is_some() == hex_value(c).is_some(),
        digit matches Some(d) ==> d < 16 && hex_value(c) == Some(d as int),
{
    let code: u32 = c as u32;
    if 48 <= code && code <= 57 {
        Some((code - 48) as u8)
    } else if 97 <= code && code <= 102 {
        Some((code - 87) as u8)
    } else if 65 <= code && code <= 70 {
        Some((code - 55) as u8)
    } else {
        None
    }
}

/// Reads the two-digit hexadecimal number that starts at `at`.
fn hex_byte(value: &str, at: usize) -> (byte: Option<u8>)
    requires
        at + 1 < value@.len() <= usize::MAX,
    ensures
        byte.is_some() == hex_pair(value@, at as int).is_some(),
        byte matches Some(b) ==> hex_pair(value@, at as int) == Some(b as int),
{
    let high = hex_digit(value.get_char(at));
    let low = hex_digit(value.get_char(at + 1));
    match (high, low) {
        (Some(h), Some(l)) => Some(16 * h + l),
        _ => None,
    }
}

impl Colour {
    /// The colour of points that never escape.
    pub fn black() -> (colour: Colour)
        ensures
            colour == (Colour { r: 0, g: 0, b: 0 }),
    {
        Colour { r: 0, g: 0, b: 0 }
    }

    /// Reads a colour written as `#rrggbb`, two hexadecimal digits per
    /// channel, upper or lower case.
    pub fn try_from(value: &str) -> (res: Result<Colour, ColourError>)
        ensures
            res == parse_colour(value@),
    {
        if value.unicode_len() != 7 {
            return Err(ColourError::Format);
        }
        if value.get_char(0) != '#' {
            return Err(ColourError::Format);
        }
        match (hex_byte(value, 1), hex_byte(value, 3), hex_byte(value, 5)) {
            (Some(r), Some(g), Some(b)) => Ok(Colour { r, g, b }),
            _ => Err(ColourError::Digit),
        }
    }
}

} // verus!
