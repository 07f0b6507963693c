//! Text overlay support: the watermark color parser and the text errors.
//! (Glyph rasterization is floating-point work done at the edge.)

use vstd::prelude::*;

use crate::strings::push_str;
use vstd::string::StringSliceAdditionalSpecFns;

verus! {

/// A text-rendering failure.
#[derive(Debug, Clone, PartialEq, Eq)]
pub enum TextError {
    /// The font bytes could not be parsed as a TTF/OTF.
    Font(String),
    /// A color value was not a recognized hex form.
    Color(String),
    /// The text to render was empty.
    Empty,
}

/// The human message of a text error.
pub open spec fn spec_text_error_message(e: TextError) -> Seq<char> {
    match e {
        TextError::Font(s) => "could not parse font: "@ + s@,
        TextError::Color(s) => "invalid color '"@ + s@ + "': expected RRGGBB, #RRGGBB, or RRGGBBAA"@,
        TextError::Empty => "text to render must not be empty"@,
    }
}

impl TextError {
    /// The human message.
    pub fn message(&self) -> (m: String)
        ensures
            m@ == spec_text_error_message(*self),
    {
        let mut m = String::new();
        match self {
            TextError::Font(s) => {
                push_str(&mut m, "could not parse font: ");
                push_str(&mut m, s.as_str());
            },
            TextError::Color(s) => {
                push_str(&mut m, "invalid color '");
                push_str(&mut m, s.as_str());
                push_str(&mut m, "': expected RRGGBB, #RRGGBB, or RRGGBBAA");
            },
            TextError::Empty => {
                push_str(&mut m, "text to render must not be empty");
            },
        }
        m
    }
}

/// The value of a hexadecimal digit byte (either case).
pub open spec fn hex_value(c: u8) -> Option<u8> {
    if 0x30 <= c <= 0x39 {
        Some((c - 0x30) as u8)
    } else if 0x61 <= c <= 0x66 {
        Some((c - 0x61 + 10) as u8)
    } else if 0x41 <= c <= 0x46 {
        Some((c - 0x41 + 10) as u8)
    } else {
        None
    }
}

/// The byte a two-byte base-16 field denotes, as `u8::from_str_radix`
/// reads it: an optional leading `+`, then hex digits.
pub open spec fn pair_value(hi: u8, lo: u8) -> Option<u8> {
    if hi == 0x2B {
        hex_value(lo)
    } else {
        match (hex_value(hi), hex_value(lo)) {
            (Some(h), Some(l)) => Some((h * 16 + l) as u8),
            _ => None,
        }
    }
}

/// The digits of a color: the text after one leading `#`, if any.
pub open spec fn color_digits(b: Seq<u8>) -> Seq<u8> {
    if b.len() > 0 && b[0] == 0x23 {
        b.skip(1)
    } else {
        b
    }
}

/// The RGBA bytes a color denotes: `RRGGBB` (alpha 255) or `RRGGBBAA`, each
/// optionally after `#`.
pub open spec fn spec_parse_color(b: Seq<u8>) -> Option<Seq<u8>> {
    let h = color_digits(b);
    if h.len() == 6 {
        match (pair_value(h[0], h[1]), pair_value(h[2], h[3]), pair_value(h[4], h[5])) {
            (Some(r), Some(g), Some(bl)) => Some(seq![r, g, bl, 255u8]),
            _ => None,
        }
    } else if h.len() == 8 {
        match (
            pair_value(h[0], h[1]),
            pair_value(h[2], h[3]),
            pair_value(h[4], h[5]),
            pair_value(h[6], h[7]),
        ) {
            (Some(r), Some(g), Some(bl), Some(a)) => Some(seq![r, g, bl, a]),
            _ => None,
        }
    } else {
        None
    }
}

fn hex_byte(c: u8) -> (r: Option<u8>)
    ensures
        r == hex_value(c),
{
    if 0x30 <= c && c <= 0x39 {
        Some(c - 0x30)
    } else if 0x61 <= c && c <= 0x66 {
        Some(c - 0x61 + 10)
    } else if 0x41 <= c && c <= 0x46 {
        Some(c - 0x41 + 10)
    } else {
        None
    }
}

fn pair(hi: u8, lo: u8) -> (r: Option<u8>)
    ensures
        r == pair_value(hi, lo),
{
    if hi == 0x2B {
        hex_byte(lo)
    } else {
        match (hex_byte(hi), hex_byte(lo)) {
            (Some(h), Some(l)) => Some(h * 16 + l),
            _ => None,
        }
    }
}

/// Parse a hex color into RGBA bytes: `RRGGBB` or `#RRGGBB` (alpha 255),
/// `RRGGBBAA` or `#RRGGBBAA`. Any other length, or a field that is no
/// base-16 byte, is [`TextError::Color`].
pub fn parse_color(s: &str) -> (r: Result<[u8; 4], TextError>)
    ensures
        match r {
            Ok(c) => spec_parse_color(s.spec_bytes()) == Some(c@),
            Err(e) => spec_parse_color(s.spec_bytes()) is None && (e matches TextError::Color(t)
                && t@ == s@),
        },
{
    let b = s.as_bytes();
    let start: usize = if b.len() > 0 && b[0] == 0x23 {
        1
    } else {
        0
    };
    let ghost h = color_digits(b@);
    assert(h =~= b@.skip(start as int));
    let n = b.len() - start;
    if n == 6 {
        match (
            pair(b[start], b[start + 1]),
            pair(b[start + 2], b[start + 3]),
            pair(b[start + 4], b[start + 5]),
        ) {
            (Some(red), Some(green), Some(blue)) => {
                let out: [u8; 4] = [red, green, blue, 255];
                assert(out@ =~= seq![red, green, blue, 255u8]);
                Ok(out)
            },
            _ => Err(TextError::Color(s.to_owned())),
        }
    } else if n == 8 {
        match (
            pair(b[start], b[start + 1]),
            pair(b[start + 2], b[start + 3]),
            pair(b[start + 4], b[start + 5]),
            pair(b[start + 6], b[start + 7]),
        ) {
            (Some(red), Some(green), Some(blue), Some(alpha)) => {
                let out: [u8; 4] = [red, green, blue, alpha];
                assert(out@ =~= seq![red, green, blue, alpha]);
                Ok(out)
            },
            _ => Err(TextError::Color(s.to_owned())),
        }
    } else {
        Err(TextError::Color(s.to_owned()))
    }
}

} // verus!
