//! Deterministic text widths for the built-in font profile.

use vstd::prelude::*;

verus! {

/// The built-in Latin font profile: every character has a fixed width,
/// given here in hundredths of the font size.
#[derive(Debug, Clone, Copy, Default)]
pub struct BuiltinMetrics;

impl BuiltinMetrics {
    pub const VERSION: &'static str = "builtin-latin-v1";

    /// Width of `text` in hundredths of the font size.
    pub fn width_hundredths(&self, text: &str) -> (units: u128)
        ensures
            units == text_width_hundredths(text@),
    {
        let length = text.unicode_len();
        let mut units: u128 = 0;
        let mut i: usize = 0;
        while i < length
            invariant
                length == text@.len(),
                i <= length,
                length <= usize::MAX,
                units == text_width_hundredths(text@.take(i as int)),
                units <= 90 * i,
            decreases length - i,
        {
            assert(text@.take(i + 1).drop_last() =~= text@.take(i as int));
            let width = character_width(text.get_char(i));
            assert(units + width <= 90 * (i + 1)) by (nonlinear_arith)
                requires
                    units <= 90 * i,
                    width <= 90,
            ;
            units += width as u128;
            i += 1;
        }
        assert(text@.take(length as int) =~= text@);
        units
    }
}

/// Width of a character in hundredths of the font size.
pub open spec fn character_width_spec(character: char) -> u32 {
    if character == 'i' || character == 'j' || character == 'l' || character == 'I' || character
        == '1' || character == '|' || character == '!' || character == '.' || character == ','
        || character == ':' || character == ';' {
        30
    } else if character == 'm' || character == 'w' || character == 'M' || character == 'W'
        || character == '@' || character == '%' {
        90
    } else if character == ' ' {
        32
    } else if 'A' <= character <= 'Z' {
        67
    } else {
        56
    }
}

/// Width of a text in hundredths of the font size: the sum of its characters.
pub open spec fn text_width_hundredths(text: Seq<char>) -> int
    decreases text.len(),
{
    if text.len() == 0 {
        0
    } else {
        text_width_hundredths(text.drop_last()) + character_width_spec(text.last()) as int
    }
}

/// Width of a character in hundredths of the font size.
pub fn character_width(character: char) -> (width: u32)
    ensures
        width == character_width_spec(character),
        width <= 90,
{
    match character {
        'i' | 'j' | 'l' | 'I' | '1' | '|' | '!' | '.' | ',' | ':' | ';' => 30,
        'm' | 'w' | 'M' | 'W' | '@' | '%' => 90,
        ' ' => 32,
        'A'..='Z' => 67,
        _ => 56,
    }
}

} // verus!
