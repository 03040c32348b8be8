//! What the theme editor makes of the colours that are typed in.

use vstd::prelude::*;
use crate::text::{chars_of, parse_u8_in, parse_unsigned};
use crate::zsh::seq::NamedColor;
use crate::zsh::theme::named_color_serde::{
    color_text, parse_named_color, parsed_color, serialize,
};

verus! {

/// The character of the hexadecimal digit `digit`, from 0 to 15, in upper case.
pub open spec fn hex_char(digit: int) -> char {
    if digit == 0 {
        '0'
    } else if digit == 1 {
        '1'
    } else if digit == 2 {
        '2'
    } else if digit == 3 {
        '3'
    } else if digit == 4 {
        '4'
    } else if digit == 5 {
        '5'
    } else if digit == 6 {
        '6'
    } else if digit == 7 {
        '7'
    } else if digit == 8 {
        '8'
    } else if digit == 9 {
        '9'
    } else if digit == 10 {
        'A'
    } else if digit == 11 {
        'B'
    } else if digit == 12 {
        'C'
    } else if digit == 13 {
        'D'
    } else if digit == 14 {
        'E'
    } else {
        'F'
    }
}

/// The two hexadecimal digits of a channel.
pub open spec fn hex_pair(channel: u8) -> Seq<char> {
    seq![hex_char(channel as int / 16), hex_char(channel as int % 16)]
}

/// The colour `rgb` as `#RRGGBB`.
pub open spec fn hex_text(rgb: (u8, u8, u8)) -> Seq<char> {
    seq!['#'] + hex_pair(rgb.0) + hex_pair(rgb.1) + hex_pair(rgb.2)
}

fn hex_digit_text(digit: u8) -> (text: &'static str)
    requires
        digit < 16,
    ensures
        text@ == seq![hex_char(digit as int)],
{
    proof {
        reveal_strlit("0");
        reveal_strlit("1");
        reveal_strlit("2");
        reveal_strlit("3");
        reveal_strlit("4");
        reveal_strlit("5");
        reveal_strlit("6");
        reveal_strlit("7");
        reveal_strlit("8");
        reveal_strlit("9");
        reveal_strlit("A");
        reveal_strlit("B");
        reveal_strlit("C");
        reveal_strlit("D");
        reveal_strlit("E");
        reveal_strlit("F");
    }
    let text: &'static str = if digit == 0 {
        "0"
    } else if digit == 1 {
        "1"
    } else if digit == 2 {
        "2"
    } else if digit == 3 {
        "3"
    } else if digit == 4 {
        "4"
    } else if digit == 5 {
        "5"
    } else if digit == 6 {
        "6"
    } else if digit == 7 {
        "7"
    } else if digit == 8 {
        "8"
    } else if digit == 9 {
        "9"
    } else if digit == 10 {
        "A"
    } else if digit == 11 {
        "B"
    } else if digit == 12 {
        "C"
    } else if digit == 13 {
        "D"
    } else if digit == 14 {
        "E"
    } else {
        "F"
    };
    proof {
        assert(text@ =~= seq![hex_char(digit as int)]);
    }
    text
}

/// Writes `rgb` as `#RRGGBB`.
pub fn format_hex(rgb: (u8, u8, u8)) -> (text: String)
    ensures
        text@ == hex_text(rgb),
{
    proof {
        reveal_strlit("#");
    }
    let text = String::from_str("#").concat(hex_digit_text(rgb.0 / 16)).concat(
        hex_digit_text(rgb.0 % 16),
    ).concat(hex_digit_text(rgb.1 / 16)).concat(hex_digit_text(rgb.1 % 16)).concat(
        hex_digit_text(rgb.2 / 16),
    ).concat(hex_digit_text(rgb.2 % 16));
    proof {
        assert(text@ =~= hex_text(rgb));
    }
    text
}

/// How the editor shows a colour that may be missing: `None` for none,
/// `#RRGGBB` for a 24-bit colour, and for every other colour the text that
/// a theme document holds.
pub open spec fn shown_color(color: Option<NamedColor>) -> Seq<char> {
    match color {
        None => "None"@,
        Some(NamedColor::FullColor(rgb)) => hex_text(rgb),
        Some(c) => color_text(c),
    }
}

/// Writes a colour for the editor.
pub fn display_named_color(color: Option<&NamedColor>) -> (text: String)
    ensures
        text@ == shown_color(
            match color {
                Some(c) => Some(*c),
                None => None,
            },
        ),
{
    match color {
        None => String::from_str("None"),
        Some(NamedColor::FullColor(rgb)) => format_hex(*rgb),
        Some(c) => serialize(c),
    }
}

/// Whether `text` is the word `none` in any mix of upper and lower case.
pub open spec fn is_none_word(text: Seq<char>) -> bool {
    &&& text.len() == 4
    &&& (text[0] == 'n' || text[0] == 'N')
    &&& (text[1] == 'o' || text[1] == 'O')
    &&& (text[2] == 'n' || text[2] == 'N')
    &&& (text[3] == 'e' || text[3] == 'E')
}

/// The colour that the editor takes from the input: none where the input
/// is empty or the word `none`; the colour that the input stands for where
/// it stands for one; and the colour that was there before otherwise.
pub open spec fn chosen_color(input: Seq<char>, before: Option<NamedColor>) -> Option<NamedColor> {
    if is_none_word(input) || input.len() == 0 {
        None
    } else {
        match parsed_color(input) {
            Ok(color) => Some(color),
            Err(_) => before,
        }
    }
}

/// Takes a colour from what was typed in.
pub fn prompt_for_named_color(input: &str, default_color: Option<&NamedColor>) -> (color: Option<
    NamedColor,
>)
    ensures
        color == chosen_color(
            input@,
            match default_color {
                Some(c) => Some(*c),
                None => None,
            },
        ),
{
    let chars = chars_of(input);
    if chars.len() == 0 {
        return None;
    }
    if chars.len() == 4 && (chars[0] == 'n' || chars[0] == 'N') && (chars[1] == 'o' || chars[1]
        == 'O') && (chars[2] == 'n' || chars[2] == 'N') && (chars[3] == 'e' || chars[3] == 'E') {
        return None;
    }
    match parse_named_color(input) {
        Ok(color) => Some(color),
        Err(_) => match default_color {
            Some(c) => Some(*c),
            None => None,
        },
    }
}

/// The 24-bit colour that `#RRGGBB` stands for, if `text` has that form:
/// a hash sign and three numbers of two hexadecimal characters each.
pub open spec fn hex_rgb(text: Seq<char>) -> Option<(u8, u8, u8)> {
    if text.len() == 7 && text[0] == '#' {
        match (
            parse_unsigned(text.subrange(1, 3), 16, 255),
            parse_unsigned(text.subrange(3, 5), 16, 255),
            parse_unsigned(text.subrange(5, 7), 16, 255),
        ) {
            (Ok(r), Ok(g), Ok(b)) => Some((r as u8, g as u8, b as u8)),
            _ => None,
        }
    } else {
        None
    }
}

/// Takes a 24-bit colour from what was typed in, and `default_rgb` where
/// the input is no colour of the form `#RRGGBB`.
pub fn prompt_for_rgb_color(input: &str, default_rgb: (u8, u8, u8)) -> (rgb: (u8, u8, u8))
    ensures
        rgb == match hex_rgb(input@) {
            Some(color) => color,
            None => default_rgb,
        },
{
    let chars = chars_of(input);
    if chars.len() == 7 && chars[0] == '#' {
        let r = parse_u8_in(&chars, 1, 3, 16);
        let g = parse_u8_in(&chars, 3, 5, 16);
        let b = parse_u8_in(&chars, 5, 7, 16);
        if let (Ok(r), Ok(g), Ok(b)) = (r, g, b) {
            return (r, g, b);
        }
    }
    default_rgb
}

} // verus!
