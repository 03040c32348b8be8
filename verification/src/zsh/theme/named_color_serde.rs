//! Colours as text, the way a theme document holds them.

use vstd::prelude::*;
use crate::text::{
    chars_of, decimal, format_decimal, has_prefix, int_error_text,
    lemma_decimal_reads_back, lemma_split_at_first, lemma_trimmed_keeps, parse_u8_in,
    parse_unsigned, same_text, split, split_ranges, trim_range, trimmed, IntErrorKind,
};
use crate::zsh::seq::NamedColor;

verus! {

/// Why a text is not a colour.
#[derive(Clone, Copy, Debug, PartialEq, Eq)]
pub enum ColorParseError {
    /// The index of `Code256(..)` is not a number from 0 to 255.
    Code256(IntErrorKind),
    /// The first part of `FullColor(..)` is not a number from 0 to 255.
    FullColorRed(IntErrorKind),
    /// The second part of `FullColor(..)` is not a number from 0 to 255.
    FullColorGreen(IntErrorKind),
    /// The third part of `FullColor(..)` is not a number from 0 to 255.
    FullColorBlue(IntErrorKind),
    /// `FullColor(..)` does not hold three parts.
    FullColorParts,
    /// The text is no form of a colour.
    Unknown,
}

/// The colour that has the name `text`, if it is the name of one.
pub open spec fn named(text: Seq<char>) -> Option<NamedColor> {
    if text == "Black"@ {
        Some(NamedColor::Black)
    } else if text == "Red"@ {
        Some(NamedColor::Red)
    } else if text == "Green"@ {
        Some(NamedColor::Green)
    } else if text == "Yellow"@ {
        Some(NamedColor::Yellow)
    } else if text == "Blue"@ {
        Some(NamedColor::Blue)
    } else if text == "Magenta"@ {
        Some(NamedColor::Magenta)
    } else if text == "Cyan"@ {
        Some(NamedColor::Cyan)
    } else if text == "White"@ {
        Some(NamedColor::White)
    } else if text == "LightBlack"@ {
        Some(NamedColor::LightBlack)
    } else if text == "LightRed"@ {
        Some(NamedColor::LightRed)
    } else if text == "LightGreen"@ {
        Some(NamedColor::LightGreen)
    } else if text == "LightYellow"@ {
        Some(NamedColor::LightYellow)
    } else if text == "LightBlue"@ {
        Some(NamedColor::LightBlue)
    } else if text == "LightMagenta"@ {
        Some(NamedColor::LightMagenta)
    } else if text == "LightCyan"@ {
        Some(NamedColor::LightCyan)
    } else if text == "LightWhite"@ {
        Some(NamedColor::LightWhite)
    } else {
        None
    }
}

/// Whether `text` has the form `opening` ... `)`.
pub open spec fn enclosed(text: Seq<char>, opening: Seq<char>) -> bool {
    opening.is_prefix_of(text) && text.len() > opening.len() && text.last() == ')'
}

/// What stands between `opening` and the closing bracket of `text`.
pub open spec fn inside(text: Seq<char>, opening: Seq<char>) -> Seq<char> {
    text.subrange(opening.len() as int, text.len() - 1)
}

/// The colour of the three parts of `FullColor(..)`: each part, trimmed, is
/// a number from 0 to 255; the first part that is none gives the error.
pub open spec fn full_color(parts: Seq<Seq<char>>) -> Result<NamedColor, ColorParseError> {
    if parts.len() != 3 {
        Err(ColorParseError::FullColorParts)
    } else {
        match parse_unsigned(trimmed(parts[0]), 10, 255) {
            Err(kind) => Err(ColorParseError::FullColorRed(kind)),
            Ok(r) => match parse_unsigned(trimmed(parts[1]), 10, 255) {
                Err(kind) => Err(ColorParseError::FullColorGreen(kind)),
                Ok(g) => match parse_unsigned(trimmed(parts[2]), 10, 255) {
                    Err(kind) => Err(ColorParseError::FullColorBlue(kind)),
                    Ok(b) => Ok(NamedColor::FullColor((r as u8, g as u8, b as u8))),
                },
            },
        }
    }
}

/// The colour that `text` stands for: the name of one of the sixteen named
/// colours, `Code256(n)`, or `FullColor(r,g,b)` with white space allowed
/// round each number.
pub open spec fn parsed_color(text: Seq<char>) -> Result<NamedColor, ColorParseError> {
    if let Some(color) = named(text) {
        Ok(color)
    } else if enclosed(text, "Code256("@) {
        match parse_unsigned(inside(text, "Code256("@), 10, 255) {
            Ok(code) => Ok(NamedColor::Code256(code as u8)),
            Err(kind) => Err(ColorParseError::Code256(kind)),
        }
    } else if enclosed(text, "FullColor("@) {
        full_color(split(inside(text, "FullColor("@), ','))
    } else {
        Err(ColorParseError::Unknown)
    }
}

fn parse_name(chars: &Vec<char>) -> (color: Option<NamedColor>)
    ensures
        color == named(chars@),
{
    if same_text(chars, "Black") {
        Some(NamedColor::Black)
    } else if same_text(chars, "Red") {
        Some(NamedColor::Red)
    } else if same_text(chars, "Green") {
        Some(NamedColor::Green)
    } else if same_text(chars, "Yellow") {
        Some(NamedColor::Yellow)
    } else if same_text(chars, "Blue") {
        Some(NamedColor::Blue)
    } else if same_text(chars, "Magenta") {
        Some(NamedColor::Magenta)
    } else if same_text(chars, "Cyan") {
        Some(NamedColor::Cyan)
    } else if same_text(chars, "White") {
        Some(NamedColor::White)
    } else if same_text(chars, "LightBlack") {
        Some(NamedColor::LightBlack)
    } else if same_text(chars, "LightRed") {
        Some(NamedColor::LightRed)
    } else if same_text(chars, "LightGreen") {
        Some(NamedColor::LightGreen)
    } else if same_text(chars, "LightYellow") {
        Some(NamedColor::LightYellow)
    } else if same_text(chars, "LightBlue") {
        Some(NamedColor::LightBlue)
    } else if same_text(chars, "LightMagenta") {
        Some(NamedColor::LightMagenta)
    } else if same_text(chars, "LightCyan") {
        Some(NamedColor::LightCyan)
    } else if same_text(chars, "LightWhite") {
        Some(NamedColor::LightWhite)
    } else {
        None
    }
}

fn is_enclosed(chars: &Vec<char>, opening: &str) -> (found: Option<usize>)
    ensures
        found is Some <==> enclosed(chars@, opening@),
        found matches Some(start) ==> start == opening@.len() && start < chars.len(),
{
    let start: usize = opening.unicode_len();
    if has_prefix(chars, opening) && chars.len() > start && chars[chars.len() - 1] == ')' {
        Some(start)
    } else {
        None
    }
}

fn parse_part(chars: &Vec<char>, bounds: (usize, usize)) -> (number: Result<u8, IntErrorKind>)
    requires
        bounds.0 <= bounds.1 <= chars.len(),
    ensures
        match parse_unsigned(trimmed(chars@.subrange(bounds.0 as int, bounds.1 as int)), 10, 255) {
            Ok(value) => number == Ok::<u8, IntErrorKind>(value as u8) && 0 <= value <= 255,
            Err(kind) => number == Err::<u8, IntErrorKind>(kind),
        },
{
    let (from, to) = trim_range(chars, bounds.0, bounds.1);
    parse_u8_in(chars, from, to, 10)
}

/// Reads a colour from `s`.
pub fn parse_named_color(s: &str) -> (color: Result<NamedColor, ColorParseError>)
    ensures
        color == parsed_color(s@),
{
    let chars = chars_of(s);
    if let Some(color) = parse_name(&chars) {
        return Ok(color);
    }
    if let Some(start) = is_enclosed(&chars, "Code256(") {
        return match parse_u8_in(&chars, start, chars.len() - 1, 10) {
            Ok(code) => Ok(NamedColor::Code256(code)),
            Err(kind) => Err(ColorParseError::Code256(kind)),
        };
    }
    if let Some(start) = is_enclosed(&chars, "FullColor(") {
        let parts = split_ranges(&chars, start, chars.len() - 1, ',');
        let ghost texts = split(inside(s@, "FullColor("@), ',');
        proof {
            assert(texts.len() == parts.len());
        }
        if parts.len() != 3 {
            return Err(ColorParseError::FullColorParts);
        }
        proof {
            assert(texts[0] == chars@.subrange(parts[0].0 as int, parts[0].1 as int));
            assert(texts[1] == chars@.subrange(parts[1].0 as int, parts[1].1 as int));
            assert(texts[2] == chars@.subrange(parts[2].0 as int, parts[2].1 as int));
        }
        let r = match parse_part(&chars, parts[0]) {
            Ok(r) => r,
            Err(kind) => {
                return Err(ColorParseError::FullColorRed(kind));
            },
        };
        let g = match parse_part(&chars, parts[1]) {
            Ok(g) => g,
            Err(kind) => {
                return Err(ColorParseError::FullColorGreen(kind));
            },
        };
        let b = match parse_part(&chars, parts[2]) {
            Ok(b) => b,
            Err(kind) => {
                return Err(ColorParseError::FullColorBlue(kind));
            },
        };
        return Ok(NamedColor::FullColor((r, g, b)));
    }
    Err(ColorParseError::Unknown)
}

/// What is said of the text `input` that gave the error `error`.
pub open spec fn error_text(error: ColorParseError, input: Seq<char>) -> Seq<char> {
    match error {
        ColorParseError::Code256(kind) => "Invalid Code256 format: "@ + int_error_text(kind),
        ColorParseError::FullColorRed(kind) => "Invalid FullColor format (R): "@ + int_error_text(
            kind,
        ),
        ColorParseError::FullColorGreen(kind) => "Invalid FullColor format (G): "@
            + int_error_text(kind),
        ColorParseError::FullColorBlue(kind) => "Invalid FullColor format (B): "@ + int_error_text(
            kind,
        ),
        ColorParseError::FullColorParts => "Invalid FullColor format: "@ + input
            + ". Expected FullColor(r,g,b)"@,
        ColorParseError::Unknown => "Unknown NamedColor variant or invalid format: "@ + input,
    }
}

impl ColorParseError {
    /// What is said of the text `input` that gave this error.
    pub fn message(&self, input: &str) -> (text: String)
        ensures
            text@ == error_text(*self, input@),
    {
        match self {
            ColorParseError::Code256(kind) => String::from_str("Invalid Code256 format: ").concat(
                kind.message(),
            ),
            ColorParseError::FullColorRed(kind) => String::from_str(
                "Invalid FullColor format (R): ",
            ).concat(kind.message()),
            ColorParseError::FullColorGreen(kind) => String::from_str(
                "Invalid FullColor format (G): ",
            ).concat(kind.message()),
            ColorParseError::FullColorBlue(kind) => String::from_str(
                "Invalid FullColor format (B): ",
            ).concat(kind.message()),
            ColorParseError::FullColorParts => String::from_str(
                "Invalid FullColor format: ",
            ).concat(input).concat(". Expected FullColor(r,g,b)"),
            ColorParseError::Unknown => String::from_str(
                "Unknown NamedColor variant or invalid format: ",
            ).concat(input),
        }
    }
}

/// Reads a colour from `s`, and says what is wrong with `s` where it is none.
pub fn deserialize_from_str(s: &str) -> (color: Result<NamedColor, String>)
    ensures
        match parsed_color(s@) {
            Ok(c) => color == Ok::<NamedColor, String>(c),
            Err(e) => color is Err && color->Err_0@ == error_text(e, s@),
        },
{
    match parse_named_color(s) {
        Ok(color) => Ok(color),
        Err(error) => Err(error.message(s)),
    }
}

/// The text that stands for `color`.
pub open spec fn color_text(color: NamedColor) -> Seq<char> {
    match color {
        NamedColor::Black => "Black"@,
        NamedColor::Red => "Red"@,
        NamedColor::Green => "Green"@,
        NamedColor::Yellow => "Yellow"@,
        NamedColor::Blue => "Blue"@,
        NamedColor::Magenta => "Magenta"@,
        NamedColor::Cyan => "Cyan"@,
        NamedColor::White => "White"@,
        NamedColor::LightBlack => "LightBlack"@,
        NamedColor::LightRed => "LightRed"@,
        NamedColor::LightGreen => "LightGreen"@,
        NamedColor::LightYellow => "LightYellow"@,
        NamedColor::LightBlue => "LightBlue"@,
        NamedColor::LightMagenta => "LightMagenta"@,
        NamedColor::LightCyan => "LightCyan"@,
        NamedColor::LightWhite => "LightWhite"@,
        NamedColor::Code256(code) => "Code256("@ + decimal(code as nat) + ")"@,
        NamedColor::FullColor(rgb) => "FullColor("@ + decimal(rgb.0 as nat) + ","@ + decimal(
            rgb.1 as nat,
        ) + ","@ + decimal(rgb.2 as nat) + ")"@,
    }
}

/// Writes `color` as text.
pub fn serialize(color: &NamedColor) -> (text: String)
    ensures
        text@ == color_text(*color),
{
    match color {
        NamedColor::Black => String::from_str("Black"),
        NamedColor::Red => String::from_str("Red"),
        NamedColor::Green => String::from_str("Green"),
        NamedColor::Yellow => String::from_str("Yellow"),
        NamedColor::Blue => String::from_str("Blue"),
        NamedColor::Magenta => String::from_str("Magenta"),
        NamedColor::Cyan => String::from_str("Cyan"),
        NamedColor::White => String::from_str("White"),
        NamedColor::LightBlack => String::from_str("LightBlack"),
        NamedColor::LightRed => String::from_str("LightRed"),
        NamedColor::LightGreen => String::from_str("LightGreen"),
        NamedColor::LightYellow => String::from_str("LightYellow"),
        NamedColor::LightBlue => String::from_str("LightBlue"),
        NamedColor::LightMagenta => String::from_str("LightMagenta"),
        NamedColor::LightCyan => String::from_str("LightCyan"),
        NamedColor::LightWhite => String::from_str("LightWhite"),
        NamedColor::Code256(code) => String::from_str("Code256(").concat(
            format_decimal(*code as u64).as_str(),
        ).concat(")"),
        NamedColor::FullColor(rgb) => String::from_str("FullColor(").concat(
            format_decimal(rgb.0 as u64).as_str(),
        ).concat(",").concat(format_decimal(rgb.1 as u64).as_str()).concat(",").concat(
            format_decimal(rgb.2 as u64).as_str(),
        ).concat(")"),
    }
}

proof fn lemma_names() 
    ensures
        "Black"@ == seq!['B', 'l', 'a', 'c', 'k'],
        "Red"@ == seq!['R', 'e', 'd'],
        "Green"@ == seq!['G', 'r', 'e', 'e', 'n'],
        "Yellow"@ == seq!['Y', 'e', 'l', 'l', 'o', 'w'],
        "Blue"@ == seq!['B', 'l', 'u', 'e'],
        "Magenta"@ == seq!['M', 'a', 'g', 'e', 'n', 't', 'a'],
        "Cyan"@ == seq!['C', 'y', 'a', 'n'],
        "White"@ == seq!['W', 'h', 'i', 't', 'e'],
        "LightBlack"@ == seq!['L', 'i', 'g', 'h', 't', 'B', 'l', 'a', 'c', 'k'],
        "LightRed"@ == seq!['L', 'i', 'g', 'h', 't', 'R', 'e', 'd'],
        "LightGreen"@ == seq!['L', 'i', 'g', 'h', 't', 'G', 'r', 'e', 'e', 'n'],
        "LightYellow"@ == seq!['L', 'i', 'g', 'h', 't', 'Y', 'e', 'l', 'l', 'o', 'w'],
        "LightBlue"@ == seq!['L', 'i', 'g', 'h', 't', 'B', 'l', 'u', 'e'],
        "LightMagenta"@ == seq!['L', 'i', 'g', 'h', 't', 'M', 'a', 'g', 'e', 'n', 't', 'a'],
        "LightCyan"@ == seq!['L', 'i', 'g', 'h', 't', 'C', 'y', 'a', 'n'],
        "LightWhite"@ == seq!['L', 'i', 'g', 'h', 't', 'W', 'h', 'i', 't', 'e'],
        "Code256("@ == seq!['C', 'o', 'd', 'e', '2', '5', '6', '('],
        "FullColor("@ == seq!['F', 'u', 'l', 'l', 'C', 'o', 'l', 'o', 'r', '('],
        ")"@ == seq![')'],
        ","@ == seq![','],
{
    reveal_strlit("Black");
    reveal_strlit("Red");
    reveal_strlit("Green");
    reveal_strlit("Yellow");
    reveal_strlit("Blue");
    reveal_strlit("Magenta");
    reveal_strlit("Cyan");
    reveal_strlit("White");
    reveal_strlit("LightBlack");
    reveal_strlit("LightRed");
    reveal_strlit("LightGreen");
    reveal_strlit("LightYellow");
    reveal_strlit("LightBlue");
    reveal_strlit("LightMagenta");
    reveal_strlit("LightCyan");
    reveal_strlit("LightWhite");
    reveal_strlit("Code256(");
    reveal_strlit("FullColor(");
    reveal_strlit(")");
    reveal_strlit(",");
    assert("Black"@ =~= seq!['B', 'l', 'a', 'c', 'k']);
    assert("Red"@ =~= seq!['R', 'e', 'd']);
    assert("Green"@ =~= seq!['G', 'r', 'e', 'e', 'n']);
    assert("Yellow"@ =~= seq!['Y', 'e', 'l', 'l', 'o', 'w']);
    assert("Blue"@ =~= seq!['B', 'l', 'u', 'e']);
    assert("Magenta"@ =~= seq!['M', 'a', 'g', 'e', 'n', 't', 'a']);
    assert("Cyan"@ =~= seq!['C', 'y', 'a', 'n']);
    assert("White"@ =~= seq!['W', 'h', 'i', 't', 'e']);
    assert("LightBlack"@ =~= seq!['L', 'i', 'g', 'h', 't', 'B', 'l', 'a', 'c', 'k']);
    assert("LightRed"@ =~= seq!['L', 'i', 'g', 'h', 't', 'R', 'e', 'd']);
    assert("LightGreen"@ =~= seq!['L', 'i', 'g', 'h', 't', 'G', 'r', 'e', 'e', 'n']);
    assert("LightYellow"@ =~= seq!['L', 'i', 'g', 'h', 't', 'Y', 'e', 'l', 'l', 'o', 'w']);
    assert("LightBlue"@ =~= seq!['L', 'i', 'g', 'h', 't', 'B', 'l', 'u', 'e']);
    assert("LightMagenta"@ =~= seq!['L', 'i', 'g', 'h', 't', 'M', 'a', 'g', 'e', 'n', 't', 'a']);
    assert("LightCyan"@ =~= seq!['L', 'i', 'g', 'h', 't', 'C', 'y', 'a', 'n']);
    assert("LightWhite"@ =~= seq!['L', 'i', 'g', 'h', 't', 'W', 'h', 'i', 't', 'e']);
    assert("Code256("@ =~= seq!['C', 'o', 'd', 'e', '2', '5', '6', '(']);
    assert("FullColor("@ =~= seq!['F', 'u', 'l', 'l', 'C', 'o', 'l', 'o', 'r', '(']);
    assert(")"@ =~= seq![')']);
    assert(","@ =~= seq![',']);
}

proof fn lemma_channel_reads_back(channel: u8)
    ensures
        parse_unsigned(trimmed(decimal(channel as nat)), 10, 255) == Ok::<int, IntErrorKind>(
            channel as int,
        ),
        forall|i: int|
            0 <= i < decimal(channel as nat).len() ==> (#[trigger] decimal(channel as nat)[i])
                != ',',
{
    let digits = decimal(channel as nat);
    lemma_decimal_reads_back(channel as nat, 255);
    assert('0' <= digits.first() <= '9');
    assert('0' <= digits.last() <= '9');
    lemma_trimmed_keeps(digits);
}

/// A text that does not start with `L`, or whose second character is none
/// of a name's, is no name of a colour.
proof fn lemma_not_named(text: Seq<char>)
    requires
        text.len() >= 2,
        text[0] == 'F' || (text[0] == 'C' && text[1] == 'o'),
    ensures
        named(text) is None,
{
    lemma_names();
}

/// Reading the text that was written for a colour gives the colour back.
pub proof fn lemma_color_text_reads_back(color: NamedColor)
    ensures
        parsed_color(color_text(color)) == Ok::<NamedColor, ColorParseError>(color),
{
    lemma_names();
    let text = color_text(color);
    match color {
        NamedColor::Code256(code) => {
            let digits = decimal(code as nat);
            lemma_decimal_reads_back(code as nat, 255);
            assert(text[0] == 'C' && text[1] == 'o');
            lemma_not_named(text);
            assert(text.subrange(0, 8) =~= "Code256("@);
            assert(inside(text, "Code256("@) =~= digits);
        },
        NamedColor::FullColor(rgb) => {
            let r = decimal(rgb.0 as nat);
            let g = decimal(rgb.1 as nat);
            let b = decimal(rgb.2 as nat);
            lemma_channel_reads_back(rgb.0);
            lemma_channel_reads_back(rgb.1);
            lemma_channel_reads_back(rgb.2);
            assert(text[0] == 'F');
            lemma_not_named(text);
            assert(text.subrange(0, 10) =~= "FullColor("@);
            assert(!"Code256("@.is_prefix_of(text)) by {
                if "Code256("@.is_prefix_of(text) {
                    assert(text.subrange(0, 8)[0] == 'C');
                }
            }
            let rest = g + seq![','] + b;
            assert(inside(text, "FullColor("@) =~= r + seq![','] + rest);
            lemma_split_at_first(r, rest, ',');
            lemma_split_at_first(g, b, ',');
            lemma_split_at_first(b, Seq::empty(), ',');
            let parts = split(inside(text, "FullColor("@), ',');
            assert(parts =~= seq![r, g, b]);
        },
        _ => {},
    }
}

} // verus!
