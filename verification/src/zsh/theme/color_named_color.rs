//! Segment colours as terminal colours.

use vstd::prelude::*;
use crate::zsh::command::Color;
use crate::zsh::seq::NamedColor;

verus! {

/// A colour that has a terminal colour.
pub trait ToNamedColor {
    /// The terminal colour that this colour stands for.
    spec fn named_color(&self) -> NamedColor;

    /// Gives the terminal colour.
    fn to_named_color(&self) -> (color: NamedColor)
        ensures
            color == self.named_color(),
    ;
}

impl ToNamedColor for Color {
    open spec fn named_color(&self) -> NamedColor {
        match *self {
            Color::Black => NamedColor::Black,
            Color::Red => NamedColor::Red,
            Color::Green => NamedColor::Green,
            Color::Yellow => NamedColor::Yellow,
            Color::Blue => NamedColor::Blue,
            Color::Magenta => NamedColor::Magenta,
            Color::Cyan => NamedColor::Cyan,
            Color::White => NamedColor::White,
            Color::Rgb(r, g, b) => NamedColor::FullColor((r, g, b)),
        }
    }

    fn to_named_color(&self) -> (color: NamedColor) {
        match self {
            Color::Black => NamedColor::Black,
            Color::Red => NamedColor::Red,
            Color::Green => NamedColor::Green,
            Color::Yellow => NamedColor::Yellow,
            Color::Blue => NamedColor::Blue,
            Color::Magenta => NamedColor::Magenta,
            Color::Cyan => NamedColor::Cyan,
            Color::White => NamedColor::White,
            Color::Rgb(r, g, b) => NamedColor::FullColor((*r, *g, *b)),
        }
    }
}

} // verus!
