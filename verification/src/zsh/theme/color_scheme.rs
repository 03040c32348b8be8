//! The colours of one prompt line.

use vstd::prelude::*;
use crate::zsh::seq::NamedColor;
use crate::zsh::theme::gradient::{
    gradient_at, gradient_color, rotate_hue, rotated, GradientPart, GradientStop, Progress,
};

verus! {

/// Where the accent colour goes: on the separators, or behind the segments.
#[derive(Clone, Copy, Debug, PartialEq, Eq)]
pub enum AccentWhich {
    ForeGround,
    BackGround,
}

impl Default for AccentWhich {
    fn default() -> (which: AccentWhich)
        ensures
            which == AccentWhich::ForeGround,
    {
        AccentWhich::ForeGround
    }
}

/// A colour that may vary along the line.
#[derive(Clone, Debug, PartialEq, Eq)]
pub enum AccentColor {
    /// One colour everywhere.
    Single(NamedColor),
    /// The base colour with its hue turned once round the wheel along the line.
    Rainbow(NamedColor),
    /// Colours interpolated between stops.
    Gradient(GradientPart),
}

/// The mathematical value of an [`AccentColor`].
pub enum AccentView {
    Single(NamedColor),
    Rainbow(NamedColor),
    Gradient(Seq<GradientStop>),
}

impl View for AccentColor {
    type V = AccentView;

    open spec fn view(&self) -> AccentView {
        match *self {
            AccentColor::Single(color) => AccentView::Single(color),
            AccentColor::Rainbow(base) => AccentView::Rainbow(base),
            AccentColor::Gradient(stops) => AccentView::Gradient(stops@),
        }
    }
}

/// The RGB colour that a rainbow starts from: the base colour if it is a
/// 24-bit colour, and red otherwise.
pub open spec fn rainbow_base(base: NamedColor) -> (u8, u8, u8) {
    match base {
        NamedColor::FullColor(rgb) => rgb,
        _ => (255u8, 0u8, 0u8),
    }
}

/// The colour of `accent` at `progress`.
pub open spec fn accent_color(accent: AccentView, progress: Progress) -> NamedColor {
    match accent {
        AccentView::Single(color) => color,
        AccentView::Rainbow(base) => NamedColor::FullColor(rotated(rainbow_base(base), progress)),
        AccentView::Gradient(stops) => if stops.len() == 0 {
            NamedColor::White
        } else {
            NamedColor::FullColor(gradient_color(stops, progress))
        },
    }
}

impl AccentColor {
    /// The colour at `progress` along the line.
    pub fn get(&self, progress: Progress) -> (color: NamedColor)
        ensures
            color == accent_color(self@, progress),
    {
        match self {
            AccentColor::Single(color) => *color,
            AccentColor::Rainbow(base) => {
                let rgb: (u8, u8, u8) = match base {
                    NamedColor::FullColor(rgb) => *rgb,
                    _ => (255, 0, 0),
                };
                NamedColor::FullColor(rotate_hue(rgb, progress))
            },
            AccentColor::Gradient(stops) => {
                if stops.len() == 0 {
                    return NamedColor::White;
                }
                NamedColor::FullColor(gradient_at(stops, progress))
            },
        }
    }
}

/// Background, foreground, primary and secondary colour of a line, and its accent.
#[derive(Clone, Debug, PartialEq, Eq)]
pub struct PromptColorScheme {
    pub bg: NamedColor,
    pub fg: NamedColor,
    pub pc: NamedColor,
    pub sc: NamedColor,
    pub accent: AccentColor,
    pub accent_which: AccentWhich,
}

/// The mathematical value of a [`PromptColorScheme`].
pub struct SchemeView {
    pub bg: NamedColor,
    pub fg: NamedColor,
    pub pc: NamedColor,
    pub sc: NamedColor,
    pub accent: AccentView,
    pub accent_which: AccentWhich,
}

impl View for PromptColorScheme {
    type V = SchemeView;

    open spec fn view(&self) -> SchemeView {
        SchemeView {
            bg: self.bg,
            fg: self.fg,
            pc: self.pc,
            sc: self.sc,
            accent: self.accent@,
            accent_which: self.accent_which,
        }
    }
}

/// The scheme that a line has when none is configured.
pub open spec fn default_scheme() -> SchemeView {
    SchemeView {
        bg: NamedColor::Black,
        fg: NamedColor::White,
        pc: NamedColor::Cyan,
        sc: NamedColor::LightBlack,
        accent: AccentView::Single(NamedColor::LightBlack),
        accent_which: AccentWhich::ForeGround,
    }
}

impl Default for PromptColorScheme {
    fn default() -> (scheme: PromptColorScheme)
        ensures
            scheme@ == default_scheme(),
    {
        PromptColorScheme {
            bg: NamedColor::Black,
            fg: NamedColor::White,
            pc: NamedColor::Cyan,
            sc: NamedColor::LightBlack,
            accent: AccentColor::Single(NamedColor::LightBlack),
            accent_which: AccentWhich::ForeGround,
        }
    }
}

} // verus!
