//! The indicator that replaces the prompt once a command line was entered.

use vstd::prelude::*;
use crate::zsh::seq::{NamedColor, Piece, ZshPromptBuilder};
use crate::zsh::theme::prompt_theme::{PromptTheme, ThemeView};

verus! {

/// The colour of the indicator: the primary colour after a command that
/// ended with status 0, the secondary colour after any other and where the
/// status is not known.
pub open spec fn transient_color(theme: ThemeView, exit_code: Option<i32>) -> NamedColor {
    if exit_code == Some(0i32) {
        theme.transient_color.pc
    } else {
        theme.transient_color.sc
    }
}

/// The indicator: one glyph and a blank in its colour, then every style reset.
pub open spec fn transient_prompt(theme: ThemeView, exit_code: Option<i32>) -> Seq<Piece> {
    seq![
        Piece::ForegroundColor(transient_color(theme, exit_code)),
        Piece::Literal("\u{276f} "@),
        Piece::ForegroundColorEnd,
        Piece::ResetStyles,
    ]
}

/// Builds the indicator for the exit status `exit_code` of the last command.
pub fn transient(theme: &PromptTheme, exit_code: Option<i32>) -> (builder: ZshPromptBuilder)
    ensures
        builder@ == transient_prompt(theme@, exit_code),
{
    let transient_str = "\u{276f} ";
    let color = match exit_code {
        Some(0) => theme.transient_color.pc,
        _ => theme.transient_color.sc,
    };
    let prompt = ZshPromptBuilder::new().color(color).str(transient_str).end_color().reset_styles();
    proof {
        assert(prompt@ =~= transient_prompt(theme@, exit_code));
    }
    prompt
}

} // verus!
