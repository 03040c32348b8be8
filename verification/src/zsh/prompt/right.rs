//! The end of the last row, drawn at the right edge of the terminal.

use vstd::prelude::*;
use crate::zsh::prompt::{curve_line, PromptConnection, PromptCurveLine};
use crate::zsh::seq::{NamedColor, Piece, ZshPromptBuilder};
use crate::zsh::theme::prompt_theme::{PromptTheme, ThemeView};

verus! {

/// The colour and the connection of the last line of the theme; bright
/// black and no connection for a theme without lines.
pub open spec fn last_line_style(theme: ThemeView) -> (NamedColor, PromptConnection) {
    if theme.prompt_contents_list.len() == 0 {
        (NamedColor::LightBlack, PromptConnection::Blank)
    } else {
        (theme.prompt_contents_list.last().color.sc, theme.prompt_contents_list.last().connection)
    }
}

/// A line and the bottom right corner, in the secondary colour of the last line.
pub open spec fn right_prompt(theme: ThemeView) -> Seq<Piece> {
    let (color, connection) = last_line_style(theme);
    let frame = curve_line(connection);
    seq![
        Piece::ForegroundColor(color),
        Piece::Literal(frame.horizontal),
        Piece::Literal(frame.bottom_right),
        Piece::ForegroundColorEnd,
    ]
}

/// Builds the prompt of the right edge.
pub fn right(theme: &PromptTheme) -> (builder: ZshPromptBuilder)
    ensures
        builder@ == right_prompt(theme@),
{
    let len: usize = theme.prompt_contents_list.len();
    let (sc, connection) = if len == 0 {
        (NamedColor::LightBlack, PromptConnection::default())
    } else {
        let contents = &theme.prompt_contents_list[len - 1];
        proof {
            assert(theme@.prompt_contents_list.last() == contents@);
        }
        (contents.color.sc, contents.connection)
    };
    let curved_lines = PromptCurveLine::from(connection);
    let end = ZshPromptBuilder::new().color(sc).str(curved_lines.horizontal.as_str()).str(
        curved_lines.bottom_right.as_str(),
    ).end_color();
    proof {
        assert(end@ =~= right_prompt(theme@));
    }
    end
}

} // verus!
