//! The blank lines that keep room for the rows of the prompt.

use vstd::prelude::*;
use crate::zsh::prompt::left::{repeat, repeated};
use crate::zsh::seq::{Piece, ZshPromptBuilder};
use crate::zsh::theme::prompt_theme::{PromptTheme, ThemeView};

verus! {

/// One line break for each line of the theme, as one text.
pub open spec fn hook_prompt(theme: ThemeView) -> Seq<Piece> {
    seq![Piece::Literal(repeated("\n"@, theme.prompt_contents_list.len()))]
}

/// Builds the line breaks that reserve one row for each line of the theme,
/// so that rows that were drawn are not written over.
pub fn hook(theme: &PromptTheme) -> (builder: ZshPromptBuilder)
    ensures
        builder@ == hook_prompt(theme@),
{
    let lines_len: usize = theme.prompt_contents_list.len();
    let hook = repeat("\n", lines_len);
    let builder = ZshPromptBuilder::new().str(hook.as_str());
    proof {
        assert(builder@ =~= hook_prompt(theme@));
    }
    builder
}

} // verus!
