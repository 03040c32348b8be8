//! The prompt engine, its themes and the segment daemon.

pub mod command;
pub mod daemon;
pub mod prompt;
pub mod seq;
pub mod theme;

use vstd::prelude::*;
use crate::args::PromptType;
use crate::zsh::prompt::hook::{hook, hook_prompt};
use crate::zsh::prompt::left::{
    countable, left, left_prompt, line_replies_views, LineReplies, LineRepliesView,
};
use crate::zsh::prompt::right::{right, right_prompt};
use crate::zsh::prompt::transient::{transient, transient_prompt};
use crate::zsh::seq::{Piece, ZshPromptBuilder};
use crate::zsh::theme::prompt_theme::{PromptTheme, ThemeView};

verus! {

/// The part `prompt_type` of the prompt of a theme, given the replies to
/// the contents of its lines and the width of the terminal.
pub open spec fn built_prompt(
    prompt_type: PromptType,
    theme: ThemeView,
    replies: Seq<LineRepliesView>,
    terminal_width: int,
) -> Seq<Piece> {
    match prompt_type {
        PromptType::Left => left_prompt(theme, replies, terminal_width),
        PromptType::Right => right_prompt(theme),
        PromptType::Hook => hook_prompt(theme),
        PromptType::Transient { exit_code } => transient_prompt(theme, exit_code),
    }
}

/// Builds the part `prompt_type` of the prompt. Only the left part reads
/// the replies and the width.
pub fn build_prompt(
    prompt_type: &PromptType,
    theme: &PromptTheme,
    replies: &Vec<LineReplies>,
    terminal_width: usize,
) -> (builder: ZshPromptBuilder)
    requires
        countable(theme@),
    ensures
        builder@ == built_prompt(
            *prompt_type,
            theme@,
            line_replies_views(replies@),
            terminal_width as int,
        ),
{
    match prompt_type {
        PromptType::Left => left(theme, replies, terminal_width),
        PromptType::Right => right(theme),
        PromptType::Hook => hook(theme),
        PromptType::Transient { exit_code } => transient(theme, *exit_code),
    }
}

} // verus!
