//! Themes: colour schemes, accent colours and the contents of each prompt line.

pub mod color_named_color;
pub mod color_scheme;
pub mod config_ui;
pub mod gradient;
pub mod manager;
pub mod named_color_serde;
pub mod prompt_theme;

use vstd::prelude::*;
use crate::args::ThemeCommands;
use crate::zsh::theme::prompt_theme::{
    default_contents, infinite_contents, single_line_theme, PromptTheme,
};

verus! {

/// Chooses the theme that `theme` names; it is then to be saved as the
/// theme in use.
pub fn set(theme: ThemeCommands) -> (chosen: PromptTheme)
    ensures
        chosen@ == match theme {
            ThemeCommands::Default => single_line_theme(default_contents()),
            ThemeCommands::Infinite => single_line_theme(infinite_contents()),
        },
{
    match theme {
        ThemeCommands::Default => PromptTheme::default(),
        ThemeCommands::Infinite => PromptTheme::infinite(),
    }
}

} // verus!
