//! Which theme is in use: the one in the theme file, or the default one.

use vstd::prelude::*;
use crate::text::{join_path, joined_path};
use crate::zsh::theme::prompt_theme::{
    default_contents, single_line_theme, PromptTheme, ThemeView,
};

verus! {

/// The path of the theme file under the configuration directory of the
/// project, if the platform names one.
pub fn get_theme_file_path(config_dir: Option<&str>) -> (path: Option<String>)
    ensures
        match config_dir {
            Some(dir) => path is Some && path->Some_0@ == joined_path(dir@, "theme.yaml"@),
            None => path is None,
        },
{
    match config_dir {
        Some(dir) => Some(join_path(dir, "theme.yaml")),
        None => None,
    }
}

/// What became of the attempt to read the theme file.
#[derive(Clone, Debug, PartialEq, Eq)]
pub enum LoadOutcome {
    /// The platform names no configuration directory.
    NoDirectories,
    /// There is no theme file.
    Missing,
    /// The theme file could not be read.
    Unreadable,
    /// The theme file does not hold a theme.
    Invalid,
    /// The theme file holds this theme.
    Loaded(PromptTheme),
}

/// The theme in use, and whether it has to be written to the theme file.
#[derive(Clone, Debug, PartialEq, Eq)]
pub struct LoadedTheme {
    pub theme: PromptTheme,
    pub save: bool,
}

/// The theme in use after the attempt to read the theme file: the theme of
/// the file where it holds one, and the default theme otherwise.
pub open spec fn theme_in_use(outcome: LoadOutcome) -> ThemeView {
    match outcome {
        LoadOutcome::Loaded(theme) => theme@,
        _ => single_line_theme(default_contents()),
    }
}

/// Decides on the theme in use. Only where the theme file is missing is
/// the default theme written to it.
pub fn load_theme(outcome: LoadOutcome) -> (loaded: LoadedTheme)
    ensures
        loaded.theme@ == theme_in_use(outcome),
        loaded.save == (outcome is Missing),
{
    match outcome {
        LoadOutcome::Loaded(theme) => LoadedTheme { theme, save: false },
        LoadOutcome::Missing => LoadedTheme { theme: PromptTheme::default(), save: true },
        _ => LoadedTheme { theme: PromptTheme::default(), save: false },
    }
}

} // verus!
