//! The paths of an installation.

use vstd::prelude::*;
use crate::text::{join_path, joined_path};

verus! {

/// The directories that the platform gives a project.
#[derive(Clone, Debug, PartialEq, Eq)]
pub struct ProjectDirs {
    /// The directory for data that stays on this machine.
    pub data_local_dir: String,
    /// The directory for configuration.
    pub config_dir: String,
}

/// Where the parts of an installation go.
#[derive(Clone, Debug, PartialEq, Eq)]
pub struct InstallPaths {
    pub bin_dir: String,
    pub theme_file_path: String,
    pub zshrc_snippet_path: String,
}

/// What is said where the platform names no directories.
pub open spec fn no_directories() -> Seq<char> {
    "Could not determine project directories for installation."@
}

/// Finds the paths of an installation in the directories of the project:
/// the programs under the local data, the theme and the snippet for the
/// shell's start file under the configuration. Without directories there
/// are no paths.
pub fn get_install_paths(dirs: Option<&ProjectDirs>) -> (paths: Result<InstallPaths, String>)
    ensures
        match dirs {
            Some(d) => paths is Ok && paths->Ok_0.bin_dir@ == joined_path(
                d.data_local_dir@,
                "bin"@,
            ) && paths->Ok_0.theme_file_path@ == joined_path(d.config_dir@, "infinite.zsh-theme"@)
                && paths->Ok_0.zshrc_snippet_path@ == joined_path(
                d.config_dir@,
                "infinite_zshrc_snippet"@,
            ),
            None => paths is Err && paths->Err_0@ == no_directories(),
        },
{
    match dirs {
        Some(proj_dirs) => Ok(
            InstallPaths {
                bin_dir: join_path(proj_dirs.data_local_dir.as_str(), "bin"),
                theme_file_path: join_path(proj_dirs.config_dir.as_str(), "infinite.zsh-theme"),
                zshrc_snippet_path: join_path(
                    proj_dirs.config_dir.as_str(),
                    "infinite_zshrc_snippet",
                ),
            },
        ),
        None => Err(String::from_str("Could not determine project directories for installation.")),
    }
}

} // verus!
