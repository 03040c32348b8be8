//! What an installation writes: the theme script, the snippet that loads
//! it, and the line in the shell's start file that loads the snippet.

use vstd::prelude::*;
use crate::text::{contains, occurs_in, replace, replaced};

verus! {

/// The line that loads the snippet at `snippet_path`.
pub open spec fn source_line_of(snippet_path: Seq<char>) -> Seq<char> {
    "source \""@ + snippet_path + "\""@
}

/// Writes the line that loads the snippet at `snippet_path`.
pub fn source_line(snippet_path: &str) -> (line: String)
    ensures
        line@ == source_line_of(snippet_path@),
{
    String::from_str("source \"").concat(snippet_path).concat("\"")
}

/// The snippet that loads the theme script at `theme_path` if it exists.
pub open spec fn snippet_of(theme_path: Seq<char>) -> Seq<char> {
    "\n# Added by zsh-infinite installer\nif [ -f \""@ + theme_path + "\" ]; then\n    source \""@
        + theme_path + "\"\nfi\n"@
}

/// Writes the snippet that loads the theme script at `theme_path`.
pub fn snippet_content(theme_path: &str) -> (snippet: String)
    ensures
        snippet@ == snippet_of(theme_path@),
{
    String::from_str("\n# Added by zsh-infinite installer\nif [ -f \"").concat(theme_path).concat(
        "\" ]; then\n    source \"",
    ).concat(theme_path).concat("\"\nfi\n")
}

/// The theme script made from `template`: the program's path stands for
/// every `{{RUN_DIR}}`.
pub fn theme_script(template: &str, program_path: &str) -> (script: String)
    ensures
        script@ == replaced(template@, "{{RUN_DIR}}"@, program_path@),
{
    replace(template, "{{RUN_DIR}}", program_path)
}

/// The start file after an installation, where it has to change: a file
/// that holds the line that loads the snippet stays as it is; any other
/// gets the installer's comment and that line at its end.
pub open spec fn installed(zshrc: Seq<char>, snippet_path: Seq<char>) -> Option<Seq<char>> {
    if occurs_in(zshrc, source_line_of(snippet_path)) {
        None
    } else {
        Some(
            zshrc + "\n# Added by zsh-infinite installer\n"@ + source_line_of(snippet_path)
                + "\n"@,
        )
    }
}

/// The text of an optional string.
pub open spec fn written(value: Option<String>) -> Option<Seq<char>> {
    match value {
        Some(s) => Some(s@),
        None => None,
    }
}

/// Edits the content `zshrc` of the start file for an installation whose
/// snippet lies at `snippet_path`; `None` where nothing is to be written.
pub fn install(zshrc: &str, snippet_path: &str) -> (edited: Option<String>)
    ensures
        written(edited) == installed(zshrc@, snippet_path@),
{
    let line = source_line(snippet_path);
    if contains(zshrc, line.as_str()) {
        None
    } else {
        Some(
            String::from_str(zshrc).concat("\n# Added by zsh-infinite installer\n").concat(
                line.as_str(),
            ).concat("\n"),
        )
    }
}

} // verus!
