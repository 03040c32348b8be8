//! What the removal of an installation takes out of the shell's start file.

use vstd::prelude::*;
use crate::text::{replace, replaced};
use crate::utils::install::{source_line, source_line_of, written};

verus! {

/// The start file without what an installation added: the installer's
/// comment and the line that loads the snippet with the line breaks round
/// them, then the line alone between line breaks, then comment and line at
/// the start of the file, then the line wherever it is left.
pub open spec fn cleaned(zshrc: Seq<char>, snippet_path: Seq<char>) -> Seq<char> {
    let line = source_line_of(snippet_path);
    let comment = "# Added by zsh-infinite installer"@;
    let first = replaced(zshrc, "\n"@ + comment + "\n"@ + line + "\n"@, "\n"@);
    let second = replaced(first, "\n"@ + line + "\n"@, "\n"@);
    let third = replaced(second, comment + "\n"@ + line + "\n"@, Seq::empty());
    replaced(third, line, Seq::empty())
}

/// The start file after a removal, where it has to change: the cleaned
/// file if its length differs from that of the file as it is.
pub open spec fn uninstalled(zshrc: Seq<char>, snippet_path: Seq<char>) -> Option<Seq<char>> {
    if cleaned(zshrc, snippet_path).len() != zshrc.len() {
        Some(cleaned(zshrc, snippet_path))
    } else {
        None
    }
}

/// Edits the content `zshrc` of the start file for the removal of an
/// installation whose snippet lies at `snippet_path`; `None` where nothing
/// is to be written.
pub fn uninstall(zshrc: &str, snippet_path: &str) -> (edited: Option<String>)
    ensures
        written(edited) == uninstalled(zshrc@, snippet_path@),
{
    let line = source_line(snippet_path);
    let comment = "# Added by zsh-infinite installer";
    let with_breaks = String::from_str("\n").concat(comment).concat("\n").concat(
        line.as_str(),
    ).concat("\n");
    let alone = String::from_str("\n").concat(line.as_str()).concat("\n");
    let at_start = String::from_str(comment).concat("\n").concat(line.as_str()).concat("\n");
    proof {
        reveal_strlit("");
        assert(""@ =~= Seq::<char>::empty());
    }
    let first = replace(zshrc, with_breaks.as_str(), "\n");
    let second = replace(first.as_str(), alone.as_str(), "\n");
    let third = replace(second.as_str(), at_start.as_str(), "");
    let updated = replace(third.as_str(), line.as_str(), "");
    if updated.as_str().unicode_len() != zshrc.unicode_len() {
        Some(updated)
    } else {
        None
    }
}

} // verus!
