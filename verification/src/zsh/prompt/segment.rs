//! The segments of one command as a line of text.

use vstd::prelude::*;
use crate::zsh::theme::prompt_theme::texts;

verus! {

/// The texts `parts[..count]` in a row, with one blank between two.
pub open spec fn spaced(parts: Seq<Seq<char>>, count: int) -> Seq<char>
    decreases count,
{
    if count <= 0 {
        Seq::empty()
    } else if count == 1 {
        parts[0]
    } else {
        spaced(parts, count - 1) + seq![' '] + parts[count - 1]
    }
}

/// Joins the formatted segments of a command with blanks.
pub fn segment(formatted: &Vec<String>) -> (line: String)
    ensures
        line@ == spaced(texts(formatted@), formatted.len() as int),
{
    let mut line = String::new();
    let mut i: usize = 0;
    while i < formatted.len()
        invariant
            i <= formatted.len(),
            line@ == spaced(texts(formatted@), i as int),
        decreases formatted.len() - i,
    {
        if i > 0 {
            proof {
                reveal_strlit(" ");
                assert(" "@ =~= seq![' ']);
            }
            line.append(" ");
        }
        line.append(formatted[i].as_str());
        proof {
            assert(texts(formatted@)[i as int] == formatted@[i as int]@);
            if i == 0 {
                assert(line@ =~= texts(formatted@)[0]);
            }
        }
        i = i + 1;
    }
    line
}

} // verus!
