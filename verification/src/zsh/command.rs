//! The segments that can be computed, and the requests that name them.

use vstd::prelude::*;

verus! {

/// The colour of a computed segment.
#[derive(Clone, Copy, Debug, PartialEq, Eq)]
pub enum Color {
    Black,
    Red,
    Green,
    Yellow,
    Blue,
    Magenta,
    Cyan,
    White,
    Rgb(u8, u8, u8),
}

/// One computed unit of prompt text with its foreground colour, if it has one.
#[derive(Clone, Debug, PartialEq, Eq)]
pub struct PromptSegment {
    pub content: String,
    pub color: Option<Color>,
}

/// The mathematical value of a [`PromptSegment`].
pub struct SegmentView {
    pub content: Seq<char>,
    pub color: Option<Color>,
}

impl View for PromptSegment {
    type V = SegmentView;

    open spec fn view(&self) -> SegmentView {
        SegmentView { content: self.content@, color: self.color }
    }
}

/// The values of a list of segments, in order.
pub open spec fn segment_views(segments: Seq<PromptSegment>) -> Seq<SegmentView> {
    segments.map_values(|s: PromptSegment| s@)
}

/// The colours of the parts of a version-control status.
#[derive(Clone, Copy, Debug, PartialEq, Eq)]
pub struct GitStatusOptions {
    pub default_color_option: Option<Color>,
    pub git_icon_color_option: Option<Color>,
    pub branch_color_option: Option<Color>,
    pub staged_color_option: Option<Color>,
    pub unstaged_color_option: Option<Color>,
    pub untracked_color_option: Option<Color>,
    pub conflict_color_option: Option<Color>,
    pub stashed_color_option: Option<Color>,
    pub clean_color_option: Option<Color>,
    pub ahead_color_option: Option<Color>,
    pub behind_color_option: Option<Color>,
}

/// A request for one computed segment list.
#[derive(Clone, Debug, PartialEq, Eq)]
pub enum Commands {
    /// The working directory.
    Pwd { color: Option<String> },
    /// The exit status of the last command, and the command itself.
    Cmd { last_status: String, last_command_executed: Option<String>, color: Option<String> },
    /// The name of the operating system.
    Os { color: Option<String> },
    /// The version-control status of `path`, or of the working directory.
    Git { path: Option<String>, options: GitStatusOptions },
    /// The time of day.
    Time { color: Option<String> },
}

/// The text of an optional string.
pub open spec fn text_of(value: Option<String>) -> Option<Seq<char>> {
    match value {
        Some(s) => Some(s@),
        None => None,
    }
}

/// The mathematical value of a [`Commands`].
pub enum CommandView {
    Pwd { color: Option<Seq<char>> },
    Cmd {
        last_status: Seq<char>,
        last_command_executed: Option<Seq<char>>,
        color: Option<Seq<char>>,
    },
    Os { color: Option<Seq<char>> },
    Git { path: Option<Seq<char>>, options: GitStatusOptions },
    Time { color: Option<Seq<char>> },
}

impl View for Commands {
    type V = CommandView;

    open spec fn view(&self) -> CommandView {
        match *self {
            Commands::Pwd { color } => CommandView::Pwd { color: text_of(color) },
            Commands::Cmd { last_status, last_command_executed, color } => CommandView::Cmd {
                last_status: last_status@,
                last_command_executed: text_of(last_command_executed),
                color: text_of(color),
            },
            Commands::Os { color } => CommandView::Os { color: text_of(color) },
            Commands::Git { path, options } => CommandView::Git { path: text_of(path), options },
            Commands::Time { color } => CommandView::Time { color: text_of(color) },
        }
    }
}

/// A copy of an optional string.
pub fn clone_text(value: &Option<String>) -> (copy: Option<String>)
    ensures
        text_of(copy) == text_of(*value),
{
    match value {
        Some(s) => Some(s.clone()),
        None => None,
    }
}

impl Commands {
    /// A copy of this request.
    pub fn duplicate(&self) -> (copy: Commands)
        ensures
            copy@ == self@,
    {
        match self {
            Commands::Pwd { color } => Commands::Pwd { color: clone_text(color) },
            Commands::Cmd { last_status, last_command_executed, color } => Commands::Cmd {
                last_status: last_status.clone(),
                last_command_executed: clone_text(last_command_executed),
                color: clone_text(color),
            },
            Commands::Os { color } => Commands::Os { color: clone_text(color) },
            Commands::Git { path, options } => Commands::Git {
                path: clone_text(path),
                options: *options,
            },
            Commands::Time { color } => Commands::Time { color: clone_text(color) },
        }
    }
}

} // verus!
