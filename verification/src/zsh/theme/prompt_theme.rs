//! What a theme holds: the lines of the prompt and where their text comes from.

use vstd::prelude::*;
use crate::text::{trim, trimmed};
use crate::zsh::command::{
    segment_views, text_of, Color, CommandView, Commands, GitStatusOptions, PromptSegment,
    SegmentView,
};
use crate::zsh::prompt::{PromptConnection, PromptSeparation};
use crate::zsh::seq::{join_pieces, pieces, NamedColor, Piece, ZshSequence};
use crate::zsh::theme::color_named_color::ToNamedColor;
use crate::zsh::theme::color_scheme::{
    default_scheme, AccentColor, AccentView, PromptColorScheme, SchemeView,
};

verus! {

/// Where the accent colour of a line goes: on the separators between the
/// segments, or behind the segments themselves.
#[derive(Clone, Copy, Debug, PartialEq, Eq)]
pub enum AccentWhich {
    ForeGround,
    BackGround,
}

impl Default for AccentWhich {
    fn default() -> (which: AccentWhich)
        ensures
            which == AccentWhich::ForeGround,
    {
        AccentWhich::ForeGround
    }
}

/// The separators of one half of a line.
#[derive(Clone, Copy, Debug, PartialEq, Eq)]
pub struct PromptSegmentSeparators {
    pub start_separator: PromptSeparation,
    pub mid_separator: PromptSeparation,
    pub end_separator: PromptSeparation,
    /// Whether the half ends in a decorated cap, not in a plain cut.
    pub edge_cap: bool,
    /// Whether segments are parted by a double wedge, not by a thin glyph.
    pub bold_separation: bool,
}

/// The separators that a half has when none are configured.
pub open spec fn default_separators() -> PromptSegmentSeparators {
    PromptSegmentSeparators {
        start_separator: PromptSeparation::Sharp,
        mid_separator: PromptSeparation::Sharp,
        end_separator: PromptSeparation::Sharp,
        edge_cap: true,
        bold_separation: true,
    }
}

impl Default for PromptSegmentSeparators {
    fn default() -> (separators: PromptSegmentSeparators)
        ensures
            separators == default_separators(),
    {
        PromptSegmentSeparators {
            start_separator: PromptSeparation::Sharp,
            mid_separator: PromptSeparation::Sharp,
            end_separator: PromptSeparation::Sharp,
            edge_cap: true,
            bold_separation: true,
        }
    }
}

/// One source of prompt text.
#[derive(Clone, Debug, PartialEq, Eq)]
pub enum PromptContent {
    /// A fixed text.
    Literal { value: String, fg: Option<NamedColor>, bg: Option<NamedColor> },
    /// Segments that the daemon computes.
    Daemon { command: Commands },
    /// Segments computed in this process.
    BuildIn { command: Commands },
    /// The output of an external command.
    Shell {
        cmd: String,
        args: Vec<String>,
        envs: Vec<(String, String)>,
        fg: Option<NamedColor>,
        bg: Option<NamedColor>,
    },
}

/// The texts of a list of strings.
pub open spec fn texts(items: Seq<String>) -> Seq<Seq<char>> {
    items.map_values(|s: String| s@)
}

/// The texts of a list of pairs of strings.
pub open spec fn text_pairs(items: Seq<(String, String)>) -> Seq<(Seq<char>, Seq<char>)> {
    items.map_values(|p: (String, String)| (p.0@, p.1@))
}

/// The mathematical value of a [`PromptContent`].
pub enum ContentView {
    Literal { value: Seq<char>, fg: Option<NamedColor>, bg: Option<NamedColor> },
    Daemon { command: CommandView },
    BuildIn { command: CommandView },
    Shell {
        cmd: Seq<char>,
        args: Seq<Seq<char>>,
        envs: Seq<(Seq<char>, Seq<char>)>,
        fg: Option<NamedColor>,
        bg: Option<NamedColor>,
    },
}

impl View for PromptContent {
    type V = ContentView;

    open spec fn view(&self) -> ContentView {
        match *self {
            PromptContent::Literal { value, fg, bg } => ContentView::Literal { value: value@, fg, bg },
            PromptContent::Daemon { command } => ContentView::Daemon { command: command@ },
            PromptContent::BuildIn { command } => ContentView::BuildIn { command: command@ },
            PromptContent::Shell { cmd, args, envs, fg, bg } => ContentView::Shell {
                cmd: cmd@,
                args: texts(args@),
                envs: text_pairs(envs@),
                fg,
                bg,
            },
        }
    }
}

/// The values of a list of contents, in order.
pub open spec fn content_views(items: Seq<PromptContent>) -> Seq<ContentView> {
    items.map_values(|c: PromptContent| c@)
}

/// What has to be done to obtain the text of a content.
#[derive(Clone, Debug, PartialEq, Eq)]
pub enum ContentRequest {
    /// Nothing: the text is known.
    Ready,
    /// Ask the daemon for the segments of this command.
    Daemon(Commands),
    /// Compute the segments of this command in this process.
    BuildIn(Commands),
    /// Run `cmd` with `args` and with `envs` set, in the working directory,
    /// and capture what it prints.
    Shell { cmd: String, args: Vec<String>, envs: Vec<(String, String)> },
}

/// The mathematical value of a [`ContentRequest`].
pub enum RequestView {
    Ready,
    Daemon(CommandView),
    BuildIn(CommandView),
    Shell { cmd: Seq<char>, args: Seq<Seq<char>>, envs: Seq<(Seq<char>, Seq<char>)> },
}

impl View for ContentRequest {
    type V = RequestView;

    open spec fn view(&self) -> RequestView {
        match *self {
            ContentRequest::Ready => RequestView::Ready,
            ContentRequest::Daemon(command) => RequestView::Daemon(command@),
            ContentRequest::BuildIn(command) => RequestView::BuildIn(command@),
            ContentRequest::Shell { cmd, args, envs } => RequestView::Shell {
                cmd: cmd@,
                args: texts(args@),
                envs: text_pairs(envs@),
            },
        }
    }
}

/// What came back for a [`ContentRequest`].
#[derive(Clone, Debug, PartialEq, Eq)]
pub enum ContentReply {
    /// Nothing was asked for, or nothing could be had.
    Nothing,
    /// The segments of a command; none where the daemon gave no answer.
    Segments(Vec<PromptSegment>),
    /// An external command ran: whether it ended with success, and what it printed.
    Output { success: bool, stdout: String },
}

/// The mathematical value of a [`ContentReply`].
pub enum ReplyView {
    Nothing,
    Segments(Seq<SegmentView>),
    Output { success: bool, stdout: Seq<char> },
}

impl View for ContentReply {
    type V = ReplyView;

    open spec fn view(&self) -> ReplyView {
        match *self {
            ContentReply::Nothing => ReplyView::Nothing,
            ContentReply::Segments(segments) => ReplyView::Segments(segment_views(segments@)),
            ContentReply::Output { success, stdout } => ReplyView::Output {
                success,
                stdout: stdout@,
            },
        }
    }
}

/// The value of the variable `name` among `vars`: that of the first entry
/// with this name.
pub open spec fn var_value(vars: Seq<(Seq<char>, Seq<char>)>, name: Seq<char>) -> Option<
    Seq<char>,
>
    decreases vars.len(),
{
    if vars.len() == 0 {
        None
    } else if vars.first().0 == name {
        Some(vars.first().1)
    } else {
        var_value(vars.drop_first(), name)
    }
}

/// Looks the variable `name` up among `vars`; a variable that is not there
/// is an error.
pub fn lookup_var(vars: &Vec<(String, String)>, name: &str) -> (found: Result<Option<String>, ()>)
    ensures
        match var_value(text_pairs(vars@), name@) {
            Some(value) => found is Ok && found->Ok_0 is Some && found->Ok_0->Some_0@ == value,
            None => found is Err,
        },
{
    let wanted = String::from_str(name);
    let mut i: usize = 0;
    proof {
        assert(text_pairs(vars@).skip(0) =~= text_pairs(vars@));
    }
    while i < vars.len()
        invariant
            i <= vars.len(),
            wanted@ == name@,
            var_value(text_pairs(vars@), name@) == var_value(
                text_pairs(vars@).skip(i as int),
                name@,
            ),
        decreases vars.len() - i,
    {
        let ghost rest = text_pairs(vars@).skip(i as int);
        proof {
            assert(rest.first() == (vars@[i as int].0@, vars@[i as int].1@));
            assert(rest.drop_first() =~= text_pairs(vars@).skip(i + 1));
        }
        if vars[i].0 == wanted {
            return Ok(Some(vars[i].1.clone()));
        }
        i = i + 1;
    }
    proof {
        assert(text_pairs(vars@).skip(i as int).len() == 0);
    }
    Err(())
}

/// What becomes of `input` when the references to variables in it (`$NAME`,
/// `${NAME}`, `${NAME:-default}`) are replaced by the values that the
/// variables have among `vars`, as the crate `shellexpand` does it; `None`
/// where the expansion fails.
pub uninterp spec fn env_expansion(input: Seq<char>, vars: Seq<(Seq<char>, Seq<char>)>) -> Option<
    Seq<char>,
>;

/// Calls `env_with_context` of `shellexpand` on `input`, with
/// [`lookup_var`] on `vars` as the context. The contract claims only that
/// the result is a function of the text and of the variables: it gives
/// that function the name [`env_expansion`].
#[verifier::external_body]
fn expand_env(input: &str, vars: &Vec<(String, String)>) -> (out: Option<String>)
    ensures
        text_of(out) == env_expansion(input@, text_pairs(vars@)),
{
    match shellexpand::env_with_context(input, |name: &str| lookup_var(vars, name)) {
        Ok(text) => Some(text.into_owned()),
        Err(_) => None,
    }
}

/// An argument with its variables expanded, and the argument as it is
/// where the expansion fails.
pub open spec fn expanded_arg(arg: Seq<char>, vars: Seq<(Seq<char>, Seq<char>)>) -> Seq<char> {
    match env_expansion(arg, vars) {
        Some(text) => text,
        None => arg,
    }
}

/// Each argument with its variables expanded.
pub open spec fn expanded_args(args: Seq<Seq<char>>, vars: Seq<(Seq<char>, Seq<char>)>) -> Seq<
    Seq<char>,
> {
    args.map_values(|arg: Seq<char>| expanded_arg(arg, vars))
}

/// Expands the variables in `arg`.
pub fn expand_arg(arg: &str, vars: &Vec<(String, String)>) -> (out: String)
    ensures
        out@ == expanded_arg(arg@, text_pairs(vars@)),
{
    match expand_env(arg, vars) {
        Some(text) => text,
        None => String::from_str(arg),
    }
}

/// Expands the variables in each of `args`.
pub fn expand_args(args: &Vec<String>, vars: &Vec<(String, String)>) -> (out: Vec<String>)
    ensures
        texts(out@) == expanded_args(texts(args@), text_pairs(vars@)),
{
    let mut out: Vec<String> = Vec::new();
    let mut i: usize = 0;
    while i < args.len()
        invariant
            i <= args.len(),
            texts(out@) == expanded_args(texts(args@.take(i as int)), text_pairs(vars@)),
        decreases args.len() - i,
    {
        let ghost before = out@;
        let item = expand_arg(args[i].as_str(), vars);
        out.push(item);
        proof {
            assert(args@.take(i + 1) =~= args@.take(i as int).push(args@[i as int]));
            assert(texts(out@) =~= texts(before).push(item@));
            assert(texts(args@.take(i + 1)) =~= texts(args@.take(i as int)).push(
                args@[i as int]@,
            ));
            assert(expanded_args(texts(args@.take(i + 1)), text_pairs(vars@)) =~= expanded_args(
                texts(args@.take(i as int)),
                text_pairs(vars@),
            ).push(expanded_arg(args@[i as int]@, text_pairs(vars@))));
        }
        i = i + 1;
    }
    proof {
        assert(args@.take(i as int) =~= args@);
    }
    out
}

/// What a content asks for, in an environment that holds the variables
/// `vars`: a shell content has the variables in its arguments expanded.
pub open spec fn request_of(content: ContentView, vars: Seq<(Seq<char>, Seq<char>)>) -> RequestView {
    match content {
        ContentView::Literal { .. } => RequestView::Ready,
        ContentView::Daemon { command } => RequestView::Daemon(command),
        ContentView::BuildIn { command } => RequestView::BuildIn(command),
        ContentView::Shell { cmd, args, envs, .. } => RequestView::Shell {
            cmd,
            args: expanded_args(args, vars),
            envs,
        },
    }
}

/// The marker that starts a colour, if there is a colour.
pub open spec fn opening(color: Option<NamedColor>, background: bool) -> Seq<Piece> {
    match color {
        Some(c) => if background {
            seq![Piece::BackgroundColor(c)]
        } else {
            seq![Piece::ForegroundColor(c)]
        },
        None => Seq::empty(),
    }
}

/// The marker that ends a colour, if there is a colour.
pub open spec fn closing(color: Option<NamedColor>, background: bool) -> Seq<Piece> {
    match color {
        Some(_) => if background {
            seq![Piece::BackgroundColorEnd]
        } else {
            seq![Piece::ForegroundColorEnd]
        },
        None => Seq::empty(),
    }
}

/// `text` inside the colours `bg` and `fg`, the background outermost.
pub open spec fn styled(text: Seq<char>, fg: Option<NamedColor>, bg: Option<NamedColor>) -> Seq<
    Piece,
> {
    opening(bg, true) + opening(fg, false) + seq![Piece::Literal(text)] + closing(fg, false)
        + closing(bg, true)
}

/// One segment in its colour, followed by a blank unless it is the last.
pub open spec fn segment_pieces(segment: SegmentView, last: bool) -> Seq<Piece> {
    let color = match segment.color {
        Some(c) => Some(c.named_color()),
        None => None,
    };
    opening(color, false) + seq![Piece::Literal(segment.content)] + closing(color, false) + (
    if last {
        Seq::empty()
    } else {
        seq![Piece::Literal(" "@)]
    })
}

/// The segments in a row, each in its colour, with one blank between two.
pub open spec fn converted(segments: Seq<SegmentView>) -> Seq<Piece> {
    join_pieces(
        segments.len() as int,
        |i: int| segment_pieces(segments[i], i == segments.len() - 1),
    )
}

/// The pieces that a content contributes, given what came back for its
/// request. A literal is its text in its colours. A daemon or built-in
/// content is the segments that came back, and nothing where none came. A
/// shell content is what the command printed, trimmed, in its colours, and
/// nothing where the command failed or printed only white space.
pub open spec fn content_pieces(content: ContentView, reply: ReplyView) -> Seq<Piece> {
    match content {
        ContentView::Literal { value, fg, bg } => styled(value, fg, bg),
        ContentView::Daemon { .. } | ContentView::BuildIn { .. } => match reply {
            ReplyView::Segments(segments) => converted(segments),
            _ => Seq::empty(),
        },
        ContentView::Shell { fg, bg, .. } => match reply {
            ReplyView::Output { success, stdout } => if success && trimmed(stdout).len() > 0 {
                styled(trimmed(stdout), fg, bg)
            } else {
                Seq::empty()
            },
            _ => Seq::empty(),
        },
    }
}

/// A copy of a list of pairs of strings.
pub fn clone_text_pairs(items: &Vec<(String, String)>) -> (copy: Vec<(String, String)>)
    ensures
        text_pairs(copy@) == text_pairs(items@),
{
    let mut copy: Vec<(String, String)> = Vec::new();
    let mut i: usize = 0;
    while i < items.len()
        invariant
            i <= items.len(),
            text_pairs(copy@) == text_pairs(items@.take(i as int)),
        decreases items.len() - i,
    {
        let ghost before = copy@;
        let item = (items[i].0.clone(), items[i].1.clone());
        copy.push(item);
        proof {
            assert(items@.take(i + 1) =~= items@.take(i as int).push(items@[i as int]));
            assert(text_pairs(copy@) =~= text_pairs(before).push((item.0@, item.1@)));
            assert(text_pairs(items@.take(i + 1)) =~= text_pairs(items@.take(i as int)).push(
                (items@[i as int].0@, items@[i as int].1@),
            ));
        }
        i = i + 1;
    }
    proof {
        assert(items@.take(i as int) =~= items@);
    }
    copy
}

/// `text` inside the colours `bg` and `fg`.
pub fn styled_sequences(text: String, fg: &Option<NamedColor>, bg: &Option<NamedColor>) -> (seqs:
    Vec<ZshSequence>)
    ensures
        pieces(seqs@) == styled(text@, *fg, *bg),
{
    let mut seqs: Vec<ZshSequence> = Vec::new();
    if let Some(c) = bg {
        seqs.push(ZshSequence::BackgroundColor(*c));
    }
    if let Some(c) = fg {
        seqs.push(ZshSequence::ForegroundColor(*c));
    }
    seqs.push(ZshSequence::Literal(text));
    if fg.is_some() {
        seqs.push(ZshSequence::ForegroundColorEnd);
    }
    if bg.is_some() {
        seqs.push(ZshSequence::BackgroundColorEnd);
    }
    proof {
        assert(pieces(seqs@) =~= styled(text@, *fg, *bg));
    }
    seqs
}

impl PromptContent {
    /// What has to be done outside to obtain the text of this content, in
    /// an environment that holds the variables `vars`.
    pub fn request(&self, vars: &Vec<(String, String)>) -> (request: ContentRequest)
        ensures
            request@ == request_of(self@, text_pairs(vars@)),
    {
        match self {
            PromptContent::Literal { .. } => ContentRequest::Ready,
            PromptContent::Daemon { command } => ContentRequest::Daemon(command.duplicate()),
            PromptContent::BuildIn { command } => ContentRequest::BuildIn(command.duplicate()),
            PromptContent::Shell { cmd, args, envs, .. } => ContentRequest::Shell {
                cmd: cmd.clone(),
                args: expand_args(args, vars),
                envs: clone_text_pairs(envs),
            },
        }
    }

    /// The sequences that this content contributes, given what came back
    /// for its request.
    pub fn content(&self, reply: &ContentReply) -> (seqs: Vec<ZshSequence>)
        ensures
            pieces(seqs@) == content_pieces(self@, reply@),
    {
        match self {
            PromptContent::Literal { value, fg, bg } => styled_sequences(value.clone(), fg, bg),
            PromptContent::Daemon { .. } | PromptContent::BuildIn { .. } => match reply {
                ContentReply::Segments(segments) => Self::segments_to_sequences(segments),
                _ => {
                    let seqs: Vec<ZshSequence> = Vec::new();
                    proof {
                        assert(pieces(seqs@) =~= Seq::<Piece>::empty());
                    }
                    seqs
                },
            },
            PromptContent::Shell { fg, bg, .. } => {
                if let ContentReply::Output { success, stdout } = reply {
                    if *success {
                        let text = trim(stdout.as_str());
                        if text.as_str().unicode_len() > 0 {
                            return styled_sequences(text, fg, bg);
                        }
                    }
                }
                let seqs: Vec<ZshSequence> = Vec::new();
                proof {
                    assert(pieces(seqs@) =~= Seq::<Piece>::empty());
                }
                seqs
            },
        }
    }

    /// The segments as sequences: each in its colour, with a blank between two.
    pub fn convert_segments_to_sequences(segments: Vec<PromptSegment>) -> (seqs: Vec<ZshSequence>)
        ensures
            pieces(seqs@) == converted(segment_views(segments@)),
    {
        Self::segments_to_sequences(&segments)
    }

    /// The segments as sequences, from a borrowed list.
    pub fn segments_to_sequences(segments: &Vec<PromptSegment>) -> (seqs: Vec<ZshSequence>)
        ensures
            pieces(seqs@) == converted(segment_views(segments@)),
    {
        let ghost views = segment_views(segments@);
        let ghost part = |i: int| segment_pieces(views[i], i == views.len() - 1);
        let mut result: Vec<ZshSequence> = Vec::new();
        let len: usize = segments.len();
        let mut i: usize = 0;
        proof {
            assert(pieces(result@) =~= join_pieces(0, part));
        }
        while i < len
            invariant
                i <= len,
                len == segments.len(),
                views == segment_views(segments@),
                part == (|i: int| segment_pieces(views[i], i == views.len() - 1)),
                pieces(result@) == join_pieces(i as int, part),
            decreases len - i,
        {
            let ghost before = pieces(result@);
            let segment = &segments[i];
            if let Some(fg) = segment.color {
                result.push(ZshSequence::ForegroundColor(fg.to_named_color()));
            }
            result.push(ZshSequence::Literal(segment.content.clone()));
            if segment.color.is_some() {
                result.push(ZshSequence::ForegroundColorEnd);
            }
            if i < len - 1 {
                result.push(ZshSequence::Literal(String::from_str(" ")));
            }
            proof {
                assert(views[i as int] == segment@);
                assert(pieces(result@) =~= before + part(i as int));
            }
            i = i + 1;
        }
        result
    }
}

/// One line of the prompt: what stands on its left and on its right, and how
/// it is drawn.
#[derive(Clone, Debug, PartialEq, Eq)]
pub struct PromptContents {
    pub left: Vec<PromptContent>,
    pub right: Vec<PromptContent>,
    pub color: PromptColorScheme,
    pub connection: PromptConnection,
    pub left_segment_separators: PromptSegmentSeparators,
    pub right_segment_separators: PromptSegmentSeparators,
    pub accent_which: AccentWhich,
}

/// The mathematical value of a [`PromptContents`].
pub struct ContentsView {
    pub left: Seq<ContentView>,
    pub right: Seq<ContentView>,
    pub color: SchemeView,
    pub connection: PromptConnection,
    pub left_segment_separators: PromptSegmentSeparators,
    pub right_segment_separators: PromptSegmentSeparators,
    pub accent_which: AccentWhich,
}

impl View for PromptContents {
    type V = ContentsView;

    open spec fn view(&self) -> ContentsView {
        ContentsView {
            left: content_views(self.left@),
            right: content_views(self.right@),
            color: self.color@,
            connection: self.connection,
            left_segment_separators: self.left_segment_separators,
            right_segment_separators: self.right_segment_separators,
            accent_which: self.accent_which,
        }
    }
}

/// A shell content that runs `cmd` without arguments, in no colour.
pub open spec fn plain_command(cmd: Seq<char>) -> ContentView {
    ContentView::Shell { cmd, args: Seq::empty(), envs: Seq::empty(), fg: None, bg: None }
}

/// The line that a theme has when none is configured: user and host on the
/// left, working directory and last exit status on the right.
pub open spec fn default_contents() -> ContentsView {
    ContentsView {
        left: seq![plain_command("whoami"@), plain_command("hostname"@)],
        right: seq![
            ContentView::BuildIn { command: CommandView::Pwd { color: None } },
            ContentView::BuildIn {
                command: CommandView::Cmd {
                    last_status: "$LAST_STATUS"@,
                    last_command_executed: None,
                    color: None,
                },
            },
        ],
        color: default_scheme(),
        connection: PromptConnection::Blank,
        left_segment_separators: default_separators(),
        right_segment_separators: default_separators(),
        accent_which: AccentWhich::ForeGround,
    }
}

/// The colours of the version-control status on the line of the theme "infinite".
pub open spec fn infinite_git_options() -> GitStatusOptions {
    GitStatusOptions {
        default_color_option: None,
        git_icon_color_option: Some(Color::Blue),
        branch_color_option: Some(Color::White),
        staged_color_option: Some(Color::Cyan),
        unstaged_color_option: Some(Color::Red),
        untracked_color_option: Some(Color::Rgb(255, 0, 112)),
        conflict_color_option: Some(Color::Magenta),
        stashed_color_option: Some(Color::Black),
        clean_color_option: Some(Color::White),
        ahead_color_option: Some(Color::Green),
        behind_color_option: Some(Color::Red),
    }
}

/// The line of the theme "infinite": system and directory on the left; last
/// command, version control and time on the right; a rainbow on the
/// separators.
pub open spec fn infinite_contents() -> ContentsView {
    ContentsView {
        left: seq![
            ContentView::BuildIn { command: CommandView::Os { color: Some("white"@) } },
            ContentView::BuildIn { command: CommandView::Pwd { color: Some("#00FFFF"@) } },
        ],
        right: seq![
            ContentView::BuildIn {
                command: CommandView::Cmd {
                    last_status: "$LAST_STATUS"@,
                    last_command_executed: Some("$LAST_COMMAND_EXECUTED"@),
                    color: None,
                },
            },
            ContentView::BuildIn {
                command: CommandView::Git { path: None, options: infinite_git_options() },
            },
            ContentView::BuildIn { command: CommandView::Time { color: Some("green"@) } },
        ],
        color: SchemeView {
            bg: NamedColor::FullColor((32, 32, 32)),
            fg: NamedColor::White,
            pc: NamedColor::Red,
            sc: NamedColor::LightBlack,
            accent: AccentView::Rainbow(NamedColor::FullColor((0, 255, 255))),
            accent_which: crate::zsh::theme::color_scheme::AccentWhich::ForeGround,
        },
        connection: PromptConnection::Line,
        left_segment_separators: PromptSegmentSeparators {
            start_separator: PromptSeparation::Round,
            mid_separator: PromptSeparation::Slash,
            end_separator: PromptSeparation::Sharp,
            edge_cap: true,
            bold_separation: true,
        },
        right_segment_separators: PromptSegmentSeparators {
            start_separator: PromptSeparation::Sharp,
            mid_separator: PromptSeparation::BackSlash,
            end_separator: PromptSeparation::Round,
            edge_cap: true,
            bold_separation: true,
        },
        accent_which: AccentWhich::ForeGround,
    }
}

fn plain_shell(cmd: &str) -> (content: PromptContent)
    ensures
        content@ == plain_command(cmd@),
{
    let content = PromptContent::Shell {
        cmd: String::from_str(cmd),
        args: Vec::new(),
        envs: Vec::new(),
        fg: None,
        bg: None,
    };
    proof {
        assert(content@->Shell_args =~= Seq::<Seq<char>>::empty());
        assert(content@->Shell_envs =~= Seq::<(Seq<char>, Seq<char>)>::empty());
    }
    content
}

impl Default for PromptContents {
    fn default() -> (contents: PromptContents)
        ensures
            contents@ == default_contents(),
    {
        let contents = PromptContents {
            left: vec![plain_shell("whoami"), plain_shell("hostname")],
            right: vec![
                PromptContent::BuildIn { command: Commands::Pwd { color: None } },
                PromptContent::BuildIn {
                    command: Commands::Cmd {
                        last_status: String::from_str("$LAST_STATUS"),
                        last_command_executed: None,
                        color: None,
                    },
                },
            ],
            color: PromptColorScheme::default(),
            connection: PromptConnection::default(),
            left_segment_separators: PromptSegmentSeparators::default(),
            right_segment_separators: PromptSegmentSeparators::default(),
            accent_which: AccentWhich::default(),
        };
        proof {
            assert(contents@.left =~= default_contents().left);
            assert(contents@.right =~= default_contents().right);
        }
        contents
    }
}

impl PromptContents {
    /// The line of the theme "infinite".
    pub fn infinite() -> (contents: PromptContents)
        ensures
            contents@ == infinite_contents(),
    {
        let contents = PromptContents {
            left: vec![
                PromptContent::BuildIn {
                    command: Commands::Os { color: Some(String::from_str("white")) },
                },
                PromptContent::BuildIn {
                    command: Commands::Pwd { color: Some(String::from_str("#00FFFF")) },
                },
            ],
            right: vec![
                PromptContent::BuildIn {
                    command: Commands::Cmd {
                        last_status: String::from_str("$LAST_STATUS"),
                        last_command_executed: Some(String::from_str("$LAST_COMMAND_EXECUTED")),
                        color: None,
                    },
                },
                PromptContent::BuildIn {
                    command: Commands::Git {
                        path: None,
                        options: GitStatusOptions {
                            default_color_option: None,
                            git_icon_color_option: Some(Color::Blue),
                            branch_color_option: Some(Color::White),
                            staged_color_option: Some(Color::Cyan),
                            unstaged_color_option: Some(Color::Red),
                            untracked_color_option: Some(Color::Rgb(255, 0, 112)),
                            conflict_color_option: Some(Color::Magenta),
                            stashed_color_option: Some(Color::Black),
                            clean_color_option: Some(Color::White),
                            ahead_color_option: Some(Color::Green),
                            behind_color_option: Some(Color::Red),
                        },
                    },
                },
                PromptContent::BuildIn {
                    command: Commands::Time { color: Some(String::from_str("green")) },
                },
            ],
            color: PromptColorScheme {
                bg: NamedColor::FullColor((32, 32, 32)),
                fg: NamedColor::White,
                pc: NamedColor::Red,
                sc: NamedColor::LightBlack,
                accent: AccentColor::Rainbow(NamedColor::FullColor((0, 255, 255))),
                accent_which: crate::zsh::theme::color_scheme::AccentWhich::ForeGround,
            },
            connection: PromptConnection::Line,
            left_segment_separators: PromptSegmentSeparators {
                start_separator: PromptSeparation::Round,
                mid_separator: PromptSeparation::Slash,
                end_separator: PromptSeparation::Sharp,
                edge_cap: true,
                bold_separation: true,
            },
            right_segment_separators: PromptSegmentSeparators {
                start_separator: PromptSeparation::Sharp,
                mid_separator: PromptSeparation::BackSlash,
                end_separator: PromptSeparation::Round,
                edge_cap: true,
                bold_separation: true,
            },
            accent_which: AccentWhich::ForeGround,
        };
        proof {
            assert(contents@.left =~= infinite_contents().left);
            assert(contents@.right =~= infinite_contents().right);
        }
        contents
    }
}

/// The values of a list of lines, in order.
pub open spec fn contents_views(items: Seq<PromptContents>) -> Seq<ContentsView> {
    items.map_values(|c: PromptContents| c@)
}

/// A theme: the lines of the prompt from top to bottom, and the colours of
/// the indicator that replaces the prompt once a command line was entered.
#[derive(Clone, Debug, PartialEq, Eq)]
pub struct PromptTheme {
    pub prompt_contents_list: Vec<PromptContents>,
    pub transient_color: PromptColorScheme,
}

/// The mathematical value of a [`PromptTheme`].
pub struct ThemeView {
    pub prompt_contents_list: Seq<ContentsView>,
    pub transient_color: SchemeView,
}

impl View for PromptTheme {
    type V = ThemeView;

    open spec fn view(&self) -> ThemeView {
        ThemeView {
            prompt_contents_list: contents_views(self.prompt_contents_list@),
            transient_color: self.transient_color@,
        }
    }
}

/// The theme of one line, `line`, with the default colours for the indicator.
pub open spec fn single_line_theme(line: ContentsView) -> ThemeView {
    ThemeView { prompt_contents_list: seq![line], transient_color: default_scheme() }
}

impl Default for PromptTheme {
    fn default() -> (theme: PromptTheme)
        ensures
            theme@ == single_line_theme(default_contents()),
    {
        let theme = PromptTheme {
            prompt_contents_list: vec![PromptContents::default()],
            transient_color: PromptColorScheme::default(),
        };
        proof {
            assert(theme@.prompt_contents_list =~= seq![default_contents()]);
        }
        theme
    }
}

impl PromptTheme {
    /// The theme "infinite".
    pub fn infinite() -> (theme: PromptTheme)
        ensures
            theme@ == single_line_theme(infinite_contents()),
    {
        let theme = PromptTheme {
            prompt_contents_list: vec![PromptContents::infinite()],
            transient_color: PromptColorScheme::default(),
        };
        proof {
            assert(theme@.prompt_contents_list =~= seq![infinite_contents()]);
        }
        theme
    }
}

/// A content that is computed in this process and one that the daemon
/// computes contribute the same pieces where the same segments came back:
/// the two ways differ in nothing but where the segments are computed.
pub proof fn lemma_build_in_matches_daemon(
    built_in: CommandView,
    served: CommandView,
    reply: ReplyView,
)
    ensures
        content_pieces(ContentView::BuildIn { command: built_in }, reply) == content_pieces(
            ContentView::Daemon { command: served },
            reply,
        ),
{
}

/// A content for which no segments came back contributes nothing.
pub proof fn lemma_no_segments_contribute_nothing(command: CommandView)
    ensures
        content_pieces(ContentView::Daemon { command }, ReplyView::Segments(Seq::empty())).len()
            == 0,
        content_pieces(ContentView::BuildIn { command }, ReplyView::Segments(Seq::empty())).len()
            == 0,
{
}

} // verus!
