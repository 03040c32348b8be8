//! The prompt that is drawn before the command line: one row for each line
//! of the theme, fitted to the width of the terminal, and a closing row.

use vstd::prelude::*;
use crate::zsh::prompt::{
    connection_glyph, curve_line, piece_lists, rendered_left, rendered_right, Prompt,
    PromptConnection, PromptCurveLine, PromptView,
};
use crate::zsh::seq::{
    clamp_width, display_width, join_pieces, pieces, str_width, visible_width, NamedColor, Piece,
    ZshPromptBuilder, ZshSequence,
};
use crate::zsh::theme::prompt_theme::{
    content_pieces, content_views, default_contents, ContentReply, ContentView, ContentsView,
    PromptContent, PromptContents, PromptTheme, ReplyView, ThemeView,
};

verus! {

/// `count` copies of `text` in a row.
pub open spec fn repeated(text: Seq<char>, count: nat) -> Seq<char>
    decreases count,
{
    if count == 0 {
        Seq::empty()
    } else {
        repeated(text, (count - 1) as nat) + text
    }
}

/// Writes `text` `count` times in a row.
pub fn repeat(text: &str, count: usize) -> (out: String)
    ensures
        out@ == repeated(text@, count as nat),
{
    let mut out = String::new();
    let mut i: usize = 0;
    while i < count
        invariant
            i <= count,
            out@ == repeated(text@, i as nat),
        decreases count - i,
    {
        out.append(text);
        i = i + 1;
    }
    out
}

/// The columns left for the connector: the width of the terminal less the
/// widths of both halves and of the decoration, and zero where those take
/// up more than the terminal has.
pub open spec fn fill_length(
    terminal_width: int,
    left_width: int,
    right_width: int,
    decoration_width: int,
) -> int {
    let rest = terminal_width - left_width - right_width - decoration_width;
    if rest < 0 {
        0
    } else {
        rest
    }
}

/// Computes the columns left for the connector.
pub fn fill_columns(
    terminal_width: usize,
    left_width: usize,
    right_width: usize,
    decoration_width: usize,
) -> (columns: usize)
    ensures
        columns == fill_length(
            terminal_width as int,
            left_width as int,
            right_width as int,
            decoration_width as int,
        ),
        columns <= terminal_width,
{
    terminal_width.saturating_sub(left_width).saturating_sub(right_width).saturating_sub(
        decoration_width,
    )
}

/// A width that was cut off at the largest `usize` leaves as many columns
/// as the width itself: none.
pub proof fn lemma_fill_length_clamped(
    terminal_width: usize,
    left_width: nat,
    right_width: nat,
    decoration_width: nat,
)
    ensures
        fill_length(
            terminal_width as int,
            clamp_width(left_width) as int,
            clamp_width(right_width) as int,
            clamp_width(decoration_width) as int,
        ) == fill_length(
            terminal_width as int,
            left_width as int,
            right_width as int,
            decoration_width as int,
        ),
{
}

/// How many glyphs of the width `glyph_width` go into `columns` columns; a
/// glyph without width fills nothing.
pub open spec fn glyph_count(columns: int, glyph_width: int) -> int {
    if glyph_width <= 0 {
        0
    } else {
        columns / glyph_width
    }
}

/// The reply for the content at `index`, and `Nothing` where there is none.
pub open spec fn reply_for(replies: Seq<ReplyView>, index: int) -> ReplyView {
    if 0 <= index < replies.len() {
        replies[index]
    } else {
        ReplyView::Nothing
    }
}

/// The lists that are not empty, in their order.
pub open spec fn non_empty(items: Seq<Seq<Piece>>) -> Seq<Seq<Piece>>
    decreases items.len(),
{
    if items.len() == 0 {
        Seq::empty()
    } else if items.last().len() > 0 {
        non_empty(items.drop_last()).push(items.last())
    } else {
        non_empty(items.drop_last())
    }
}

/// What each content contributes, in the order of the configuration.
pub open spec fn contributions(contents: Seq<ContentView>, replies: Seq<ReplyView>) -> Seq<
    Seq<Piece>,
> {
    Seq::new(contents.len(), |k: int| content_pieces(contents[k], reply_for(replies, k)))
}

/// The segments of one half: what its contents contribute, without the
/// contents that contribute nothing, in the order of the configuration.
pub open spec fn acquired(contents: Seq<ContentView>, replies: Seq<ReplyView>) -> Seq<Seq<Piece>> {
    non_empty(contributions(contents, replies))
}

/// The values of a list of replies.
pub open spec fn reply_views(replies: Seq<ContentReply>) -> Seq<ReplyView> {
    replies.map_values(|r: ContentReply| r@)
}

/// What is kept is not empty, and no more is kept than there was.
pub proof fn lemma_non_empty_kept(items: Seq<Seq<Piece>>)
    ensures
        non_empty(items).len() <= items.len(),
        forall|k: int| 0 <= k < non_empty(items).len() ==> (#[trigger] non_empty(items)[k]).len() > 0,
    decreases items.len(),
{
    if items.len() > 0 {
        lemma_non_empty_kept(items.drop_last());
    }
}

/// Where no list is empty, every list is kept, in its place.
pub proof fn lemma_non_empty_keeps_all(items: Seq<Seq<Piece>>)
    requires
        forall|k: int| 0 <= k < items.len() ==> (#[trigger] items[k]).len() > 0,
    ensures
        non_empty(items) == items,
    decreases items.len(),
{
    if items.len() > 0 {
        lemma_non_empty_keeps_all(items.drop_last());
        assert(items.drop_last().push(items.last()) =~= items);
    }
}

/// What is kept of two lists in a row is what is kept of each, in a row:
/// the order of the configuration is the order of the segments.
pub proof fn lemma_non_empty_concat(front: Seq<Seq<Piece>>, back: Seq<Seq<Piece>>)
    ensures
        non_empty(front + back) == non_empty(front) + non_empty(back),
    decreases back.len(),
{
    if back.len() == 0 {
        assert(front + back =~= front);
        assert(non_empty(front) + non_empty(back) =~= non_empty(front));
    } else {
        lemma_non_empty_concat(front, back.drop_last());
        assert((front + back).drop_last() =~= front + back.drop_last());
        assert((front + back).last() == back.last());
        if back.last().len() > 0 {
            assert(non_empty(front) + non_empty(back.drop_last()).push(back.last()) =~= (
            non_empty(front) + non_empty(back.drop_last())).push(back.last()));
        }
    }
}

/// Collects the segments of one half from the replies to its contents.
pub fn acquire(contents: &Vec<PromptContent>, replies: &Vec<ContentReply>) -> (segments: Vec<
    Vec<ZshSequence>,
>)
    ensures
        piece_lists(segments@) == acquired(content_views(contents@), reply_views(replies@)),
        segments.len() <= contents.len(),
{
    let ghost all = contributions(content_views(contents@), reply_views(replies@));
    let nothing = ContentReply::Nothing;
    let mut segments: Vec<Vec<ZshSequence>> = Vec::new();
    let mut k: usize = 0;
    proof {
        assert(all.take(0) =~= Seq::<Seq<Piece>>::empty());
        assert(piece_lists(segments@) =~= Seq::<Seq<Piece>>::empty());
    }
    while k < contents.len()
        invariant
            k <= contents.len(),
            nothing@ == ReplyView::Nothing,
            all == contributions(content_views(contents@), reply_views(replies@)),
            piece_lists(segments@) == non_empty(all.take(k as int)),
            segments.len() <= k,
        decreases contents.len() - k,
    {
        let reply: &ContentReply = if k < replies.len() {
            &replies[k]
        } else {
            &nothing
        };
        let seqs = contents[k].content(reply);
        proof {
            assert(reply@ == reply_for(reply_views(replies@), k as int));
            assert(pieces(seqs@) == all[k as int]);
            assert(all.take(k + 1).drop_last() =~= all.take(k as int));
            assert(all.take(k + 1).last() == all[k as int]);
        }
        if seqs.len() > 0 {
            let ghost before = segments@;
            segments.push(seqs);
            proof {
                assert(piece_lists(segments@) =~= piece_lists(before).push(pieces(seqs@)));
            }
        }
        k = k + 1;
    }
    proof {
        assert(all.take(k as int) =~= all);
    }
    segments
}

/// What came back for the contents of one line: one reply for each content
/// of its left half and of its right half, in the order of the configuration.
#[derive(Clone, Debug, PartialEq, Eq)]
pub struct LineReplies {
    pub left: Vec<ContentReply>,
    pub right: Vec<ContentReply>,
}

/// The mathematical value of a [`LineReplies`].
pub struct LineRepliesView {
    pub left: Seq<ReplyView>,
    pub right: Seq<ReplyView>,
}

impl View for LineReplies {
    type V = LineRepliesView;

    open spec fn view(&self) -> LineRepliesView {
        LineRepliesView { left: reply_views(self.left@), right: reply_views(self.right@) }
    }
}

/// The values of the replies for each line.
pub open spec fn line_replies_views(replies: Seq<LineReplies>) -> Seq<LineRepliesView> {
    replies.map_values(|r: LineReplies| r@)
}

/// The replies for the line at `index`, and none where there are none.
pub open spec fn replies_for(replies: Seq<LineRepliesView>, index: int) -> LineRepliesView {
    if 0 <= index < replies.len() {
        replies[index]
    } else {
        LineRepliesView { left: Seq::empty(), right: Seq::empty() }
    }
}

/// The segments of a line, given the replies to its contents.
pub open spec fn line_prompt(line: ContentsView, replies: LineRepliesView) -> PromptView {
    PromptView {
        left: acquired(line.left, replies.left),
        right: acquired(line.right, replies.right),
    }
}

/// The width of what frames a row on both sides: twice a corner and a
/// connector glyph.
pub open spec fn decoration_width(connection: PromptConnection) -> nat {
    2 * (display_width(curve_line(connection).top_left) + display_width(
        connection_glyph(connection),
    )) as nat
}

/// The connector between halves of the widths `left_width` and
/// `right_width`: the glyph of the connection, as often as it goes into the
/// columns that the halves and the decoration leave of the terminal.
pub open spec fn connector_for(
    connection: PromptConnection,
    left_width: nat,
    right_width: nat,
    terminal_width: int,
) -> Seq<char> {
    let glyph = connection_glyph(connection);
    let fill = fill_length(
        terminal_width,
        left_width as int,
        right_width as int,
        decoration_width(connection) as int,
    );
    repeated(glyph, glyph_count(fill, display_width(glyph) as int) as nat)
}

/// The connector of a row, between its two halves as they are rendered.
pub open spec fn connector(line: ContentsView, prompt: PromptView, terminal_width: int) -> Seq<
    char,
> {
    let left = rendered_left(
        prompt,
        line.color,
        line.left_segment_separators,
        line.accent_which,
    );
    let right = rendered_right(
        prompt,
        line.color,
        line.right_segment_separators,
        line.accent_which,
    );
    connector_for(line.connection, visible_width(left), visible_width(right), terminal_width)
}

/// The halves `left` and `right` and the connector `connector` in the
/// frame of the line: a corner and a line in the secondary colour, the left
/// half, the connector in the primary colour, the right half, and a line
/// and a corner in the secondary colour. The first row has the top
/// corners, every other row the branches.
pub open spec fn framed(
    line: ContentsView,
    left: Seq<Piece>,
    connector: Seq<char>,
    right: Seq<Piece>,
    first: bool,
) -> Seq<Piece> {
    let frame = curve_line(line.connection);
    seq![
        Piece::ForegroundColor(line.color.sc),
        Piece::Literal(
            if first {
                frame.top_left
            } else {
                frame.cross_left
            },
        ),
        Piece::Literal(frame.horizontal),
        Piece::ForegroundColorEnd,
    ] + left + seq![
        Piece::ForegroundColor(line.color.pc),
        Piece::Literal(connector),
        Piece::ForegroundColorEnd,
    ] + right + seq![
        Piece::ForegroundColor(line.color.sc),
        Piece::Literal(frame.horizontal),
        Piece::Literal(
            if first {
                frame.top_right
            } else {
                frame.cross_right
            },
        ),
        Piece::ForegroundColorEnd,
    ]
}

/// One row: the two halves of the line as they are rendered, pinned to the
/// edges of the terminal by the connector between them, in the frame.
pub open spec fn row(line: ContentsView, prompt: PromptView, terminal_width: int, first: bool) -> Seq<
    Piece,
> {
    framed(
        line,
        rendered_left(prompt, line.color, line.left_segment_separators, line.accent_which),
        connector(line, prompt, terminal_width),
        rendered_right(prompt, line.color, line.right_segment_separators, line.accent_which),
        first,
    )
}

/// The short row that ends the prompt and places the cursor: the bottom
/// corner, a line and a blank in the colour `color`.
pub open spec fn closing_row(color: NamedColor, connection: PromptConnection) -> Seq<Piece> {
    let frame = curve_line(connection);
    seq![
        Piece::ForegroundColor(color),
        Piece::Literal(frame.bottom_left),
        Piece::Literal(frame.horizontal),
        Piece::Literal(" "@),
        Piece::ForegroundColorEnd,
    ]
}

/// The prompt of a theme without lines: an empty frame in the colours and
/// with the connection of the default line.
pub open spec fn bare_prompt() -> Seq<Piece> {
    let line = default_contents();
    let frame = curve_line(line.connection);
    seq![
        Piece::ForegroundColor(line.color.sc),
        Piece::Literal(frame.top_left),
        Piece::Literal(frame.horizontal),
        Piece::Literal(frame.horizontal),
        Piece::Literal(frame.top_right),
        Piece::ForegroundColorEnd,
    ] + closing_row(line.color.sc, line.connection)
}

/// Row `i` of the prompt and the line break behind it.
pub open spec fn prompt_row(
    theme: ThemeView,
    replies: Seq<LineRepliesView>,
    terminal_width: int,
    i: int,
) -> Seq<Piece> {
    let line = theme.prompt_contents_list[i];
    row(line, line_prompt(line, replies_for(replies, i)), terminal_width, i == 0) + seq![
        Piece::Newline,
    ]
}

/// The prompt before the command line: the rows of the theme from top to
/// bottom, each with a line break, and the closing row in the colour and
/// with the connection of the last line.
pub open spec fn left_prompt(
    theme: ThemeView,
    replies: Seq<LineRepliesView>,
    terminal_width: int,
) -> Seq<Piece> {
    let lines = theme.prompt_contents_list;
    if lines.len() == 0 {
        bare_prompt()
    } else {
        join_pieces(lines.len() as int, |i: int| prompt_row(theme, replies, terminal_width, i))
            + closing_row(lines.last().color.sc, lines.last().connection)
    }
}

/// Whether the segments of every line of the theme can be counted in a `usize`.
pub open spec fn countable(theme: ThemeView) -> bool {
    forall|i: int|
        0 <= i < theme.prompt_contents_list.len() ==> (
        #[trigger] theme.prompt_contents_list[i]).left.len()
            + theme.prompt_contents_list[i].right.len() + 3 <= usize::MAX
}

/// Tells whether the segments of every line of the theme can be counted.
pub fn is_countable(theme: &PromptTheme) -> (fits: bool)
    ensures
        fits == countable(theme@),
{
    let mut i: usize = 0;
    while i < theme.prompt_contents_list.len()
        invariant
            i <= theme.prompt_contents_list.len(),
            forall|j: int|
                0 <= j < i ==> (#[trigger] theme@.prompt_contents_list[j]).left.len()
                    + theme@.prompt_contents_list[j].right.len() + 3 <= usize::MAX,
        decreases theme.prompt_contents_list.len() - i,
    {
        let line = &theme.prompt_contents_list[i];
        proof {
            assert(theme@.prompt_contents_list[i as int] == line@);
        }
        let left: usize = line.left.len();
        let right: usize = line.right.len();
        if left > usize::MAX - 3 || right > usize::MAX - 3 - left {
            return false;
        }
        i = i + 1;
    }
    true
}

/// Appends the closing row.
fn push_closing_row(builder: ZshPromptBuilder, color: NamedColor, connection: PromptConnection) -> (out:
    ZshPromptBuilder)
    ensures
        out@ == builder@ + closing_row(color, connection),
{
    let curved_lines = PromptCurveLine::from(connection);
    let end = ZshPromptBuilder::new().color(color).str(curved_lines.bottom_left.as_str()).str(
        curved_lines.horizontal.as_str(),
    ).str(" ").end_color();
    proof {
        assert(end@ =~= closing_row(color, connection));
    }
    builder.connect(end)
}

/// Collects the segments of both halves of a line.
pub fn acquire_line(prompt_contents: &PromptContents, replies: &LineReplies) -> (prompt: Prompt)
    requires
        prompt_contents@.left.len() + prompt_contents@.right.len() + 3 <= usize::MAX,
    ensures
        prompt@ == line_prompt(prompt_contents@, replies@),
        prompt.has_room(0),
{
    let mut prompt = Prompt::default();
    let left_results = acquire(&prompt_contents.left, &replies.left);
    let right_results = acquire(&prompt_contents.right, &replies.right);
    prompt.extend_left(left_results);
    prompt.extend_right(right_results);
    proof {
        assert(prompt@.left =~= line_prompt(prompt_contents@, replies@).left);
        assert(prompt@.right =~= line_prompt(prompt_contents@, replies@).right);
    }
    prompt
}

/// Writes the connector that goes between the rendered halves `left` and
/// `right` on a terminal of `terminal_width` columns.
pub fn connector_text(
    connection: PromptConnection,
    left: &ZshPromptBuilder,
    right: &ZshPromptBuilder,
    terminal_width: usize,
) -> (text: String)
    ensures
        text@ == connector_for(
            connection,
            visible_width(left@),
            visible_width(right@),
            terminal_width as int,
        ),
{
    let left_width: usize = left.len();
    let right_width: usize = right.len();
    let curved_lines = PromptCurveLine::from(connection);
    let conn = connection.glyph();
    let conn_line_width: usize = str_width(conn);
    let side_decor_width: usize = str_width(curved_lines.top_left.as_str()).saturating_add(
        conn_line_width,
    );
    let decoration: usize = side_decor_width.saturating_add(side_decor_width);
    proof {
        assert(decoration == clamp_width(decoration_width(connection)));
        lemma_fill_length_clamped(
            terminal_width,
            visible_width(left@),
            visible_width(right@),
            decoration_width(connection),
        );
    }
    let connection_len: usize = fill_columns(terminal_width, left_width, right_width, decoration);
    let count: usize = if conn_line_width == 0 {
        0
    } else {
        connection_len / conn_line_width
    };
    repeat(conn, count)
}

/// Puts the rendered halves and the connector into the frame of the line.
pub fn frame_row(
    prompt_contents: &PromptContents,
    left_content: ZshPromptBuilder,
    connection_str: &str,
    right_content: ZshPromptBuilder,
    first: bool,
) -> (builder: ZshPromptBuilder)
    ensures
        builder@ == framed(
            prompt_contents@,
            left_content@,
            connection_str@,
            right_content@,
            first,
        ),
{
    let curved_lines = PromptCurveLine::from(prompt_contents.connection);
    let row_builder = ZshPromptBuilder::new().color(prompt_contents.color.sc).str(
        if first {
            curved_lines.top_left.as_str()
        } else {
            curved_lines.cross_left.as_str()
        },
    ).str(curved_lines.horizontal.as_str()).end_color();
    let ghost opening = row_builder@;
    let ghost left_pieces = left_content@;
    let ghost right_pieces = right_content@;
    let half = row_builder.connect(left_content).color(prompt_contents.color.pc).str(
        connection_str,
    ).end_color();
    proof {
        assert(half@ =~= opening + left_pieces + seq![
            Piece::ForegroundColor(prompt_contents.color.pc),
            Piece::Literal(connection_str@),
            Piece::ForegroundColorEnd,
        ]);
    }
    let final_prompt = half.connect(right_content).color(prompt_contents.color.sc).str(
        curved_lines.horizontal.as_str(),
    ).str(
        if first {
            curved_lines.top_right.as_str()
        } else {
            curved_lines.cross_right.as_str()
        },
    ).end_color();
    proof {
        assert(final_prompt@ =~= framed(
            prompt_contents@,
            left_pieces,
            connection_str@,
            right_pieces,
            first,
        ));
    }
    final_prompt
}

/// Renders one row of the prompt from the replies to the contents of its line.
pub fn render_row(
    prompt_contents: &PromptContents,
    replies: &LineReplies,
    terminal_width: usize,
    first: bool,
) -> (builder: ZshPromptBuilder)
    requires
        prompt_contents@.left.len() + prompt_contents@.right.len() + 3 <= usize::MAX,
    ensures
        builder@ == row(
            prompt_contents@,
            line_prompt(prompt_contents@, replies@),
            terminal_width as int,
            first,
        ),
{
    let prompt = acquire_line(prompt_contents, replies);
    let left_content = prompt.render_left(prompt_contents);
    let right_content = prompt.render_right(prompt_contents);
    let connection_str = connector_text(
        prompt_contents.connection,
        &left_content,
        &right_content,
        terminal_width,
    );
    frame_row(prompt_contents, left_content, connection_str.as_str(), right_content, first)
}

/// Builds the prompt that stands before the command line, from the replies
/// to the contents of each line of the theme and the width of the terminal.
pub fn left(theme: &PromptTheme, replies: &Vec<LineReplies>, terminal_width: usize) -> (builder:
    ZshPromptBuilder)
    requires
        countable(theme@),
    ensures
        builder@ == left_prompt(theme@, line_replies_views(replies@), terminal_width as int),
{
    let mut builder = ZshPromptBuilder::new();
    if theme.prompt_contents_list.len() == 0 {
        let default_prompt_contents = PromptContents::default();
        let curved_lines = PromptCurveLine::from(default_prompt_contents.connection);
        let h = curved_lines.horizontal.as_str();
        let top = ZshPromptBuilder::new().color(default_prompt_contents.color.sc).str(
            curved_lines.top_left.as_str(),
        ).str(h).str(h).str(curved_lines.top_right.as_str()).end_color();
        let out = push_closing_row(
            top,
            default_prompt_contents.color.sc,
            default_prompt_contents.connection,
        );
        proof {
            assert(out@ =~= bare_prompt());
        }
        return out;
    }
    let no_replies = LineReplies { left: Vec::new(), right: Vec::new() };
    let ghost views = line_replies_views(replies@);
    let ghost part = |i: int| prompt_row(theme@, views, terminal_width as int, i);
    let len: usize = theme.prompt_contents_list.len();
    let mut i: usize = 0;
    proof {
        assert(no_replies@.left =~= Seq::<ReplyView>::empty());
        assert(no_replies@.right =~= Seq::<ReplyView>::empty());
        assert(builder@ =~= join_pieces(0, part));
    }
    while i < len
        invariant
            i <= len,
            len == theme.prompt_contents_list.len(),
            countable(theme@),
            views == line_replies_views(replies@),
            no_replies@ == replies_for(Seq::empty(), 0),
            part == (|i: int| prompt_row(theme@, views, terminal_width as int, i)),
            builder@ == join_pieces(i as int, part),
        decreases len - i,
    {
        let ghost before = builder@;
        let prompt_contents = &theme.prompt_contents_list[i];
        let line_replies: &LineReplies = if i < replies.len() {
            &replies[i]
        } else {
            &no_replies
        };
        proof {
            assert(theme@.prompt_contents_list[i as int] == prompt_contents@);
            assert(line_replies@ == replies_for(views, i as int));
        }
        let final_prompt = render_row(prompt_contents, line_replies, terminal_width, i == 0);
        builder = builder.connect(final_prompt).newline();
        proof {
            assert(builder@ =~= before + part(i as int));
        }
        i = i + 1;
    }
    let last = &theme.prompt_contents_list[len - 1];
    proof {
        assert(theme@.prompt_contents_list.last() == last@);
    }
    push_closing_row(builder, last.color.sc, last.connection)
}

/// A right half without segments is rendered as nothing, whatever the
/// accent mode, and its visible width is 0.
pub proof fn lemma_empty_right_half(line: ContentsView, prompt: PromptView)
    requires
        prompt.right.len() == 0,
    ensures
        rendered_right(prompt, line.color, line.right_segment_separators, line.accent_which)
            == Seq::<Piece>::empty(),
        visible_width(
            rendered_right(prompt, line.color, line.right_segment_separators, line.accent_which),
        ) == 0,
{
}

/// A line without contents on its right has no segments there, whatever
/// the replies are.
pub proof fn lemma_no_right_contents(line: ContentsView, replies: LineRepliesView)
    requires
        line.right.len() == 0,
    ensures
        line_prompt(line, replies).right.len() == 0,
{
    assert(contributions(line.right, replies.right) =~= Seq::<Seq<Piece>>::empty());
}

/// The columns left for the connector are the width of the terminal less
/// the widths of both halves and of the decoration where that is not
/// negative, and 0 where it is: they are never negative.
pub proof fn lemma_fill_length_clamps(
    terminal_width: int,
    left_width: int,
    right_width: int,
    decoration_width: int,
)
    ensures
        fill_length(terminal_width, left_width, right_width, decoration_width) >= 0,
        terminal_width - left_width - right_width - decoration_width >= 0 ==> fill_length(
            terminal_width,
            left_width,
            right_width,
            decoration_width,
        ) == terminal_width - left_width - right_width - decoration_width,
        terminal_width - left_width - right_width - decoration_width < 0 ==> fill_length(
            terminal_width,
            left_width,
            right_width,
            decoration_width,
        ) == 0,
{
}

} // verus!
