//! One prompt row: its segments, the glyphs between them and their colours.

pub mod hook;
pub mod left;
pub mod right;
pub mod segment;
pub mod transient;

use vstd::prelude::*;
use vstd::std_specs::convert::FromSpecImpl;
use crate::zsh::seq::{
    clone_sequences, join_pieces, pieces, NamedColor, Piece, ZshPromptBuilder, ZshSequence,
};
use crate::zsh::theme::color_scheme::{accent_color, PromptColorScheme, SchemeView};
use crate::zsh::theme::gradient::Progress;
use crate::zsh::theme::prompt_theme::{AccentWhich, PromptContents, PromptSegmentSeparators};

verus! {

/// The glyph that fills the space between the two halves of a row.
#[derive(Clone, Copy, Debug, PartialEq, Eq)]
pub enum PromptConnection {
    Blank,
    Line,
    Double,
    Bold,
    Dashed,
    Dotted,
    Dot,
    Bullet,
    Wave,
    ZigZag,
    Bar,
    Gradient,
}

impl Default for PromptConnection {
    fn default() -> (connection: PromptConnection)
        ensures
            connection == PromptConnection::Blank,
    {
        PromptConnection::Blank
    }
}

/// The text that stands for `connection` on the terminal.
pub open spec fn connection_glyph(connection: PromptConnection) -> Seq<char> {
    match connection {
        PromptConnection::Blank => " "@,
        PromptConnection::Line => "\u{2500}"@,
        PromptConnection::Double => "\u{2550}"@,
        PromptConnection::Bold => "\u{2501}"@,
        PromptConnection::Dashed => "\u{254c}"@,
        PromptConnection::Dotted => "\u{2504}"@,
        PromptConnection::Dot => "\u{b7}"@,
        PromptConnection::Bullet => "\u{2022}"@,
        PromptConnection::Wave => "~"@,
        PromptConnection::ZigZag => "\u{2248}"@,
        PromptConnection::Bar => "\u{2588}"@,
        PromptConnection::Gradient => "\u{2592}"@,
    }
}

impl PromptConnection {
    /// The glyph of this connection.
    pub fn glyph(&self) -> (glyph: &'static str)
        ensures
            glyph@ == connection_glyph(*self),
    {
        match self {
            PromptConnection::Blank => " ",
            PromptConnection::Line => "\u{2500}",
            PromptConnection::Double => "\u{2550}",
            PromptConnection::Bold => "\u{2501}",
            PromptConnection::Dashed => "\u{254c}",
            PromptConnection::Dotted => "\u{2504}",
            PromptConnection::Dot => "\u{b7}",
            PromptConnection::Bullet => "\u{2022}",
            PromptConnection::Wave => "~",
            PromptConnection::ZigZag => "\u{2248}",
            PromptConnection::Bar => "\u{2588}",
            PromptConnection::Gradient => "\u{2592}",
        }
    }

    /// The glyph of this connection as an owned string.
    pub fn to_string(&self) -> (glyph: String)
        ensures
            glyph@ == connection_glyph(*self),
    {
        String::from_str(self.glyph())
    }
}

/// The glyphs that frame the rows: corners, lines and branches.
#[derive(Clone, Debug, PartialEq, Eq)]
pub struct PromptCurveLine {
    pub top_left: String,
    pub top_right: String,
    pub bottom_left: String,
    pub bottom_right: String,
    pub horizontal: String,
    pub vertical: String,
    pub cross_left: String,
    pub cross_right: String,
}

/// The mathematical value of a [`PromptCurveLine`].
pub struct CurveLineView {
    pub top_left: Seq<char>,
    pub top_right: Seq<char>,
    pub bottom_left: Seq<char>,
    pub bottom_right: Seq<char>,
    pub horizontal: Seq<char>,
    pub vertical: Seq<char>,
    pub cross_left: Seq<char>,
    pub cross_right: Seq<char>,
}

impl View for PromptCurveLine {
    type V = CurveLineView;

    open spec fn view(&self) -> CurveLineView {
        CurveLineView {
            top_left: self.top_left@,
            top_right: self.top_right@,
            bottom_left: self.bottom_left@,
            bottom_right: self.bottom_right@,
            horizontal: self.horizontal@,
            vertical: self.vertical@,
            cross_left: self.cross_left@,
            cross_right: self.cross_right@,
        }
    }
}

/// The frame with rounded corners and the horizontal line `horizontal`.
pub open spec fn rounded_frame(horizontal: Seq<char>) -> CurveLineView {
    CurveLineView {
        top_left: "\u{256d}"@,
        top_right: "\u{256e}"@,
        bottom_left: "\u{2570}"@,
        bottom_right: "\u{256f}"@,
        horizontal: horizontal,
        vertical: "\u{2502}"@,
        cross_left: "\u{251c}"@,
        cross_right: "\u{2524}"@,
    }
}

/// The frame that goes with `connection`: double and bold lines have their
/// own corners, the thin lines have square corners, the bar has slanted
/// ends, and every other connection has rounded corners and is its own
/// horizontal line.
pub open spec fn curve_line(connection: PromptConnection) -> CurveLineView {
    match connection {
        PromptConnection::Double => CurveLineView {
            top_left: "\u{2554}"@,
            top_right: "\u{2557}"@,
            bottom_left: "\u{255a}"@,
            bottom_right: "\u{255d}"@,
            horizontal: "\u{2550}"@,
            vertical: "\u{2551}"@,
            cross_left: "\u{2560}"@,
            cross_right: "\u{2563}"@,
        },
        PromptConnection::Bold => CurveLineView {
            top_left: "\u{250f}"@,
            top_right: "\u{2513}"@,
            bottom_left: "\u{2517}"@,
            bottom_right: "\u{251b}"@,
            horizontal: "\u{2501}"@,
            vertical: "\u{2503}"@,
            cross_left: "\u{2523}"@,
            cross_right: "\u{252b}"@,
        },
        PromptConnection::Line | PromptConnection::Dashed | PromptConnection::Dotted => CurveLineView {
            top_left: "\u{250c}"@,
            top_right: "\u{2510}"@,
            bottom_left: "\u{2514}"@,
            bottom_right: "\u{2518}"@,
            horizontal: "\u{2500}"@,
            vertical: "\u{2502}"@,
            cross_left: "\u{251c}"@,
            cross_right: "\u{2524}"@,
        },
        PromptConnection::Bar => CurveLineView {
            top_left: "\u{e0ba}"@,
            top_right: "\u{e0b8}"@,
            bottom_left: "\u{e0be}"@,
            bottom_right: "\u{e0bc}"@,
            horizontal: "\u{2588}"@,
            vertical: "\u{2588}"@,
            cross_left: "\u{2588}"@,
            cross_right: "\u{2588}"@,
        },
        _ => rounded_frame(connection_glyph(connection)),
    }
}

impl Default for PromptCurveLine {
    fn default() -> (line: PromptCurveLine)
        ensures
            line@ == rounded_frame("\u{2500}"@),
    {
        PromptCurveLine {
            top_left: String::from_str("\u{256d}"),
            top_right: String::from_str("\u{256e}"),
            bottom_left: String::from_str("\u{2570}"),
            bottom_right: String::from_str("\u{256f}"),
            horizontal: String::from_str("\u{2500}"),
            vertical: String::from_str("\u{2502}"),
            cross_left: String::from_str("\u{251c}"),
            cross_right: String::from_str("\u{2524}"),
        }
    }
}

// A `String` has no literal in specifications, so the conversions below are
// specified over views, by the `ensures` of `from` itself.
impl FromSpecImpl<PromptConnection> for PromptCurveLine {
    open spec fn obeys_from_spec() -> bool {
        false
    }

    open spec fn from_spec(connection: PromptConnection) -> PromptCurveLine {
        arbitrary()
    }
}

impl From<PromptConnection> for PromptCurveLine {
    /// The frame that goes with the connection `conn`.
    fn from(conn: PromptConnection) -> (line: PromptCurveLine)
        ensures
            line@ == curve_line(conn),
    {
        match conn {
            PromptConnection::Double => PromptCurveLine {
                top_left: String::from_str("\u{2554}"),
                top_right: String::from_str("\u{2557}"),
                bottom_left: String::from_str("\u{255a}"),
                bottom_right: String::from_str("\u{255d}"),
                horizontal: String::from_str("\u{2550}"),
                vertical: String::from_str("\u{2551}"),
                cross_left: String::from_str("\u{2560}"),
                cross_right: String::from_str("\u{2563}"),
            },
            PromptConnection::Bold => PromptCurveLine {
                top_left: String::from_str("\u{250f}"),
                top_right: String::from_str("\u{2513}"),
                bottom_left: String::from_str("\u{2517}"),
                bottom_right: String::from_str("\u{251b}"),
                horizontal: String::from_str("\u{2501}"),
                vertical: String::from_str("\u{2503}"),
                cross_left: String::from_str("\u{2523}"),
                cross_right: String::from_str("\u{252b}"),
            },
            PromptConnection::Line | PromptConnection::Dashed | PromptConnection::Dotted => PromptCurveLine {
                top_left: String::from_str("\u{250c}"),
                top_right: String::from_str("\u{2510}"),
                bottom_left: String::from_str("\u{2514}"),
                bottom_right: String::from_str("\u{2518}"),
                horizontal: String::from_str("\u{2500}"),
                vertical: String::from_str("\u{2502}"),
                cross_left: String::from_str("\u{251c}"),
                cross_right: String::from_str("\u{2524}"),
            },
            PromptConnection::Bar => PromptCurveLine {
                top_left: String::from_str("\u{e0ba}"),
                top_right: String::from_str("\u{e0b8}"),
                bottom_left: String::from_str("\u{e0be}"),
                bottom_right: String::from_str("\u{e0bc}"),
                horizontal: String::from_str("\u{2588}"),
                vertical: String::from_str("\u{2588}"),
                cross_left: String::from_str("\u{2588}"),
                cross_right: String::from_str("\u{2588}"),
            },
            _ => PromptCurveLine {
                top_left: String::from_str("\u{256d}"),
                top_right: String::from_str("\u{256e}"),
                bottom_left: String::from_str("\u{2570}"),
                bottom_right: String::from_str("\u{256f}"),
                horizontal: conn.to_string(),
                vertical: String::from_str("\u{2502}"),
                cross_left: String::from_str("\u{251c}"),
                cross_right: String::from_str("\u{2524}"),
            },
        }
    }
}

/// The shape of the glyphs that separate segments.
#[derive(Clone, Copy, Debug, PartialEq, Eq)]
pub enum PromptSeparation {
    Block,
    Sharp,
    Slash,
    BackSlash,
    Round,
    Blur,
    Flame,
    Pixel,
    Wave,
    Lego,
}

impl Default for PromptSeparation {
    fn default() -> (separation: PromptSeparation)
        ensures
            separation == PromptSeparation::Sharp,
    {
        PromptSeparation::Sharp
    }
}

/// The filled glyphs of a separation: one that points left to right, and its mirror.
#[derive(Clone, Debug, PartialEq, Eq)]
pub struct PromptSeparationBox {
    pub left: String,
    pub right: String,
}

/// The thin glyphs of a separation: one that points left to right, and its mirror.
#[derive(Clone, Debug, PartialEq, Eq)]
pub struct PromptSeparationLine {
    pub left: String,
    pub right: String,
}

impl PromptSeparationBox {
    /// The pair of the glyphs `left` and `right`.
    pub fn new(left: &str, right: &str) -> (glyphs: PromptSeparationBox)
        ensures
            glyphs.left@ == left@,
            glyphs.right@ == right@,
    {
        PromptSeparationBox { left: String::from_str(left), right: String::from_str(right) }
    }
}

impl PromptSeparationLine {
    /// The pair of the glyphs `left` and `right`.
    pub fn new(left: &str, right: &str) -> (glyphs: PromptSeparationLine)
        ensures
            glyphs.left@ == left@,
            glyphs.right@ == right@,
    {
        PromptSeparationLine { left: String::from_str(left), right: String::from_str(right) }
    }
}

/// The filled glyphs of `separation`: the one that points left to right
/// first, its mirror second.
pub open spec fn box_glyphs(separation: PromptSeparation) -> (Seq<char>, Seq<char>) {
    match separation {
        PromptSeparation::Block => (" "@, " "@),
        PromptSeparation::Sharp => ("\u{e0b0}"@, "\u{e0b2}"@),
        PromptSeparation::Slash => ("\u{e0bc}"@, "\u{e0ba}"@),
        PromptSeparation::BackSlash => ("\u{e0b8}"@, "\u{e0be}"@),
        PromptSeparation::Round => ("\u{e0b4}"@, "\u{e0b6}"@),
        PromptSeparation::Blur => ("\u{2593}\u{2592}\u{2591}"@, "\u{2591}\u{2592}\u{2593}"@),
        PromptSeparation::Flame => ("\u{e0c0}"@, "\u{e0c2}"@),
        PromptSeparation::Pixel => ("\u{e0c6}"@, "\u{e0c7}"@),
        PromptSeparation::Wave => ("\u{e0c8}"@, "\u{e0ca}"@),
        PromptSeparation::Lego => ("\u{e0b0}"@, "\u{e0b2}"@),
    }
}

/// The thin glyphs of `separation`: the one that points left to right first,
/// its mirror second.
pub open spec fn line_glyphs(separation: PromptSeparation) -> (Seq<char>, Seq<char>) {
    match separation {
        PromptSeparation::Block => ("|"@, "|"@),
        PromptSeparation::Sharp => ("\u{e0b1}"@, "\u{e0b3}"@),
        PromptSeparation::Slash => ("\u{2571}"@, "\u{2571}"@),
        PromptSeparation::BackSlash => ("\u{2572}"@, "\u{2572}"@),
        PromptSeparation::Round => ("\u{e0b5}"@, "\u{e0b7}"@),
        PromptSeparation::Blur => ("\u{2591}"@, "\u{2591}"@),
        PromptSeparation::Flame => ("\u{e0c1}"@, "\u{e0c3}"@),
        PromptSeparation::Pixel => ("\u{e0c4}"@, "\u{e0c5}"@),
        PromptSeparation::Wave => ("\u{e0c9}"@, "\u{e0cb}"@),
        PromptSeparation::Lego => ("\u{e0b1}"@, "\u{e0b3}"@),
    }
}

impl PromptSeparation {
    /// The filled glyphs of this separation.
    pub fn sep_box(&self) -> (glyphs: PromptSeparationBox)
        ensures
            glyphs.left@ == box_glyphs(*self).0,
            glyphs.right@ == box_glyphs(*self).1,
    {
        match self {
            PromptSeparation::Block => PromptSeparationBox::new(" ", " "),
            PromptSeparation::Sharp => PromptSeparationBox::new("\u{e0b0}", "\u{e0b2}"),
            PromptSeparation::Slash => PromptSeparationBox::new("\u{e0bc}", "\u{e0ba}"),
            PromptSeparation::BackSlash => PromptSeparationBox::new("\u{e0b8}", "\u{e0be}"),
            PromptSeparation::Round => PromptSeparationBox::new("\u{e0b4}", "\u{e0b6}"),
            PromptSeparation::Blur => PromptSeparationBox::new(
                "\u{2593}\u{2592}\u{2591}",
                "\u{2591}\u{2592}\u{2593}",
            ),
            PromptSeparation::Flame => PromptSeparationBox::new("\u{e0c0}", "\u{e0c2}"),
            PromptSeparation::Pixel => PromptSeparationBox::new("\u{e0c6}", "\u{e0c7}"),
            PromptSeparation::Wave => PromptSeparationBox::new("\u{e0c8}", "\u{e0ca}"),
            PromptSeparation::Lego => PromptSeparationBox::new("\u{e0b0}", "\u{e0b2}"),
        }
    }

    /// The thin glyphs of this separation.
    pub fn sep_line(&self) -> (glyphs: PromptSeparationLine)
        ensures
            glyphs.left@ == line_glyphs(*self).0,
            glyphs.right@ == line_glyphs(*self).1,
    {
        match self {
            PromptSeparation::Block => PromptSeparationLine::new("|", "|"),
            PromptSeparation::Sharp => PromptSeparationLine::new("\u{e0b1}", "\u{e0b3}"),
            PromptSeparation::Slash => PromptSeparationLine::new("\u{2571}", "\u{2571}"),
            PromptSeparation::BackSlash => PromptSeparationLine::new("\u{2572}", "\u{2572}"),
            PromptSeparation::Round => PromptSeparationLine::new("\u{e0b5}", "\u{e0b7}"),
            PromptSeparation::Blur => PromptSeparationLine::new("\u{2591}", "\u{2591}"),
            PromptSeparation::Flame => PromptSeparationLine::new("\u{e0c1}", "\u{e0c3}"),
            PromptSeparation::Pixel => PromptSeparationLine::new("\u{e0c4}", "\u{e0c5}"),
            PromptSeparation::Wave => PromptSeparationLine::new("\u{e0c9}", "\u{e0cb}"),
            PromptSeparation::Lego => PromptSeparationLine::new("\u{e0b1}", "\u{e0b3}"),
        }
    }
}

impl FromSpecImpl<PromptSeparation> for PromptSeparationBox {
    open spec fn obeys_from_spec() -> bool {
        false
    }

    open spec fn from_spec(value: PromptSeparation) -> PromptSeparationBox {
        arbitrary()
    }
}

impl From<PromptSeparation> for PromptSeparationBox {
    fn from(value: PromptSeparation) -> (glyphs: PromptSeparationBox)
        ensures
            glyphs.left@ == box_glyphs(value).0,
            glyphs.right@ == box_glyphs(value).1,
    {
        value.sep_box()
    }
}

impl FromSpecImpl<PromptSeparation> for PromptSeparationLine {
    open spec fn obeys_from_spec() -> bool {
        false
    }

    open spec fn from_spec(value: PromptSeparation) -> PromptSeparationLine {
        arbitrary()
    }
}

impl From<PromptSeparation> for PromptSeparationLine {
    fn from(value: PromptSeparation) -> (glyphs: PromptSeparationLine)
        ensures
            glyphs.left@ == line_glyphs(value).0,
            glyphs.right@ == line_glyphs(value).1,
    {
        value.sep_line()
    }
}

/// The segments of one row: those of its left half and those of its right
/// half, each a list of sequences.
#[derive(Debug, PartialEq, Eq)]
pub struct Prompt {
    left: Vec<Vec<ZshSequence>>,
    right: Vec<Vec<ZshSequence>>,
}

/// The mathematical value of a [`Prompt`].
pub struct PromptView {
    pub left: Seq<Seq<Piece>>,
    pub right: Seq<Seq<Piece>>,
}

/// The pieces of each list of sequences.
pub open spec fn piece_lists(items: Seq<Vec<ZshSequence>>) -> Seq<Seq<Piece>> {
    items.map_values(|v: Vec<ZshSequence>| pieces(v@))
}

/// The slots that the left half takes up: its segments and the glyphs
/// around them; none where it has no segment.
pub open spec fn left_slots(prompt: PromptView) -> int {
    if prompt.left.len() == 0 {
        0
    } else {
        (prompt.left.len() + 1) as int
    }
}

/// The slots that the right half takes up.
pub open spec fn right_slots(prompt: PromptView) -> int {
    if prompt.right.len() == 0 {
        0
    } else {
        (prompt.right.len() + 1) as int
    }
}

/// The slots of both halves.
pub open spec fn total_slots(prompt: PromptView) -> int {
    left_slots(prompt) + right_slots(prompt)
}

impl View for Prompt {
    type V = PromptView;

    closed spec fn view(&self) -> PromptView {
        PromptView { left: piece_lists(self.left@), right: piece_lists(self.right@) }
    }
}

impl Default for Prompt {
    fn default() -> (prompt: Prompt)
        ensures
            prompt@.left == Seq::<Seq<Piece>>::empty(),
            prompt@.right == Seq::<Seq<Piece>>::empty(),
    {
        let prompt = Prompt { left: Vec::new(), right: Vec::new() };
        proof {
            assert(prompt@.left =~= Seq::<Seq<Piece>>::empty());
            assert(prompt@.right =~= Seq::<Seq<Piece>>::empty());
        }
        prompt
    }
}

impl Prompt {
    /// Whether the slots of this prompt with `extra` more segments can be
    /// counted in a `usize`.
    pub open spec fn has_room(self, extra: int) -> bool {
        self@.left.len() + self@.right.len() + extra + 3 <= usize::MAX
    }

    /// Tells whether the slots of this prompt with `extra` more segments can
    /// be counted.
    pub fn can_hold(&self, extra: usize) -> (room: bool)
        ensures
            room == self.has_room(extra as int),
    {
        let left: usize = self.left.len();
        let right: usize = self.right.len();
        left <= usize::MAX - 3 && right <= usize::MAX - 3 - left && extra <= usize::MAX - 3 - left
            - right
    }

    /// The number of slots that the left half takes up.
    pub fn left_separation(&self) -> (slots: usize)
        requires
            self.has_room(0),
        ensures
            slots == left_slots(self@),
    {
        if self.left.len() == 0 {
            0
        } else {
            self.left.len() + 1
        }
    }

    /// The number of slots that the right half takes up.
    pub fn right_separation(&self) -> (slots: usize)
        requires
            self.has_room(0),
        ensures
            slots == right_slots(self@),
    {
        if self.right.len() == 0 {
            0
        } else {
            self.right.len() + 1
        }
    }

    /// The number of slots of both halves.
    pub fn total_separation(&self) -> (slots: usize)
        requires
            self.has_room(0),
        ensures
            slots == total_slots(self@),
    {
        self.left_separation() + self.right_separation()
    }

    /// Adds the text `content` as the last segment of the left half.
    pub fn add_left(&mut self, content: &str)
        requires
            old(self).has_room(1),
        ensures
            final(self)@.left == old(self)@.left.push(seq![Piece::Literal(content@)]),
            final(self)@.right == old(self)@.right,
    {
        let item: Vec<ZshSequence> = vec![ZshSequence::Literal(String::from_str(content))];
        proof {
            assert(pieces(item@) =~= seq![Piece::Literal(content@)]);
        }
        self.left.push(item);
        proof {
            assert(piece_lists(self.left@) =~= piece_lists(old(self).left@).push(pieces(item@)));
        }
    }

    /// Adds the text `content` as the last segment of the right half.
    pub fn add_right(&mut self, content: &str)
        requires
            old(self).has_room(1),
        ensures
            final(self)@.right == old(self)@.right.push(seq![Piece::Literal(content@)]),
            final(self)@.left == old(self)@.left,
    {
        let item: Vec<ZshSequence> = vec![ZshSequence::Literal(String::from_str(content))];
        proof {
            assert(pieces(item@) =~= seq![Piece::Literal(content@)]);
        }
        self.right.push(item);
        proof {
            assert(piece_lists(self.right@) =~= piece_lists(old(self).right@).push(pieces(item@)));
        }
    }

    /// Adds the segments `contents` behind those of the left half.
    pub fn extend_left(&mut self, contents: Vec<Vec<ZshSequence>>)
        requires
            old(self).has_room(contents.len() as int),
        ensures
            final(self)@.left == old(self)@.left + piece_lists(contents@),
            final(self)@.right == old(self)@.right,
    {
        let ghost added = contents@;
        let mut contents = contents;
        self.left.append(&mut contents);
        proof {
            assert(piece_lists(self.left@) =~= piece_lists(old(self).left@) + piece_lists(added));
        }
    }

    /// Adds the segments `contents` behind those of the right half.
    pub fn extend_right(&mut self, contents: Vec<Vec<ZshSequence>>)
        requires
            old(self).has_room(contents.len() as int),
        ensures
            final(self)@.right == old(self)@.right + piece_lists(contents@),
            final(self)@.left == old(self)@.left,
    {
        let ghost added = contents@;
        let mut contents = contents;
        self.right.append(&mut contents);
        proof {
            assert(piece_lists(self.right@) =~= piece_lists(old(self).right@) + piece_lists(added));
        }
    }
}

/// The point `numerator / denominator` along the line.
pub open spec fn slot(numerator: int, denominator: int) -> Progress {
    Progress::fraction(numerator as u64, denominator as u64)
}

/// How a half starts when the accent is on the separators: with a cap, the
/// glyph in `accent` and again in the line's background on `accent`;
/// without one, the glyph in the line's background.
pub open spec fn fg_start_cap(
    bg: NamedColor,
    accent: NamedColor,
    separators: PromptSegmentSeparators,
) -> Seq<Piece> {
    let glyph = box_glyphs(separators.start_separator).1;
    if separators.edge_cap {
        seq![
            Piece::ForegroundColor(accent),
            Piece::Literal(glyph),
            Piece::ForegroundColorEnd,
            Piece::BackgroundColor(accent),
            Piece::ForegroundColor(bg),
            Piece::Literal(glyph),
            Piece::ForegroundColorEnd,
            Piece::BackgroundColorEnd,
        ]
    } else {
        seq![Piece::ForegroundColor(bg), Piece::Literal(glyph), Piece::ForegroundColorEnd]
    }
}

/// How a half ends when the accent is on the separators.
pub open spec fn fg_end_cap(
    bg: NamedColor,
    accent: NamedColor,
    separators: PromptSegmentSeparators,
) -> Seq<Piece> {
    let glyph = box_glyphs(separators.end_separator).0;
    if separators.edge_cap {
        seq![
            Piece::ForegroundColor(bg),
            Piece::BackgroundColor(accent),
            Piece::Literal(glyph),
            Piece::BackgroundColorEnd,
            Piece::ForegroundColor(accent),
            Piece::Literal(glyph),
            Piece::ForegroundColorEnd,
        ]
    } else {
        seq![
            Piece::ForegroundColor(bg),
            Piece::BackgroundColorEnd,
            Piece::Literal(glyph),
            Piece::ForegroundColorEnd,
        ]
    }
}

/// How a half starts when the accent is behind the segments: with a cap,
/// the glyph in the line's background and again in `accent` on that
/// background; without one, the glyph in `accent`.
pub open spec fn bg_start_cap(
    bg: NamedColor,
    accent: NamedColor,
    separators: PromptSegmentSeparators,
) -> Seq<Piece> {
    let glyph = box_glyphs(separators.start_separator).1;
    if separators.edge_cap {
        seq![
            Piece::ForegroundColor(bg),
            Piece::Literal(glyph),
            Piece::ForegroundColorEnd,
            Piece::BackgroundColor(bg),
            Piece::ForegroundColor(accent),
            Piece::Literal(glyph),
            Piece::ForegroundColorEnd,
            Piece::BackgroundColorEnd,
        ]
    } else {
        seq![Piece::ForegroundColor(accent), Piece::Literal(glyph), Piece::ForegroundColorEnd]
    }
}

/// How a half ends when the accent is behind the segments.
pub open spec fn bg_end_cap(
    bg: NamedColor,
    accent: NamedColor,
    separators: PromptSegmentSeparators,
) -> Seq<Piece> {
    let glyph = box_glyphs(separators.end_separator).0;
    if separators.edge_cap {
        seq![
            Piece::ForegroundColor(accent),
            Piece::BackgroundColor(bg),
            Piece::Literal(glyph),
            Piece::BackgroundColorEnd,
            Piece::ForegroundColor(bg),
            Piece::Literal(glyph),
            Piece::ForegroundColorEnd,
        ]
    } else {
        seq![
            Piece::ForegroundColor(accent),
            Piece::BackgroundColorEnd,
            Piece::Literal(glyph),
            Piece::ForegroundColorEnd,
        ]
    }
}

/// A segment on the background `bg`.
pub open spec fn on_background(bg: NamedColor, content: Seq<Piece>) -> Seq<Piece> {
    seq![Piece::BackgroundColor(bg)] + content + seq![Piece::BackgroundColorEnd]
}

/// The separator behind a segment of the left half, accent on the
/// separators: a double wedge in `accent` where the separation is bold, and
/// else a thin glyph in `accent`.
pub open spec fn left_fg_separator(
    bg: NamedColor,
    accent: NamedColor,
    separators: PromptSegmentSeparators,
) -> Seq<Piece> {
    if separators.bold_separation {
        let glyph = box_glyphs(separators.mid_separator).0;
        seq![
            Piece::ForegroundColor(bg),
            Piece::BackgroundColor(accent),
            Piece::Literal(glyph),
            Piece::BackgroundColor(bg),
            Piece::ForegroundColor(accent),
            Piece::Literal(glyph),
            Piece::ForegroundColorEnd,
            Piece::BackgroundColorEnd,
        ]
    } else {
        seq![
            Piece::BackgroundColor(bg),
            Piece::ForegroundColor(accent),
            Piece::Literal(line_glyphs(separators.mid_separator).0),
            Piece::ForegroundColorEnd,
            Piece::BackgroundColorEnd,
        ]
    }
}

/// The separator behind a segment of the right half, accent on the separators.
pub open spec fn right_fg_separator(
    bg: NamedColor,
    accent: NamedColor,
    separators: PromptSegmentSeparators,
) -> Seq<Piece> {
    if separators.bold_separation {
        let glyph = box_glyphs(separators.mid_separator).1;
        seq![
            Piece::ForegroundColor(accent),
            Piece::BackgroundColor(bg),
            Piece::Literal(glyph),
            Piece::ForegroundColor(bg),
            Piece::BackgroundColor(accent),
            Piece::Literal(glyph),
            Piece::ForegroundColorEnd,
            Piece::BackgroundColorEnd,
        ]
    } else {
        seq![
            Piece::BackgroundColor(bg),
            Piece::ForegroundColor(accent),
            Piece::Literal(line_glyphs(separators.mid_separator).1),
            Piece::ForegroundColorEnd,
            Piece::BackgroundColorEnd,
        ]
    }
}

/// The separator between two segments of the left half whose backgrounds
/// are `accent` and `next`: where the separation is bold, two half glyphs,
/// one for each neighbour; else one glyph in `accent`.
pub open spec fn left_bg_separator(
    bg: NamedColor,
    accent: NamedColor,
    next: NamedColor,
    separators: PromptSegmentSeparators,
) -> Seq<Piece> {
    let glyph = box_glyphs(separators.mid_separator).0;
    if separators.bold_separation {
        seq![
            Piece::ForegroundColor(accent),
            Piece::BackgroundColor(bg),
            Piece::Literal(glyph),
            Piece::BackgroundColor(next),
            Piece::ForegroundColor(bg),
            Piece::Literal(glyph),
            Piece::ForegroundColorEnd,
            Piece::BackgroundColorEnd,
        ]
    } else {
        seq![
            Piece::ForegroundColor(accent),
            Piece::BackgroundColor(bg),
            Piece::Literal(glyph),
            Piece::ForegroundColorEnd,
            Piece::BackgroundColorEnd,
        ]
    }
}

/// The separator between two segments of the right half whose backgrounds
/// are `accent` and `next`.
pub open spec fn right_bg_separator(
    bg: NamedColor,
    accent: NamedColor,
    next: NamedColor,
    separators: PromptSegmentSeparators,
) -> Seq<Piece> {
    if separators.bold_separation {
        let glyph = box_glyphs(separators.mid_separator).1;
        seq![
            Piece::ForegroundColor(bg),
            Piece::BackgroundColor(accent),
            Piece::Literal(glyph),
            Piece::BackgroundColor(bg),
            Piece::ForegroundColor(next),
            Piece::Literal(glyph),
            Piece::ForegroundColorEnd,
            Piece::BackgroundColorEnd,
        ]
    } else {
        seq![
            Piece::BackgroundColor(next),
            Piece::ForegroundColor(bg),
            Piece::Literal(line_glyphs(separators.mid_separator).1),
            Piece::ForegroundColorEnd,
            Piece::BackgroundColorEnd,
        ]
    }
}

/// Segment `i` of the left half with what follows it, accent on the
/// separators: the segment on the line's background, and behind every
/// segment but the last a separator in the accent colour of slot `i + 1`.
pub open spec fn left_fg_item(
    prompt: PromptView,
    scheme: SchemeView,
    separators: PromptSegmentSeparators,
    i: int,
) -> Seq<Piece> {
    let total = total_slots(prompt) + 1;
    on_background(scheme.bg, prompt.left[i]) + if i < prompt.left.len() - 1 {
        left_fg_separator(scheme.bg, accent_color(scheme.accent, slot(i + 1, total)), separators)
    } else {
        Seq::empty()
    }
}

/// The left half, accent on the separators. The slots are counted over both
/// halves and one more; the caps take the first slot and the last slot of
/// the half.
pub open spec fn left_fg(
    prompt: PromptView,
    scheme: SchemeView,
    separators: PromptSegmentSeparators,
) -> Seq<Piece> {
    if prompt.left.len() == 0 {
        Seq::empty()
    } else {
        let total = total_slots(prompt) + 1;
        fg_start_cap(scheme.bg, accent_color(scheme.accent, slot(0, total)), separators)
            + join_pieces(
            prompt.left.len() as int,
            |i: int| left_fg_item(prompt, scheme, separators, i),
        ) + fg_end_cap(
            scheme.bg,
            accent_color(scheme.accent, slot(left_slots(prompt), total)),
            separators,
        )
    }
}

/// Segment `i` of the right half with what follows it, accent on the separators.
pub open spec fn right_fg_item(
    prompt: PromptView,
    scheme: SchemeView,
    separators: PromptSegmentSeparators,
    i: int,
) -> Seq<Piece> {
    let total = total_slots(prompt) + 1;
    on_background(scheme.bg, prompt.right[i]) + if i < prompt.right.len() - 1 {
        right_fg_separator(
            scheme.bg,
            accent_color(scheme.accent, slot(left_slots(prompt) + i + 2, total)),
            separators,
        )
    } else {
        Seq::empty()
    }
}

/// The right half, accent on the separators. Its slots follow those of the
/// left half; its last cap has the accent colour of the end of the line.
pub open spec fn right_fg(
    prompt: PromptView,
    scheme: SchemeView,
    separators: PromptSegmentSeparators,
) -> Seq<Piece> {
    if prompt.right.len() == 0 {
        Seq::empty()
    } else {
        let total = total_slots(prompt) + 1;
        fg_start_cap(
            scheme.bg,
            accent_color(scheme.accent, slot(left_slots(prompt) + 1, total)),
            separators,
        ) + join_pieces(
            prompt.right.len() as int,
            |i: int| right_fg_item(prompt, scheme, separators, i),
        ) + fg_end_cap(scheme.bg, accent_color(scheme.accent, slot(1, 1)), separators)
    }
}

/// Segment `i` of the left half with what follows it, accent behind the
/// segments: the segment on the accent colour of slot `i`, counted over the
/// segments of both halves.
pub open spec fn left_bg_item(
    prompt: PromptView,
    scheme: SchemeView,
    separators: PromptSegmentSeparators,
    i: int,
) -> Seq<Piece> {
    let total = (prompt.left.len() + prompt.right.len()) as int;
    let accent = accent_color(scheme.accent, slot(i, total));
    on_background(accent, prompt.left[i]) + if i < prompt.left.len() - 1 {
        left_bg_separator(
            scheme.bg,
            accent,
            accent_color(scheme.accent, slot(i + 1, total)),
            separators,
        )
    } else {
        Seq::empty()
    }
}

/// The left half, accent behind the segments.
pub open spec fn left_bg(
    prompt: PromptView,
    scheme: SchemeView,
    separators: PromptSegmentSeparators,
) -> Seq<Piece> {
    if prompt.left.len() == 0 {
        Seq::empty()
    } else {
        let total = (prompt.left.len() + prompt.right.len()) as int;
        bg_start_cap(scheme.bg, accent_color(scheme.accent, slot(0, total)), separators)
            + join_pieces(
            prompt.left.len() as int,
            |i: int| left_bg_item(prompt, scheme, separators, i),
        ) + bg_end_cap(
            scheme.bg,
            accent_color(scheme.accent, slot(prompt.left.len() - 1, total)),
            separators,
        )
    }
}

/// Segment `i` of the right half with what follows it, accent behind the
/// segments: the slots are those of both halves, and the segment is on the
/// accent colour of the slot behind those of the left half.
pub open spec fn right_bg_item(
    prompt: PromptView,
    scheme: SchemeView,
    separators: PromptSegmentSeparators,
    i: int,
) -> Seq<Piece> {
    let total = total_slots(prompt);
    let accent = accent_color(scheme.accent, slot(left_slots(prompt) + i + 1, total));
    on_background(accent, prompt.right[i]) + if i < prompt.right.len() - 1 {
        right_bg_separator(
            scheme.bg,
            accent,
            accent_color(scheme.accent, slot(left_slots(prompt) + i + 2, total)),
            separators,
        )
    } else {
        Seq::empty()
    }
}

/// The right half, accent behind the segments.
pub open spec fn right_bg(
    prompt: PromptView,
    scheme: SchemeView,
    separators: PromptSegmentSeparators,
) -> Seq<Piece> {
    if prompt.right.len() == 0 {
        Seq::empty()
    } else {
        let total = total_slots(prompt);
        bg_start_cap(
            scheme.bg,
            accent_color(scheme.accent, slot(left_slots(prompt) + 1, total)),
            separators,
        ) + join_pieces(
            prompt.right.len() as int,
            |i: int| right_bg_item(prompt, scheme, separators, i),
        ) + bg_end_cap(scheme.bg, accent_color(scheme.accent, slot(total - 1, total)), separators)
    }
}

/// The left half of a row as the line `accent_which` asks for it.
pub open spec fn rendered_left(
    prompt: PromptView,
    scheme: SchemeView,
    separators: PromptSegmentSeparators,
    accent_which: AccentWhich,
) -> Seq<Piece> {
    match accent_which {
        AccentWhich::ForeGround => left_fg(prompt, scheme, separators),
        AccentWhich::BackGround => left_bg(prompt, scheme, separators),
    }
}

/// The right half of a row as the line `accent_which` asks for it.
pub open spec fn rendered_right(
    prompt: PromptView,
    scheme: SchemeView,
    separators: PromptSegmentSeparators,
    accent_which: AccentWhich,
) -> Seq<Piece> {
    match accent_which {
        AccentWhich::ForeGround => right_fg(prompt, scheme, separators),
        AccentWhich::BackGround => right_bg(prompt, scheme, separators),
    }
}

/// Appends the start of a half, accent on the separators.
fn push_fg_start_cap(
    builder: ZshPromptBuilder,
    scheme: &PromptColorScheme,
    progress: Progress,
    seps: &PromptSegmentSeparators,
) -> (out: ZshPromptBuilder)
    ensures
        out@ == builder@ + fg_start_cap(scheme@.bg, accent_color(scheme@.accent, progress), *seps),
{
    let glyph = seps.start_separator.sep_box().right;
    let out = if seps.edge_cap {
        let start_color = scheme.accent.get(progress);
        builder.color(start_color).str(glyph.as_str()).end_color().color_bg(start_color).color(
            scheme.bg,
        ).str(glyph.as_str()).end_color().end_color_bg()
    } else {
        builder.color(scheme.bg).str(glyph.as_str()).end_color()
    };
    proof {
        assert(out@ =~= builder@ + fg_start_cap(
            scheme@.bg,
            accent_color(scheme@.accent, progress),
            *seps,
        ));
    }
    out
}

/// Appends the end of a half, accent on the separators.
fn push_fg_end_cap(
    builder: ZshPromptBuilder,
    scheme: &PromptColorScheme,
    progress: Progress,
    seps: &PromptSegmentSeparators,
) -> (out: ZshPromptBuilder)
    ensures
        out@ == builder@ + fg_end_cap(scheme@.bg, accent_color(scheme@.accent, progress), *seps),
{
    let glyph = seps.end_separator.sep_box().left;
    let out = if seps.edge_cap {
        let end_color = scheme.accent.get(progress);
        builder.color(scheme.bg).color_bg(end_color).str(glyph.as_str()).end_color_bg().color(
            end_color,
        ).str(glyph.as_str()).end_color()
    } else {
        builder.color(scheme.bg).end_color_bg().str(glyph.as_str()).end_color()
    };
    proof {
        assert(out@ =~= builder@ + fg_end_cap(
            scheme@.bg,
            accent_color(scheme@.accent, progress),
            *seps,
        ));
    }
    out
}

/// Appends the start of a half, accent behind the segments.
fn push_bg_start_cap(
    builder: ZshPromptBuilder,
    scheme: &PromptColorScheme,
    progress: Progress,
    seps: &PromptSegmentSeparators,
) -> (out: ZshPromptBuilder)
    ensures
        out@ == builder@ + bg_start_cap(scheme@.bg, accent_color(scheme@.accent, progress), *seps),
{
    let glyph = seps.start_separator.sep_box().right;
    let start_color = scheme.accent.get(progress);
    let out = if seps.edge_cap {
        builder.color(scheme.bg).str(glyph.as_str()).end_color().color_bg(scheme.bg).color(
            start_color,
        ).str(glyph.as_str()).end_color().end_color_bg()
    } else {
        builder.color(start_color).str(glyph.as_str()).end_color()
    };
    proof {
        assert(out@ =~= builder@ + bg_start_cap(scheme@.bg, start_color, *seps));
    }
    out
}

/// Appends the end of a half, accent behind the segments.
fn push_bg_end_cap(
    builder: ZshPromptBuilder,
    scheme: &PromptColorScheme,
    progress: Progress,
    seps: &PromptSegmentSeparators,
) -> (out: ZshPromptBuilder)
    ensures
        out@ == builder@ + bg_end_cap(scheme@.bg, accent_color(scheme@.accent, progress), *seps),
{
    let glyph = seps.end_separator.sep_box().left;
    let end_color = scheme.accent.get(progress);
    let out = if seps.edge_cap {
        builder.color(end_color).color_bg(scheme.bg).str(glyph.as_str()).end_color_bg().color(
            scheme.bg,
        ).str(glyph.as_str()).end_color()
    } else {
        builder.color(end_color).end_color_bg().str(glyph.as_str()).end_color()
    };
    proof {
        assert(out@ =~= builder@ + bg_end_cap(scheme@.bg, end_color, *seps));
    }
    out
}

/// Appends a segment on the background `bg`.
fn push_on_background(builder: ZshPromptBuilder, bg: NamedColor, content: &Vec<ZshSequence>) -> (out:
    ZshPromptBuilder)
    ensures
        out@ == builder@ + on_background(bg, pieces(content@)),
{
    let out = builder.color_bg(bg).chain(clone_sequences(content)).end_color_bg();
    proof {
        assert(out@ =~= builder@ + on_background(bg, pieces(content@)));
    }
    out
}

/// Appends the separator behind a segment of the left half, accent on the
/// separators.
fn push_left_fg_separator(
    builder: ZshPromptBuilder,
    scheme: &PromptColorScheme,
    progress: Progress,
    seps: &PromptSegmentSeparators,
) -> (out: ZshPromptBuilder)
    ensures
        out@ == builder@ + left_fg_separator(
            scheme@.bg,
            accent_color(scheme@.accent, progress),
            *seps,
        ),
{
    let sep_color = scheme.accent.get(progress);
    let out = if seps.bold_separation {
        let glyph = seps.mid_separator.sep_box().left;
        builder.color(scheme.bg).color_bg(sep_color).str(glyph.as_str()).color_bg(scheme.bg).color(
            sep_color,
        ).str(glyph.as_str()).end_color().end_color_bg()
    } else {
        builder.color_bg(scheme.bg).color(sep_color).str(
            seps.mid_separator.sep_line().left.as_str(),
        ).end_color().end_color_bg()
    };
    proof {
        assert(out@ =~= builder@ + left_fg_separator(scheme@.bg, sep_color, *seps));
    }
    out
}

/// Appends the separator behind a segment of the right half, accent on the
/// separators.
fn push_right_fg_separator(
    builder: ZshPromptBuilder,
    scheme: &PromptColorScheme,
    progress: Progress,
    seps: &PromptSegmentSeparators,
) -> (out: ZshPromptBuilder)
    ensures
        out@ == builder@ + right_fg_separator(
            scheme@.bg,
            accent_color(scheme@.accent, progress),
            *seps,
        ),
{
    let sep_color = scheme.accent.get(progress);
    let out = if seps.bold_separation {
        let glyph = seps.mid_separator.sep_box().right;
        builder.color(sep_color).color_bg(scheme.bg).str(glyph.as_str()).color(scheme.bg).color_bg(
            sep_color,
        ).str(glyph.as_str()).end_color().end_color_bg()
    } else {
        builder.color_bg(scheme.bg).color(sep_color).str(
            seps.mid_separator.sep_line().right.as_str(),
        ).end_color().end_color_bg()
    };
    proof {
        assert(out@ =~= builder@ + right_fg_separator(scheme@.bg, sep_color, *seps));
    }
    out
}

/// Appends the separator between two segments of the left half, the first
/// on `accent`, the second on the accent colour at `next`.
fn push_left_bg_separator(
    builder: ZshPromptBuilder,
    scheme: &PromptColorScheme,
    accent: NamedColor,
    next: Progress,
    seps: &PromptSegmentSeparators,
) -> (out: ZshPromptBuilder)
    ensures
        out@ == builder@ + left_bg_separator(
            scheme@.bg,
            accent,
            accent_color(scheme@.accent, next),
            *seps,
        ),
{
    let glyph = seps.mid_separator.sep_box().left;
    let out = if seps.bold_separation {
        let next_color = scheme.accent.get(next);
        builder.color(accent).color_bg(scheme.bg).str(glyph.as_str()).color_bg(next_color).color(
            scheme.bg,
        ).str(glyph.as_str()).end_color().end_color_bg()
    } else {
        builder.color(accent).color_bg(scheme.bg).str(glyph.as_str()).end_color().end_color_bg()
    };
    proof {
        assert(out@ =~= builder@ + left_bg_separator(
            scheme@.bg,
            accent,
            accent_color(scheme@.accent, next),
            *seps,
        ));
    }
    out
}

/// Appends the separator between two segments of the right half, the first
/// on `accent`, the second on the accent colour at `next`.
fn push_right_bg_separator(
    builder: ZshPromptBuilder,
    scheme: &PromptColorScheme,
    accent: NamedColor,
    next: Progress,
    seps: &PromptSegmentSeparators,
) -> (out: ZshPromptBuilder)
    ensures
        out@ == builder@ + right_bg_separator(
            scheme@.bg,
            accent,
            accent_color(scheme@.accent, next),
            *seps,
        ),
{
    let next_color = scheme.accent.get(next);
    let out = if seps.bold_separation {
        let glyph = seps.mid_separator.sep_box().right;
        builder.color(scheme.bg).color_bg(accent).str(glyph.as_str()).color_bg(scheme.bg).color(
            next_color,
        ).str(glyph.as_str()).end_color().end_color_bg()
    } else {
        builder.color_bg(next_color).color(scheme.bg).str(
            seps.mid_separator.sep_line().right.as_str(),
        ).end_color().end_color_bg()
    };
    proof {
        assert(out@ =~= builder@ + right_bg_separator(scheme@.bg, accent, next_color, *seps));
    }
    out
}

impl Prompt {
    /// Renders the left half with the accent on the separators.
    pub fn render_left_fg(&self, prompt_contents: &PromptContents) -> (builder: ZshPromptBuilder)
        requires
            self.has_room(0),
        ensures
            builder@ == left_fg(
                self@,
                prompt_contents.color@,
                prompt_contents.left_segment_separators,
            ),
    {
        broadcast use Progress::lemma_fraction;

        if self.left.len() == 0 {
            return ZshPromptBuilder::new();
        }
        let scheme = &prompt_contents.color;
        let seps = &prompt_contents.left_segment_separators;
        let total: u64 = (self.total_separation() + 1) as u64;
        let ghost part = |i: int| left_fg_item(self@, scheme@, *seps, i);

        let mut builder = push_fg_start_cap(
            ZshPromptBuilder::new(),
            scheme,
            Progress::ratio(0, total),
            seps,
        );
        let ghost start = builder@;
        proof {
            assert(builder@ =~= start + join_pieces(0, part));
        }
        let len: usize = self.left.len();
        let mut i: usize = 0;
        while i < len
            invariant
                i <= len,
                len == self.left.len(),
                len == self@.left.len(),
                self.has_room(0),
                total == total_slots(self@) + 1,
                part == (|i: int| left_fg_item(self@, scheme@, *seps, i)),
                builder@ == start + join_pieces(i as int, part),
            decreases len - i,
        {
            let ghost before = builder@;
            proof {
                assert(pieces(self.left[i as int]@) == self@.left[i as int]);
            }
            builder = push_on_background(builder, scheme.bg, &self.left[i]);
            if i < len - 1 {
                builder = push_left_fg_separator(
                    builder,
                    scheme,
                    Progress::ratio((i + 1) as u64, total),
                    seps,
                );
            }
            proof {
                assert(builder@ =~= before + part(i as int));
            }
            i = i + 1;
        }
        builder = push_fg_end_cap(
            builder,
            scheme,
            Progress::ratio(self.left_separation() as u64, total),
            seps,
        );
        proof {
            assert(builder@ =~= left_fg(self@, scheme@, *seps));
        }
        builder
    }

    /// Renders the left half with the accent behind the segments.
    pub fn render_left_bg(&self, prompt_contents: &PromptContents) -> (builder: ZshPromptBuilder)
        requires
            self.has_room(0),
        ensures
            builder@ == left_bg(
                self@,
                prompt_contents.color@,
                prompt_contents.left_segment_separators,
            ),
    {
        broadcast use Progress::lemma_fraction;

        if self.left.len() == 0 {
            return ZshPromptBuilder::new();
        }
        let scheme = &prompt_contents.color;
        let seps = &prompt_contents.left_segment_separators;
        let total: u64 = (self.left.len() + self.right.len()) as u64;
        let ghost part = |i: int| left_bg_item(self@, scheme@, *seps, i);

        let mut builder = push_bg_start_cap(
            ZshPromptBuilder::new(),
            scheme,
            Progress::ratio(0, total),
            seps,
        );
        let ghost start = builder@;
        proof {
            assert(builder@ =~= start + join_pieces(0, part));
        }
        let len: usize = self.left.len();
        let mut i: usize = 0;
        while i < len
            invariant
                i <= len,
                len == self.left.len(),
                len == self@.left.len(),
                self.has_room(0),
                total == self@.left.len() + self@.right.len(),
                part == (|i: int| left_bg_item(self@, scheme@, *seps, i)),
                builder@ == start + join_pieces(i as int, part),
            decreases len - i,
        {
            let ghost before = builder@;
            proof {
                assert(pieces(self.left[i as int]@) == self@.left[i as int]);
            }
            let sep_color = scheme.accent.get(Progress::ratio(i as u64, total));
            builder = push_on_background(builder, sep_color, &self.left[i]);
            if i < len - 1 {
                builder = push_left_bg_separator(
                    builder,
                    scheme,
                    sep_color,
                    Progress::ratio((i + 1) as u64, total),
                    seps,
                );
            }
            proof {
                assert(builder@ =~= before + part(i as int));
            }
            i = i + 1;
        }
        builder = push_bg_end_cap(
            builder,
            scheme,
            Progress::ratio((len - 1) as u64, total),
            seps,
        );
        proof {
            assert(builder@ =~= left_bg(self@, scheme@, *seps));
        }
        builder
    }

    /// Renders the right half with the accent on the separators.
    pub fn render_right_fg(&self, prompt_contents: &PromptContents) -> (builder: ZshPromptBuilder)
        requires
            self.has_room(0),
        ensures
            builder@ == right_fg(
                self@,
                prompt_contents.color@,
                prompt_contents.right_segment_separators,
            ),
    {
        broadcast use Progress::lemma_fraction;

        if self.right.len() == 0 {
            return ZshPromptBuilder::new();
        }
        let scheme = &prompt_contents.color;
        let seps = &prompt_contents.right_segment_separators;
        let total: u64 = (self.total_separation() + 1) as u64;
        let left_sep: usize = self.left_separation();
        let ghost part = |i: int| right_fg_item(self@, scheme@, *seps, i);

        let mut builder = push_fg_start_cap(
            ZshPromptBuilder::new(),
            scheme,
            Progress::ratio((left_sep + 1) as u64, total),
            seps,
        );
        let ghost start = builder@;
        proof {
            assert(builder@ =~= start + join_pieces(0, part));
        }
        let len: usize = self.right.len();
        let mut i: usize = 0;
        while i < len
            invariant
                i <= len,
                len == self.right.len(),
                len == self@.right.len(),
                self.has_room(0),
                total == total_slots(self@) + 1,
                left_sep == left_slots(self@),
                part == (|i: int| right_fg_item(self@, scheme@, *seps, i)),
                builder@ == start + join_pieces(i as int, part),
            decreases len - i,
        {
            let ghost before = builder@;
            proof {
                assert(pieces(self.right[i as int]@) == self@.right[i as int]);
            }
            builder = push_on_background(builder, scheme.bg, &self.right[i]);
            if i < len - 1 {
                builder = push_right_fg_separator(
                    builder,
                    scheme,
                    Progress::ratio((left_sep + i + 2) as u64, total),
                    seps,
                );
            }
            proof {
                assert(builder@ =~= before + part(i as int));
            }
            i = i + 1;
        }
        builder = push_fg_end_cap(builder, scheme, Progress::ratio(1, 1), seps);
        proof {
            assert(builder@ =~= right_fg(self@, scheme@, *seps));
        }
        builder
    }

    /// Renders the right half with the accent behind the segments.
    pub fn render_right_bg(&self, prompt_contents: &PromptContents) -> (builder: ZshPromptBuilder)
        requires
            self.has_room(0),
        ensures
            builder@ == right_bg(
                self@,
                prompt_contents.color@,
                prompt_contents.right_segment_separators,
            ),
    {
        broadcast use Progress::lemma_fraction;

        if self.right.len() == 0 {
            return ZshPromptBuilder::new();
        }
        let scheme = &prompt_contents.color;
        let seps = &prompt_contents.right_segment_separators;
        let total: u64 = self.total_separation() as u64;
        let left_sep: usize = self.left_separation();
        let ghost part = |i: int| right_bg_item(self@, scheme@, *seps, i);

        let mut builder = push_bg_start_cap(
            ZshPromptBuilder::new(),
            scheme,
            Progress::ratio((left_sep + 1) as u64, total),
            seps,
        );
        let ghost start = builder@;
        proof {
            assert(builder@ =~= start + join_pieces(0, part));
        }
        let len: usize = self.right.len();
        let mut i: usize = 0;
        while i < len
            invariant
                i <= len,
                len == self.right.len(),
                len == self@.right.len(),
                self.has_room(0),
                total == total_slots(self@),
                total > 0,
                left_sep == left_slots(self@),
                part == (|i: int| right_bg_item(self@, scheme@, *seps, i)),
                builder@ == start + join_pieces(i as int, part),
            decreases len - i,
        {
            let ghost before = builder@;
            proof {
                assert(pieces(self.right[i as int]@) == self@.right[i as int]);
            }
            let sep_color = scheme.accent.get(Progress::ratio((left_sep + i + 1) as u64, total));
            builder = push_on_background(builder, sep_color, &self.right[i]);
            if i < len - 1 {
                builder = push_right_bg_separator(
                    builder,
                    scheme,
                    sep_color,
                    Progress::ratio((left_sep + i + 2) as u64, total),
                    seps,
                );
            }
            proof {
                assert(builder@ =~= before + part(i as int));
            }
            i = i + 1;
        }
        builder = push_bg_end_cap(builder, scheme, Progress::ratio(total - 1, total), seps);
        proof {
            assert(builder@ =~= right_bg(self@, scheme@, *seps));
        }
        builder
    }

    /// Renders the left half as the line asks for it.
    pub fn render_left(&self, prompt_contents: &PromptContents) -> (builder: ZshPromptBuilder)
        requires
            self.has_room(0),
        ensures
            builder@ == rendered_left(
                self@,
                prompt_contents.color@,
                prompt_contents.left_segment_separators,
                prompt_contents.accent_which,
            ),
    {
        match prompt_contents.accent_which {
            AccentWhich::ForeGround => self.render_left_fg(prompt_contents),
            AccentWhich::BackGround => self.render_left_bg(prompt_contents),
        }
    }

    /// Renders the right half as the line asks for it.
    pub fn render_right(&self, prompt_contents: &PromptContents) -> (builder: ZshPromptBuilder)
        requires
            self.has_room(0),
        ensures
            builder@ == rendered_right(
                self@,
                prompt_contents.color@,
                prompt_contents.right_segment_separators,
                prompt_contents.accent_which,
            ),
    {
        match prompt_contents.accent_which {
            AccentWhich::ForeGround => self.render_right_fg(prompt_contents),
            AccentWhich::BackGround => self.render_right_bg(prompt_contents),
        }
    }
}

} // verus!
