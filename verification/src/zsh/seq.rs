//! Styled prompt output as a list of markers and literal text.

use unicode_width::UnicodeWidthStr;
use vstd::prelude::*;

verus! {

/// A terminal colour: one of the sixteen named colours, an index into the
/// 256-colour palette, or a 24-bit RGB triple.
#[derive(Clone, Copy, Debug, PartialEq, Eq)]
pub enum NamedColor {
    Black,
    Red,
    Green,
    Yellow,
    Blue,
    Magenta,
    Cyan,
    White,
    LightBlack,
    LightRed,
    LightGreen,
    LightYellow,
    LightBlue,
    LightMagenta,
    LightCyan,
    LightWhite,
    Code256(u8),
    FullColor((u8, u8, u8)),
}

/// One element of a rendered prompt: literal text or a styling marker.
#[derive(Clone, Debug, PartialEq, Eq)]
pub enum ZshSequence {
    Literal(String),
    ForegroundColor(NamedColor),
    ForegroundColorEnd,
    BackgroundColor(NamedColor),
    BackgroundColorEnd,
    Newline,
    ResetStyles,
}

/// The mathematical value of a [`ZshSequence`]: text is a sequence of characters.
pub enum Piece {
    Literal(Seq<char>),
    ForegroundColor(NamedColor),
    ForegroundColorEnd,
    BackgroundColor(NamedColor),
    BackgroundColorEnd,
    Newline,
    ResetStyles,
}

impl View for ZshSequence {
    type V = Piece;

    open spec fn view(&self) -> Piece {
        match *self {
            ZshSequence::Literal(s) => Piece::Literal(s@),
            ZshSequence::ForegroundColor(c) => Piece::ForegroundColor(c),
            ZshSequence::ForegroundColorEnd => Piece::ForegroundColorEnd,
            ZshSequence::BackgroundColor(c) => Piece::BackgroundColor(c),
            ZshSequence::BackgroundColorEnd => Piece::BackgroundColorEnd,
            ZshSequence::Newline => Piece::Newline,
            ZshSequence::ResetStyles => Piece::ResetStyles,
        }
    }
}

/// The pieces that a list of sequences stands for, in order.
pub open spec fn pieces(items: Seq<ZshSequence>) -> Seq<Piece> {
    items.map_values(|s: ZshSequence| s@)
}

/// Copies one sequence element.
pub fn clone_sequence(item: &ZshSequence) -> (copy: ZshSequence)
    ensures
        copy@ == item@,
{
    match item {
        ZshSequence::Literal(s) => ZshSequence::Literal(s.clone()),
        ZshSequence::ForegroundColor(c) => ZshSequence::ForegroundColor(*c),
        ZshSequence::ForegroundColorEnd => ZshSequence::ForegroundColorEnd,
        ZshSequence::BackgroundColor(c) => ZshSequence::BackgroundColor(*c),
        ZshSequence::BackgroundColorEnd => ZshSequence::BackgroundColorEnd,
        ZshSequence::Newline => ZshSequence::Newline,
        ZshSequence::ResetStyles => ZshSequence::ResetStyles,
    }
}

/// The parts `part(0)`, ..., `part(count - 1)` in a row.
pub open spec fn join_pieces(count: int, part: spec_fn(int) -> Seq<Piece>) -> Seq<Piece>
    decreases count,
{
    if count <= 0 {
        Seq::empty()
    } else {
        join_pieces(count - 1, part) + part(count - 1)
    }
}

/// Copies a list of sequence elements.
pub fn clone_sequences(items: &Vec<ZshSequence>) -> (copy: Vec<ZshSequence>)
    ensures
        pieces(copy@) == pieces(items@),
{
    let mut copy: Vec<ZshSequence> = Vec::new();
    let mut i: usize = 0;
    while i < items.len()
        invariant
            i <= items.len(),
            pieces(copy@) == pieces(items@.take(i as int)),
        decreases items.len() - i,
    {
        let ghost before = copy@;
        let item = clone_sequence(&items[i]);
        copy.push(item);
        proof {
            assert(items@.take(i + 1) =~= items@.take(i as int).push(items@[i as int]));
            assert(pieces(copy@) =~= pieces(before).push(item@));
            assert(pieces(items@.take(i + 1)) =~= pieces(items@.take(i as int)).push(
                items@[i as int]@,
            ));
        }
        i = i + 1;
    }
    proof {
        assert(items@.take(i as int) =~= items@);
    }
    copy
}

/// The number of terminal columns that `text` takes up, as the crate
/// `unicode_width` counts them.
pub uninterp spec fn display_width(text: Seq<char>) -> usize;

/// Calls `UnicodeWidthStr::width` of `unicode_width` on `text`. The contract
/// claims only that the result is a function of the text: it gives that
/// function the name [`display_width`].
#[verifier::external_body]
pub(crate) fn str_width(text: &str) -> (columns: usize)
    ensures
        columns == display_width(text@),
{
    UnicodeWidthStr::width(text)
}

/// The columns that one piece takes up: those of its text; a marker has none.
pub open spec fn piece_width(piece: Piece) -> nat {
    match piece {
        Piece::Literal(text) => display_width(text) as nat,
        _ => 0,
    }
}

/// The columns that the pieces take up on the terminal: styling markers do
/// not count.
pub open spec fn visible_width(items: Seq<Piece>) -> nat
    decreases items.len(),
{
    if items.len() == 0 {
        0
    } else {
        visible_width(items.drop_last()) + piece_width(items.last())
    }
}

/// `width`, or the largest `usize` where it is larger than that.
pub open spec fn clamp_width(width: nat) -> usize {
    if width > usize::MAX {
        usize::MAX
    } else {
        width as usize
    }
}

/// The width of two lists in a row is the sum of their widths.
pub proof fn lemma_visible_width_concat(front: Seq<Piece>, back: Seq<Piece>)
    ensures
        visible_width(front + back) == visible_width(front) + visible_width(back),
    decreases back.len(),
{
    if back.len() == 0 {
        assert(front + back =~= front);
    } else {
        lemma_visible_width_concat(front, back.drop_last());
        assert((front + back).drop_last() =~= front + back.drop_last());
    }
}

/// A prompt under construction: an ordered list of text and styling markers.
#[derive(Debug, PartialEq, Eq)]
pub struct ZshPromptBuilder {
    sequences: Vec<ZshSequence>,
}

impl View for ZshPromptBuilder {
    type V = Seq<Piece>;

    closed spec fn view(&self) -> Seq<Piece> {
        pieces(self.sequences@)
    }
}

impl ZshPromptBuilder {
    /// A builder that holds nothing.
    pub fn new() -> (builder: ZshPromptBuilder)
        ensures
            builder@ == Seq::<Piece>::empty(),
    {
        let builder = ZshPromptBuilder { sequences: Vec::new() };
        proof {
            assert(builder@ =~= Seq::<Piece>::empty());
        }
        builder
    }

    fn with(self, item: ZshSequence) -> (builder: ZshPromptBuilder)
        ensures
            builder@ == self@.push(item@),
    {
        let mut sequences = self.sequences;
        sequences.push(item);
        let builder = ZshPromptBuilder { sequences };
        proof {
            assert(builder@ =~= self@.push(item@));
        }
        builder
    }

    /// Appends the text `text`.
    pub fn str(self, text: &str) -> (builder: ZshPromptBuilder)
        ensures
            builder@ == self@.push(Piece::Literal(text@)),
    {
        self.with(ZshSequence::Literal(String::from_str(text)))
    }

    /// Starts the foreground colour `color`.
    pub fn color(self, color: NamedColor) -> (builder: ZshPromptBuilder)
        ensures
            builder@ == self@.push(Piece::ForegroundColor(color)),
    {
        self.with(ZshSequence::ForegroundColor(color))
    }

    /// Ends the foreground colour.
    pub fn end_color(self) -> (builder: ZshPromptBuilder)
        ensures
            builder@ == self@.push(Piece::ForegroundColorEnd),
    {
        self.with(ZshSequence::ForegroundColorEnd)
    }

    /// Starts the background colour `color`.
    pub fn color_bg(self, color: NamedColor) -> (builder: ZshPromptBuilder)
        ensures
            builder@ == self@.push(Piece::BackgroundColor(color)),
    {
        self.with(ZshSequence::BackgroundColor(color))
    }

    /// Ends the background colour.
    pub fn end_color_bg(self) -> (builder: ZshPromptBuilder)
        ensures
            builder@ == self@.push(Piece::BackgroundColorEnd),
    {
        self.with(ZshSequence::BackgroundColorEnd)
    }

    /// Appends a line break.
    pub fn newline(self) -> (builder: ZshPromptBuilder)
        ensures
            builder@ == self@.push(Piece::Newline),
    {
        self.with(ZshSequence::Newline)
    }

    /// Appends the marker that resets every style.
    pub fn reset_styles(self) -> (builder: ZshPromptBuilder)
        ensures
            builder@ == self@.push(Piece::ResetStyles),
    {
        self.with(ZshSequence::ResetStyles)
    }

    /// Appends the elements `items`.
    pub fn chain(self, items: Vec<ZshSequence>) -> (builder: ZshPromptBuilder)
        ensures
            builder@ == self@ + pieces(items@),
    {
        let ghost added = items@;
        let mut sequences = self.sequences;
        let mut items = items;
        sequences.append(&mut items);
        let builder = ZshPromptBuilder { sequences };
        proof {
            assert(builder@ =~= self@ + pieces(added));
        }
        builder
    }

    /// Appends what `other` holds.
    pub fn connect(self, other: ZshPromptBuilder) -> (builder: ZshPromptBuilder)
        ensures
            builder@ == self@ + other@,
    {
        self.chain(other.sequences)
    }

    /// The elements in order.
    pub fn sequences(&self) -> (items: &Vec<ZshSequence>)
        ensures
            pieces(items@) == self@,
    {
        &self.sequences
    }

    /// The elements in order, by value.
    pub fn into_sequences(self) -> (items: Vec<ZshSequence>)
        ensures
            pieces(items@) == self@,
    {
        self.sequences
    }

    /// The visible width: the columns of the text, without the markers. A
    /// width beyond `usize::MAX` is given as `usize::MAX`.
    pub fn len(&self) -> (columns: usize)
        ensures
            columns == clamp_width(visible_width(self@)),
    {
        let mut columns: usize = 0;
        let mut i: usize = 0;
        while i < self.sequences.len()
            invariant
                i <= self.sequences.len(),
                columns == clamp_width(visible_width(pieces(self.sequences@.take(i as int)))),
            decreases self.sequences.len() - i,
        {
            proof {
                assert(self.sequences@.take(i + 1).drop_last() =~= self.sequences@.take(i as int));
                assert(pieces(self.sequences@.take(i + 1)).drop_last() =~= pieces(
                    self.sequences@.take(i as int),
                ));
            }
            match &self.sequences[i] {
                ZshSequence::Literal(text) => {
                    columns = columns.saturating_add(str_width(text.as_str()));
                },
                _ => {},
            }
            i = i + 1;
        }
        proof {
            assert(self.sequences@.take(i as int) =~= self.sequences@);
        }
        columns
    }
}

} // verus!
