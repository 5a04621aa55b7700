//! Styled text: colours, styles and the spans that rendered lines are made of.

use vstd::prelude::*;

verus! {

/// A terminal colour.
#[derive(Clone, Copy, Debug, PartialEq, Eq, Structural)]
pub enum Color {
    Reset,
    Black,
    Red,
    Green,
    Yellow,
    Blue,
    Magenta,
    Cyan,
    Gray,
    DarkGray,
    LightRed,
    LightGreen,
    LightYellow,
    LightBlue,
    LightMagenta,
    LightCyan,
    White,
    Indexed(u8),
    Rgb(u8, u8, u8),
}

/// The bit of `Style::modifiers` for bold text.
pub const BOLD: u16 = 1;

/// The bit of `Style::modifiers` for dimmed text.
pub const DIM: u16 = 2;

/// How a span is drawn: its colours, if set, and a set of modifier bits.
#[derive(Clone, Copy, Debug, PartialEq, Eq, Structural)]
pub struct Style {
    pub fg: Option<Color>,
    pub bg: Option<Color>,
    pub modifiers: u16,
}

/// The style that sets nothing.
pub open spec fn plain_style() -> Style {
    Style { fg: None, bg: None, modifiers: 0 }
}

/// The style that sets a foreground colour and nothing else.
pub open spec fn colored(c: Color) -> Style {
    Style { fg: Some(c), bg: None, modifiers: 0 }
}

impl Style {
    /// The style that sets nothing.
    pub fn plain() -> (r: Style)
        ensures
            r == plain_style(),
    {
        Style { fg: None, bg: None, modifiers: 0 }
    }

    /// The style that sets a foreground colour.
    pub fn foreground(c: Color) -> (r: Style)
        ensures
            r == colored(c),
    {
        Style { fg: Some(c), bg: None, modifiers: 0 }
    }

    /// The style with modifier bits added.
    pub fn with_modifiers(self, bits: u16) -> (r: Style)
        ensures
            r == (Style { modifiers: self.modifiers | bits, ..self }),
    {
        Style { fg: self.fg, bg: self.bg, modifiers: self.modifiers | bits }
    }
}

/// Text in one style.
#[derive(Debug, PartialEq, Eq)]
pub struct Span {
    pub content: String,
    pub style: Style,
}

pub struct SpanView {
    pub content: Seq<char>,
    pub style: Style,
}

impl View for Span {
    type V = SpanView;

    open spec fn view(&self) -> SpanView {
        SpanView { content: self.content@, style: self.style }
    }
}

/// A rendered line.
#[derive(Debug, PartialEq, Eq)]
pub struct Line {
    pub spans: Vec<Span>,
}

impl View for Line {
    type V = Seq<SpanView>;

    open spec fn view(&self) -> Seq<SpanView> {
        self.spans@.map_values(|s: Span| s@)
    }
}

/// The views of rendered lines.
pub open spec fn line_views(v: Seq<Line>) -> Seq<Seq<SpanView>> {
    v.map_values(|l: Line| l@)
}

impl Clone for Span {
    fn clone(&self) -> (r: Self)
        ensures
            r == *self,
    {
        Span { content: self.content.clone(), style: self.style }
    }
}

impl Span {
    /// A span of the given text and style.
    pub fn styled(content: &str, style: Style) -> (r: Span)
        ensures
            r@ == (SpanView { content: content@, style }),
    {
        Span { content: content.to_owned(), style }
    }

    /// A span without a style.
    pub fn raw(content: &str) -> (r: Span)
        ensures
            r@ == (SpanView { content: content@, style: plain_style() }),
    {
        Span { content: content.to_owned(), style: Style::plain() }
    }
}

/// Appends copies of all spans of `from` to `to`.
pub fn extend_spans(to: &mut Vec<Span>, from: &Vec<Span>)
    ensures
        final(to)@ == old(to)@ + from@,
{
    let mut i: usize = 0;
    while i < from.len()
        invariant
            i <= from@.len(),
            to@ == old(to)@ + from@.take(i as int),
        decreases from.len() - i,
    {
        to.push(from[i].clone());
        i += 1;
        assert(to@ =~= old(to)@ + from@.take(i as int));
    }
    assert(from@.take(from@.len() as int) =~= from@);
}

} // verus!
