//! Styled text: what a terminal line is made of.

use vstd::prelude::*;

verus! {

/// The colours in use.
#[derive(Clone, Copy, Debug, PartialEq, Eq, Structural)]
pub enum Color {
    Default,
    Red,
    Green,
    Yellow,
    Blue,
    Cyan,
    White,
    DarkGray,
    LightRed,
}

/// How a text is drawn.
#[derive(Clone, Copy, Debug, PartialEq, Eq, Structural)]
pub struct Style {
    pub color: Color,
    pub bold: bool,
}

/// Drawn as it comes.
pub open spec fn plain() -> Style {
    Style { color: Color::Default, bold: false }
}

/// A text drawn in one style.
#[derive(Debug)]
pub struct Styled {
    pub text: String,
    pub style: Style,
}

impl View for Styled {
    type V = (Seq<char>, Style);

    open spec fn view(&self) -> Self::V {
        (self.text@, self.style)
    }
}

/// What a line shows.
pub open spec fn line_view(line: Seq<Styled>) -> Seq<(Seq<char>, Style)> {
    Seq::new(line.len(), |i: int| line[i]@)
}

/// What lines show.
pub open spec fn lines_view(lines: Seq<Vec<Styled>>) -> Seq<Seq<(Seq<char>, Style)>> {
    Seq::new(lines.len(), |i: int| line_view(lines[i]@))
}

/// A text without style.
pub fn raw(text: String) -> (r: Styled)
    ensures
        r@ == (text@, plain()),
{
    Styled { text, style: Style { color: Color::Default, bold: false } }
}

/// A text in a colour.
pub fn colored(text: String, color: Color) -> (r: Styled)
    ensures
        r@ == (text@, (Style { color, bold: false })),
{
    Styled { text, style: Style { color, bold: false } }
}

/// A bold text in a colour.
pub fn bold(text: String, color: Color) -> (r: Styled)
    ensures
        r@ == (text@, (Style { color, bold: true })),
{
    Styled { text, style: Style { color, bold: true } }
}

/// A line of one text.
pub fn single(s: Styled) -> (r: Vec<Styled>)
    ensures
        line_view(r@) == seq![s@],
{
    let mut line: Vec<Styled> = Vec::new();
    line.push(s);
    assert(line_view(line@) =~= seq![s@]);
    line
}

/// A line of two texts.
pub fn pair(a: Styled, b: Styled) -> (r: Vec<Styled>)
    ensures
        line_view(r@) == seq![a@, b@],
{
    let mut line: Vec<Styled> = Vec::new();
    line.push(a);
    line.push(b);
    assert(line_view(line@) =~= seq![a@, b@]);
    line
}

/// Adds a line.
pub fn push_line(lines: &mut Vec<Vec<Styled>>, line: Vec<Styled>)
    ensures
        lines_view(final(lines)@) == lines_view(old(lines)@).push(line_view(line@)),
{
    let ghost before = lines_view(lines@);
    lines.push(line);
    assert(lines_view(lines@) =~= before.push(line_view(line@)));
}

/// A line shows its pieces in their order, each its text in its style; lines are shown in their
/// order too.
pub proof fn law_lines_show_their_pieces(lines: Seq<Vec<Styled>>, l: int, i: int)
    requires
        0 <= l < lines.len(),
        0 <= i < lines[l]@.len(),
    ensures
        lines_view(lines).len() == lines.len(),
        lines_view(lines)[l].len() == lines[l]@.len(),
        lines_view(lines)[l][i].0 == lines[l]@[i].text@,
        lines_view(lines)[l][i].1 == lines[l]@[i].style,
        line_view(lines[l]@) == lines_view(lines)[l],
{
}

/// What is drawn as it comes has no colour of its own and is not bold.
pub proof fn law_plain_is_neither_coloured_nor_bold()
    ensures
        plain().color == Color::Default,
        !plain().bold,
{
}

} // verus!
