//! Text with a look, as the dashboard draws it.

use vstd::prelude::*;

verus! {

/// A colour of the dashboard, by what it is for or by its name.
#[derive(Debug, Clone, Copy, PartialEq, Eq, Structural)]
pub enum Hue {
    /// Whatever is underneath.
    Plain,
    Text,
    Dim,
    Primary,
    Secondary,
    Success,
    Warning,
    Error,
    DarkGray,
    White,
    Red,
    Green,
    Yellow,
    Blue,
    Cyan,
    Magenta,
    /// The colour of a model, by its place in the list.
    Model(usize),
    /// A colour that changes with time, this far along.
    Rainbow(usize),
}

/// How a text looks.
#[derive(Debug, Clone, Copy, PartialEq, Eq, Structural)]
pub struct Tone {
    pub hue: Hue,
    pub bold: bool,
    pub underlined: bool,
    /// Whether it stands on the background of what is selected.
    pub marked: bool,
}

/// A colour with nothing else.
pub open spec fn plain(hue: Hue) -> Tone {
    Tone { hue, bold: false, underlined: false, marked: false }
}

/// A colour in bold.
pub open spec fn bold(hue: Hue) -> Tone {
    Tone { hue, bold: true, underlined: false, marked: false }
}

/// A colour, underlined.
pub open spec fn underlined(hue: Hue) -> Tone {
    Tone { hue, bold: false, underlined: true, marked: false }
}

/// A colour with nothing else.
pub fn tone(hue: Hue) -> (r: Tone)
    ensures
        r == plain(hue),
{
    Tone { hue, bold: false, underlined: false, marked: false }
}

/// A colour in bold.
pub fn bold_tone(hue: Hue) -> (r: Tone)
    ensures
        r == bold(hue),
{
    Tone { hue, bold: true, underlined: false, marked: false }
}

/// A colour, underlined.
pub fn underlined_tone(hue: Hue) -> (r: Tone)
    ensures
        r == underlined(hue),
{
    Tone { hue, bold: false, underlined: true, marked: false }
}

/// A piece of a line and how it looks.
#[derive(Debug, Clone, PartialEq)]
pub struct Span {
    pub text: String,
    pub tone: Tone,
}

/// What a span says.
#[verifier::ext_equal]
pub struct SpanView {
    pub text: Seq<char>,
    pub tone: Tone,
}

impl Span {
    /// What this span says.
    pub open spec fn view(&self) -> SpanView {
        SpanView { text: self.text@, tone: self.tone }
    }
}

/// A span.
pub open spec fn piece(text: Seq<char>, tone: Tone) -> SpanView {
    SpanView { text, tone }
}

/// What the spans of a line say.
pub open spec fn line_view(s: Seq<Span>) -> Seq<SpanView> {
    Seq::new(s.len(), |i: int| s[i]@)
}

/// What the spans of lines say.
pub open spec fn lines_view(l: Seq<Vec<Span>>) -> Seq<Seq<SpanView>> {
    Seq::new(l.len(), |i: int| line_view(l[i]@))
}

/// The text of a line.
pub open spec fn text_of_line(s: Seq<SpanView>) -> Seq<char>
    decreases s.len(),
{
    if s.len() == 0 {
        Seq::empty()
    } else {
        text_of_line(s.drop_last()) + s.last().text
    }
}

/// The text of two lines, one behind the other.
pub proof fn lemma_text_of_both(a: Seq<SpanView>, b: Seq<SpanView>)
    ensures
        text_of_line(a + b) == text_of_line(a) + text_of_line(b),
    decreases b.len(),
{
    if b.len() == 0 {
        assert(a + b =~= a);
        assert(text_of_line(a) + text_of_line(b) =~= text_of_line(a));
    } else {
        assert((a + b).drop_last() =~= a + b.drop_last());
        lemma_text_of_both(a, b.drop_last());
        assert(text_of_line(a + b) =~= text_of_line(a) + text_of_line(b));
    }
}

/// Adds a span to a line.
pub fn put(line: &mut Vec<Span>, text: String, tone: Tone)
    ensures
        line_view(final(line)@) == line_view(old(line)@).push(piece(text@, tone)),
{
    let ghost before = line_view(line@);
    let ghost said = piece(text@, tone);
    line.push(Span { text, tone });
    assert(line_view(line@) =~= before.push(said));
}

/// Adds a span to a line.
pub fn put_str(line: &mut Vec<Span>, text: &str, tone: Tone)
    ensures
        line_view(final(line)@) == line_view(old(line)@).push(piece(text@, tone)),
{
    put(line, text.to_owned(), tone);
}

/// A line without spans.
pub fn no_spans() -> (r: Vec<Span>)
    ensures
        line_view(r@) == Seq::<SpanView>::empty(),
{
    let r: Vec<Span> = Vec::new();
    assert(line_view(r@) =~= Seq::<SpanView>::empty());
    r
}

/// A line of one span.
pub fn one_span(text: String, tone: Tone) -> (r: Vec<Span>)
    ensures
        line_view(r@) == seq![piece(text@, tone)],
{
    let mut r = no_spans();
    let ghost said = piece(text@, tone);
    put(&mut r, text, tone);
    assert(line_view(r@) =~= seq![said]);
    r
}

/// Adds a line to a text.
pub fn put_line(lines: &mut Vec<Vec<Span>>, line: Vec<Span>)
    ensures
        lines_view(final(lines)@) == lines_view(old(lines)@).push(line_view(line@)),
{
    let ghost before = lines_view(lines@);
    let ghost said = line_view(line@);
    lines.push(line);
    assert(lines_view(lines@) =~= before.push(said));
}

/// Adds lines to lines.
pub fn append_lines(to: &mut Vec<Vec<Span>>, more: Vec<Vec<Span>>)
    ensures
        lines_view(final(to)@) == lines_view(old(to)@) + lines_view(more@),
{
    let ghost before = lines_view(to@);
    let ghost said = lines_view(more@);
    let mut m = more;
    to.append(&mut m);
    assert(lines_view(to@) =~= before + said);
}

/// `n` times the same character.
pub open spec fn run(c: char, n: nat) -> Seq<char> {
    Seq::new(n, |i: int| c)
}

/// `n` times the same character.
pub fn run_of(c: char, n: usize) -> (r: String)
    ensures
        r@ == run(c, n as nat),
{
    let mut r = String::new();
    let mut i: usize = 0;
    assert(r@ =~= run(c, 0));
    while i < n
        invariant
            i <= n,
            r@ == run(c, i as nat),
        decreases n - i,
    {
        r.push(c);
        i = i + 1;
        assert(r@ =~= run(c, i as nat));
    }
    r
}

} // verus!
