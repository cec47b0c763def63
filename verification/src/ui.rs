//! Text with style: spans, lines and pages, for a terminal to draw.
use vstd::prelude::*;

use crate::text;

verus! {

/// A colour of the palette.
#[derive(Clone, Copy, Debug, PartialEq, Eq, Structural)]
pub enum Ink {
    /// The terminal's own colour.
    Plain,
    /// Headers and the focused panel.
    Accent,
    Good,
    Warn,
    Bad,
    /// De-emphasised.
    Dim,
    /// Key hints.
    Key,
}

/// How a span is drawn.
#[derive(Clone, Copy, Debug, PartialEq, Eq, Structural)]
pub struct Style {
    pub ink: Ink,
    pub bold: bool,
    pub reversed: bool,
}

/// A colour and nothing else.
pub open spec fn plain(ink: Ink) -> Style {
    Style { ink, bold: false, reversed: false }
}

/// A colour in bold.
pub open spec fn bold(ink: Ink) -> Style {
    Style { ink, bold: true, reversed: false }
}

/// A text in one style.
#[derive(Debug)]
pub struct Span {
    pub text: String,
    pub style: Style,
}

/// A span with its text as characters.
pub struct SpanView {
    pub text: Seq<char>,
    pub style: Style,
}

impl View for Span {
    type V = SpanView;

    open spec fn view(&self) -> SpanView {
        SpanView { text: self.text@, style: self.style }
    }
}

/// The view of a span.
pub open spec fn span(text: Seq<char>, style: Style) -> SpanView {
    SpanView { text, style }
}

/// The views of a list of spans.
pub open spec fn span_views(v: Seq<Span>) -> Seq<SpanView> {
    Seq::new(v.len(), |i: int| v[i]@)
}

/// A line of spans.
#[derive(Debug)]
pub struct Line {
    pub spans: Vec<Span>,
    /// Drawn in the middle of its column.
    pub centered: bool,
}

/// A line with its texts as characters.
pub struct LineView {
    pub spans: Seq<SpanView>,
    pub centered: bool,
}

impl View for Line {
    type V = LineView;

    open spec fn view(&self) -> LineView {
        LineView { spans: span_views(self.spans@), centered: self.centered }
    }
}

/// The view of a line of spans.
pub open spec fn line(spans: Seq<SpanView>) -> LineView {
    LineView { spans, centered: false }
}

/// A text in a colour.
pub fn tint(text: &str, ink: Ink) -> (r: Span)
    ensures
        r@ == span(text@, plain(ink)),
{
    Span { text: text.to_owned(), style: Style { ink, bold: false, reversed: false } }
}

/// A text in a colour and bold.
pub fn tint_bold(text: &str, ink: Ink) -> (r: Span)
    ensures
        r@ == span(text@, bold(ink)),
{
    Span { text: text.to_owned(), style: Style { ink, bold: true, reversed: false } }
}

/// A text in a style.
pub fn styled(text: &str, style: Style) -> (r: Span)
    ensures
        r@ == span(text@, style),
{
    Span { text: text.to_owned(), style }
}

impl Line {
    /// An empty line.
    pub fn new() -> (r: Line)
        ensures
            r@ == line(seq![]),
    {
        let r = Line { spans: Vec::new(), centered: false };
        assert(span_views(r.spans@) =~= seq![]);
        r
    }

    /// The line with one more span.
    pub fn with(self, s: Span) -> (r: Line)
        ensures
            r@ == (LineView { spans: self@.spans.push(s@), ..self@ }),
    {
        let mut r = self;
        r.spans.push(s);
        assert(span_views(r.spans@) =~= span_views(self.spans@).push(s@));
        r
    }

    /// Adds a span.
    pub fn add_span(&mut self, s: Span)
        ensures
            final(self)@ == (LineView { spans: old(self)@.spans.push(s@), ..old(self)@ }),
    {
        self.spans.push(s);
        assert(span_views(self.spans@) =~= span_views(old(self).spans@).push(s@));
    }

    /// A line of one span.
    pub fn of(s: Span) -> (r: Line)
        ensures
            r@ == line(seq![s@]),
    {
        Line::new().with(s)
    }

    /// A line of two spans.
    pub fn two(a: Span, b: Span) -> (r: Line)
        ensures
            r@ == line(seq![a@, b@]),
    {
        let r = Line::new().with(a).with(b);
        assert(r@.spans =~= seq![a@, b@]);
        r
    }

    /// A line of three spans.
    pub fn three(a: Span, b: Span, c: Span) -> (r: Line)
        ensures
            r@ == line(seq![a@, b@, c@]),
    {
        let r = Line::new().with(a).with(b).with(c);
        assert(r@.spans =~= seq![a@, b@, c@]);
        r
    }

    /// A line of four spans.
    pub fn four(a: Span, b: Span, c: Span, d: Span) -> (r: Line)
        ensures
            r@ == line(seq![a@, b@, c@, d@]),
    {
        let r = Line::new().with(a).with(b).with(c).with(d);
        assert(r@.spans =~= seq![a@, b@, c@, d@]);
        r
    }

    /// A centred line of one span.
    pub fn centered(s: Span) -> (r: Line)
        ensures
            r@ == (LineView { spans: seq![s@], centered: true }),
    {
        let mut r = Line::new().with(s);
        r.centered = true;
        r
    }
}

/// Lines below each other.
#[derive(Debug)]
pub struct Page {
    pub lines: Vec<Line>,
}

impl View for Page {
    type V = Seq<LineView>;

    open spec fn view(&self) -> Seq<LineView> {
        Seq::new(self.lines@.len(), |i: int| self.lines@[i]@)
    }
}

impl Page {
    /// No lines.
    pub fn new() -> (r: Page)
        ensures
            r@ == Seq::<LineView>::empty(),
    {
        let r = Page { lines: Vec::new() };
        assert(r@ =~= Seq::<LineView>::empty());
        r
    }

    /// Adds a line.
    pub fn put(&mut self, l: Line)
        ensures
            final(self)@ == old(self)@.push(l@),
    {
        self.lines.push(l);
        assert(self@ =~= old(self)@.push(l@));
    }

    /// The number of lines.
    pub fn len(&self) -> (r: usize)
        ensures
            r == self@.len(),
    {
        self.lines.len()
    }
}

/// The title of a panel: marked where it has the focus.
pub open spec fn panel_title(title: Seq<char>, focused: bool) -> SpanView {
    if focused {
        span(" ▸ "@ + title + " "@, bold(Ink::Accent))
    } else {
        span(" "@ + title + " "@, bold(Ink::Dim))
    }
}

/// The title of a panel.
pub fn panel(title: &str, focused: bool) -> (r: Span)
    ensures
        r@ == panel_title(title@, focused),
{
    if focused {
        tint_bold(text::join3(" ▸ ", title, " ").as_str(), Ink::Accent)
    } else {
        tint_bold(text::join3(" ", title, " ").as_str(), Ink::Dim)
    }
}

/// A key and what it does.
#[derive(Clone, Copy, Debug)]
pub struct KeyHint {
    pub key: &'static str,
    pub label: &'static str,
}

/// The spans of key hints, two spaces between them.
pub open spec fn hint_spans(items: Seq<KeyHint>) -> Seq<SpanView>
    decreases items.len(),
{
    if items.len() == 0 {
        seq![]
    } else {
        let before = hint_spans(items.drop_last());
        let gap = if items.len() > 1 { before.push(span("  "@, plain(Ink::Plain))) } else { before };
        gap.push(span(items.last().key@, bold(Ink::Key))).push(
            span(" "@ + items.last().label@, plain(Ink::Dim)),
        )
    }
}

/// A line of key hints.
pub fn key_line(items: &Vec<KeyHint>) -> (r: Line)
    ensures
        r@ == line(hint_spans(items@)),
{
    let mut r = Line::new();
    let mut i: usize = 0;
    assert(items@.take(0) =~= seq![]);
    while i < items.len()
        invariant
            i <= items@.len(),
            r@ == line(hint_spans(items@.take(i as int))),
        decreases items@.len() - i,
    {
        assert(items@.take(i + 1).drop_last() =~= items@.take(i as int));
        if i > 0 {
            r.add_span(tint("  ", Ink::Plain));
        }
        r.add_span(tint_bold(items[i].key, Ink::Key));
        r.add_span(tint(text::join2(" ", items[i].label).as_str(), Ink::Dim));
        i += 1;
    }
    assert(items@.take(i as int) =~= items@);
    r
}

/// Cells of a bar that are filled: the fraction of the width, held between
/// nothing and all, to the nearest.
pub open spec fn bar_fill(num: int, den: int, width: int) -> int {
    if num <= 0 {
        0
    } else if num >= den {
        width
    } else {
        (2 * num * width + den) / (2 * den)
    }
}

/// A bar.
pub open spec fn bar_text(num: int, den: int, width: int) -> Seq<char> {
    let fill = bar_fill(num, den, width);
    text::repeat('█', fill as nat) + text::repeat('░', (width - fill) as nat)
}

/// A bar of a width, filled by the fraction `num / den`.
pub fn bar(num: i64, den: i64, width: u16, ink: Ink) -> (r: Span)
    requires
        0 < den <= 0x1_0000_0000,
        -0x1_0000_0000 <= num <= 0x1_0000_0000,
    ensures
        r@ == span(bar_text(num as int, den as int, width as int), plain(ink)),
{
    let fill: i64 = if num <= 0 {
        0
    } else if num >= den {
        width as i64
    } else {
        proof {
            let a = num as int;
            let b = width as int;
            assert(0 <= a * b <= 0x1_0000_0000 * 0x1_0000) by (nonlinear_arith)
                requires
                    0 <= a <= 0x1_0000_0000,
                    0 <= b <= 0x1_0000,
            ;
            assert(2 * a * b == 2 * (a * b)) by (nonlinear_arith);
            assert(a * b < den * b + 1) by (nonlinear_arith)
                requires
                    0 <= a < den,
                    0 <= b,
            ;
            assert((2 * (a * b) + den) / (2 * den) <= b) by (nonlinear_arith)
                requires
                    0 <= a <= den - 1,
                    0 <= b,
                    den > 0,
            ;
            assert(0 <= (2 * (a * b) + den) / (2 * den)) by (nonlinear_arith)
                requires
                    0 <= a * b,
                    den > 0,
            ;
        }
        (2 * (num * (width as i64)) + den) / (2 * den)
    };
    let mut t = text::repeated('█', fill as usize);
    t.append(text::repeated('░', (width as i64 - fill) as usize).as_str());
    Span { text: t, style: Style { ink, bold: false, reversed: false } }
}

// ---------------------------------------------------------------------------
// Laws

/// A bar is as wide as asked for and filled in proportion, to the nearest cell:
/// not at all from zero down, wholly from the whole up.
pub proof fn bar_is_filled_in_proportion(num: int, den: int, width: int)
    requires
        0 < den,
        0 <= width,
    ensures
        0 <= bar_fill(num, den, width) <= width,
        bar_text(num, den, width).len() == width,
        num <= 0 ==> bar_fill(num, den, width) == 0,
        num >= den ==> bar_fill(num, den, width) == width,
        0 <= num <= den ==> -den <= 2 * (bar_fill(num, den, width) * den) - 2 * (num * width) <= den,
        forall|i: int|
            0 <= i < width ==> #[trigger] bar_text(num, den, width)[i] == (if i < bar_fill(
                num,
                den,
                width,
            ) {
                '█'
            } else {
                '░'
            }),
{
    let f = bar_fill(num, den, width);
    if 0 < num < den {
        let x = 2 * num * width + den;
        assert(x == 2 * (num * width) + den) by (nonlinear_arith)
            requires
                x == 2 * num * width + den,
        ;
        assert(0 <= num * width <= (den - 1) * width) by (nonlinear_arith)
            requires
                0 < num <= den - 1,
                0 <= width,
        ;
        assert((den - 1) * width <= den * width) by (nonlinear_arith)
            requires
                0 <= width,
        ;
        let q = x / (2 * den);
        assert(q * (2 * den) <= x < (q + 1) * (2 * den)) by (nonlinear_arith)
            requires
                q == x / (2 * den),
                den > 0,
        ;
        assert(q * (2 * den) == 2 * (q * den)) by (nonlinear_arith);
        assert((q + 1) * (2 * den) == 2 * (q * den) + 2 * den) by (nonlinear_arith);
        assert(q >= 0) by (nonlinear_arith)
            requires
                0 <= x,
                x < (q + 1) * (2 * den),
                den > 0,
        ;
        assert(q <= width) by (nonlinear_arith)
            requires
                2 * (q * den) <= 2 * (num * width) + den,
                num * width <= (den - 1) * width,
                0 <= width,
                den > 0,
        ;
    } else if num == den {
        assert(width * den == num * width) by (nonlinear_arith)
            requires
                num == den,
        ;
    }
}

/// Every hint is shown as its key and then its label, with a gap before all but
/// the first.
pub proof fn hints_are_shown_in_turn(items: Seq<KeyHint>, one: KeyHint)
    ensures
        ({
            let v = hint_spans(items.push(one));
            let n = hint_spans(items).len() as int;
            &&& v.len() == n + (if items.len() > 0 { 3int } else { 2 })
            &&& v.take(n) == hint_spans(items)
            &&& v[v.len() - 2].text == one.key@
            &&& v[v.len() - 1].text == " "@ + one.label@
            &&& items.len() > 0 ==> v[n].text == "  "@
        }),
{
    assert(items.push(one).drop_last() =~= items);
    assert(hint_spans(items.push(one)).take(hint_spans(items).len() as int) =~= hint_spans(items));
}

/// A focused panel's title is marked and lit, any other's is neither.
pub proof fn focused_title_is_marked(title: Seq<char>)
    ensures
        panel_title(title, true).text == " ▸ "@ + title + " "@,
        panel_title(title, true).style.ink is Accent,
        panel_title(title, false).text == " "@ + title + " "@,
        panel_title(title, false).style.ink is Dim,
{
}

} // verus!
