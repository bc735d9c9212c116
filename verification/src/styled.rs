//! Text with colours and weights, as lines of spans.
use vstd::prelude::*;

use crate::text;

verus! {

broadcast use text::group_views;

/// A colour.
#[derive(Clone, Copy, Debug, PartialEq, Eq, Structural)]
pub enum Tint {
    Black,
    Red,
    Green,
    Yellow,
    Blue,
    Magenta,
    Cyan,
    Gray,
    DarkGray,
    LightRed,
    LightGreen,
    LightYellow,
    LightBlue,
    LightMagenta,
    LightCyan,
    White,
    Rgb(u8, u8, u8),
}

/// How a stretch of text looks.
#[derive(Clone, Copy, Debug, PartialEq, Eq, Structural)]
pub struct SpanStyle {
    pub fg: Option<Tint>,
    pub bg: Option<Tint>,
    pub bold: bool,
    pub dim: bool,
    pub italic: bool,
    pub reversed: bool,
}

/// The look of text without any.
#[verifier::allow_in_spec]
pub fn plain() -> SpanStyle
    returns
        (SpanStyle { fg: None, bg: None, bold: false, dim: false, italic: false, reversed: false }),
{
    SpanStyle { fg: None, bg: None, bold: false, dim: false, italic: false, reversed: false }
}

/// In a colour.
#[verifier::allow_in_spec]
pub fn tinted(tint: Tint) -> SpanStyle
    returns
        (SpanStyle { fg: Some(tint), ..plain() }),
{
    SpanStyle { fg: Some(tint), bg: None, bold: false, dim: false, italic: false, reversed: false }
}

/// Bold.
#[verifier::allow_in_spec]
pub fn bold() -> SpanStyle
    returns
        (SpanStyle { bold: true, ..plain() }),
{
    SpanStyle { fg: None, bg: None, bold: true, dim: false, italic: false, reversed: false }
}

/// Dim.
#[verifier::allow_in_spec]
pub fn dim() -> SpanStyle
    returns
        (SpanStyle { dim: true, ..plain() }),
{
    SpanStyle { fg: None, bg: None, bold: false, dim: true, italic: false, reversed: false }
}

/// Bold, in a colour.
#[verifier::allow_in_spec]
pub fn bold_tinted(tint: Tint) -> SpanStyle
    returns
        (SpanStyle { fg: Some(tint), bold: true, ..plain() }),
{
    SpanStyle { fg: Some(tint), bg: None, bold: true, dim: false, italic: false, reversed: false }
}

/// Slanted, in a colour.
#[verifier::allow_in_spec]
pub fn italic_tinted(tint: Tint) -> SpanStyle
    returns
        (SpanStyle { fg: Some(tint), italic: true, ..plain() }),
{
    SpanStyle { fg: Some(tint), bg: None, bold: false, dim: false, italic: true, reversed: false }
}

/// On another ground.
#[verifier::allow_in_spec]
pub fn on(style: SpanStyle, ground: Option<Tint>) -> SpanStyle
    returns
        (SpanStyle { bg: ground, ..style }),
{
    SpanStyle { bg: ground, ..style }
}

/// A look with another laid over it: the colours that the other has, and the weights of both.
#[verifier::allow_in_spec]
pub fn patched(base: SpanStyle, over: SpanStyle) -> SpanStyle
    returns
        (SpanStyle {
            fg: if over.fg is Some {
                over.fg
            } else {
                base.fg
            },
            bg: if over.bg is Some {
                over.bg
            } else {
                base.bg
            },
            bold: base.bold || over.bold,
            dim: base.dim || over.dim,
            italic: base.italic || over.italic,
            reversed: base.reversed || over.reversed,
        }),
{
    SpanStyle {
        fg: if over.fg.is_some() {
            over.fg
        } else {
            base.fg
        },
        bg: if over.bg.is_some() {
            over.bg
        } else {
            base.bg
        },
        bold: base.bold || over.bold,
        dim: base.dim || over.dim,
        italic: base.italic || over.italic,
        reversed: base.reversed || over.reversed,
    }
}

/// A stretch of text with one look.
#[derive(Debug, PartialEq)]
pub struct StyledSpan {
    pub text: String,
    pub style: SpanStyle,
}

/// The model of `StyledSpan`.
#[verifier::ext_equal]
pub struct StyledSpanView {
    pub text: Seq<char>,
    pub style: SpanStyle,
}

impl View for StyledSpan {
    type V = StyledSpanView;

    open spec fn view(&self) -> StyledSpanView {
        StyledSpanView {
            text: self.text@,
            style: self.style,
        }
    }
}

impl Clone for StyledSpan {
    fn clone(&self) -> (copy: Self)
        ensures
            copy@ == self@,
    {
        StyledSpan {
            text: self.text.clone(),
            style: self.style,
        }
    }
}

/// A line of text, with a look that all of it shares.
#[derive(Debug, PartialEq)]
pub struct StyledLine {
    pub spans: Vec<StyledSpan>,
    pub style: SpanStyle,
}

/// The model of `StyledLine`.
#[verifier::ext_equal]
pub struct StyledLineView {
    pub spans: Seq<StyledSpanView>,
    pub style: SpanStyle,
}

impl View for StyledLine {
    type V = StyledLineView;

    open spec fn view(&self) -> StyledLineView {
        StyledLineView {
            spans: text::views(self.spans@),
            style: self.style,
        }
    }
}

impl Clone for StyledLine {
    fn clone(&self) -> (copy: Self)
        ensures
            copy@ == self@,
    {
        StyledLine {
            spans: text::copy_all(&self.spans),
            style: self.style,
        }
    }
}

pub open spec fn span_of(text: Seq<char>, style: SpanStyle) -> StyledSpanView {
    StyledSpanView { text, style }
}

pub open spec fn line_of(spans: Seq<StyledSpanView>) -> StyledLineView {
    StyledLineView { spans, style: plain() }
}

/// A line with nothing in it: no stretch of text at all.
pub open spec fn blank_line_of() -> StyledLineView {
    line_of(Seq::empty())
}

/// What a line says.
pub open spec fn line_text(line: StyledLineView) -> Seq<char>
    decreases line.spans.len(),
{
    spans_text(line.spans)
}

/// What stretches of text say, one after the other.
pub open spec fn spans_text(spans: Seq<StyledSpanView>) -> Seq<char>
    decreases spans.len(),
{
    if spans.len() == 0 {
        Seq::empty()
    } else {
        spans_text(spans.drop_last()) + spans.last().text
    }
}

/// A stretch of text.
pub fn span(words: &str, style: SpanStyle) -> (made: StyledSpan)
    ensures
        made@ == span_of(words@, style),
{
    StyledSpan { text: words.to_owned(), style }
}

/// A line of one stretch of text.
pub fn line1(a: StyledSpan) -> (made: StyledLine)
    ensures
        made@ == line_of(seq![a@]),
{
    let mut spans: Vec<StyledSpan> = Vec::new();
    spans.push(a);
    let made = StyledLine { spans, style: plain() };
    assert(made@.spans =~= seq![a@]);
    made
}

/// A line of two stretches of text.
pub fn line2(a: StyledSpan, b: StyledSpan) -> (made: StyledLine)
    ensures
        made@ == line_of(seq![a@, b@]),
{
    let mut spans: Vec<StyledSpan> = Vec::new();
    spans.push(a);
    spans.push(b);
    let made = StyledLine { spans, style: plain() };
    assert(made@.spans =~= seq![a@, b@]);
    made
}

/// A line of three stretches of text.
pub fn line3(a: StyledSpan, b: StyledSpan, c: StyledSpan) -> (made: StyledLine)
    ensures
        made@ == line_of(seq![a@, b@, c@]),
{
    let mut spans: Vec<StyledSpan> = Vec::new();
    spans.push(a);
    spans.push(b);
    spans.push(c);
    let made = StyledLine { spans, style: plain() };
    assert(made@.spans =~= seq![a@, b@, c@]);
    made
}

/// A line with nothing in it.
pub fn blank_line() -> (made: StyledLine)
    ensures
        made@ == blank_line_of(),
{
    let made = StyledLine { spans: Vec::new(), style: plain() };
    assert(made@.spans =~= Seq::<StyledSpanView>::empty());
    made
}

/// Stretches of text without any look.
pub open spec fn raw_spans(lines: Seq<Seq<char>>) -> Seq<StyledSpanView> {
    Seq::new(lines.len(), |i: int| span_of(lines[i], plain()))
}

/// One line out of a text: its lines without any look, one after the other.
pub open spec fn raw_line_of(words: Seq<char>) -> StyledLineView {
    line_of(raw_spans(text::lines_of(words)))
}

/// One line out of a text.
pub fn raw_line(words: &str) -> (made: StyledLine)
    ensures
        made@ == raw_line_of(words@),
{
    let lines: Vec<String> = text::lines(words);
    let mut spans: Vec<StyledSpan> = Vec::new();
    let mut i: usize = 0;
    while i < lines.len()
        invariant
            i <= lines@.len(),
            text::views(lines@) == text::lines_of(words@),
            spans@.len() == i,
            forall|j: int|
                0 <= j < i ==> (#[trigger] spans@[j])@ == span_of(lines@[j]@, plain()),
        decreases lines@.len() - i,
    {
        spans.push(span(lines[i].as_str(), plain()));
        i = i + 1;
    }
    let made = StyledLine { spans, style: plain() };
    assert(made@.spans =~= raw_spans(text::lines_of(words@)));
    made
}

/// What a line says.
pub fn plain_text(line: &StyledLine) -> (out: String)
    ensures
        out@ == line_text(line@),
{
    let mut out: String = String::new();
    let mut i: usize = 0;
    let ghost all = line@.spans;
    assert(all.take(0) =~= Seq::<StyledSpanView>::empty());
    while i < line.spans.len()
        invariant
            i <= line.spans@.len(),
            all == text::views(line.spans@),
            out@ == spans_text(all.take(i as int)),
        decreases line.spans@.len() - i,
    {
        assert(all.take(i + 1).drop_last() =~= all.take(i as int));
        assert(all.take(i + 1).last() == line.spans@[i as int]@);
        out.append(line.spans[i].text.as_str());
        i = i + 1;
    }
    assert(all.take(all.len() as int) =~= all);
    out
}

/// Whether a line shows nothing: all of its stretches are empty.
pub open spec fn shows_nothing(line: StyledLineView) -> bool {
    forall|i: int| 0 <= i < line.spans.len() ==> (#[trigger] line.spans[i]).text.len() == 0
}

/// Whether a line shows nothing.
pub fn is_blank_line(line: &StyledLine) -> (b: bool)
    ensures
        b == shows_nothing(line@),
{
    let mut i: usize = 0;
    while i < line.spans.len()
        invariant
            i <= line.spans@.len(),
            forall|j: int| 0 <= j < i ==> (#[trigger] line@.spans[j]).text.len() == 0,
        decreases line.spans@.len() - i,
    {
        assert(line@.spans[i as int] == line.spans@[i as int]@);
        if !text::is_empty(line.spans[i].text.as_str()) {
            return false;
        }
        i = i + 1;
    }
    true
}

/// A line with a stretch of text in front.
pub open spec fn prefixed(line: StyledLineView, prefix: StyledSpanView) -> StyledLineView {
    StyledLineView { spans: seq![prefix] + line.spans, style: line.style }
}

/// Lines with one stretch of text in front of the first and another in front of the others.
pub open spec fn all_prefixed(
    lines: Seq<StyledLineView>,
    first: StyledSpanView,
    rest: StyledSpanView,
) -> Seq<StyledLineView> {
    Seq::new(
        lines.len(),
        |i: int|
            prefixed(
                lines[i],
                if i == 0 {
                    first
                } else {
                    rest
                },
            ),
    )
}

/// Puts one stretch of text in front of the first line and another in front of the others.
pub fn prefix_lines(lines: &Vec<StyledLine>, first: &StyledSpan, rest: &StyledSpan) -> (out: Vec<
    StyledLine,
>)
    ensures
        text::views(out@) == all_prefixed(text::views(lines@), first@, rest@),
{
    let ghost all = text::views(lines@);
    let mut out: Vec<StyledLine> = Vec::new();
    let mut i: usize = 0;
    while i < lines.len()
        invariant
            i <= lines@.len(),
            all == text::views(lines@),
            out@.len() == i,
            forall|j: int|
                0 <= j < i ==> (#[trigger] out@[j])@ == all_prefixed(all, first@, rest@)[j],
        decreases lines@.len() - i,
    {
        let mut spans: Vec<StyledSpan> = Vec::new();
        if i == 0 {
            spans.push(first.clone());
        } else {
            spans.push(rest.clone());
        }
        let ghost head = text::views(spans@)[0];
        let mut tail: Vec<StyledSpan> = text::copy_all(&lines[i].spans);
        spans.append(&mut tail);
        let line = StyledLine { spans, style: lines[i].style };
        assert(line@.spans =~= seq![head] + all[i as int].spans);
        out.push(line);
        i = i + 1;
    }
    assert(text::views(out@) =~= all_prefixed(all, first@, rest@));
    out
}

/// A text on one line is shown as it is.
pub proof fn law_a_raw_line_says_its_text(words: Seq<char>)
    requires
        forall|i: int| 0 <= i < words.len() ==> #[trigger] words[i] != '\n',
    ensures
        line_text(raw_line_of(words)) == words,
        line_of(seq![span_of(words, plain())]).spans.len() == 1,
        line_text(line_of(seq![span_of(words, plain())])) == words,
{
    text::lemma_first_index(words, '\n');
    let spans = raw_line_of(words).spans;
    reveal_with_fuel(spans_text, 2);
    if words.len() == 0 {
        assert(spans.len() == 0);
        assert(spans_text(spans) =~= words);
    } else {
        assert(text::lines_of(words) =~= seq![words]);
        assert(spans.drop_last() =~= Seq::empty());
        assert(spans_text(spans) =~= words);
    }
    let one = seq![span_of(words, plain())];
    assert(one.drop_last() =~= Seq::empty());
    assert(spans_text(one) =~= words);
}

/// A prefix stands before the words of a line and leaves them as they are.
pub proof fn law_a_prefix_stands_before_the_words(line: StyledLineView, prefix: StyledSpanView)
    ensures
        line_text(prefixed(line, prefix)) == prefix.text + line_text(line),
        prefixed(line, prefix).spans.skip(1) == line.spans,
        prefixed(line, prefix).style == line.style,
{
    lemma_first_span(prefix, line.spans);
    assert(prefixed(line, prefix).spans.skip(1) =~= line.spans);
}

proof fn lemma_first_span(first: StyledSpanView, spans: Seq<StyledSpanView>)
    ensures
        spans_text(seq![first] + spans) == first.text + spans_text(spans),
    decreases spans.len(),
{
    let all = seq![first] + spans;
    reveal_with_fuel(spans_text, 2);
    if spans.len() == 0 {
        assert(all.drop_last() =~= Seq::empty());
        assert(spans_text(all) =~= first.text + spans_text(spans));
    } else {
        assert(all.drop_last() =~= seq![first] + spans.drop_last());
        lemma_first_span(first, spans.drop_last());
        assert(spans_text(all) =~= first.text + spans_text(spans));
    }
}

/// The first of several lines has the first prefix and every other the other one.
pub proof fn law_only_the_first_line_has_the_first_prefix(
    lines: Seq<StyledLineView>,
    first: StyledSpanView,
    rest: StyledSpanView,
    i: int,
)
    requires
        0 <= i < lines.len(),
    ensures
        ({
            let all = all_prefixed(lines, first, rest);
            &&& all.len() == lines.len()
            &&& all[i].spans[0] == (if i == 0 {
                first
            } else {
                rest
            })
            &&& all[i].spans.skip(1) == lines[i].spans
            &&& all[i].style == lines[i].style
        }),
{
    assert(all_prefixed(lines, first, rest)[i].spans.skip(1) =~= lines[i].spans);
}

/// A style that is laid over another keeps what it says itself and takes the rest from below.
pub proof fn law_the_upper_style_wins(base: SpanStyle, over: SpanStyle)
    ensures
        ({
            let both = patched(base, over);
            &&& both.fg == (if over.fg is Some {
                over.fg
            } else {
                base.fg
            })
            &&& both.bg == (if over.bg is Some {
                over.bg
            } else {
                base.bg
            })
            &&& both.bold <==> base.bold || over.bold
            &&& both.dim <==> base.dim || over.dim
            &&& both.italic <==> base.italic || over.italic
            &&& both.reversed <==> base.reversed || over.reversed
            &&& patched(base, plain()) == base
            &&& patched(plain(), over) == over
        }),
{
}

/// A line is blank exactly where it says nothing.
pub proof fn law_a_blank_line_says_nothing(line: StyledLineView)
    ensures
        shows_nothing(line) <==> line_text(line).len() == 0,
{
    lemma_blank_spans(line.spans);
}

proof fn lemma_blank_spans(spans: Seq<StyledSpanView>)
    ensures
        (forall|i: int| 0 <= i < spans.len() ==> (#[trigger] spans[i]).text.len() == 0)
            <==> spans_text(spans).len() == 0,
    decreases spans.len(),
{
    if spans.len() > 0 {
        let rest = spans.drop_last();
        lemma_blank_spans(rest);
        if spans_text(spans).len() == 0 {
            assert forall|i: int| 0 <= i < spans.len() implies (#[trigger] spans[i]).text.len()
                == 0 by {
                if i < rest.len() {
                    assert(rest[i] == spans[i]);
                }
            }
        }
        if forall|i: int| 0 <= i < spans.len() ==> (#[trigger] spans[i]).text.len() == 0 {
            assert forall|i: int| 0 <= i < rest.len() implies (#[trigger] rest[i]).text.len() == 0 by {
                assert(rest[i] == spans[i]);
            }
        }
    }
}

} // verus!
