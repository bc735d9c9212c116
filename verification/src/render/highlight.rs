//! Source code as lines, without colours.
use vstd::prelude::*;

use crate::styled;
use crate::styled::{StyledLine, StyledLineView, StyledSpan};
use crate::text;

verus! {

broadcast use text::group_views;

/// The most bytes that are worth colouring.
pub const MAX_HIGHLIGHT_BYTES: usize = 524_288;

/// The most lines that are worth colouring.
pub const MAX_HIGHLIGHT_LINES: usize = 10_000;

/// Whether code is too long to be coloured.
pub fn exceeds_highlight_limits(total_bytes: usize, total_lines: usize) -> (b: bool)
    ensures
        b == (total_bytes > MAX_HIGHLIGHT_BYTES || total_lines > MAX_HIGHLIGHT_LINES),
{
    total_bytes > MAX_HIGHLIGHT_BYTES || total_lines > MAX_HIGHLIGHT_LINES
}

/// A line of code: one stretch of plain text, or none where the line is empty.
pub open spec fn code_line(raw: Seq<char>) -> StyledLineView {
    styled::line_of(
        if raw.len() == 0 {
            Seq::empty()
        } else {
            seq![styled::span_of(raw, styled::plain())]
        },
    )
}

/// The lines of code; one empty line where there is no code.
pub open spec fn code_lines(code: Seq<char>) -> Seq<StyledLineView> {
    let lines = text::lines_of(code);
    if lines.len() == 0 {
        seq![code_line(Seq::empty())]
    } else {
        Seq::new(lines.len(), |i: int| code_line(lines[i]))
    }
}

/// The lines of code, whatever the language.
pub fn highlight_code_to_lines(code: &str, _lang: &str) -> (out: Vec<StyledLine>)
    ensures
        text::views(out@) == code_lines(code@),
{
    let lines: Vec<String> = text::lines(code);
    let ghost all = text::lines_of(code@);
    let mut out: Vec<StyledLine> = Vec::new();
    let mut i: usize = 0;
    while i < lines.len()
        invariant
            i <= lines@.len(),
            all == text::views(lines@),
            out@.len() == i,
            forall|j: int| 0 <= j < i ==> (#[trigger] out@[j])@ == code_line(all[j]),
        decreases lines@.len() - i,
    {
        assert(all[i as int] == lines@[i as int]@);
        if text::is_empty(lines[i].as_str()) {
            out.push(styled::blank_line());
        } else {
            out.push(styled::line1(styled::span(lines[i].as_str(), styled::plain())));
        }
        i = i + 1;
    }
    if out.len() == 0 {
        out.push(styled::blank_line());
    }
    assert(text::views(out@) =~= code_lines(code@));
    out
}

/// The lines of a shell script.
pub fn highlight_bash_to_lines(script: &str) -> (out: Vec<StyledLine>)
    ensures
        text::views(out@) == code_lines(script@),
{
    highlight_code_to_lines(script, "bash")
}

/// Coloured code: there is none.
pub fn highlight_code_to_styled_spans(_code: &str, _lang: &str) -> (out: Option<
    Vec<Vec<StyledSpan>>,
>)
    ensures
        out is None,
{
    None
}

/// The grounds that a theme gives to what a diff adds and removes.
#[derive(Clone, Copy, Debug, PartialEq, Eq)]
pub struct DiffScopeBackgroundRgbs {
    pub inserted: Option<(u8, u8, u8)>,
    pub deleted: Option<(u8, u8, u8)>,
}

impl Default for DiffScopeBackgroundRgbs {
    fn default() -> (made: Self)
        ensures
            made.inserted is None,
            made.deleted is None,
    {
        DiffScopeBackgroundRgbs { inserted: None, deleted: None }
    }
}

/// The grounds that the theme gives to what a diff adds and removes: none.
pub fn diff_scope_background_rgbs() -> (made: DiffScopeBackgroundRgbs)
    ensures
        made.inserted is None,
        made.deleted is None,
{
    DiffScopeBackgroundRgbs::default()
}

/// Asks for another theme; there is nothing to complain of.
pub fn set_theme_override(_name: Option<String>, _codex_home: Option<String>) -> (complaint: Option<
    String,
>)
    ensures
        complaint is None,
{
    None
}

/// The theme where none is chosen.
pub fn adaptive_default_theme_name() -> (name: &'static str)
    ensures
        name@ == "catppuccin-mocha"@,
{
    "catppuccin-mocha"
}

/// The theme in use.
pub fn configured_theme_name() -> (name: String)
    ensures
        name@ == "catppuccin-mocha"@,
{
    adaptive_default_theme_name().to_owned()
}

/// A theme that can be chosen.
#[derive(Debug, PartialEq)]
pub struct ThemeEntry {
    pub name: String,
    pub is_custom: bool,
}

/// The themes that can be chosen: none.
pub fn list_available_themes(_codex_home: Option<&str>) -> (themes: Vec<ThemeEntry>)
    ensures
        themes@.len() == 0,
{
    Vec::new()
}

/// Code without colours is shown line by line, word for word.
pub proof fn law_plain_code_is_shown_word_for_word(raw: Seq<char>)
    ensures
        styled::line_text(code_line(raw)) == raw,
{
    reveal_with_fuel(styled::spans_text, 2);
    let spans = code_line(raw).spans;
    if raw.len() > 0 {
        assert(spans.drop_last() =~= Seq::empty());
    }
    assert(styled::spans_text(spans) =~= raw);
}

} // verus!
