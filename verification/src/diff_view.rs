//! How a unified diff is laid out, in colours.
use vstd::prelude::*;

use crate::styled;
use crate::styled::{SpanStyle, StyledLine, StyledLineView, Tint};
use crate::text;

verus! {

broadcast use text::group_views;

/// Whether a text has a line that opens a hunk.
pub open spec fn has_hunk(s: Seq<char>) -> bool {
    exists|i: int| 0 <= i < text::lines_of(s).len() && text::begins(#[trigger] text::lines_of(s)[i], "@@"@)
}

/// Whether a text looks like a unified diff: some line of it opens a hunk.
pub fn looks_like_unified_diff(words: &str) -> (b: bool)
    ensures
        b == has_hunk(words@),
{
    let lines: Vec<String> = text::lines(words);
    let mut i: usize = 0;
    while i < lines.len()
        invariant
            i <= lines@.len(),
            text::views(lines@) == text::lines_of(words@),
            forall|j: int| 0 <= j < i ==> !text::begins(#[trigger] text::lines_of(words@)[j], "@@"@),
        decreases lines@.len() - i,
    {
        assert(text::lines_of(words@)[i as int] == lines@[i as int]@);
        if text::starts_with(lines[i].as_str(), "@@") {
            return true;
        }
        i = i + 1;
    }
    false
}

// -- Counting ---------------------------------------------------------------------------------

/// Whether a line names a file.
pub open spec fn names_file(line: Seq<char>) -> bool {
    text::begins(line, "+++"@) || text::begins(line, "---"@)
}

/// Whether a line is one that was added.
pub open spec fn is_added(line: Seq<char>) -> bool {
    !names_file(line) && text::begins(line, "+"@)
}

/// Whether a line is one that was removed.
pub open spec fn is_removed(line: Seq<char>) -> bool {
    !names_file(line) && !text::begins(line, "+"@) && text::begins(line, "-"@)
}

/// How many lines were added.
pub open spec fn added_count(lines: Seq<Seq<char>>) -> nat
    decreases lines.len(),
{
    if lines.len() == 0 {
        0
    } else {
        added_count(lines.drop_last()) + if is_added(lines.last()) {
            1nat
        } else {
            0nat
        }
    }
}

/// How many lines were removed.
pub open spec fn removed_count(lines: Seq<Seq<char>>) -> nat
    decreases lines.len(),
{
    if lines.len() == 0 {
        0
    } else {
        removed_count(lines.drop_last()) + if is_removed(lines.last()) {
            1nat
        } else {
            0nat
        }
    }
}

/// How many lines a diff adds and removes.
pub fn count_changes(diff: &str) -> (counts: (usize, usize))
    ensures
        counts.0 == added_count(text::lines_of(diff@)),
        counts.1 == removed_count(text::lines_of(diff@)),
{
    let lines: Vec<String> = text::lines(diff);
    let ghost all = text::lines_of(diff@);
    let mut added: usize = 0;
    let mut removed: usize = 0;
    let mut i: usize = 0;
    assert(all.take(0) =~= Seq::<Seq<char>>::empty());
    while i < lines.len()
        invariant
            i <= lines@.len(),
            all == text::views(lines@),
            added == added_count(all.take(i as int)),
            removed == removed_count(all.take(i as int)),
            added <= i,
            removed <= i,
        decreases lines@.len() - i,
    {
        assert(all.take(i + 1).drop_last() =~= all.take(i as int));
        assert(all.take(i + 1).last() == lines@[i as int]@);
        let line: &str = lines[i].as_str();
        if text::starts_with(line, "+++") || text::starts_with(line, "---") {
        } else if text::starts_with(line, "+") {
            added = added + 1;
        } else if text::starts_with(line, "-") {
            removed = removed + 1;
        }
        i = i + 1;
    }
    assert(all.take(all.len() as int) =~= all);
    (added, removed)
}

// -- Lines ------------------------------------------------------------------------------------------

/// The line above a diff, with how much it changes.
pub open spec fn diff_header_of(added: nat, removed: nat) -> StyledLineView {
    styled::line_of(
        seq![
            styled::span_of("◆ "@, styled::bold_tinted(Tint::LightMagenta)),
            styled::span_of("patch"@, styled::bold_tinted(Tint::LightMagenta)),
            styled::span_of("  "@, styled::plain()),
            styled::span_of("+"@ + text::decimal(added), styled::tinted(Tint::LightGreen)),
            styled::span_of(" "@, styled::plain()),
            styled::span_of("-"@ + text::decimal(removed), styled::tinted(Tint::LightRed)),
        ],
    )
}

fn diff_header(added: usize, removed: usize) -> (line: StyledLine)
    ensures
        line@ == diff_header_of(added as nat, removed as nat),
{
    let plus_number: String = text::number(added as u64);
    let minus_number: String = text::number(removed as u64);
    let plus: String = text::glue("+", plus_number.as_str());
    let minus: String = text::glue("-", minus_number.as_str());
    let mut line: StyledLine = styled::line3(
        styled::span("◆ ", styled::bold_tinted(Tint::LightMagenta)),
        styled::span("patch", styled::bold_tinted(Tint::LightMagenta)),
        styled::span("  ", styled::plain()),
    );
    line.spans.push(styled::span(plus.as_str(), styled::tinted(Tint::LightGreen)));
    line.spans.push(styled::span(" ", styled::plain()));
    line.spans.push(styled::span(minus.as_str(), styled::tinted(Tint::LightRed)));
    assert(line@.spans =~= diff_header_of(added as nat, removed as nat).spans);
    line
}

/// A line that was added, removed or kept, with its mark.
pub open spec fn marked_line_of(mark: Seq<char>, content: Seq<char>, tint: Tint, ground: Option<Tint>) -> StyledLineView {
    styled::line_of(
        seq![
            styled::span_of(
                "  "@ + mark + " "@,
                styled::on(styled::bold_tinted(tint), ground),
            ),
            styled::span_of(content, styled::on(styled::tinted(tint), ground)),
        ],
    )
}

fn diff_line(mark: &str, content: &str, tint: Tint, ground: Option<Tint>) -> (line: StyledLine)
    ensures
        line@ == marked_line_of(mark@, content@, tint, ground),
{
    let head: String = text::glue3("  ", mark, " ");
    styled::line2(
        styled::span(head.as_str(), styled::on(styled::bold_tinted(tint), ground)),
        styled::span(content, styled::on(styled::tinted(tint), ground)),
    )
}

/// A line of one dim stretch.
pub open spec fn dim_line_of(raw: Seq<char>) -> StyledLineView {
    styled::line_of(seq![styled::span_of(raw, styled::tinted(Tint::DarkGray))])
}

/// A line that is set in.
pub open spec fn inset_line_of(raw: Seq<char>, style: SpanStyle) -> StyledLineView {
    styled::line_of(seq![styled::span_of("  "@, styled::plain()), styled::span_of(raw, style)])
}

/// The ground of lines that were added.
#[verifier::allow_in_spec]
pub fn added_bg() -> Option<Tint>
    returns
        Some(Tint::Rgb(33, 58, 43)),
{
    Some(Tint::Rgb(33, 58, 43))
}

/// The ground of lines that were removed.
#[verifier::allow_in_spec]
pub fn removed_bg() -> Option<Tint>
    returns
        Some(Tint::Rgb(74, 34, 29)),
{
    Some(Tint::Rgb(74, 34, 29))
}

/// What follows a beginning.
pub open spec fn after(raw: Seq<char>, beginning: Seq<char>) -> Seq<char> {
    raw.skip(beginning.len() as int)
}

/// How a line of a diff is laid out.
pub open spec fn diff_line_of(raw: Seq<char>) -> StyledLineView {
    if text::begins(raw, "diff --git "@) {
        inset_line_of(after(raw, "diff --git "@), styled::bold_tinted(Tint::LightBlue))
    } else if text::begins(raw, "+++ "@) || text::begins(raw, "--- "@) {
        inset_line_of(raw, styled::tinted(Tint::DarkGray))
    } else if text::begins(raw, "@@"@) {
        styled::line_of(
            seq![
                styled::span_of("  "@, styled::plain()),
                styled::span_of("@@"@, styled::bold_tinted(Tint::Magenta)),
                styled::span_of(after(raw, "@@"@), styled::tinted(Tint::Magenta)),
            ],
        )
    } else if text::begins(raw, "+"@) {
        if text::begins(after(raw, "+"@), "+"@) {
            dim_line_of(raw)
        } else {
            marked_line_of("+"@, after(raw, "+"@), Tint::LightGreen, added_bg())
        }
    } else if text::begins(raw, "-"@) {
        if text::begins(after(raw, "-"@), "-"@) {
            dim_line_of(raw)
        } else {
            marked_line_of("-"@, after(raw, "-"@), Tint::LightRed, removed_bg())
        }
    } else if text::begins(raw, " "@) {
        marked_line_of(" "@, after(raw, " "@), Tint::Gray, None)
    } else if raw.len() == 0 {
        styled::blank_line_of()
    } else {
        dim_line_of(raw)
    }
}

fn render_diff_line(raw: &str) -> (line: StyledLine)
    ensures
        line@ == diff_line_of(raw@),
{
    if let Some(rest) = text::strip_prefix(raw, "diff --git ") {
        return styled::line2(
            styled::span("  ", styled::plain()),
            styled::span(rest.as_str(), styled::bold_tinted(Tint::LightBlue)),
        );
    }
    if text::starts_with(raw, "+++ ") || text::starts_with(raw, "--- ") {
        return styled::line2(
            styled::span("  ", styled::plain()),
            styled::span(raw, styled::tinted(Tint::DarkGray)),
        );
    }
    if let Some(hunk) = text::strip_prefix(raw, "@@") {
        return styled::line3(
            styled::span("  ", styled::plain()),
            styled::span("@@", styled::bold_tinted(Tint::Magenta)),
            styled::span(hunk.as_str(), styled::tinted(Tint::Magenta)),
        );
    }
    if let Some(rest) = text::strip_prefix(raw, "+") {
        if text::starts_with(rest.as_str(), "+") {
            return styled::line1(styled::span(raw, styled::tinted(Tint::DarkGray)));
        }
        return diff_line("+", rest.as_str(), Tint::LightGreen, added_bg());
    }
    if let Some(rest) = text::strip_prefix(raw, "-") {
        if text::starts_with(rest.as_str(), "-") {
            return styled::line1(styled::span(raw, styled::tinted(Tint::DarkGray)));
        }
        return diff_line("-", rest.as_str(), Tint::LightRed, removed_bg());
    }
    if let Some(rest) = text::strip_prefix(raw, " ") {
        return diff_line(" ", rest.as_str(), Tint::Gray, None);
    }
    if text::is_empty(raw) {
        return styled::blank_line();
    }
    styled::line1(styled::span(raw, styled::tinted(Tint::DarkGray)))
}

/// How a diff is laid out: a heading, its lines, and a line with nothing in it.
pub open spec fn diff_of(diff: Seq<char>) -> Seq<StyledLineView> {
    let lines = text::lines_of(diff);
    (seq![diff_header_of(added_count(lines), removed_count(lines))] + Seq::new(
        lines.len(),
        |i: int| diff_line_of(lines[i]),
    )).push(styled::blank_line_of())
}

/// How a diff is laid out.
pub fn render_unified_diff(diff: &str) -> (out: Vec<StyledLine>)
    ensures
        text::views(out@) == diff_of(diff@),
{
    let (added, removed) = count_changes(diff);
    let raw: Vec<String> = text::lines(diff);
    let ghost all = text::lines_of(diff@);
    let mut out: Vec<StyledLine> = Vec::new();
    out.push(diff_header(added, removed));
    let mut i: usize = 0;
    while i < raw.len()
        invariant
            i <= raw@.len(),
            all == text::views(raw@),
            out@.len() == i + 1,
            out@[0]@ == diff_header_of(added as nat, removed as nat),
            forall|j: int| 1 <= j <= i ==> (#[trigger] out@[j])@ == diff_line_of(all[j - 1]),
        decreases raw@.len() - i,
    {
        assert(all[i as int] == raw@[i as int]@);
        out.push(render_diff_line(raw[i].as_str()));
        i = i + 1;
    }
    out.push(styled::blank_line());
    assert(text::views(out@) =~= diff_of(diff@));
    out
}

/// No line counts both as added and as removed, and the lines that name the files count as neither;
/// so a diff has at least as many lines as it changes.
pub proof fn law_changes_are_lines(lines: Seq<Seq<char>>)
    ensures
        forall|i: int| 0 <= i < lines.len() && is_added(#[trigger] lines[i]) ==> !is_removed(lines[i]),
        forall|i: int|
            0 <= i < lines.len() && names_file(#[trigger] lines[i]) ==> !is_added(lines[i])
                && !is_removed(lines[i]),
        added_count(lines) + removed_count(lines) <= lines.len(),
    decreases lines.len(),
{
    if lines.len() > 0 {
        law_changes_are_lines(lines.drop_last());
    }
}

// -- How a patch is told -----------------------------------------------------------------------------------

/// A line counts as added exactly where it begins with a plus that does not open the name of a file, and
/// as removed where the same holds of a minus.
pub proof fn law_signs_tell_changes(line: Seq<char>)
    ensures
        is_added(line) <==> line.len() > 0 && line[0] == '+' && !(line.len() >= 3 && line[1] == '+'
            && line[2] == '+'),
        is_removed(line) <==> line.len() > 0 && line[0] == '-' && !(line.len() >= 3 && line[1] == '-'
            && line[2] == '-'),
{
    lemma_begins(line);
}

/// What a line begins with, sign by sign.
proof fn lemma_begins(line: Seq<char>)
    ensures
        text::begins(line, "+"@) <==> line.len() > 0 && line[0] == '+',
        text::begins(line, "-"@) <==> line.len() > 0 && line[0] == '-',
        text::begins(line, " "@) <==> line.len() > 0 && line[0] == ' ',
        text::begins(line, "@@"@) <==> line.len() >= 2 && line[0] == '@' && line[1] == '@',
        text::begins(line, "+++"@) <==> line.len() >= 3 && line[0] == '+' && line[1] == '+'
            && line[2] == '+',
        text::begins(line, "---"@) <==> line.len() >= 3 && line[0] == '-' && line[1] == '-'
            && line[2] == '-',
        text::begins(line, "+++ "@) ==> line.len() >= 2 && line[0] == '+' && line[1] == '+',
        text::begins(line, "--- "@) ==> line.len() >= 2 && line[0] == '-' && line[1] == '-',
        text::begins(line, "diff --git "@) ==> line.len() > 0 && line[0] == 'd',
        "+"@.len() == 1,
        "-"@.len() == 1,
        " "@.len() == 1,
{
    reveal_strlit("+");
    reveal_strlit("-");
    reveal_strlit(" ");
    reveal_strlit("@@");
    reveal_strlit("+++");
    reveal_strlit("---");
    reveal_strlit("+++ ");
    reveal_strlit("--- ");
    reveal_strlit("diff --git ");
    if line.len() >= 1 {
        assert(line.take(1)[0] == line[0]);
        if line[0] == '+' {
            assert(line.take(1) =~= "+"@);
        }
        if line[0] == '-' {
            assert(line.take(1) =~= "-"@);
        }
        if line[0] == ' ' {
            assert(line.take(1) =~= " "@);
        }
    }
    if line.len() >= 2 {
        assert(line.take(2)[0] == line[0] && line.take(2)[1] == line[1]);
        if line[0] == '@' && line[1] == '@' {
            assert(line.take(2) =~= "@@"@);
        }
    }
    if line.len() >= 3 {
        let three = line.take(3);
        assert(three[0] == line[0] && three[1] == line[1] && three[2] == line[2]);
        if line[0] == '+' && line[1] == '+' && line[2] == '+' {
            assert(three =~= "+++"@);
        }
        if line[0] == '-' && line[1] == '-' && line[2] == '-' {
            assert(three =~= "---"@);
        }
    }
    if line.len() >= 4 {
        assert(line.take(4)[0] == line[0] && line.take(4)[1] == line[1]);
    }
    if line.len() >= 11 {
        assert(line.take(11)[0] == line[0]);
    }
}

/// Each line adds one to the count that it belongs to and nothing to the other, wherever it stands.
pub proof fn law_changes_are_counted_one_by_one(lines: Seq<Seq<char>>, line: Seq<char>)
    ensures
        added_count(Seq::empty()) == 0 && removed_count(Seq::empty()) == 0,
        added_count(lines.push(line)) == added_count(lines) + (if line.len() > 0 && line[0] == '+'
            && !(line.len() >= 3 && line[1] == '+' && line[2] == '+') {
            1int
        } else {
            0
        }),
        removed_count(lines.push(line)) == removed_count(lines) + (if line.len() > 0 && line[0]
            == '-' && !(line.len() >= 3 && line[1] == '-' && line[2] == '-') {
            1int
        } else {
            0
        }),
{
    law_signs_tell_changes(line);
    assert(lines.push(line).drop_last() =~= lines);
}

/// A text is taken for a patch exactly where a line of it begins with two at signs.
pub proof fn law_a_patch_has_a_hunk(s: Seq<char>)
    ensures
        has_hunk(s) <==> exists|i: int|
            0 <= i < text::lines_of(s).len() && (#[trigger] text::lines_of(s)[i]).len() >= 2
                && text::lines_of(s)[i][0] == '@' && text::lines_of(s)[i][1] == '@',
{
    let lines = text::lines_of(s);
    if has_hunk(s) {
        let i = choose|i: int| 0 <= i < lines.len() && text::begins(#[trigger] lines[i], "@@"@);
        lemma_begins(lines[i]);
        assert(lines[i].len() >= 2);
    }
    if exists|i: int|
        0 <= i < lines.len() && (#[trigger] lines[i]).len() >= 2 && lines[i][0] == '@' && lines[i][1]
            == '@' {
        let i = choose|i: int|
            0 <= i < lines.len() && (#[trigger] lines[i]).len() >= 2 && lines[i][0] == '@'
                && lines[i][1] == '@';
        lemma_begins(lines[i]);
        assert(text::begins(lines[i], "@@"@));
    }
}

/// A line with one plus is shown as added and one with one minus as removed, each without its sign; a
/// line that stays is shown as it is.
pub proof fn law_changes_have_their_colours(raw: Seq<char>)
    requires
        raw.len() > 0,
    ensures
        ({
            let shown = diff_line_of(raw);
            let rest = raw.skip(1);
            &&& raw[0] == '+' && !(raw.len() > 1 && raw[1] == '+') ==> shown.spans.len() == 2
                && shown.spans[1].text == rest && shown.spans[1].style.fg == Some(Tint::LightGreen)
                && shown.spans[1].style.bg == Some(Tint::Rgb(33, 58, 43)) && shown.spans[0].text
                == "  + "@
            &&& raw[0] == '-' && !(raw.len() > 1 && raw[1] == '-') ==> shown.spans.len() == 2
                && shown.spans[1].text == rest && shown.spans[1].style.fg == Some(Tint::LightRed)
                && shown.spans[1].style.bg == Some(Tint::Rgb(74, 34, 29)) && shown.spans[0].text
                == "  - "@
            &&& raw[0] == ' ' ==> shown.spans.len() == 2 && shown.spans[1].text == rest
                && shown.spans[1].style.fg == Some(Tint::Gray) && shown.spans[1].style.bg is None
            &&& raw.len() > 1 && raw[0] == '@' && raw[1] == '@' ==> shown.spans.len() == 3
                && shown.spans[2].text == raw.skip(2) && shown.spans[2].style.fg == Some(
                Tint::Magenta,
            )
        }),
{
    lemma_begins(raw);
    lemma_begins(raw.skip(1));
    reveal_strlit("+");
    reveal_strlit("-");
    reveal_strlit("  ");
    reveal_strlit(" ");
    reveal_strlit("  + ");
    reveal_strlit("  - ");
    reveal_strlit("@@");
    assert("  "@ + "+"@ + " "@ =~= "  + "@);
    assert("  "@ + "-"@ + " "@ =~= "  - "@);
}

/// A patch is shown under its counts, line by line, and a blank line comes last.
pub proof fn law_a_patch_is_shown_line_by_line(diff: Seq<char>, i: int)
    ensures
        ({
            let lines = text::lines_of(diff);
            let shown = diff_of(diff);
            &&& shown.len() == lines.len() + 2
            &&& 0 <= i < lines.len() ==> shown[i + 1] == diff_line_of(lines[i])
            &&& shown[0].spans[3].text == "+"@ + text::decimal(added_count(lines))
            &&& shown[0].spans[5].text == "-"@ + text::decimal(removed_count(lines))
            &&& shown[0].spans[3].style.fg == Some(Tint::LightGreen)
            &&& shown[0].spans[5].style.fg == Some(Tint::LightRed)
            &&& shown.last().spans.len() == 0
        }),
{
}

} // verus!
