//! How commands and their output are laid out:
//!
//! ```text • Ran <first line of the command>
//!   │ <command line>
//!   │ <command line>
//!   └ <output line>
//!     <output line>
//!     … +N lines
//!     <output line>
//!     <output line>
//! ```
use vstd::prelude::*;

use crate::styled;
use crate::styled::{StyledLine, StyledLineView, Tint};
use crate::text;
use crate::width;

verus! {

broadcast use text::group_views;

/// How many lines of output are kept at either end when the output is long.
pub const OUTPUT_KEEP_LINES: usize = 5;

/// How many lines of a command are shown.
pub const COMMAND_KEEP_LINES: usize = 2;

/// The room that a command has in its heading.
pub const PREVIEW_COLUMNS: usize = 72;

// -- The heading ---------------------------------------------------------------------------

/// How many characters fit, with one column to spare, after some columns are taken.
pub open spec fn fitting(s: Seq<char>, used: int, room: int) -> int
    decreases s.len(),
{
    if s.len() == 0 || used + width::char_columns(s[0]) + 1 > room {
        0
    } else {
        1 + fitting(s.drop_first(), used + width::char_columns(s[0]), room)
    }
}

/// The first line of a command, without white space at its end.
pub open spec fn first_line(command: Seq<char>) -> Seq<char> {
    text::trim_end_of(
        if text::lines_of(command).len() > 0 {
            text::lines_of(command)[0]
        } else {
            command
        },
    )
}

/// What the heading shows of a command.
pub open spec fn preview_of(command: Seq<char>, room: int) -> Seq<char> {
    let first = first_line(command);
    if width::columns_of(first) <= room {
        if command.contains('\n') {
            first + " …"@
        } else {
            first
        }
    } else {
        first.take(fitting(first, 0, room)) + "…"@
    }
}

proof fn lemma_fitting(s: Seq<char>, used: int, room: int)
    ensures
        0 <= fitting(s, used, room) <= s.len(),
    decreases s.len(),
{
    if s.len() > 0 {
        lemma_fitting(s.drop_first(), used + width::char_columns(s[0]), room);
    }
}

/// What the heading shows of a command: its first line, cut where it is too wide, with a mark where
/// anything is left out.
pub fn command_preview(command: &str, max_display: usize) -> (out: String)
    ensures
        out@ == preview_of(command@, max_display as int),
{
    let lines: Vec<String> = text::lines(command);
    let first: String = if lines.len() > 0 {
        assert(text::lines_of(command@)[0] == lines@[0]@);
        text::trim_end(lines[0].as_str())
    } else {
        text::trim_end(command)
    };
    if width::columns(first.as_str()) <= max_display {
        if text::contains_char(command, '\n') {
            return text::glue(first.as_str(), " …");
        }
        return first;
    }
    let chars: Vec<char> = text::chars_of(first.as_str());
    let n: usize = chars.len();
    let mut used: usize = 0;
    let mut k: usize = 0;
    assert(first@.skip(0) =~= first@);
    while k < n
        invariant_except_break
            n == chars@.len(),
            chars@ == first@,
            k <= n,
            used <= max_display,
            fitting(first@, 0, max_display as int) == k + fitting(
                first@.skip(k as int),
                used as int,
                max_display as int,
            ),
        ensures
            n == chars@.len(),
            chars@ == first@,
            k <= n,
            k == fitting(first@, 0, max_display as int),
        decreases n - k,
    {
        let w: usize = width::columns_of_char(chars[k]);
        assert(first@.skip(k as int)[0] == chars@[k as int]);
        if w >= max_display || used >= max_display - w {
            break ;
        }
        assert(first@.skip(k as int).drop_first() =~= first@.skip(k + 1));
        used = used + w;
        k = k + 1;
    }
    let head: String = text::text_of(&chars, 0, k);
    proof {
        lemma_fitting(first@, 0, max_display as int);
        assert(head@ =~= first@.take(k as int));
    }
    text::glue(head.as_str(), "…")
}

/// The heading of a command.
pub open spec fn header_of(verb: Seq<char>, tint: Tint, command: Seq<char>) -> StyledLineView {
    styled::line_of(
        seq![
            styled::span_of("• "@, styled::bold_tinted(tint)),
            styled::span_of(verb + " "@, styled::bold()),
            styled::span_of(
                preview_of(command, PREVIEW_COLUMNS as int),
                styled::tinted(Tint::Cyan),
            ),
        ],
    )
}

fn header_line(verb: &str, verb_tint: Tint, command: &str) -> (line: StyledLine)
    ensures
        line@ == header_of(verb@, verb_tint, command@),
{
    let preview: String = command_preview(command, PREVIEW_COLUMNS);
    let word: String = text::glue(verb, " ");
    styled::line3(
        styled::span("• ", styled::bold_tinted(verb_tint)),
        styled::span(word.as_str(), styled::bold()),
        styled::span(preview.as_str(), styled::tinted(Tint::Cyan)),
    )
}

// -- The command --------------------------------------------------------------------------------

/// One line of a command.
pub open spec fn command_line_of(raw: Seq<char>) -> StyledLineView {
    styled::line_of(
        seq![
            styled::span_of("  │ "@, styled::tinted(Tint::DarkGray)),
            styled::span_of(raw, styled::tinted(Tint::Cyan)),
        ],
    )
}

/// The ending of a word that counts things.
pub open spec fn plural(n: int) -> Seq<char> {
    if n == 1 {
        ""@
    } else {
        "s"@
    }
}

/// The line that tells how much of a command is left out.
pub open spec fn omitted_command_of(omitted: nat) -> StyledLineView {
    styled::line_of(
        seq![
            styled::span_of("  │ "@, styled::tinted(Tint::DarkGray)),
            styled::span_of(
                "… +"@ + text::decimal(omitted) + " more command line"@ + plural(omitted as int),
                styled::italic_tinted(Tint::DarkGray),
            ),
        ],
    )
}

/// The lines of a command of more than one line: the first two, and how many are left out.
pub open spec fn command_body_of(command: Seq<char>) -> Seq<StyledLineView> {
    let raw = text::split_of(command, '\n');
    if raw.len() <= 1 {
        Seq::empty()
    } else if raw.len() <= COMMAND_KEEP_LINES {
        Seq::new(raw.len(), |i: int| command_line_of(raw[i]))
    } else {
        Seq::new(COMMAND_KEEP_LINES as nat, |i: int| command_line_of(raw[i])).push(
            omitted_command_of((raw.len() - COMMAND_KEEP_LINES) as nat),
        )
    }
}

/// The lines of a command of more than one line.
pub fn command_body_lines(command: &str) -> (out: Vec<StyledLine>)
    ensures
        text::views(out@) == command_body_of(command@),
{
    let raw: Vec<String> = text::split_on(command, '\n');
    let mut out: Vec<StyledLine> = Vec::new();
    let total: usize = raw.len();
    let ghost pieces = text::split_of(command@, '\n');
    if total <= 1 {
        assert(text::views(out@) =~= command_body_of(command@));
        return out;
    }
    let mut i: usize = 0;
    while i < total && i < COMMAND_KEEP_LINES
        invariant
            i <= total,
            i <= COMMAND_KEEP_LINES,
            total == raw@.len(),
            pieces == text::views(raw@),
            out@.len() == i,
            forall|j: int| 0 <= j < i ==> (#[trigger] out@[j])@ == command_line_of(pieces[j]),
        decreases total - i,
    {
        assert(pieces[i as int] == raw@[i as int]@);
        out.push(
            styled::line2(
                styled::span("  │ ", styled::tinted(Tint::DarkGray)),
                styled::span(raw[i].as_str(), styled::tinted(Tint::Cyan)),
            ),
        );
        i = i + 1;
    }
    if i < total {
        let omitted: usize = total - i;
        let number: String = text::number(omitted as u64);
        let ending: &str = if omitted == 1 {
            ""
        } else {
            "s"
        };
        let note: String = text::glue4("… +", number.as_str(), " more command line", ending);
        out.push(
            styled::line2(
                styled::span("  │ ", styled::tinted(Tint::DarkGray)),
                styled::span(note.as_str(), styled::italic_tinted(Tint::DarkGray)),
            ),
        );
    }
    assert(text::views(out@) =~= command_body_of(command@));
    out
}

// -- The output -----------------------------------------------------------------------------------

/// One line of output.
pub open spec fn output_line_of(content: Seq<char>, first: bool) -> StyledLineView {
    styled::line_of(
        seq![
            styled::span_of(
                if first {
                    "  └ "@
                } else {
                    "    "@
                },
                styled::tinted(Tint::DarkGray),
            ),
            styled::span_of(content, styled::dim()),
        ],
    )
}

/// One line of output; the first one is marked as such.
pub fn prefix_output_line(content: &str, is_first: bool) -> (line: StyledLine)
    ensures
        line@ == output_line_of(content@, is_first),
{
    let prefix: &str = if is_first {
        "  └ "
    } else {
        "    "
    };
    styled::line2(
        styled::span(prefix, styled::tinted(Tint::DarkGray)),
        styled::span(content, styled::dim()),
    )
}

/// The line that tells how much output is left out.
pub open spec fn ellipsis_of(omitted: nat) -> StyledLineView {
    styled::line_of(
        seq![
            styled::span_of("    "@, styled::tinted(Tint::DarkGray)),
            styled::span_of(
                "… +"@ + text::decimal(omitted) + " line"@ + plural(omitted as int),
                styled::italic_tinted(Tint::DarkGray),
            ),
        ],
    )
}

/// The line that tells how much output is left out.
pub fn ellipsis_line(omitted: usize) -> (line: StyledLine)
    ensures
        line@ == ellipsis_of(omitted as nat),
{
    let number: String = text::number(omitted as u64);
    let ending: &str = if omitted == 1 {
        ""
    } else {
        "s"
    };
    let note: String = text::glue4("… +", number.as_str(), " line", ending);
    styled::line2(
        styled::span("    ", styled::tinted(Tint::DarkGray)),
        styled::span(note.as_str(), styled::italic_tinted(Tint::DarkGray)),
    )
}

/// A text without line feeds at its end.
pub open spec fn without_last_feeds(s: Seq<char>) -> Seq<char>
    decreases s.len(),
{
    if s.len() > 0 && s.last() == '\n' {
        without_last_feeds(s.drop_last())
    } else {
        s
    }
}

/// The lines of output: all of them where they are few, else some from either end and how many are
/// left out between them.
pub open spec fn output_body_of(output: Seq<char>, keep: int) -> Seq<StyledLineView> {
    let trimmed = without_last_feeds(output);
    let all = text::split_of(trimmed, '\n');
    if trimmed.len() == 0 {
        Seq::empty()
    } else if all.len() <= keep * 2 {
        Seq::new(all.len(), |i: int| output_line_of(all[i], i == 0))
    } else {
        Seq::new(keep as nat, |i: int| output_line_of(all[i], i == 0)).push(
            ellipsis_of((all.len() - keep * 2) as nat),
        ) + Seq::new(keep as nat, |i: int| output_line_of(all[all.len() - keep + i], false))
    }
}

fn trim_last_feeds(s: &str) -> (out: String)
    ensures
        out@ == without_last_feeds(s@),
{
    let chars: Vec<char> = text::chars_of(s);
    let mut n: usize = chars.len();
    assert(s@.take(s@.len() as int) =~= s@);
    while n > 0 && chars[n - 1] == '\n'
        invariant
            chars@ == s@,
            n <= chars@.len(),
            without_last_feeds(s@) == without_last_feeds(s@.take(n as int)),
        decreases n,
    {
        assert(s@.take(n as int).drop_last() =~= s@.take(n - 1));
        n = n - 1;
    }
    let out: String = text::text_of(&chars, 0, n);
    assert(out@ =~= s@.take(n as int));
    out
}

/// The lines of output, folded where they are many.
pub fn output_body_lines(output: &str, keep: usize) -> (out: Vec<StyledLine>)
    requires
        keep * 2 <= usize::MAX,
    ensures
        text::views(out@) == output_body_of(output@, keep as int),
{
    let trimmed: String = trim_last_feeds(output);
    let mut out: Vec<StyledLine> = Vec::new();
    if text::is_empty(trimmed.as_str()) {
        assert(text::views(out@) =~= output_body_of(output@, keep as int));
        return out;
    }
    let all: Vec<String> = text::split_on(trimmed.as_str(), '\n');
    let ghost pieces = text::split_of(trimmed@, '\n');
    let total: usize = all.len();
    let head: usize = if total <= keep * 2 {
        total
    } else {
        keep
    };
    let mut i: usize = 0;
    while i < head
        invariant
            i <= head,
            head <= total,
            total == all@.len(),
            pieces == text::views(all@),
            out@.len() == i,
            forall|j: int|
                0 <= j < i ==> (#[trigger] out@[j])@ == output_line_of(pieces[j], j == 0),
        decreases head - i,
    {
        assert(pieces[i as int] == all@[i as int]@);
        out.push(prefix_output_line(all[i].as_str(), i == 0));
        i = i + 1;
    }
    if total <= keep * 2 {
        assert(text::views(out@) =~= output_body_of(output@, keep as int));
        return out;
    }
    out.push(ellipsis_line(total - keep * 2));
    let ghost upper = text::views(out@);
    let mut k: usize = 0;
    while k < keep
        invariant
            k <= keep,
            keep * 2 < total,
            total == all@.len(),
            pieces == text::views(all@),
            upper.len() == keep + 1,
            out@.len() == keep + 1 + k,
            forall|j: int| 0 <= j <= keep ==> (#[trigger] out@[j])@ == upper[j],
            forall|j: int|
                keep < j <= keep + k ==> (#[trigger] out@[j])@ == output_line_of(
                    pieces[total - keep + (j - keep - 1)],
                    false,
                ),
        decreases keep - k,
    {
        assert(pieces[total - keep + k] == all@[total - keep + k]@);
        out.push(prefix_output_line(all[total - keep + k].as_str(), false));
        k = k + 1;
    }
    assert(text::views(out@) =~= output_body_of(output@, keep as int));
    out
}

// -- Whole entries -----------------------------------------------------------------------------------

/// The lines of a command that runs.
pub open spec fn running_of(command: Seq<char>) -> Seq<StyledLineView> {
    (seq![header_of("Running"@, Tint::Cyan, command)] + command_body_of(command)).push(
        styled::blank_line_of(),
    )
}

/// The lines of a command that runs, with no output yet.
pub fn render_running(command: &str) -> (out: Vec<StyledLine>)
    ensures
        text::views(out@) == running_of(command@),
{
    let mut out: Vec<StyledLine> = render_streaming_prelude(command);
    out.push(styled::blank_line());
    out
}

/// The lines of a command that is done, with its output.
pub open spec fn finalized_of(command: Seq<char>, output: Seq<char>) -> Seq<StyledLineView> {
    (seq![header_of("Ran"@, Tint::Green, command)] + command_body_of(command) + output_body_of(
        output,
        OUTPUT_KEEP_LINES as int,
    )).push(styled::blank_line_of())
}

/// The lines of a command that is done, with its output folded where it is long.
pub fn render_finalized(command: &str, output: &str) -> (out: Vec<StyledLine>)
    ensures
        text::views(out@) == finalized_of(command@, output@),
{
    let mut out: Vec<StyledLine> = Vec::new();
    out.push(header_line("Ran", Tint::Green, command));
    let mut body: Vec<StyledLine> = command_body_lines(command);
    out.append(&mut body);
    let mut rest: Vec<StyledLine> = output_body_lines(output, OUTPUT_KEEP_LINES);
    out.append(&mut rest);
    out.push(styled::blank_line());
    assert(text::views(out@) =~= finalized_of(command@, output@));
    out
}

/// The lines above the output of a command that runs.
pub fn render_streaming_prelude(command: &str) -> (out: Vec<StyledLine>)
    ensures
        text::views(out@) == seq![header_of("Running"@, Tint::Cyan, command@)] + command_body_of(
            command@,
        ),
{
    let mut out: Vec<StyledLine> = Vec::new();
    out.push(header_line("Running", Tint::Cyan, command));
    let mut body: Vec<StyledLine> = command_body_lines(command);
    out.append(&mut body);
    assert(text::views(out@) =~= seq![header_of("Running"@, Tint::Cyan, command@)]
        + command_body_of(command@));
    out
}

/// The lines below the output of a command that has run: one with nothing in it.
pub fn render_streaming_finalize_footer() -> (out: Vec<StyledLine>)
    ensures
        text::views(out@) == seq![styled::blank_line_of()],
{
    let mut out: Vec<StyledLine> = Vec::new();
    out.push(styled::blank_line());
    assert(text::views(out@) =~= seq![styled::blank_line_of()]);
    out
}

/// Folded output keeps as many lines as it may at either end, says how many it leaves out, and is
/// no longer than that; short output is kept whole.
pub proof fn law_folding_keeps_both_ends(output: Seq<char>, keep: int)
    requires
        keep >= 0,
        without_last_feeds(output).len() > 0,
    ensures
        ({
            let all = text::split_of(without_last_feeds(output), '\n');
            let body = output_body_of(output, keep);
            if all.len() <= keep * 2 {
                &&& body.len() == all.len()
                &&& forall|i: int| 0 <= i < all.len() ==> #[trigger] body[i] == output_line_of(all[i], i == 0)
            } else {
                &&& body.len() == keep * 2 + 1
                &&& body[keep] == ellipsis_of((all.len() - keep * 2) as nat)
                &&& forall|i: int| 0 <= i < keep ==> #[trigger] body[i] == output_line_of(all[i], i == 0)
                &&& forall|i: int|
                    0 <= i < keep ==> body[#[trigger] (keep + 1 + i)] == output_line_of(
                        all[all.len() - keep + i],
                        false,
                    )
            }
        }),
{
}

// -- What is shown of a command ---------------------------------------------------------------------------

/// The columns of the characters of a text, one by one.
pub open spec fn run_columns(s: Seq<char>) -> int
    decreases s.len(),
{
    if s.len() == 0 {
        0
    } else {
        width::char_columns(s[0]) + run_columns(s.drop_first())
    }
}

/// As many characters are kept as leave room for one column more, and not one fewer.
pub proof fn law_as_much_is_kept_as_fits(s: Seq<char>, used: int, room: int)
    ensures
        ({
            let k = fitting(s, used, room);
            &&& 0 <= k <= s.len()
            &&& k > 0 ==> used + run_columns(s.take(k)) + 1 <= room
            &&& k < s.len() ==> used + run_columns(s.take(k + 1)) + 1 > room
        }),
    decreases s.len(),
{
    let k = fitting(s, used, room);
    reveal_with_fuel(run_columns, 2);
    if s.len() > 0 {
        let first = width::char_columns(s[0]) as int;
        let rest = s.drop_first();
        if used + first + 1 > room {
            assert(s.take(1).drop_first() =~= Seq::<char>::empty());
        } else {
            law_as_much_is_kept_as_fits(rest, used + first, room);
            assert(s.take(k).drop_first() =~= rest.take(k - 1));
            if k < s.len() {
                assert(s.take(k + 1).drop_first() =~= rest.take(k));
            }
            if k == 1 {
                assert(rest.take(0) =~= Seq::<char>::empty());
            }
        }
    }
}

/// The preview of a command is its first line where it is all there is and has room; a sign at the end
/// tells that there is more, and before it stands the beginning of the first line.
pub proof fn law_a_preview_is_the_beginning(command: Seq<char>, room: int)
    ensures
        ({
            let first = first_line(command);
            let shown = preview_of(command, room);
            let fits = width::columns_of(first) <= room;
            &&& fits && !command.contains('\n') ==> shown == first
            &&& fits && command.contains('\n') ==> shown == first + seq![' ', '…']
            &&& !fits ==> shown.len() > 0 && shown.last() == '…' && text::begins(
                first,
                shown.drop_last(),
            )
        }),
{
    reveal_strlit(" …");
    reveal_strlit("…");
    assert(" …"@ =~= seq![' ', '…']);
    let first = first_line(command);
    law_as_much_is_kept_as_fits(first, 0, room);
    let k = fitting(first, 0, room);
    assert((first.take(k) + "…"@).drop_last() =~= first.take(k));
}

/// The first line of a command is its text up to the first line feed, without white space at its end.
pub proof fn law_the_first_line_is_the_first(command: Seq<char>)
    ensures
        ({
            let at = text::first_index(command, '\n');
            let first = first_line(command);
            &&& first.len() <= at && first == command.take(first.len() as int)
            &&& first.len() > 0 ==> !text::is_space(first.last())
            &&& forall|i: int| first.len() <= i < at ==> text::is_space(#[trigger] command[i])
        }),
{
    text::lemma_first_index(command, '\n');
    let at = text::first_index(command, '\n');
    let whole = if text::lines_of(command).len() > 0 {
        text::lines_of(command)[0]
    } else {
        command
    };
    text::lemma_trim_end(whole);
    let first = first_line(command);
    assert(whole.len() <= at && whole == command.take(whole.len() as int)) by {
        if command.len() == 0 {
            assert(command.take(0) =~= command);
        } else if at < command.len() {
            let line = command.take(at);
            let kept = text::without_cr(line);
            assert(whole == kept);
            assert(kept =~= command.take(kept.len() as int));
        } else {
            assert(command.take(at) =~= command);
        }
    }
    assert(first =~= command.take(first.len() as int));
    assert forall|i: int| first.len() <= i < at implies text::is_space(#[trigger] command[i]) by {
        if i < whole.len() {
            assert(whole[i] == command[i]);
        } else {
            assert(command.take(at)[i] == command[i]);
            assert(command[i] == '\r');
        }
    }
}

/// A command that runs says so, and one that ran says that; both are named by their preview, and what
/// the command wrote comes below it. A blank line comes last.
pub proof fn law_a_command_is_named_and_followed_by_its_output(
    command: Seq<char>,
    output: Seq<char>,
)
    ensures
        ({
            let runs = running_of(command);
            let ran = finalized_of(command, output);
            let body = command_body_of(command);
            let written = output_body_of(output, 5);
            &&& runs.len() == body.len() + 2 && ran.len() == body.len() + written.len() + 2
            &&& runs[0].spans[1].text == "Running "@ && ran[0].spans[1].text == "Ran "@
            &&& runs[0].spans[2].text == preview_of(command, 72)
            &&& ran[0].spans[2].text == preview_of(command, 72)
            &&& runs[0].spans[0].style.fg == Some(Tint::Cyan) && ran[0].spans[0].style.fg == Some(
                Tint::Green,
            )
            &&& forall|i: int|
                0 <= i < body.len() ==> runs[1 + i] == #[trigger] body[i] && ran[1 + i] == body[i]
            &&& forall|i: int|
                0 <= i < written.len() ==> ran[1 + body.len() + i] == #[trigger] written[i]
            &&& runs.last().spans.len() == 0 && ran.last().spans.len() == 0
        }),
{
    reveal_strlit("Running");
    reveal_strlit("Running ");
    reveal_strlit("Ran");
    reveal_strlit("Ran ");
    reveal_strlit(" ");
    assert("Running"@ + " "@ =~= "Running "@);
    assert("Ran"@ + " "@ =~= "Ran "@);
}

/// A command of several lines is shown by its first two, word for word, and the others are counted.
pub proof fn law_further_lines_are_counted(command: Seq<char>)
    ensures
        ({
            let raw = text::split_of(command, '\n');
            let body = command_body_of(command);
            &&& raw.len() <= 1 ==> body.len() == 0
            &&& raw.len() == 2 ==> body.len() == 2
            &&& raw.len() > 2 ==> body.len() == 3 && text::contains_text(
                body[2].spans[1].text,
                text::decimal((raw.len() - 2) as nat),
            )
            &&& raw.len() >= 2 ==> body[0].spans[1].text == raw[0] && body[1].spans[1].text == raw[1]
        }),
{
    let raw = text::split_of(command, '\n');
    if raw.len() > 2 {
        let n = text::decimal((raw.len() - 2) as nat);
        let tail = " more command line"@ + plural(raw.len() - 2);
        assert(command_body_of(command)[2].spans[1].text =~= "… +"@ + n + tail);
        text::lemma_contains_inside("… +"@, n, tail);
    }
}

/// A line of the output is shown word for word; only the first stands behind a corner. What is left out
/// is counted, and one line alone has no plural.
pub proof fn law_output_is_shown_word_for_word(content: Seq<char>, first: bool, omitted: nat)
    ensures
        output_line_of(content, first).spans[1].text == content,
        output_line_of(content, first).spans[0].text == (if first {
            "  └ "@
        } else {
            "    "@
        }),
        text::contains_text(ellipsis_of(omitted).spans[1].text, text::decimal(omitted)),
        ellipsis_of(omitted).spans[1].text.last() == 's' <==> omitted != 1,
{
    let n = text::decimal(omitted);
    let tail = " line"@ + plural(omitted as int);
    assert(ellipsis_of(omitted).spans[1].text =~= "… +"@ + n + tail);
    text::lemma_contains_inside("… +"@, n, tail);
    reveal_strlit(" line");
    reveal_strlit("s");
    reveal_strlit("");
    assert(" line"@.last() == 'e');
    assert("s"@.last() == 's');
    let told = ellipsis_of(omitted).spans[1].text;
    if omitted == 1 {
        assert(told.last() == " line"@.last());
    } else {
        assert(told.last() == "s"@.last());
    }
}

/// Line feeds at the end of the output are left out, and nothing else of it.
pub proof fn law_only_last_feeds_are_left_out(output: Seq<char>)
    ensures
        ({
            let left = without_last_feeds(output);
            &&& left.len() <= output.len() && left == output.take(left.len() as int)
            &&& left.len() > 0 ==> left.last() != '\n'
            &&& forall|i: int| left.len() <= i < output.len() ==> #[trigger] output[i] == '\n'
        }),
    decreases output.len(),
{
    if output.len() > 0 && output.last() == '\n' {
        let rest = output.drop_last();
        law_only_last_feeds_are_left_out(rest);
        let left = without_last_feeds(output);
        assert(left =~= output.take(left.len() as int));
        assert forall|i: int| left.len() <= i < output.len() implies #[trigger] output[i] == '\n' by {
            if i < rest.len() {
                assert(rest[i] == output[i]);
            }
        }
    } else {
        assert(output.take(output.len() as int) =~= output);
    }
}

} // verus!
