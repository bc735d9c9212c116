//! How the entries of the transcript are laid out, in colours.
//!
//! An entry that holds prose shows it as Markdown. The lines that the Markdown makes are handed in:
//! `markdown_of` says which text they are to be made of and how wide they may be.
use vstd::prelude::*;

use crate::artifacts::{ArtifactManifest, ArtifactManifestView};
use crate::diff_view;
use crate::exec_render;
use crate::styled;
use crate::styled::{StyledLine, StyledLineView, StyledSpan, Tint};
use crate::text;
use crate::ui::{
    ApprovalKind, ArtifactEventCellView, ExecCommandCellView, ExecOutputCellView, HistoryCellModel,
    HistoryCellModelView, PatchSummaryCellView, PendingApproval, PendingApprovalView,
};

verus! {

broadcast use text::group_views;

/// The width where none is known.
pub const FALLBACK_WIDTH: u16 = 80;

/// The room that the mark in front of an entry takes.
pub const LIVE_PREFIX_COLS: usize = 2;

/// The width of an entry: the one given, or the usual one, and at least eight.
pub open spec fn entry_width(width: Option<u16>) -> int {
    let w: int = match width {
        Some(width) => width as int,
        None => FALLBACK_WIDTH as int,
    };
    if w < 8 {
        8
    } else {
        w
    }
}

/// The room that prose has beside the mark in front of an entry.
pub open spec fn prose_width(width: Option<u16>) -> int {
    if entry_width(width) - LIVE_PREFIX_COLS < 8 {
        8
    } else {
        entry_width(width) - LIVE_PREFIX_COLS
    }
}

/// The prose of an entry that is shown as Markdown.
pub open spec fn prose_of(cell: HistoryCellModelView) -> Option<Seq<char>> {
    match cell {
        HistoryCellModelView::UserMessage(cell) => Some(cell.text),
        HistoryCellModelView::AssistantMessage(cell) => Some(cell.text),
        HistoryCellModelView::PatchSummary(cell) => if diff_view::has_hunk(cell.summary) {
            None
        } else {
            Some(cell.summary)
        },
        HistoryCellModelView::PlanUpdate(cell) => Some(cell.summary),
        HistoryCellModelView::ApprovalRequest(cell) => Some(cell.approval.description),
        HistoryCellModelView::Warning(cell) => Some(cell.message),
        HistoryCellModelView::Error(cell) => Some(cell.message),
        HistoryCellModelView::Status(cell) => Some(cell.message),
        _ => None,
    }
}

/// The prose of an entry that is to be laid out as Markdown, and the room that it has.
pub fn markdown_of(cell: &HistoryCellModel, width: Option<u16>) -> (request: Option<(String, usize)>)
    ensures
        match request {
            Some((prose, room)) => prose_of(cell@) == Some(prose@) && room == prose_width(width),
            None => prose_of(cell@) is None,
        },
{
    let full: usize = match width {
        Some(width) => width as usize,
        None => FALLBACK_WIDTH as usize,
    };
    let full: usize = if full < 8 {
        8
    } else {
        full
    };
    let room: usize = if full - LIVE_PREFIX_COLS < 8 {
        8
    } else {
        full - LIVE_PREFIX_COLS
    };
    let prose: String = match cell {
        HistoryCellModel::UserMessage(cell) => cell.text.clone(),
        HistoryCellModel::AssistantMessage(cell) => cell.text.clone(),
        HistoryCellModel::PatchSummary(cell) => {
            if diff_view::looks_like_unified_diff(cell.summary.as_str()) {
                return None;
            }
            cell.summary.clone()
        },
        HistoryCellModel::PlanUpdate(cell) => cell.summary.clone(),
        HistoryCellModel::ApprovalRequest(cell) => cell.approval.description.clone(),
        HistoryCellModel::Warning(cell) => cell.message.clone(),
        HistoryCellModel::Error(cell) => cell.message.clone(),
        HistoryCellModel::Status(cell) => cell.message.clone(),
        _ => {
            return None;
        },
    };
    Some((prose, room))
}

/// Lines with one more that shows nothing at the end, unless the last one shows nothing already.
pub open spec fn closed_off(lines: Seq<StyledLineView>) -> Seq<StyledLineView> {
    if lines.len() > 0 && styled::shows_nothing(lines.last()) {
        lines
    } else {
        lines.push(styled::blank_line_of())
    }
}

/// Makes sure that the last line shows nothing.
pub fn add_trailing_blank(lines: &mut Vec<StyledLine>)
    ensures
        text::views(final(lines)@) == closed_off(text::views(old(lines)@)),
{
    let total: usize = lines.len();
    if total > 0 {
        assert(text::views(lines@).last() == lines@[total - 1]@);
        if styled::is_blank_line(&lines[total - 1]) {
            return ;
        }
    }
    lines.push(styled::blank_line());
}

/// Prose with a mark in front; the mark alone where there is no prose.
pub open spec fn marked_prose(body: Seq<StyledLineView>, mark: Seq<char>, tint: Tint) -> Seq<
    StyledLineView,
> {
    let head = styled::span_of(mark, styled::bold_tinted(tint));
    closed_off(
        if body.len() == 0 {
            seq![styled::line_of(seq![head])]
        } else {
            styled::all_prefixed(body, head, styled::span_of("  "@, styled::plain()))
        },
    )
}

fn render_prefixed_markdown(body: &Vec<StyledLine>, mark: &str, tint: Tint) -> (out: Vec<StyledLine>)
    ensures
        text::views(out@) == marked_prose(text::views(body@), mark@, tint),
{
    let head: StyledSpan = styled::span(mark, styled::bold_tinted(tint));
    let indent: StyledSpan = styled::span("  ", styled::plain());
    let mut out: Vec<StyledLine> = styled::prefix_lines(body, &head, &indent);
    if out.len() == 0 {
        out.push(styled::line1(head));
        assert(text::views(out@) =~= seq![styled::line_of(seq![head@])]);
    }
    add_trailing_blank(&mut out);
    out
}

/// The word for what an approval is asked for.
pub open spec fn approval_word(kind: ApprovalKind) -> Seq<char> {
    match kind {
        ApprovalKind::CommandExecution => "command"@,
        ApprovalKind::FileChange => "file change"@,
        ApprovalKind::PermissionRequest => "permission"@,
        ApprovalKind::RequestUserInput => "input"@,
    }
}

/// The entry of an approval: what it is asked for, its title where it has one, its description.
pub open spec fn approval_lines(approval: PendingApprovalView, body: Seq<StyledLineView>) -> Seq<
    StyledLineView,
> {
    let heading = styled::line_of(
        seq![
            styled::span_of("? "@, styled::bold_tinted(Tint::LightYellow)),
            styled::span_of(
                "approval requested ("@ + approval_word(approval.kind) + ")"@,
                styled::bold_tinted(Tint::LightYellow),
            ),
        ],
    );
    let title = if approval.title.len() == 0 {
        Seq::empty()
    } else {
        seq![
            styled::line_of(
                seq![
                    styled::span_of("  "@, styled::plain()),
                    styled::span_of(approval.title, styled::bold()),
                ],
            ),
        ]
    };
    let indent = styled::span_of("  "@, styled::plain());
    closed_off(seq![heading] + title + styled::all_prefixed(body, indent, indent))
}

fn render_approval(approval: &PendingApproval, body: &Vec<StyledLine>) -> (out: Vec<StyledLine>)
    ensures
        text::views(out@) == approval_lines(approval@, text::views(body@)),
{
    let word: &str = match approval.kind {
        ApprovalKind::CommandExecution => "command",
        ApprovalKind::FileChange => "file change",
        ApprovalKind::PermissionRequest => "permission",
        ApprovalKind::RequestUserInput => "input",
    };
    let heading: String = text::glue3("approval requested (", word, ")");
    let mut out: Vec<StyledLine> = Vec::new();
    out.push(
        styled::line2(
            styled::span("? ", styled::bold_tinted(Tint::LightYellow)),
            styled::span(heading.as_str(), styled::bold_tinted(Tint::LightYellow)),
        ),
    );
    if !text::is_empty(approval.title.as_str()) {
        out.push(
            styled::line2(
                styled::span("  ", styled::plain()),
                styled::span(approval.title.as_str(), styled::bold()),
            ),
        );
    }
    let indent: StyledSpan = styled::span("  ", styled::plain());
    let mut rest: Vec<StyledLine> = styled::prefix_lines(body, &indent, &indent);
    let ghost top = text::views(out@);
    out.append(&mut rest);
    assert(text::views(out@) =~= top + styled::all_prefixed(
        text::views(body@),
        indent@,
        indent@,
    ));
    add_trailing_blank(&mut out);
    assert(text::views(out@) =~= approval_lines(approval@, text::views(body@)));
    out
}

/// The entry of an artifact: what happened to it and its title, or its identifier where it has
/// none.
pub open spec fn artifact_lines(manifest: ArtifactManifestView, verb: Seq<char>) -> Seq<StyledLineView> {
    seq![
        styled::line_of(
            seq![
                styled::span_of("◆ "@, styled::bold_tinted(Tint::LightMagenta)),
                styled::span_of(verb, styled::tinted(Tint::LightMagenta)),
                styled::span_of("  "@, styled::plain()),
                styled::span_of(
                    if manifest.title.len() == 0 {
                        manifest.id
                    } else {
                        manifest.title
                    },
                    styled::bold(),
                ),
            ],
        ),
        styled::blank_line_of(),
    ]
}

fn render_artifact(manifest: &ArtifactManifest, verb: &str) -> (out: Vec<StyledLine>)
    ensures
        text::views(out@) == artifact_lines(manifest@, verb@),
{
    let title: &str = if text::is_empty(manifest.title.as_str()) {
        manifest.id.text.as_str()
    } else {
        manifest.title.as_str()
    };
    let mut line: StyledLine = styled::line3(
        styled::span("◆ ", styled::bold_tinted(Tint::LightMagenta)),
        styled::span(verb, styled::tinted(Tint::LightMagenta)),
        styled::span("  ", styled::plain()),
    );
    line.spans.push(styled::span(title, styled::bold()));
    assert(line@.spans =~= artifact_lines(manifest@, verb@)[0].spans);
    let mut out: Vec<StyledLine> = Vec::new();
    out.push(line);
    out.push(styled::blank_line());
    assert(text::views(out@) =~= artifact_lines(manifest@, verb@));
    out
}

/// How an entry is laid out, `body` being its prose as Markdown.
pub open spec fn cell_lines(cell: HistoryCellModelView, body: Seq<StyledLineView>) -> Seq<
    StyledLineView,
> {
    match cell {
        HistoryCellModelView::UserMessage(_) => marked_prose(body, "› "@, Tint::Cyan),
        HistoryCellModelView::AssistantMessage(_) => marked_prose(body, "• "@, Tint::Magenta),
        HistoryCellModelView::ExecCommand(cell) => exec_render::running_of(cell.command),
        HistoryCellModelView::ExecOutput(cell) => exec_render::finalized_of(
            cell.command,
            cell.output,
        ),
        HistoryCellModelView::PatchSummary(cell) => if diff_view::has_hunk(cell.summary) {
            closed_off(diff_view::diff_of(cell.summary))
        } else {
            marked_prose(body, "✎ "@, Tint::Yellow)
        },
        HistoryCellModelView::PlanUpdate(_) => marked_prose(body, "◇ "@, Tint::LightBlue),
        HistoryCellModelView::ApprovalRequest(cell) => approval_lines(cell.approval, body),
        HistoryCellModelView::ArtifactCreated(cell) => artifact_lines(
            cell.manifest,
            "artifact created"@,
        ),
        HistoryCellModelView::ArtifactUpdated(cell) => artifact_lines(
            cell.manifest,
            "artifact updated"@,
        ),
        HistoryCellModelView::Warning(_) => marked_prose(body, "⚠ "@, Tint::Yellow),
        HistoryCellModelView::Error(_) => marked_prose(body, "✖ "@, Tint::Red),
        HistoryCellModelView::Status(_) => marked_prose(body, "· "@, Tint::DarkGray),
    }
}

/// How an entry is laid out, `body` being its prose as Markdown.
pub fn render_cell(cell: &HistoryCellModel, body: &Vec<StyledLine>) -> (out: Vec<StyledLine>)
    ensures
        text::views(out@) == cell_lines(cell@, text::views(body@)),
{
    match cell {
        HistoryCellModel::UserMessage(_) => render_prefixed_markdown(body, "› ", Tint::Cyan),
        HistoryCellModel::AssistantMessage(_) => render_prefixed_markdown(
            body,
            "• ",
            Tint::Magenta,
        ),
        HistoryCellModel::ExecCommand(cell) => exec_render::render_running(cell.command.as_str()),
        HistoryCellModel::ExecOutput(cell) => exec_render::render_finalized(
            cell.command.as_str(),
            cell.output.as_str(),
        ),
        HistoryCellModel::PatchSummary(cell) => {
            if diff_view::looks_like_unified_diff(cell.summary.as_str()) {
                let mut out: Vec<StyledLine> = diff_view::render_unified_diff(
                    cell.summary.as_str(),
                );
                add_trailing_blank(&mut out);
                out
            } else {
                render_prefixed_markdown(body, "✎ ", Tint::Yellow)
            }
        },
        HistoryCellModel::PlanUpdate(_) => render_prefixed_markdown(body, "◇ ", Tint::LightBlue),
        HistoryCellModel::ApprovalRequest(cell) => render_approval(&cell.approval, body),
        HistoryCellModel::ArtifactCreated(cell) => render_artifact(
            &cell.manifest,
            "artifact created",
        ),
        HistoryCellModel::ArtifactUpdated(cell) => render_artifact(
            &cell.manifest,
            "artifact updated",
        ),
        HistoryCellModel::Warning(_) => render_prefixed_markdown(body, "⚠ ", Tint::Yellow),
        HistoryCellModel::Error(_) => render_prefixed_markdown(body, "✖ ", Tint::Red),
        HistoryCellModel::Status(_) => render_prefixed_markdown(body, "· ", Tint::DarkGray),
    }
}

/// Whatever is closed off ends with a line that shows nothing.
proof fn lemma_closed_off(lines: Seq<StyledLineView>)
    ensures
        closed_off(lines).len() >= 1,
        styled::shows_nothing(closed_off(lines).last()),
{
    assert(styled::shows_nothing(styled::blank_line_of()));
}

/// The last line of every entry shows nothing, so that entries are set apart.
pub proof fn law_entries_are_set_apart(cell: HistoryCellModelView, body: Seq<StyledLineView>)
    ensures
        cell_lines(cell, body).len() >= 1,
        styled::shows_nothing(cell_lines(cell, body).last()),
{
    assert(styled::shows_nothing(styled::blank_line_of()));
    assert forall|lines: Seq<StyledLineView>| styled::shows_nothing(
        #[trigger] closed_off(lines).last(),
    ) && closed_off(lines).len() >= 1 by {
        lemma_closed_off(lines);
    }
}

// -- How entries are told apart ------------------------------------------------------------------------------

/// What an entry says is said word for word, by whoever says it; commands, their output, patches and
/// artifacts are shown in another way.
pub proof fn law_entries_are_said_word_for_word(cell: HistoryCellModelView)
    ensures
        match cell {
            HistoryCellModelView::UserMessage(c) => prose_of(cell) == Some(c.text),
            HistoryCellModelView::AssistantMessage(c) => prose_of(cell) == Some(c.text),
            HistoryCellModelView::PlanUpdate(c) => prose_of(cell) == Some(c.summary),
            HistoryCellModelView::ApprovalRequest(c) => prose_of(cell) == Some(
                c.approval.description,
            ),
            HistoryCellModelView::Warning(c) => prose_of(cell) == Some(c.message),
            HistoryCellModelView::Error(c) => prose_of(cell) == Some(c.message),
            HistoryCellModelView::Status(c) => prose_of(cell) == Some(c.message),
            HistoryCellModelView::PatchSummary(c) => prose_of(cell) == (if diff_view::has_hunk(
                c.summary,
            ) {
                None
            } else {
                Some(c.summary)
            }),
            _ => prose_of(cell) is None,
        },
{
}

/// The room for words is what the screen has beside the mark, and never too little to say anything.
pub proof fn law_words_have_room(width: u16)
    ensures
        width >= 10 ==> prose_width(Some(width)) == width - 2,
        width < 10 ==> prose_width(Some(width)) == 8,
        prose_width(None) == 78,
{
}

/// The words of an entry stand behind a mark that tells whose they are, and set in below it; none is
/// lost.
pub proof fn law_words_stand_behind_a_mark(
    cell: HistoryCellModelView,
    body: Seq<StyledLineView>,
    i: int,
)
    requires
        0 <= i < body.len(),
        prose_of(cell) is Some,
        !(cell is ApprovalRequest),
    ensures
        ({
            let lines = cell_lines(cell, body);
            let mark = match cell {
                HistoryCellModelView::UserMessage(_) => ("› "@, Tint::Cyan),
                HistoryCellModelView::AssistantMessage(_) => ("• "@, Tint::Magenta),
                HistoryCellModelView::PatchSummary(_) => ("✎ "@, Tint::Yellow),
                HistoryCellModelView::PlanUpdate(_) => ("◇ "@, Tint::LightBlue),
                HistoryCellModelView::Warning(_) => ("⚠ "@, Tint::Yellow),
                HistoryCellModelView::Error(_) => ("✖ "@, Tint::Red),
                _ => ("· "@, Tint::DarkGray),
            };
            &&& body.len() <= lines.len() <= body.len() + 1
            &&& lines[i].spans.len() == body[i].spans.len() + 1
            &&& lines[i].spans.skip(1) == body[i].spans
            &&& i == 0 ==> lines[i].spans[0].text == mark.0 && lines[i].spans[0].style.fg == Some(
                mark.1,
            ) && lines[i].spans[0].style.bold
            &&& i > 0 ==> lines[i].spans[0].text == "  "@
        }),
{
    assert(cell_lines(cell, body)[i].spans.skip(1) =~= body[i].spans);
}

/// An approval is shown with its sort, its title and, below them, its description.
pub proof fn law_an_approval_is_shown_whole(
    approval: PendingApprovalView,
    body: Seq<StyledLineView>,
    i: int,
)
    requires
        0 <= i < body.len(),
    ensures
        ({
            let lines = approval_lines(approval, body);
            let above: int = if approval.title.len() == 0 {
                1
            } else {
                2
            };
            let sort = match approval.kind {
                ApprovalKind::CommandExecution => "command"@,
                ApprovalKind::FileChange => "file change"@,
                ApprovalKind::PermissionRequest => "permission"@,
                ApprovalKind::RequestUserInput => "input"@,
            };
            &&& lines[0].spans[1].text == "approval requested ("@ + sort + ")"@
            &&& approval.title.len() > 0 ==> lines[1].spans[1].text == approval.title
            &&& lines[above + i].spans.skip(1) == body[i].spans
        }),
{
    let above: int = if approval.title.len() == 0 {
        1
    } else {
        2
    };
    assert(approval_lines(approval, body)[above + i].spans.skip(1) =~= body[i].spans);
}

/// An artifact is named by its title, or by its number where it has none, and told as new or changed.
pub proof fn law_an_artifact_is_named(cell: ArtifactEventCellView, body: Seq<StyledLineView>)
    ensures
        ({
            let new = cell_lines(HistoryCellModelView::ArtifactCreated(cell), body);
            let changed = cell_lines(HistoryCellModelView::ArtifactUpdated(cell), body);
            let name = if cell.manifest.title.len() == 0 {
                cell.manifest.id
            } else {
                cell.manifest.title
            };
            &&& new[0].spans[1].text == "artifact created"@ && new[0].spans[3].text == name
            &&& changed[0].spans[1].text == "artifact updated"@ && changed[0].spans[3].text == name
        }),
{
}

/// A command is shown as running until it has written all it will; a patch is shown as one.
pub proof fn law_commands_and_patches_are_shown_as_such(
    command: Seq<char>,
    output: ExecOutputCellView,
    item_id: Seq<char>,
    patch: PatchSummaryCellView,
    body: Seq<StyledLineView>,
)
    ensures
        cell_lines(
            HistoryCellModelView::ExecCommand(ExecCommandCellView { item_id, command }),
            body,
        ) == exec_render::running_of(command),
        cell_lines(HistoryCellModelView::ExecOutput(output), body) == exec_render::finalized_of(
            output.command,
            output.output,
        ),
        diff_view::has_hunk(patch.summary) ==> cell_lines(
            HistoryCellModelView::PatchSummary(patch),
            body,
        ) == diff_view::diff_of(patch.summary),
{
}

/// One blank line closes an entry; where there is one already none is added.
pub proof fn law_one_blank_line_closes(lines: Seq<StyledLineView>)
    ensures
        closed_off(closed_off(lines)) == closed_off(lines),
        closed_off(lines).len() <= lines.len() + 1,
{
}

} // verus!
