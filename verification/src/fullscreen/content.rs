//! What the full screen says, as lines of text.
use vstd::prelude::*;

use crate::artifacts::{
    ArtifactFilePayload, ArtifactFilePayloadView, ArtifactManifest, ArtifactManifestView,
};
use crate::clock;
use crate::cursor;
use crate::fullscreen::line;
use crate::fullscreen::state::{
    ApprovalChoice, ApprovalOverlayState, ApprovalOverlayStateView, ArtifactViewerState,
    ArtifactViewerStateView, QuestionFocus,
};
use crate::json;
use crate::labels;
use crate::picker;
use crate::protocol::{
    ApprovalQuestion, ApprovalQuestionOption, ApprovalQuestionOptionView, ApprovalQuestionView,
};
use crate::renderer;
use crate::skills::{SkillDescriptor, SkillDescriptorView};
use crate::text;
use crate::ui::{
    AppState, AppStateView, ConnectionState, HistoryCellModelView, PendingApprovalView,
    ThreadListItem, ThreadListItemView,
};
use crate::wrapping;

verus! {

broadcast use text::group_views;

// -- The top ---------------------------------------------------------------------------------------

/// The lines on the session.
pub open spec fn header_of(s: AppStateView, skill: Option<SkillDescriptorView>) -> Seq<Seq<char>> {
    seq![
        "ml-intern-codex | conn: "@ + labels::connection_name_of(s.connection) + " | thread: "@
            + renderer::or_else(s.active_thread_id, "none"@) + " | skill: "@ + (match skill {
            Some(skill) => skill.name,
            None => "none"@,
        }),
        "cwd: "@ + renderer::or_else(s.runtime.cwd, "unknown"@),
        "codex: "@ + renderer::or_else(s.runtime.codex_version, "unknown"@) + " | approval: "@ + (
        match s.runtime.approval_policy {
            Some(policy) => labels::policy_name_of(policy),
            None => "unknown"@,
        }) + " | sandbox: "@ + (match s.runtime.sandbox_mode {
            Some(mode) => labels::sandbox_name_of(mode),
            None => "unknown"@,
        }) + " | overlays: "@ + (if s.approvals.pending is Some {
            "approval pending"@
        } else {
            "none"@
        }),
    ]
}

fn text_or<'a>(o: &'a Option<String>, other: &'a str) -> (found: &'a str)
    ensures
        found@ == renderer::or_else(text::opt_view(*o), other@),
{
    match o {
        Some(found) => found.as_str(),
        None => other,
    }
}

/// The lines on the session.
pub fn header_lines(state: &AppState, selected_skill: &Option<SkillDescriptor>) -> (lines: Vec<String>)
    ensures
        text::views(lines@) == header_of(state@, text::opt_view(*selected_skill)),
{
    let thread: &str = match &state.active_thread_id {
        Some(id) => id.text.as_str(),
        None => "none",
    };
    let skill: &str = match selected_skill {
        Some(skill) => skill.name.as_str(),
        None => "none",
    };
    let policy: &str = match state.runtime.approval_policy {
        Some(policy) => labels::approval_policy_name(policy),
        None => "unknown",
    };
    let mode: &str = match state.runtime.sandbox_mode {
        Some(mode) => labels::sandbox_mode_name(mode),
        None => "unknown",
    };
    let overlays: &str = if state.approvals.pending.is_some() {
        "approval pending"
    } else {
        "none"
    };
    let top: String = text::glue4(
        "ml-intern-codex | conn: ",
        labels::connection_name(state.connection),
        " | thread: ",
        thread,
    );
    let first: String = text::glue3(top.as_str(), " | skill: ", skill);
    let second: String = text::glue("cwd: ", text_or(&state.runtime.cwd, "unknown"));
    let codex: String = text::glue4(
        "codex: ",
        text_or(&state.runtime.codex_version, "unknown"),
        " | approval: ",
        policy,
    );
    let third: String = text::glue5(codex.as_str(), " | sandbox: ", mode, " | overlays: ", overlays);
    let mut lines: Vec<String> = Vec::new();
    lines.push(first);
    lines.push(second);
    lines.push(third);
    assert(text::views(lines@) =~= header_of(state@, text::opt_view(*selected_skill)));
    lines
}

// -- The transcript --------------------------------------------------------------------------------

/// The rows of an entry: all but the first are indented.
pub open spec fn cell_rows(cell: HistoryCellModelView, width: int) -> Seq<Seq<char>> {
    let rows = wrapping::wrapped(renderer::cell_text(cell), width);
    if rows.len() == 0 {
        seq![Seq::<char>::empty()]
    } else {
        Seq::new(
            rows.len(),
            |i: int|
                if i == 0 {
                    rows[0]
                } else {
                    "  "@ + rows[i]
                },
        )
    }
}

/// The rows of entries.
pub open spec fn cells_rows(cells: Seq<HistoryCellModelView>, width: int) -> Seq<Seq<char>>
    decreases cells.len(),
{
    if cells.len() == 0 {
        Seq::empty()
    } else {
        cells_rows(cells.drop_last(), width) + cell_rows(cells.last(), width)
    }
}

/// The rows of the transcript.
pub open spec fn transcript_rows(history: Seq<HistoryCellModelView>, width: int) -> Seq<Seq<char>> {
    if history.len() == 0 {
        seq!["(empty)"@]
    } else {
        cells_rows(history, width)
    }
}

fn push_cell_rows(cell: &crate::ui::HistoryCellModel, width: usize, lines: &mut Vec<String>)
    ensures
        text::views(final(lines)@) == text::views(old(lines)@) + cell_rows(cell@, width as int),
{
    let words: String = renderer::render_history_cell(cell);
    let rows: Vec<String> = wrapping::wrap_text(words.as_str(), width);
    let ghost before = text::views(lines@);
    let ghost all = cell_rows(cell@, width as int);
    if rows.len() == 0 {
        lines.push(String::new());
        assert(text::views(lines@) =~= before + all);
        return ;
    }
    let mut i: usize = 0;
    assert(before + all.take(0) =~= before);
    while i < rows.len()
        invariant
            i <= rows@.len(),
            rows@.len() > 0,
            all == cell_rows(cell@, width as int),
            text::views(rows@) == wrapping::wrapped(renderer::cell_text(cell@), width as int),
            text::views(lines@) == before + all.take(i as int),
        decreases rows@.len() - i,
    {
        assert(text::views(rows@)[i as int] == rows@[i as int]@);
        let row: String = if i == 0 {
            rows[i].clone()
        } else {
            text::glue("  ", rows[i].as_str())
        };
        assert(row@ == all[i as int]);
        lines.push(row);
        assert(all.take(i + 1) =~= all.take(i as int).push(row@));
        assert(text::views(lines@) =~= before + all.take(i + 1));
        i = i + 1;
    }
    assert(all.take(all.len() as int) =~= all);
}

/// The rows of the transcript.
pub fn transcript_lines(state: &AppState, width: usize) -> (lines: Vec<String>)
    ensures
        text::views(lines@) == transcript_rows(state@.transcript.history, width as int),
{
    let mut lines: Vec<String> = Vec::new();
    if state.transcript.history.len() == 0 {
        lines.push("(empty)".to_owned());
        assert(text::views(lines@) =~= seq!["(empty)"@]);
        return lines;
    }
    let ghost all = state@.transcript.history;
    let mut i: usize = 0;
    assert(all.take(0) =~= Seq::<HistoryCellModelView>::empty());
    while i < state.transcript.history.len()
        invariant
            i <= state.transcript.history@.len(),
            all == text::views(state.transcript.history@),
            text::views(lines@) == cells_rows(all.take(i as int), width as int),
        decreases state.transcript.history@.len() - i,
    {
        assert(all.take(i + 1).drop_last() =~= all.take(i as int));
        assert(all.take(i + 1).last() == state.transcript.history@[i as int]@);
        push_cell_rows(&state.transcript.history[i], width, &mut lines);
        i = i + 1;
    }
    assert(all.take(all.len() as int) =~= all);
    lines
}

/// The rows in view: a screenful, so many rows before the end as it is scrolled back, as far as
/// there are rows.
pub open spec fn in_view<T>(rows: Seq<T>, height: int, scroll: int) -> Seq<T> {
    let most = if rows.len() > height {
        rows.len() - height
    } else {
        0
    };
    let back = if scroll < most {
        scroll
    } else {
        most
    };
    let end = rows.len() - back;
    rows.subrange(
        if end > height {
            end - height
        } else {
            0
        },
        end,
    )
}

/// Lines of a list.
pub fn copy_lines(lines: &Vec<String>, from: usize, to: usize) -> (out: Vec<String>)
    requires
        from <= to <= lines@.len(),
    ensures
        text::views(out@) == text::views(lines@).subrange(from as int, to as int),
{
    let mut out: Vec<String> = Vec::new();
    let ghost all = text::views(lines@);
    let mut i: usize = from;
    assert(all.subrange(from as int, from as int) =~= Seq::<Seq<char>>::empty());
    while i < to
        invariant
            from <= i <= to <= lines@.len(),
            all == text::views(lines@),
            text::views(out@) == all.subrange(from as int, i as int),
        decreases to - i,
    {
        out.push(lines[i].clone());
        assert(all.subrange(from as int, i + 1) =~= all.subrange(from as int, i as int).push(
            lines@[i as int]@,
        ));
        i = i + 1;
    }
    out
}

/// The rows of the transcript that are in view.
pub open spec fn transcript_view(
    history: Seq<HistoryCellModelView>,
    width: int,
    height: int,
    scroll: int,
) -> Seq<Seq<char>> {
    if width == 0 || height == 0 {
        Seq::empty()
    } else {
        in_view(transcript_rows(history, width), height, scroll)
    }
}

/// The rows of the transcript that are in view.
pub fn visible_transcript_lines(state: &AppState, width: usize, height: usize, scroll: usize) -> (lines:
    Vec<String>)
    ensures
        text::views(lines@) == transcript_view(
            state@.transcript.history,
            width as int,
            height as int,
            scroll as int,
        ),
{
    if width == 0 || height == 0 {
        return Vec::new();
    }
    let lines: Vec<String> = transcript_lines(state, width);
    let total: usize = lines.len();
    assert(text::views(lines@).len() == total);
    let most: usize = if total > height {
        total - height
    } else {
        0
    };
    let back: usize = cursor::min(scroll, most);
    let end: usize = total - back;
    let start: usize = if end > height {
        end - height
    } else {
        0
    };
    copy_lines(&lines, start, end)
}

/// However far it is scrolled, the transcript fills the screen as long as it has rows enough, and
/// all of a shorter one is in view.
pub proof fn law_scrolling_stays_in_the_transcript<T>(rows: Seq<T>, height: int, scroll: int)
    requires
        height > 0,
        scroll >= 0,
    ensures
        rows.len() <= height ==> in_view(rows, height, scroll) == rows,
        rows.len() > height ==> in_view(rows, height, scroll).len() == height,
        scroll == 0 ==> in_view(rows, height, scroll) == rows.skip(
            if rows.len() > height {
                rows.len() - height
            } else {
                0
            },
        ),
{
    if rows.len() <= height {
        assert(in_view(rows, height, scroll) =~= rows);
    }
    if scroll == 0 {
        assert(in_view(rows, height, scroll) =~= rows.skip(
            if rows.len() > height {
                rows.len() - height
            } else {
                0
            },
        ));
    }
}

// -- The bottom ------------------------------------------------------------------------------------

/// The lines of the composer: what the keys do, the skill in use, and what was typed.
pub open spec fn composer_of(s: AppStateView, skill: Option<SkillDescriptorView>) -> Seq<Seq<char>> {
    seq![
        match s.connection {
            ConnectionState::Streaming => "Esc/Ctrl+C interrupt, /approval retries pending decisions"@,
            ConnectionState::WaitingApproval => "Resolve approval first; Enter edits only"@,
            _ => "Enter submit, $ skill picker, /threads /skills /artifacts /help /quit"@,
        },
        match skill {
            Some(skill) => "selected skill: "@ + picker::skill_description(skill),
            None => "selected skill: none"@,
        },
        line::with_bar(s.composer.buffer, s.composer.cursor),
    ]
}

/// The lines of the composer.
pub fn composer_lines(state: &AppState, selected_skill: &Option<SkillDescriptor>) -> (lines: Vec<String>)
    ensures
        text::views(lines@) == composer_of(state@, text::opt_view(*selected_skill)),
{
    let hint: &str = match state.connection {
        ConnectionState::Streaming => "Esc/Ctrl+C interrupt, /approval retries pending decisions",
        ConnectionState::WaitingApproval => "Resolve approval first; Enter edits only",
        _ => "Enter submit, $ skill picker, /threads /skills /artifacts /help /quit",
    };
    let selected: String = match selected_skill {
        Some(skill) => {
            let label: String = picker::describe_skill(skill);
            text::glue("selected skill: ", label.as_str())
        },
        None => "selected skill: none".to_owned(),
    };
    let typed: String = line::composer_with_cursor(
        state.composer.buffer.as_str(),
        state.composer.cursor,
    );
    let mut lines: Vec<String> = Vec::new();
    lines.push(hint.to_owned());
    lines.push(selected);
    lines.push(typed);
    assert(text::views(lines@) =~= composer_of(state@, text::opt_view(*selected_skill)));
    lines
}

/// The help.
pub open spec fn help_of() -> Seq<Seq<char>> {
    seq![
        "Enter submits the composer when the app is ready."@,
        "$ opens the skill picker when the composer is empty."@,
        "/threads, /skills, /artifacts, /approval, /clear, /quit stay available."@,
        "Up/Down/PageUp/PageDown scroll the transcript when no overlay is open."@,
        "Live turns keep Esc/Ctrl+C reserved for interrupt, even over overlays."@,
        "When idle, Esc/Ctrl+C close the active overlay."@,
        "Tab opens this help overlay."@,
    ]
}

/// The help.
pub fn help_lines() -> (lines: Vec<String>)
    ensures
        text::views(lines@) == help_of(),
{
    let mut lines: Vec<String> = Vec::new();
    lines.push("Enter submits the composer when the app is ready.".to_owned());
    lines.push("$ opens the skill picker when the composer is empty.".to_owned());
    lines.push("/threads, /skills, /artifacts, /approval, /clear, /quit stay available.".to_owned());
    lines.push("Up/Down/PageUp/PageDown scroll the transcript when no overlay is open.".to_owned());
    lines.push("Live turns keep Esc/Ctrl+C reserved for interrupt, even over overlays.".to_owned());
    lines.push("When idle, Esc/Ctrl+C close the active overlay.".to_owned());
    lines.push("Tab opens this help overlay.".to_owned());
    assert(text::views(lines@) =~= help_of());
    lines
}

// -- Lists -----------------------------------------------------------------------------------------

/// The rows of a list of skills.
pub open spec fn skill_rows(skills: Seq<SkillDescriptorView>) -> Seq<Seq<char>> {
    Seq::new(skills.len(), |i: int| picker::skill_description(skills[i]))
}

/// The rows of a list of skills.
pub fn skill_items(skills: &Vec<SkillDescriptor>) -> (items: Vec<String>)
    ensures
        text::views(items@) == skill_rows(text::views(skills@)),
{
    let mut items: Vec<String> = Vec::new();
    let mut i: usize = 0;
    while i < skills.len()
        invariant
            i <= skills@.len(),
            items@.len() == i,
            forall|j: int|
                0 <= j < i ==> (#[trigger] items@[j])@ == picker::skill_description(skills@[j]@),
        decreases skills@.len() - i,
    {
        items.push(picker::describe_skill(&skills[i]));
        i = i + 1;
    }
    assert(text::views(items@) =~= skill_rows(text::views(skills@)));
    items
}

/// What is told of the selected skill.
pub open spec fn skill_detail_of(skills: Seq<SkillDescriptorView>, selected: int) -> Seq<Seq<char>> {
    if 0 <= selected < skills.len() {
        seq![skills[selected].description, "path: "@ + skills[selected].path]
    } else {
        seq!["No matching skills."@]
    }
}

/// What is told of the selected skill.
pub fn skill_detail(skills: &Vec<SkillDescriptor>, selected: usize) -> (lines: Vec<String>)
    ensures
        text::views(lines@) == skill_detail_of(text::views(skills@), selected as int),
{
    let mut lines: Vec<String> = Vec::new();
    if selected < skills.len() {
        let skill: &SkillDescriptor = &skills[selected];
        assert(text::views(skills@)[selected as int] == skill@);
        lines.push(skill.description.clone());
        lines.push(text::glue("path: ", skill.path.as_str()));
    } else {
        lines.push("No matching skills.".to_owned());
    }
    assert(text::views(lines@) =~= skill_detail_of(text::views(skills@), selected as int));
    lines
}

/// The row of a conversation: its title, or its identifier, and its status.
pub open spec fn thread_row(item: ThreadListItemView) -> Seq<char> {
    renderer::or_else(item.thread.title, item.thread.id) + " ("@ + labels::thread_status_name_of(
        item.thread.status,
    ) + ")"@
}

/// The rows of a list of conversations.
pub open spec fn thread_rows(threads: Seq<ThreadListItemView>) -> Seq<Seq<char>> {
    Seq::new(threads.len(), |i: int| thread_row(threads[i]))
}

/// The rows of a list of conversations.
pub fn thread_items(threads: &Vec<ThreadListItem>) -> (items: Vec<String>)
    ensures
        text::views(items@) == thread_rows(text::views(threads@)),
{
    let mut items: Vec<String> = Vec::new();
    let mut i: usize = 0;
    while i < threads.len()
        invariant
            i <= threads@.len(),
            items@.len() == i,
            forall|j: int| 0 <= j < i ==> (#[trigger] items@[j])@ == thread_row(threads@[j]@),
        decreases threads@.len() - i,
    {
        let name: &str = text_or(&threads[i].thread.title, threads[i].thread.id.text.as_str());
        items.push(
            text::glue4(name, " (", labels::thread_status_name(threads[i].thread.status), ")"),
        );
        i = i + 1;
    }
    assert(text::views(items@) =~= thread_rows(text::views(threads@)));
    items
}

/// What is told of the selected conversation. `updated` is when it last changed.
pub open spec fn thread_detail_of(
    threads: Seq<ThreadListItemView>,
    selected: int,
    updated: Seq<char>,
) -> Seq<Seq<char>> {
    if 0 <= selected < threads.len() {
        seq![
            "cwd: "@ + threads[selected].thread.cwd,
            "transcript: "@ + threads[selected].thread.transcript_path,
            "updated: "@ + updated,
        ]
    } else {
        seq!["No matching threads."@]
    }
}

/// When the selected conversation last changed, as it is written.
pub open spec fn updated_of(threads: Seq<ThreadListItemView>, selected: int) -> Seq<char> {
    if 0 <= selected < threads.len() {
        let at = threads[selected].thread.updated_at;
        renderer::or_else(clock::utc_text_of(at.seconds, at.nanos), Seq::empty())
    } else {
        Seq::empty()
    }
}

/// When the selected conversation last changed, as it is written.
pub fn updated_text(threads: &Vec<ThreadListItem>, selected: usize) -> (out: String)
    ensures
        out@ == updated_of(text::views(threads@), selected as int),
{
    if selected < threads.len() {
        let at: clock::Timestamp = threads[selected].thread.updated_at;
        assert(text::views(threads@)[selected as int] == threads@[selected as int]@);
        match clock::utc_text(at.seconds, at.nanos) {
            Some(out) => out,
            None => {
                let out: String = String::new();
                assert(out@ =~= Seq::<char>::empty());
                out
            },
        }
    } else {
        let out: String = String::new();
        assert(out@ =~= Seq::<char>::empty());
        out
    }
}

/// What is told of the selected conversation.
pub fn thread_detail(threads: &Vec<ThreadListItem>, selected: usize, updated: &str) -> (lines: Vec<
    String,
>)
    ensures
        text::views(lines@) == thread_detail_of(
            text::views(threads@),
            selected as int,
            updated@,
        ),
{
    let mut lines: Vec<String> = Vec::new();
    if selected < threads.len() {
        let item: &ThreadListItem = &threads[selected];
        assert(text::views(threads@)[selected as int] == item@);
        lines.push(text::glue("cwd: ", item.thread.cwd.as_str()));
        lines.push(text::glue("transcript: ", item.thread.transcript_path.as_str()));
        lines.push(text::glue("updated: ", updated));
    } else {
        lines.push("No matching threads.".to_owned());
    }
    assert(text::views(lines@) =~= thread_detail_of(
        text::views(threads@),
        selected as int,
        updated@,
    ));
    lines
}

/// The row of an artifact: its title and its primary file.
pub open spec fn artifact_row(artifact: ArtifactManifestView) -> Seq<char> {
    artifact.title + " ("@ + artifact.primary_path + ")"@
}

/// The rows of a list of artifacts.
pub open spec fn artifact_rows(artifacts: Seq<ArtifactManifestView>) -> Seq<Seq<char>> {
    Seq::new(artifacts.len(), |i: int| artifact_row(artifacts[i]))
}

/// The rows of a list of artifacts.
pub fn artifact_items(artifacts: &Vec<ArtifactManifest>) -> (items: Vec<String>)
    ensures
        text::views(items@) == artifact_rows(text::views(artifacts@)),
{
    let mut items: Vec<String> = Vec::new();
    let mut i: usize = 0;
    while i < artifacts.len()
        invariant
            i <= artifacts@.len(),
            items@.len() == i,
            forall|j: int| 0 <= j < i ==> (#[trigger] items@[j])@ == artifact_row(artifacts@[j]@),
        decreases artifacts@.len() - i,
    {
        items.push(
            text::glue4(
                artifacts[i].title.as_str(),
                " (",
                artifacts[i].primary_path.as_str(),
                ")",
            ),
        );
        i = i + 1;
    }
    assert(text::views(items@) =~= artifact_rows(text::views(artifacts@)));
    items
}

/// What is told of the selected artifact.
pub open spec fn artifact_detail_of(artifacts: Seq<ArtifactManifestView>, selected: int) -> Seq<
    Seq<char>,
> {
    if 0 <= selected < artifacts.len() {
        seq![
            artifacts[selected].summary,
            "kind: "@ + labels::artifact_kind_name_of(artifacts[selected].kind),
            "tags: "@ + text::join_of(artifacts[selected].tags, ", "@),
        ]
    } else {
        seq!["No matching artifacts."@]
    }
}

/// What is told of the selected artifact.
pub fn artifact_detail(artifacts: &Vec<ArtifactManifest>, selected: usize) -> (lines: Vec<String>)
    ensures
        text::views(lines@) == artifact_detail_of(text::views(artifacts@), selected as int),
{
    let mut lines: Vec<String> = Vec::new();
    if selected < artifacts.len() {
        let artifact: &ArtifactManifest = &artifacts[selected];
        assert(text::views(artifacts@)[selected as int] == artifact@);
        let tags: String = text::join(&artifact.tags, ", ");
        lines.push(artifact.summary.clone());
        lines.push(text::glue("kind: ", labels::artifact_kind_name(artifact.kind)));
        lines.push(text::glue("tags: ", tags.as_str()));
    } else {
        lines.push("No matching artifacts.".to_owned());
    }
    assert(text::views(lines@) =~= artifact_detail_of(text::views(artifacts@), selected as int));
    lines
}

/// The two lines above a list.
pub open spec fn list_head_of(filter: Seq<char>, count: int, hint: Seq<char>) -> Seq<Seq<char>> {
    seq![
        "Filter: "@ + (if filter.len() == 0 {
            "(all)"@
        } else {
            filter
        }),
        "Matches: "@ + text::decimal(count as nat) + " | "@ + hint,
    ]
}

/// The two lines above a list.
pub fn list_head(filter: &str, count: usize, hint: &str) -> (lines: Vec<String>)
    ensures
        text::views(lines@) == list_head_of(filter@, count as int, hint@),
{
    let shown: &str = if text::is_empty(filter) {
        "(all)"
    } else {
        filter
    };
    let number: String = text::number(count as u64);
    let mut lines: Vec<String> = Vec::new();
    lines.push(text::glue("Filter: ", shown));
    lines.push(text::glue4("Matches: ", number.as_str(), " | ", hint));
    assert(text::views(lines@) =~= list_head_of(filter@, count as int, hint@));
    lines
}

/// The first row of a list that is in view: as far up as the selected row allows.
pub open spec fn list_start(count: int, height: int, selected: int) -> int {
    let visible = if height < count {
        height
    } else {
        count
    };
    let above = if visible > 0 {
        visible - 1
    } else {
        0
    };
    let start = if selected > above {
        selected - above
    } else {
        0
    };
    if start < count - visible {
        start
    } else {
        count - visible
    }
}

/// The rows of a list that are in view, with the selected one marked.
pub open spec fn list_rows_of(items: Seq<Seq<char>>, height: int, selected: int) -> Seq<Seq<char>> {
    let visible = if height < items.len() {
        height
    } else {
        items.len() as int
    };
    let start = list_start(items.len() as int, height, selected);
    Seq::new(
        visible as nat,
        |i: int|
            (if start + i == selected {
                "> "@
            } else {
                "  "@
            }) + items[start + i],
    )
}

/// The rows of a list that are in view, with the selected one marked.
pub fn list_rows(items: &Vec<String>, height: usize, selected: usize) -> (lines: Vec<String>)
    ensures
        text::views(lines@) == list_rows_of(
            text::views(items@),
            height as int,
            selected as int,
        ),
{
    let count: usize = items.len();
    let visible: usize = cursor::min(height, count);
    let above: usize = if visible > 0 {
        visible - 1
    } else {
        0
    };
    let wanted: usize = if selected > above {
        selected - above
    } else {
        0
    };
    let start: usize = cursor::min(wanted, count - visible);
    let ghost all = list_rows_of(text::views(items@), height as int, selected as int);
    let mut lines: Vec<String> = Vec::new();
    let mut i: usize = 0;
    while i < visible
        invariant
            i <= visible,
            start + visible <= items@.len(),
            visible == all.len(),
            start == list_start(items@.len() as int, height as int, selected as int),
            all == list_rows_of(text::views(items@), height as int, selected as int),
            lines@.len() == i,
            forall|j: int| 0 <= j < i ==> (#[trigger] lines@[j])@ == all[j],
        decreases visible - i,
    {
        let marker: &str = if start + i == selected {
            "> "
        } else {
            "  "
        };
        lines.push(text::glue(marker, items[start + i].as_str()));
        i = i + 1;
    }
    assert(text::views(lines@) =~= all);
    lines
}

/// The selected row of a list is in view, where there is one.
pub proof fn law_selected_item_is_in_view(count: int, height: int, selected: int)
    requires
        0 <= selected < count,
        height > 0,
    ensures
        list_start(count, height, selected) <= selected < list_start(count, height, selected)
            + height,
        0 <= list_start(count, height, selected),
{
}

// -- An artifact -----------------------------------------------------------------------------------

/// The paths of the files of an artifact, with the one that is shown marked.
pub open spec fn marked_paths(files: Seq<ArtifactFilePayloadView>, selected: int) -> Seq<Seq<char>> {
    Seq::new(
        files.len(),
        |i: int|
            (if i == selected {
                "*"@
            } else {
                " "@
            }) + files[i].path,
    )
}

/// The lines above the file of an artifact.
pub open spec fn viewer_head_of(state: ArtifactViewerStateView) -> Seq<Seq<char>> {
    seq![
        "File "@ + text::decimal((state.selected_file + 1) as nat) + "/"@ + text::decimal(
            state.payload.files.len() as nat,
        ) + " | Left/Right switch | Esc close"@,
        text::join_of(
            marked_paths(state.payload.files, state.selected_file as int),
            " | "@,
        ),
    ]
}

/// The lines above the file of an artifact.
pub fn viewer_head(state: &ArtifactViewerState) -> (lines: Vec<String>)
    requires
        state@.selected_file < usize::MAX,
    ensures
        text::views(lines@) == viewer_head_of(state@),
{
    let mut paths: Vec<String> = Vec::new();
    let ghost all = marked_paths(state@.payload.files, state@.selected_file as int);
    let mut i: usize = 0;
    while i < state.payload.files.len()
        invariant
            i <= state.payload.files@.len(),
            all == marked_paths(state@.payload.files, state@.selected_file as int),
            paths@.len() == i,
            forall|j: int| 0 <= j < i ==> (#[trigger] paths@[j])@ == all[j],
        decreases state.payload.files@.len() - i,
    {
        let marker: &str = if i == state.selected_file {
            "*"
        } else {
            " "
        };
        assert(state@.payload.files[i as int] == state.payload.files@[i as int]@);
        paths.push(text::glue(marker, state.payload.files[i].path.as_str()));
        i = i + 1;
    }
    assert(text::views(paths@) =~= all);
    let at: String = text::number((state.selected_file + 1) as u64);
    let count: String = text::number(state.payload.files.len() as u64);
    let mut lines: Vec<String> = Vec::new();
    lines.push(
        text::glue5("File ", at.as_str(), "/", count.as_str(), " | Left/Right switch | Esc close"),
    );
    lines.push(text::join(&paths, " | "));
    assert(text::views(lines@) =~= viewer_head_of(state@));
    lines
}

/// The lines of a file of an artifact: why it could not be read, or its text, laid out where it is
/// JSON. `pretty` is the text laid out, where that was possible.
pub open spec fn file_lines_of(file: ArtifactFilePayloadView, pretty: Option<Seq<char>>) -> Seq<
    Seq<char>,
> {
    match (file.read_error, file.text, pretty) {
        (Some(error), _, _) => wrapping::wrapped(error, 120),
        (None, Some(_), Some(pretty)) => text::lines_of(pretty),
        (None, Some(words), None) => text::lines_of(words),
        (None, None, _) => seq!["<binary payload omitted>"@],
    }
}

/// The text of a file of an artifact laid out, where it is JSON.
pub open spec fn pretty_of(file: ArtifactFilePayloadView) -> Option<Seq<char>> {
    if file.text is Some && text::contains_text(file.media_type, "json"@) {
        json::pretty_json_of(file.text->0)
    } else {
        None
    }
}

/// The lines of a file of an artifact, given its text laid out, where that was possible.
pub fn file_lines(file: &ArtifactFilePayload, pretty: &Option<String>) -> (lines: Vec<String>)
    ensures
        text::views(lines@) == file_lines_of(file@, text::opt_view(*pretty)),
{
    if let Some(error) = &file.read_error {
        return wrapping::wrap_text(error.as_str(), 120);
    }
    if let Some(words) = &file.text {
        if let Some(pretty) = pretty {
            return text::lines(pretty.as_str());
        }
        return text::lines(words.as_str());
    }
    let mut lines: Vec<String> = Vec::new();
    lines.push("<binary payload omitted>".to_owned());
    assert(text::views(lines@) =~= seq!["<binary payload omitted>"@]);
    lines
}

/// The lines of a file of an artifact.
pub fn render_artifact_file_content(file: &ArtifactFilePayload) -> (lines: Vec<String>)
    ensures
        text::views(lines@) == file_lines_of(file@, pretty_of(file@)),
{
    let pretty: Option<String> = match &file.text {
        Some(words) => {
            if text::contains(file.media_type.as_str(), "json") {
                json::pretty_json(words.as_str())
            } else {
                None
            }
        },
        None => None,
    };
    file_lines(file, &pretty)
}

/// The rows of a file of an artifact.
pub fn render_artifact_file_content_wrapped(file: &ArtifactFilePayload, width: usize) -> (lines: Vec<
    String,
>)
    ensures
        text::views(lines@) == wrapping::all_wrapped(
            file_lines_of(file@, pretty_of(file@)),
            width as int,
        ),
{
    wrapping::wrap_lines(&render_artifact_file_content(file), width)
}

// -- Approvals -------------------------------------------------------------------------------------

/// The option of a question on its row.
pub open spec fn option_row(
    option: ApprovalQuestionOptionView,
    i: int,
    marked: bool,
) -> Seq<char> {
    (if marked {
        "> "@
    } else {
        "  "@
    }) + text::decimal((i + 1) as nat) + ". "@ + option.label + " - "@ + option.description
}

/// The options of a question on their rows.
pub open spec fn option_rows(
    question: ApprovalQuestionView,
    focus: QuestionFocus,
    selected: int,
) -> Seq<Seq<char>> {
    match question.options {
        Some(options) => Seq::new(
            options.len(),
            |i: int| option_row(options[i], i, focus == QuestionFocus::Options && i == selected),
        ),
        None => Seq::empty(),
    }
}

/// The line with what was typed into a question, which is masked where it is a secret.
pub open spec fn input_row(question: ApprovalQuestionView, focus: QuestionFocus, input: Seq<char>) -> Seq<
    char,
> {
    let end = cursor::byte_len(input) as usize;
    "Input"@ + (if focus == QuestionFocus::TextInput {
        "*"@
    } else {
        ""@
    }) + ": "@ + (if question.is_secret {
        line::masked(input, end)
    } else {
        line::with_bar(input, end)
    })
}

/// The lines of a question.
pub open spec fn question_rows(
    title: Seq<char>,
    question: ApprovalQuestionView,
    current: int,
    count: int,
    selected: int,
    focus: QuestionFocus,
    input: Seq<char>,
    saved: int,
    width: int,
) -> Seq<Seq<char>> {
    seq![
        title + " ("@ + text::decimal((current + 1) as nat) + "/"@ + text::decimal(count as nat)
            + ")"@,
        question.header,
    ] + wrapping::wrapped(question.question, width) + seq![Seq::<char>::empty()] + option_rows(
        question,
        focus,
        selected,
    ) + (if question.is_other || question.options is None {
        seq![input_row(question, focus, input)]
    } else {
        Seq::empty()
    }) + (if question.is_secret {
        seq!["Secret input is masked locally."@]
    } else {
        Seq::empty()
    }) + seq![
        "answers saved: "@ + text::decimal(saved as nat)
            + " | Enter confirm, Tab switch focus, Esc cancel"@,
    ]
}

/// The lines of an approval.
pub open spec fn approval_rows(state: ApprovalOverlayStateView, width: int) -> Seq<Seq<char>> {
    match state {
        ApprovalOverlayStateView::Decision { approval, choice } => seq![approval.title]
            + wrapping::wrapped(approval.description, width) + seq![
            Seq::<char>::empty(),
            (if choice == ApprovalChoice::Approve {
                "[ Approve ]"@
            } else {
                "  Approve  "@
            }) + "   "@ + (if choice == ApprovalChoice::Reject {
                "[ Reject ]"@
            } else {
                "  Reject  "@
            }),
            "Left/Right/Tab switch, Enter submit, Esc reject"@,
        ],
        ApprovalOverlayStateView::Questionnaire {
            approval,
            questions,
            current,
            option_selected,
            focus,
            input,
            answers,
        } => if current >= questions.len() {
            seq!["Submitting answers..."@]
        } else {
            question_rows(
                approval.title,
                questions[current as int],
                current as int,
                questions.len() as int,
                option_selected as int,
                focus,
                input,
                answers.dom().len() as int,
                width,
            )
        },
    }
}

fn decision_lines(
    approval: &crate::ui::PendingApproval,
    choice: ApprovalChoice,
    width: usize,
) -> (lines: Vec<String>)
    ensures
        text::views(lines@) == approval_rows(
            (ApprovalOverlayStateView::Decision { approval: approval@, choice }),
            width as int,
        ),
{
    let approve: &str = if choice == ApprovalChoice::Approve {
        "[ Approve ]"
    } else {
        "  Approve  "
    };
    let reject: &str = if choice == ApprovalChoice::Reject {
        "[ Reject ]"
    } else {
        "  Reject  "
    };
    let mut lines: Vec<String> = Vec::new();
    lines.push(approval.title.clone());
    assert(text::views(lines@) =~= seq![approval@.title]);
    let mut rows: Vec<String> = wrapping::wrap_text(approval.description.as_str(), width);
    lines.append(&mut rows);
    let ghost before = text::views(lines@);
    lines.push(String::new());
    lines.push(text::glue3(approve, "   ", reject));
    lines.push("Left/Right/Tab switch, Enter submit, Esc reject".to_owned());
    assert(text::views(lines@) =~= approval_rows(
        ApprovalOverlayStateView::Decision { approval: approval@, choice },
        width as int,
    ));
    lines
}

fn push_options(
    question: &ApprovalQuestion,
    focus: QuestionFocus,
    selected: usize,
    lines: &mut Vec<String>,
)
    ensures
        text::views(final(lines)@) == text::views(old(lines)@) + option_rows(
            question@,
            focus,
            selected as int,
        ),
{
    let ghost all = option_rows(question@, focus, selected as int);
    let ghost before = text::views(lines@);
    if let Some(options) = &question.options {
        let mut i: usize = 0;
        assert(before + all.take(0) =~= before);
        while i < options.len()
            invariant
                i <= options@.len(),
                question@.options == Some(text::views(options@)),
                all == option_rows(question@, focus, selected as int),
                text::views(lines@) == before + all.take(i as int),
            decreases options@.len() - i,
        {
            let option: &ApprovalQuestionOption = &options[i];
            assert(text::views(options@)[i as int] == option@);
            let marker: &str = if focus == QuestionFocus::Options && i == selected {
                "> "
            } else {
                "  "
            };
            let number: String = text::number((i + 1) as u64);
            let head: String = text::glue4(marker, number.as_str(), ". ", option.label.as_str());
            let row: String = text::glue3(head.as_str(), " - ", option.description.as_str());
            assert(row@ == all[i as int]);
            lines.push(row);
            assert(all.take(i + 1) =~= all.take(i as int).push(row@));
            assert(text::views(lines@) =~= before + all.take(i + 1));
            i = i + 1;
        }
        assert(all.take(all.len() as int) =~= all);
    } else {
        assert(before + all =~= before);
    }
}

fn input_line(question: &ApprovalQuestion, focus: QuestionFocus, input: &str) -> (out: String)
    ensures
        out@ == input_row(question@, focus, input@),
{
    let end: usize = cursor::len_of(input);
    let shown: String = if question.is_secret {
        line::masked_text_with_cursor(input, end)
    } else {
        line::composer_with_cursor(input, end)
    };
    let star: &str = if focus == QuestionFocus::TextInput {
        "*"
    } else {
        ""
    };
    text::glue4("Input", star, ": ", shown.as_str())
}

fn question_lines(
    title: &str,
    question: &ApprovalQuestion,
    current: usize,
    count: usize,
    selected: usize,
    focus: QuestionFocus,
    input: &str,
    saved: usize,
    width: usize,
) -> (lines: Vec<String>)
    requires
        current < usize::MAX,
    ensures
        text::views(lines@) == question_rows(
            title@,
            question@,
            current as int,
            count as int,
            selected as int,
            focus,
            input@,
            saved as int,
            width as int,
        ),
{
    let at: String = text::number((current + 1) as u64);
    let of: String = text::number(count as u64);
    let head: String = text::glue4(title, " (", at.as_str(), "/");
    let mut lines: Vec<String> = Vec::new();
    lines.push(text::glue3(head.as_str(), of.as_str(), ")"));
    lines.push(question.header.clone());
    assert(text::views(lines@) =~= seq![
        title@ + " ("@ + text::decimal((current + 1) as nat) + "/"@ + text::decimal(count as nat)
            + ")"@,
        question@.header,
    ]);
    let mut rows: Vec<String> = wrapping::wrap_text(question.question.as_str(), width);
    lines.append(&mut rows);
    let ghost asked = text::views(lines@);
    lines.push(String::new());
    assert(text::views(lines@) =~= asked + seq![Seq::<char>::empty()]);
    push_options(question, focus, selected, &mut lines);
    let ghost listed = text::views(lines@);
    if question.is_other || question.options.is_none() {
        lines.push(input_line(question, focus, input));
        assert(text::views(lines@) =~= listed + seq![input_row(question@, focus, input@)]);
    } else {
        assert(listed =~= listed + Seq::<Seq<char>>::empty());
    }
    let ghost typed = text::views(lines@);
    if question.is_secret {
        lines.push("Secret input is masked locally.".to_owned());
        assert(text::views(lines@) =~= typed + seq!["Secret input is masked locally."@]);
    } else {
        assert(typed =~= typed + Seq::<Seq<char>>::empty());
    }
    let ghost masked = text::views(lines@);
    let number: String = text::number(saved as u64);
    let last: String = text::glue3(
        "answers saved: ",
        number.as_str(),
        " | Enter confirm, Tab switch focus, Esc cancel",
    );
    lines.push(last);
    assert(text::views(lines@) =~= masked + seq![last@]);
    lines
}

/// The lines of an approval.
pub fn approval_overlay_lines(state: &ApprovalOverlayState, width: usize) -> (lines: Vec<String>)
    ensures
        text::views(lines@) == approval_rows(state@, width as int),
{
    match state {
        ApprovalOverlayState::Decision { approval, choice } => decision_lines(
            approval,
            *choice,
            width,
        ),
        ApprovalOverlayState::Questionnaire {
            approval,
            questions,
            current,
            option_selected,
            focus,
            input,
            answers,
        } => {
            if *current >= questions.len() {
                let mut lines: Vec<String> = Vec::new();
                lines.push("Submitting answers...".to_owned());
                assert(text::views(lines@) =~= seq!["Submitting answers..."@]);
                return lines;
            }
            assert(text::views(questions@)[*current as int] == questions@[*current as int]@);
            question_lines(
                approval.title.as_str(),
                &questions[*current],
                *current,
                questions.len(),
                *option_selected,
                *focus,
                input.as_str(),
                answers.len(),
                width,
            )
        },
    }
}

/// What was typed into a question that asks for a secret does not tell on its line: two inputs of
/// the same length look the same.
pub proof fn law_secret_input_is_masked(
    question: ApprovalQuestionView,
    focus: QuestionFocus,
    a: Seq<char>,
    b: Seq<char>,
)
    requires
        question.is_secret,
        a.len() == b.len(),
        cursor::byte_len(a) <= usize::MAX,
        cursor::byte_len(b) <= usize::MAX,
    ensures
        input_row(question, focus, a) == input_row(question, focus, b),
{
    lemma_end_of(a);
    lemma_end_of(b);
    line::law_mask_hides_the_text(
        a,
        b,
        cursor::byte_len(a) as usize,
        cursor::byte_len(b) as usize,
    );
}

proof fn lemma_end_of(s: Seq<char>)
    requires
        cursor::byte_len(s) <= usize::MAX,
    ensures
        cursor::chars_before(s, line::settled(s, cursor::byte_len(s) as usize)) == s.len(),
{
    cursor::lemma_ends(s);
    cursor::lemma_split_at(s, s.len() as int);
    cursor::lemma_chars_before_byte_at(s, s.len() as int);
    assert(s.take(s.len() as int) =~= s);
}

// -- What the screen tells ---------------------------------------------------------------------------------

/// The header tells how the client is connected, the conversation, the skill, the directory, the version
/// and the mode, and whether an approval is pending.
pub proof fn law_the_header_tells_the_state(s: AppStateView, skill: Option<SkillDescriptorView>)
    ensures
        ({
            let lines = header_of(s, skill);
            &&& lines.len() == 3
            &&& text::contains_text(lines[0], labels::connection_name_of(s.connection))
            &&& s.active_thread_id matches Some(id) ==> text::contains_text(lines[0], id)
            &&& skill matches Some(skill) ==> text::contains_text(lines[0], skill.name)
            &&& s.runtime.cwd matches Some(cwd) ==> text::contains_text(lines[1], cwd)
            &&& s.runtime.codex_version matches Some(version) ==> text::contains_text(
                lines[2],
                version,
            )
            &&& s.runtime.approval_policy matches Some(policy) ==> text::contains_text(
                lines[2],
                labels::policy_name_of(policy),
            )
            &&& s.runtime.sandbox_mode matches Some(mode) ==> text::contains_text(
                lines[2],
                labels::sandbox_name_of(mode),
            )
            &&& s.approvals.pending is Some ==> text::contains_text(lines[2], "approval pending"@)
        }),
{
    lemma_header_first(s, skill);
    lemma_header_last(s, skill);
    let none = Seq::<char>::empty();
    let cwd = renderer::or_else(s.runtime.cwd, "unknown"@);
    assert("cwd: "@ + cwd =~= "cwd: "@ + cwd + none);
    text::lemma_contains_inside("cwd: "@, cwd, none);
}

/// What a text ends in it holds, also with more behind it.
proof fn lemma_last_stays(s: Seq<char>, p: Seq<char>, more: Seq<char>)
    ensures
        text::contains_text(s + p, p),
        text::contains_text(s + p + more, p),
{
    let none = Seq::<char>::empty();
    text::lemma_contains_inside(s, p, none);
    assert(s + p + none =~= s + p);
    text::lemma_contains_inside(s, p, more);
}

/// What a text holds it still holds with more behind it.
proof fn lemma_stays(s: Seq<char>, p: Seq<char>, more: Seq<char>)
    requires
        text::contains_text(s, p),
    ensures
        text::contains_text(s + more, p),
{
    let none = Seq::<char>::empty();
    text::lemma_contains_inside(none, s, more);
    assert(none + s + more =~= s + more);
    text::lemma_contains_trans(s + more, s, p);
}

proof fn lemma_header_first(s: AppStateView, skill: Option<SkillDescriptorView>)
    ensures
        text::contains_text(header_of(s, skill)[0], labels::connection_name_of(s.connection)),
        text::contains_text(
            header_of(s, skill)[0],
            renderer::or_else(s.active_thread_id, "none"@),
        ),
        skill matches Some(skill) ==> text::contains_text(header_of(s, Some(skill))[0], skill.name),
{
    let a = "ml-intern-codex | conn: "@;
    let b = labels::connection_name_of(s.connection);
    let c = " | thread: "@;
    let d = renderer::or_else(s.active_thread_id, "none"@);
    let e = " | skill: "@;
    let f = match skill {
        Some(skill) => skill.name,
        None => "none"@,
    };
    let upto_b = a + b;
    let upto_d = upto_b + c + d;
    lemma_last_stays(a, b, c + d);
    assert(upto_b + (c + d) =~= upto_d);
    lemma_last_stays(upto_b + c, d, e + f);
    lemma_stays(upto_d, b, e + f);
    assert(upto_d + (e + f) =~= upto_d + e + f);
    lemma_last_stays(upto_d + e, f, Seq::empty());
}

proof fn lemma_header_last(s: AppStateView, skill: Option<SkillDescriptorView>)
    ensures
        ({
            let line = header_of(s, skill)[2];
            &&& text::contains_text(line, renderer::or_else(s.runtime.codex_version, "unknown"@))
            &&& s.runtime.approval_policy matches Some(policy) ==> text::contains_text(
                line,
                labels::policy_name_of(policy),
            )
            &&& s.runtime.sandbox_mode matches Some(mode) ==> text::contains_text(
                line,
                labels::sandbox_name_of(mode),
            )
            &&& s.approvals.pending is Some ==> text::contains_text(line, "approval pending"@)
        }),
{
    let a = "codex: "@;
    let b = renderer::or_else(s.runtime.codex_version, "unknown"@);
    let c = " | approval: "@;
    let d = match s.runtime.approval_policy {
        Some(policy) => labels::policy_name_of(policy),
        None => "unknown"@,
    };
    let e = " | sandbox: "@;
    let f = match s.runtime.sandbox_mode {
        Some(mode) => labels::sandbox_name_of(mode),
        None => "unknown"@,
    };
    let g = " | overlays: "@;
    let h = if s.approvals.pending is Some {
        "approval pending"@
    } else {
        "none"@
    };
    let upto_b = a + b;
    let upto_d = upto_b + c + d;
    let upto_f = upto_d + e + f;
    lemma_last_stays(a, b, c + d);
    assert(upto_b + (c + d) =~= upto_d);
    lemma_last_stays(upto_b + c, d, e + f);
    assert(upto_d + (e + f) =~= upto_f);
    lemma_last_stays(upto_d + e, f, g + h);
    assert(upto_f + (g + h) =~= upto_f + g + h);
    lemma_last_stays(upto_f + g, h, Seq::empty());
    lemma_stays(upto_d, b, e + f);
    lemma_stays(upto_f, b, g + h);
    lemma_stays(upto_f, d, g + h);
}

/// The transcript shows every entry in its order, wrapped, with its further rows set in; without entries
/// it says that it is empty.
pub proof fn law_the_transcript_shows_every_entry(
    cells: Seq<HistoryCellModelView>,
    cell: HistoryCellModelView,
    width: int,
    i: int,
)
    ensures
        transcript_rows(Seq::empty(), width) == seq!["(empty)"@],
        transcript_rows(cells.push(cell), width) == cells_rows(cells, width) + cell_rows(
            cell,
            width,
        ),
        cells.len() > 0 ==> transcript_rows(cells, width) == cells_rows(cells, width),
        ({
            let rows = wrapping::wrapped(renderer::cell_text(cell), width);
            let shown = cell_rows(cell, width);
            &&& rows.len() > 0 ==> shown.len() == rows.len() && shown[0] == rows[0]
            &&& 0 < i < rows.len() ==> shown[i] == "  "@ + rows[i]
        }),
{
    assert(cells.push(cell).drop_last() =~= cells);
}

/// Scrolling back by so many rows hides just those, as long as there are rows above.
pub proof fn law_scrolling_hides_so_many_rows<T>(rows: Seq<T>, height: int, scroll: int)
    requires
        0 < height <= rows.len(),
        0 <= scroll <= rows.len() - height,
    ensures
        in_view(rows, height, scroll) == rows.subrange(
            rows.len() - height - scroll,
            rows.len() - scroll,
        ),
{
}

/// The line tells what enter does, names the skill and shows what is typed with the cursor in it.
pub proof fn law_the_line_tells_what_enter_does(s: AppStateView, skill: Option<SkillDescriptorView>)
    ensures
        ({
            let lines = composer_of(s, skill);
            &&& lines.len() == 3
            &&& s.connection == ConnectionState::Streaming ==> lines[0]
                == "Esc/Ctrl+C interrupt, /approval retries pending decisions"@
            &&& s.connection == ConnectionState::WaitingApproval ==> lines[0]
                == "Resolve approval first; Enter edits only"@
            &&& s.connection != ConnectionState::Streaming && s.connection
                != ConnectionState::WaitingApproval ==> lines[0]
                == "Enter submit, $ skill picker, /threads /skills /artifacts /help /quit"@
            &&& skill matches Some(skill) ==> lines[1] == "selected skill: "@
                + picker::skill_description(skill)
            &&& skill is None ==> lines[1] == "selected skill: none"@
            &&& lines[2] == line::with_bar(s.composer.buffer, s.composer.cursor)
        }),
{
}

/// Below a list stands what is known of the thing that is marked, and where nothing is left that is said.
pub proof fn law_details_are_of_the_marked_one(
    skills: Seq<SkillDescriptorView>,
    threads: Seq<ThreadListItemView>,
    artifacts: Seq<ArtifactManifestView>,
    selected: int,
    updated: Seq<char>,
)
    requires
        0 <= selected,
    ensures
        selected < skills.len() ==> skill_detail_of(skills, selected)[0]
            == skills[selected].description && skill_detail_of(skills, selected)[1] == "path: "@
            + skills[selected].path,
        selected < threads.len() ==> thread_detail_of(threads, selected, updated)[0] == "cwd: "@
            + threads[selected].thread.cwd && thread_detail_of(threads, selected, updated)[1]
            == "transcript: "@ + threads[selected].thread.transcript_path && thread_detail_of(
            threads,
            selected,
            updated,
        )[2] == "updated: "@ + updated,
        selected < artifacts.len() ==> artifact_detail_of(artifacts, selected)[0]
            == artifacts[selected].summary && artifact_detail_of(artifacts, selected)[1] == "kind: "@
            + labels::artifact_kind_name_of(artifacts[selected].kind) && artifact_detail_of(
            artifacts,
            selected,
        )[2] == "tags: "@ + text::join_of(artifacts[selected].tags, ", "@),
        selected >= skills.len() ==> skill_detail_of(skills, selected) == seq!["No matching skills."@],
        selected >= threads.len() ==> thread_detail_of(threads, selected, updated) == seq![
            "No matching threads."@,
        ],
        selected >= artifacts.len() ==> artifact_detail_of(artifacts, selected) == seq![
            "No matching artifacts."@,
        ],
{
}

/// Rows of a list name what they stand for.
pub proof fn law_rows_name_what_they_stand_for(
    skills: Seq<SkillDescriptorView>,
    threads: Seq<ThreadListItemView>,
    artifacts: Seq<ArtifactManifestView>,
    i: int,
)
    ensures
        0 <= i < skills.len() ==> skill_rows(skills).len() == skills.len() && skill_rows(skills)[i]
            == picker::skill_description(skills[i]),
        0 <= i < threads.len() ==> {
            let row = thread_rows(threads)[i];
            let thread = threads[i].thread;
            &&& thread_rows(threads).len() == threads.len()
            &&& thread.title matches Some(title) ==> text::begins(row, title)
            &&& thread.title is None ==> text::begins(row, thread.id)
            &&& text::contains_text(row, labels::thread_status_name_of(thread.status))
        },
        0 <= i < artifacts.len() ==> {
            let row = artifact_rows(artifacts)[i];
            &&& artifact_rows(artifacts).len() == artifacts.len()
            &&& text::begins(row, artifacts[i].title)
            &&& text::contains_text(row, artifacts[i].primary_path)
        },
{
    if 0 <= i < threads.len() {
        let thread = threads[i].thread;
        let name = renderer::or_else(thread.title, thread.id);
        let status = labels::thread_status_name_of(thread.status);
        let row = thread_rows(threads)[i];
        assert(row.take(name.len() as int) =~= name);
        text::lemma_contains_inside(name + " ("@, status, ")"@);
    }
    if 0 <= i < artifacts.len() {
        let a = artifacts[i];
        let row = artifact_rows(artifacts)[i];
        assert(row.take(a.title.len() as int) =~= a.title);
        text::lemma_contains_inside(a.title + " ("@, a.primary_path, ")"@);
    }
}

/// Only the selected row of a list is marked, and every row in view is one of the list's, in its order.
pub proof fn law_the_selected_row_is_marked(
    items: Seq<Seq<char>>,
    height: int,
    selected: int,
    i: int,
)
    requires
        0 <= selected < items.len(),
        height > 0,
        0 <= i < list_rows_of(items, height, selected).len(),
    ensures
        ({
            let at = list_start(items.len() as int, height, selected) + i;
            let row = list_rows_of(items, height, selected)[i];
            &&& 0 <= at < items.len()
            &&& at == selected ==> row == "> "@ + items[at]
            &&& at != selected ==> row == "  "@ + items[at]
            &&& list_rows_of(items, height, selected).len() == (if height < items.len() {
                height
            } else {
                items.len() as int
            })
        }),
{
    law_selected_item_is_in_view(items.len() as int, height, selected);
}

/// Above a list stand the words that narrow it, or that there are none, and how many are left.
pub proof fn law_the_head_counts_what_is_left(filter: Seq<char>, count: nat, hint: Seq<char>)
    ensures
        ({
            let lines = list_head_of(filter, count as int, hint);
            &&& filter.len() > 0 ==> lines[0] == "Filter: "@ + filter
            &&& filter.len() == 0 ==> lines[0] == "Filter: "@ + "(all)"@
            &&& lines[1] == "Matches: "@ + text::decimal(count) + " | "@ + hint
        }),
{
}

/// A file is shown by what went wrong while it was read, or by its text, laid out where that could be
/// done; without text that is said.
pub proof fn law_a_file_shows_what_was_read(
    file: ArtifactFilePayloadView,
    pretty: Option<Seq<char>>,
)
    ensures
        file.read_error matches Some(error) ==> file_lines_of(file, pretty) == wrapping::wrapped(
            error,
            120,
        ),
        file.read_error is None && file.text is None ==> file_lines_of(file, pretty) == seq![
            "<binary payload omitted>"@,
        ],
        file.read_error is None ==> (file.text matches Some(words) ==> file_lines_of(file, None)
            == text::lines_of(words) && (pretty matches Some(laid) ==> file_lines_of(file, pretty)
            == text::lines_of(laid))),
        pretty_of(file) is Some ==> file.text is Some && text::contains_text(
            file.media_type,
            "json"@,
        ),
{
}

/// The file that is shown is marked among the files, and counted from one.
pub proof fn law_the_shown_file_is_marked(state: ArtifactViewerStateView, i: int)
    requires
        0 <= i < state.payload.files.len(),
    ensures
        ({
            let paths = marked_paths(state.payload.files, state.selected_file as int);
            let head = viewer_head_of(state);
            &&& paths[i] == (if i == state.selected_file {
                "*"@
            } else {
                " "@
            }) + state.payload.files[i].path
            &&& text::contains_text(head[1], paths[i])
            &&& text::begins(
                head[0],
                "File "@ + text::decimal((state.selected_file + 1) as nat) + "/"@ + text::decimal(
                    state.payload.files.len() as nat,
                ),
            )
        }),
{
    let paths = marked_paths(state.payload.files, state.selected_file as int);
    text::lemma_join_contains(paths, " | "@, i);
    let start = "File "@ + text::decimal((state.selected_file + 1) as nat) + "/"@ + text::decimal(
        state.payload.files.len() as nat,
    );
    assert(viewer_head_of(state)[0].take(start.len() as int) =~= start);
}

/// An approval to decide shows its title, its description and the two answers, the chosen one in
/// brackets.
pub proof fn law_a_decision_shows_the_choice(
    approval: PendingApprovalView,
    choice: ApprovalChoice,
    width: int,
    i: int,
)
    ensures
        ({
            let rows = approval_rows(
                ApprovalOverlayStateView::Decision { approval, choice },
                width,
            );
            let words = wrapping::wrapped(approval.description, width);
            let answers = rows[2int + words.len()];
            &&& rows.len() == words.len() + 4
            &&& rows[0] == approval.title
            &&& 0 <= i < words.len() ==> rows[i + 1] == words[i]
            &&& choice == ApprovalChoice::Approve ==> text::begins(answers, "[ Approve ]"@)
            &&& choice == ApprovalChoice::Reject ==> answers == "  Approve  "@ + "   "@
                + "[ Reject ]"@
        }),
{
    let head = "[ Approve ]"@;
    let answers = head + "   "@ + "  Reject  "@;
    assert(answers.take(head.len() as int) =~= head);
}

/// A question shows which of how many it is, its header and its words, its options under their numbers
/// with the chosen one marked, and what was typed where words are taken.
pub proof fn law_a_question_shows_its_options(
    title: Seq<char>,
    question: ApprovalQuestionView,
    current: int,
    count: int,
    selected: int,
    focus: QuestionFocus,
    input: Seq<char>,
    saved: int,
    width: int,
    i: int,
)
    ensures
        ({
            let rows = question_rows(
                title,
                question,
                current,
                count,
                selected,
                focus,
                input,
                saved,
                width,
            );
            let words = wrapping::wrapped(question.question, width);
            let options = option_rows(question, focus, selected);
            let takes = question.is_other || question.options is None;
            let below = 3int + words.len() + options.len();
            &&& rows[0] == title + " ("@ + text::decimal((current + 1) as nat) + "/"@
                + text::decimal(count as nat) + ")"@
            &&& rows[1] == question.header
            &&& 0 <= i < words.len() ==> rows[i + 2] == words[i]
            &&& question.options matches Some(given) ==> options.len() == given.len() && (0 <= i
                < given.len() ==> rows[words.len() + 3 + i] == (if focus == QuestionFocus::Options
                && i == selected {
                "> "@
            } else {
                "  "@
            }) + text::decimal((i + 1) as nat) + ". "@ + given[i].label + " - "@
                + given[i].description)
            &&& question.options is None ==> options.len() == 0
            &&& takes ==> rows[below] == input_row(question, focus, input)
            &&& rows.len() == below + (if takes {
                1int
            } else {
                0
            }) + (if question.is_secret {
                1int
            } else {
                0
            }) + 1
        }),
{
}

} // verus!
