//! The transcript as plain text.
use vstd::prelude::*;

use crate::app::{TranscriptApp, TranscriptAppView};
use crate::artifacts::{
    ArtifactManifest, ArtifactManifestView, ArtifactPreview, ArtifactPreviewView,
};
use crate::labels;
use crate::paths;
use crate::text;
use crate::ui::{
    AppState, AppStateView, ArtifactEventCell, ArtifactEventCellView, HistoryCellModel,
    HistoryCellModelView,
};

verus! {

broadcast use text::group_views;

// -- Artifacts ------------------------------------------------------------------------------

/// Where an artifact lies: where its own path says, or under the directory of its conversation.
pub open spec fn artifact_path_of(manifest: ArtifactManifestView) -> Seq<char> {
    if paths::rooted(manifest.primary_path) {
        manifest.primary_path
    } else {
        display_path_of(manifest)
    }
}

/// The path of an artifact under the directory of its conversation.
pub open spec fn display_path_of(manifest: ArtifactManifestView) -> Seq<char> {
    paths::joined(
        paths::joined(
            paths::joined(
                paths::joined(paths::joined(".ml-intern"@, "threads"@), manifest.local_thread_id),
                "artifacts"@,
            ),
            manifest.id,
        ),
        manifest.primary_path,
    )
}

/// The path of an artifact under the directory of its conversation.
pub fn artifact_display_path(manifest: &ArtifactManifest) -> (out: String)
    ensures
        out@ == display_path_of(manifest@),
{
    let threads: String = paths::join(".ml-intern", "threads");
    let thread: String = paths::join(threads.as_str(), manifest.local_thread_id.text.as_str());
    let artifacts: String = paths::join(thread.as_str(), "artifacts");
    let artifact: String = paths::join(artifacts.as_str(), manifest.id.text.as_str());
    paths::join(artifact.as_str(), manifest.primary_path.as_str())
}

/// Where an artifact lies.
pub fn render_artifact_path(manifest: &ArtifactManifest) -> (out: String)
    ensures
        out@ == artifact_path_of(manifest@),
{
    if paths::is_absolute(manifest.primary_path.as_str()) {
        return manifest.primary_path.clone();
    }
    artifact_display_path(manifest)
}

/// The parts of the entry of an artifact.
pub open spec fn artifact_parts(cell: ArtifactEventCellView, updated: bool) -> Seq<Seq<char>> {
    let head = (if updated {
        "artifact~ "@
    } else {
        "artifact+ "@
    }) + cell.manifest.title;
    let path = "path="@ + artifact_path_of(cell.manifest);
    match cell.preview {
        ArtifactPreviewView::PaperReport { query, paper_count, headline } => seq![
            head,
            "query="@ + query,
            "papers="@ + text::decimal(paper_count as nat),
            "recipe="@ + headline,
            path,
        ],
        ArtifactPreviewView::DatasetAudit { dataset, split_count, issue_count } => seq![
            head,
            "dataset="@ + dataset,
            "splits="@ + text::decimal(split_count as nat),
            "issues="@ + text::decimal(issue_count as nat),
            path,
        ],
        ArtifactPreviewView::JobSnapshot { job_id, status, hardware, dashboard_url } => (seq![
            head,
            "job="@ + job_id,
            "status="@ + status,
        ] + (match hardware {
            Some(hardware) => seq!["hardware="@ + hardware],
            None => Seq::empty(),
        }) + (match dashboard_url {
            Some(url) => seq!["url="@ + url],
            None => Seq::empty(),
        })).push(path),
        ArtifactPreviewView::Generic { headline } => seq![head, headline, path],
    }
}

/// The entry of an artifact.
pub open spec fn artifact_cell_text(cell: ArtifactEventCellView, updated: bool) -> Seq<char> {
    text::join_of(artifact_parts(cell, updated), " | "@)
}

/// The entry of an artifact.
pub fn render_artifact_cell(cell: &ArtifactEventCell, updated: bool) -> (out: String)
    ensures
        out@ == artifact_cell_text(cell@, updated),
{
    let path_text: String = render_artifact_path(&cell.manifest);
    let path: String = text::glue("path=", path_text.as_str());
    let head: String = if updated {
        text::glue("artifact~ ", cell.manifest.title.as_str())
    } else {
        text::glue("artifact+ ", cell.manifest.title.as_str())
    };
    let mut parts: Vec<String> = Vec::new();
    parts.push(head);
    match &cell.preview {
        ArtifactPreview::PaperReport { query, paper_count, headline } => {
            let papers: String = text::number(*paper_count as u64);
            parts.push(text::glue("query=", query.as_str()));
            parts.push(text::glue("papers=", papers.as_str()));
            parts.push(text::glue("recipe=", headline.as_str()));
        },
        ArtifactPreview::DatasetAudit { dataset, split_count, issue_count } => {
            let splits: String = text::number(*split_count as u64);
            let issues: String = text::number(*issue_count as u64);
            parts.push(text::glue("dataset=", dataset.as_str()));
            parts.push(text::glue("splits=", splits.as_str()));
            parts.push(text::glue("issues=", issues.as_str()));
        },
        ArtifactPreview::JobSnapshot { job_id, status, hardware, dashboard_url } => {
            parts.push(text::glue("job=", job_id.as_str()));
            parts.push(text::glue("status=", status.as_str()));
            if let Some(hardware) = hardware {
                parts.push(text::glue("hardware=", hardware.as_str()));
            }
            if let Some(url) = dashboard_url {
                parts.push(text::glue("url=", url.as_str()));
            }
        },
        ArtifactPreview::Generic { headline } => {
            parts.push(headline.clone());
        },
    }
    parts.push(path);
    assert(text::views(parts@) =~= artifact_parts(cell@, updated));
    text::join(&parts, " | ")
}

// -- Entries -----------------------------------------------------------------------------------

/// An entry as plain text.
pub open spec fn cell_text(cell: HistoryCellModelView) -> Seq<char> {
    match cell {
        HistoryCellModelView::UserMessage(cell) => "you> "@ + cell.text,
        HistoryCellModelView::AssistantMessage(cell) => if cell.streaming {
            "assistant~ "@ + cell.text
        } else {
            "assistant> "@ + cell.text
        },
        HistoryCellModelView::ExecCommand(cell) => "exec> "@ + cell.command,
        HistoryCellModelView::ExecOutput(cell) => (if cell.streaming {
            "exec~"@
        } else {
            "exec<"@
        }) + " "@ + cell.command + " => "@ + cell.output,
        HistoryCellModelView::PatchSummary(cell) => "patch> "@ + cell.summary,
        HistoryCellModelView::PlanUpdate(cell) => "plan> "@ + cell.summary,
        HistoryCellModelView::ApprovalRequest(cell) => "approval> "@ + cell.approval.title,
        HistoryCellModelView::ArtifactCreated(cell) => artifact_cell_text(cell, false),
        HistoryCellModelView::ArtifactUpdated(cell) => artifact_cell_text(cell, true),
        HistoryCellModelView::Warning(cell) => "warning> "@ + cell.message,
        HistoryCellModelView::Error(cell) => "error> "@ + cell.message,
        HistoryCellModelView::Status(cell) => "status> "@ + cell.message,
    }
}

/// An entry as plain text.
pub fn render_history_cell(cell: &HistoryCellModel) -> (out: String)
    ensures
        out@ == cell_text(cell@),
{
    match cell {
        HistoryCellModel::UserMessage(cell) => text::glue("you> ", cell.text.as_str()),
        HistoryCellModel::AssistantMessage(cell) => {
            if cell.streaming {
                text::glue("assistant~ ", cell.text.as_str())
            } else {
                text::glue("assistant> ", cell.text.as_str())
            }
        },
        HistoryCellModel::ExecCommand(cell) => text::glue("exec> ", cell.command.as_str()),
        HistoryCellModel::ExecOutput(cell) => {
            let prefix: &str = if cell.streaming {
                "exec~"
            } else {
                "exec<"
            };
            text::glue5(prefix, " ", cell.command.as_str(), " => ", cell.output.as_str())
        },
        HistoryCellModel::PatchSummary(cell) => text::glue("patch> ", cell.summary.as_str()),
        HistoryCellModel::PlanUpdate(cell) => text::glue("plan> ", cell.summary.as_str()),
        HistoryCellModel::ApprovalRequest(cell) => text::glue(
            "approval> ",
            cell.approval.title.as_str(),
        ),
        HistoryCellModel::ArtifactCreated(cell) => render_artifact_cell(cell, false),
        HistoryCellModel::ArtifactUpdated(cell) => render_artifact_cell(cell, true),
        HistoryCellModel::Warning(cell) => text::glue("warning> ", cell.message.as_str()),
        HistoryCellModel::Error(cell) => text::glue("error> ", cell.message.as_str()),
        HistoryCellModel::Status(cell) => text::glue("status> ", cell.message.as_str()),
    }
}

// -- The whole -----------------------------------------------------------------------------------

/// Entries as plain text, each on a line of its own.
pub open spec fn cells_text(cells: Seq<HistoryCellModelView>) -> Seq<char>
    decreases cells.len(),
{
    if cells.len() == 0 {
        Seq::empty()
    } else {
        cells_text(cells.drop_last()) + cell_text(cells.last()) + "\n"@
    }
}

/// What an option holds, or another text.
pub open spec fn or_else(o: Option<Seq<char>>, other: Seq<char>) -> Seq<char> {
    match o {
        Some(found) => found,
        None => other,
    }
}

/// The line on the runtime.
pub open spec fn runtime_line(s: AppStateView) -> Seq<char> {
    "cwd: "@ + or_else(s.runtime.cwd, "unknown"@) + " | codex: "@ + or_else(
        s.runtime.codex_version,
        "unknown"@,
    ) + " | approval: "@ + (match s.runtime.approval_policy {
        Some(policy) => labels::policy_name_of(policy),
        None => "unknown"@,
    }) + " | sandbox: "@ + (match s.runtime.sandbox_mode {
        Some(mode) => labels::sandbox_name_of(mode),
        None => "unknown"@,
    }) + "\n"@
}

/// The line on the session.
pub open spec fn session_line(s: AppStateView, skill: Option<Seq<char>>) -> Seq<char> {
    "connection: "@ + labels::connection_name_of(s.connection) + " | active thread: "@ + or_else(
        s.active_thread_id,
        "none"@,
    ) + " | selected skill: "@ + or_else(skill, "none"@) + "\n\n"@
}

/// The client as plain text.
pub open spec fn app_text(s: AppStateView, skill: Option<Seq<char>>) -> Seq<char> {
    "=== ml-intern-codex ===\n"@ + runtime_line(s) + session_line(s, skill)
        + "Transcript\n----------\n"@ + (if s.transcript.history.len() == 0 {
        "(empty)\n"@
    } else {
        cells_text(s.transcript.history)
    })
        + "\nCommands: type `$` for skills, or use /threads /skills /artifacts /approval /help /clear /quit\n"@
}

fn render_runtime_line(state: &AppState) -> (out: String)
    ensures
        out@ == runtime_line(state@),
{
    let cwd: &str = match &state.runtime.cwd {
        Some(cwd) => cwd.as_str(),
        None => "unknown",
    };
    let version: &str = match &state.runtime.codex_version {
        Some(version) => version.as_str(),
        None => "unknown",
    };
    let policy: &str = match state.runtime.approval_policy {
        Some(policy) => labels::approval_policy_name(policy),
        None => "unknown",
    };
    let mode: &str = match state.runtime.sandbox_mode {
        Some(mode) => labels::sandbox_mode_name(mode),
        None => "unknown",
    };
    let head: String = text::glue4("cwd: ", cwd, " | codex: ", version);
    let middle: String = text::glue3(head.as_str(), " | approval: ", policy);
    text::glue4(middle.as_str(), " | sandbox: ", mode, "\n")
}

fn render_session_line(state: &AppState, selected_skill: Option<&str>) -> (out: String)
    ensures
        out@ == session_line(state@, text::opt_view(selected_skill)),
{
    let thread: &str = match &state.active_thread_id {
        Some(id) => id.text.as_str(),
        None => "none",
    };
    let skill: &str = match selected_skill {
        Some(skill) => skill,
        None => "none",
    };
    let head: String = text::glue4(
        "connection: ",
        labels::connection_name(state.connection),
        " | active thread: ",
        thread,
    );
    text::glue4(head.as_str(), " | selected skill: ", skill, "\n\n")
}

/// The client as plain text.
pub fn render_app(state: &AppState, selected_skill: Option<&str>) -> (out: String)
    ensures
        out@ == app_text(state@, text::opt_view(selected_skill)),
{
    let runtime: String = render_runtime_line(state);
    let session: String = render_session_line(state, selected_skill);
    let mut out: String = text::glue4(
        "=== ml-intern-codex ===\n",
        runtime.as_str(),
        session.as_str(),
        "Transcript\n----------\n",
    );
    if state.transcript.history.len() == 0 {
        out.append("(empty)\n");
    } else {
        let ghost top = out@;
        let ghost all = state@.transcript.history;
        let mut i: usize = 0;
        assert(all.take(0) =~= Seq::<HistoryCellModelView>::empty());
        assert(top + cells_text(all.take(0)) =~= top);
        while i < state.transcript.history.len()
            invariant
                i <= state.transcript.history@.len(),
                all == text::views(state.transcript.history@),
                out@ == top + cells_text(all.take(i as int)),
            decreases state.transcript.history@.len() - i,
        {
            assert(all.take(i + 1).drop_last() =~= all.take(i as int));
            assert(all.take(i + 1).last() == state.transcript.history@[i as int]@);
            let entry: String = render_history_cell(&state.transcript.history[i]);
            out.append(entry.as_str());
            out.append("\n");
            assert(out@ =~= top + cells_text(all.take(i + 1)));
            i = i + 1;
        }
        assert(all.take(all.len() as int) =~= all);
    }
    out.append(
        "\nCommands: type `$` for skills, or use /threads /skills /artifacts /approval /help /clear /quit\n",
    );
    out
}

/// The frame of a client that draws: the screen is cleared first.
pub open spec fn frame_of(a: TranscriptAppView) -> Option<Seq<char>> {
    if a.interactive_rendering {
        Some(
            "\u{1b}[2J\u{1b}[H"@ + app_text(
                a.state,
                match a.selected_skill {
                    Some(skill) => Some(skill.name),
                    None => None,
                },
            ),
        )
    } else {
        None
    }
}

impl TranscriptApp {
    /// The frame of a client that draws.
    pub fn rendered_frame(&self) -> (frame: Option<String>)
        ensures
            text::opt_view(frame) == frame_of(self@),
    {
        if !self.interactive_rendering {
            return None;
        }
        let skill: Option<&str> = match &self.selected_skill {
            Some(skill) => Some(skill.name.as_str()),
            None => None,
        };
        let shown: String = render_app(&self.state, skill);
        Some(text::glue("\u{1b}[2J\u{1b}[H", shown.as_str()))
    }
}

// -- What the plain rendering says --------------------------------------------------------------------------

/// Every entry is one text, which tells by how it begins whose words it holds, and holds them.
pub proof fn law_entries_tell_whose_words_they_are(cell: HistoryCellModelView)
    ensures
        match cell {
            HistoryCellModelView::UserMessage(c) => cell_text(cell) == "you> "@ + c.text,
            HistoryCellModelView::AssistantMessage(c) => cell_text(cell) == (if c.streaming {
                "assistant~ "@
            } else {
                "assistant> "@
            }) + c.text,
            HistoryCellModelView::ExecCommand(c) => cell_text(cell) == "exec> "@ + c.command,
            HistoryCellModelView::ExecOutput(c) => text::contains_text(cell_text(cell), c.output)
                && text::contains_text(cell_text(cell), c.command) && text::begins(
                cell_text(cell),
                if c.streaming {
                    "exec~"@
                } else {
                    "exec<"@
                },
            ),
            HistoryCellModelView::PatchSummary(c) => cell_text(cell) == "patch> "@ + c.summary,
            HistoryCellModelView::PlanUpdate(c) => cell_text(cell) == "plan> "@ + c.summary,
            HistoryCellModelView::ApprovalRequest(c) => cell_text(cell) == "approval> "@
                + c.approval.title,
            HistoryCellModelView::Warning(c) => cell_text(cell) == "warning> "@ + c.message,
            HistoryCellModelView::Error(c) => cell_text(cell) == "error> "@ + c.message,
            HistoryCellModelView::Status(c) => cell_text(cell) == "status> "@ + c.message,
            _ => true,
        },
{
    if let HistoryCellModelView::ExecOutput(c) = cell {
        let none = Seq::<char>::empty();
        let head = if c.streaming {
            "exec~"@
        } else {
            "exec<"@
        };
        let shown = cell_text(cell);
        assert(shown.take(head.len() as int) =~= head);
        assert(shown =~= (head + " "@) + c.command + (" => "@ + c.output));
        text::lemma_contains_inside(head + " "@, c.command, " => "@ + c.output);
        assert(shown =~= (head + " "@ + c.command + " => "@) + c.output + none);
        text::lemma_contains_inside(head + " "@ + c.command + " => "@, c.output, none);
    }
}

/// The text on an artifact tells whether it is new, and holds its title, where it lies and what its
/// preview says.
pub proof fn law_an_artifact_is_told_whole(cell: ArtifactEventCellView, updated: bool)
    ensures
        ({
            let shown = artifact_cell_text(cell, updated);
            let parts = artifact_parts(cell, updated);
            &&& parts.len() >= 3
            &&& parts[0] == (if updated {
                "artifact~ "@
            } else {
                "artifact+ "@
            }) + cell.manifest.title
            &&& parts.last() == "path="@ + artifact_path_of(cell.manifest)
            &&& forall|i: int| 0 <= i < parts.len() ==> text::contains_text(shown, #[trigger] parts[i])
            &&& match cell.preview {
                ArtifactPreviewView::PaperReport { query, paper_count, headline } => parts.contains(
                    "query="@ + query,
                ) && parts.contains("papers="@ + text::decimal(paper_count as nat))
                    && parts.contains("recipe="@ + headline),
                ArtifactPreviewView::DatasetAudit { dataset, split_count, issue_count } => {
                    parts.contains("dataset="@ + dataset) && parts.contains(
                        "splits="@ + text::decimal(split_count as nat),
                    ) && parts.contains("issues="@ + text::decimal(issue_count as nat))
                },
                ArtifactPreviewView::JobSnapshot { job_id, status, hardware, dashboard_url } => {
                    &&& parts.contains("job="@ + job_id)
                    &&& parts.contains("status="@ + status)
                    &&& hardware matches Some(hardware) ==> parts.contains("hardware="@ + hardware)
                    &&& dashboard_url matches Some(url) ==> parts.contains("url="@ + url)
                },
                ArtifactPreviewView::Generic { headline } => parts.contains(headline),
            }
        }),
{
    let parts = artifact_parts(cell, updated);
    assert forall|i: int| 0 <= i < parts.len() implies text::contains_text(
        artifact_cell_text(cell, updated),
        #[trigger] parts[i],
    ) by {
        text::lemma_join_contains(parts, " | "@, i);
    }
    match cell.preview {
        ArtifactPreviewView::PaperReport { query, paper_count, headline } => {
            assert(parts[1] == "query="@ + query);
            assert(parts[2] == "papers="@ + text::decimal(paper_count as nat));
            assert(parts[3] == "recipe="@ + headline);
        },
        ArtifactPreviewView::DatasetAudit { dataset, split_count, issue_count } => {
            assert(parts[1] == "dataset="@ + dataset);
            assert(parts[2] == "splits="@ + text::decimal(split_count as nat));
            assert(parts[3] == "issues="@ + text::decimal(issue_count as nat));
        },
        ArtifactPreviewView::JobSnapshot { job_id, status, hardware, dashboard_url } => {
            assert(parts[1] == "job="@ + job_id);
            assert(parts[2] == "status="@ + status);
            if hardware is Some {
                assert(parts[3] == "hardware="@ + hardware->0);
            }
            if dashboard_url is Some {
                assert(parts[parts.len() - 2] == "url="@ + dashboard_url->0);
            }
        },
        ArtifactPreviewView::Generic { headline } => {
            assert(parts[1] == headline);
        },
    }
}

/// An artifact that does not lie at the root lies in its own directory, below that of its conversation.
pub proof fn law_an_artifact_lies_in_its_own_directory(manifest: ArtifactManifestView)
    ensures
        paths::rooted(manifest.primary_path) ==> artifact_path_of(manifest) == manifest.primary_path,
        !paths::rooted(manifest.primary_path) && !paths::rooted(manifest.id) && !paths::rooted(
            manifest.local_thread_id,
        ) && manifest.id.len() > 0 && manifest.id.last() != '/' && manifest.local_thread_id.len() > 0
            && manifest.local_thread_id.last() != '/' ==> artifact_path_of(manifest)
            == ".ml-intern/threads/"@ + manifest.local_thread_id + "/artifacts/"@ + manifest.id
            + "/"@ + manifest.primary_path,
{
    reveal_strlit(".ml-intern");
    reveal_strlit("threads");
    reveal_strlit("artifacts");
    reveal_strlit("/");
    reveal_strlit(".ml-intern/threads/");
    reveal_strlit("/artifacts/");
    let thread = manifest.local_thread_id;
    let id = manifest.id;
    let path = manifest.primary_path;
    if !paths::rooted(path) && !paths::rooted(id) && !paths::rooted(thread) && id.len() > 0
        && id.last() != '/' && thread.len() > 0 && thread.last() != '/' {
        let a = ".ml-intern"@ + "/"@ + "threads"@;
        assert(paths::joined(".ml-intern"@, "threads"@) == a);
        assert(a.last() == 's');
        let b = a + "/"@ + thread;
        assert(b.last() == thread.last());
        let c = b + "/"@ + "artifacts"@;
        assert(c.last() == 's');
        let d = c + "/"@ + id;
        assert(d.last() == id.last());
        assert(display_path_of(manifest) == d + "/"@ + path);
        assert(a + "/"@ =~= ".ml-intern/threads/"@);
        assert("/"@ + "artifacts"@ + "/"@ =~= "/artifacts/"@);
        assert(d + "/"@ + path =~= ".ml-intern/threads/"@ + thread + "/artifacts/"@ + id + "/"@
            + path);
    }
}

/// The transcript holds every entry, in its order, each with a line feed behind it.
pub proof fn law_the_transcript_holds_every_entry(
    cells: Seq<HistoryCellModelView>,
    cell: HistoryCellModelView,
)
    ensures
        cells_text(Seq::empty()).len() == 0,
        cells_text(cells.push(cell)) == cells_text(cells) + cell_text(cell).push('\n'),
{
    reveal_strlit("\n");
    assert(cells.push(cell).drop_last() =~= cells);
    assert(cells_text(cells) + cell_text(cell) + "\n"@ =~= cells_text(cells) + cell_text(
        cell,
    ).push('\n'));
}

/// The whole text holds the transcript, how the client is connected, which conversation is active and
/// which skill is selected, and in what directory and mode it runs; without entries it says so.
pub proof fn law_the_screen_tells_the_state(s: AppStateView, skill: Option<Seq<char>>)
    ensures
        ({
            let shown = app_text(s, skill);
            &&& s.transcript.history.len() > 0 ==> text::contains_text(
                shown,
                cells_text(s.transcript.history),
            )
            &&& s.transcript.history.len() == 0 ==> text::contains_text(shown, "(empty)\n"@)
            &&& text::contains_text(shown, labels::connection_name_of(s.connection))
            &&& s.active_thread_id matches Some(id) ==> text::contains_text(shown, id)
            &&& skill matches Some(name) ==> text::contains_text(shown, name)
            &&& s.runtime.cwd matches Some(cwd) ==> text::contains_text(shown, cwd)
            &&& s.runtime.codex_version matches Some(version) ==> text::contains_text(shown, version)
            &&& s.runtime.approval_policy matches Some(policy) ==> text::contains_text(
                shown,
                labels::policy_name_of(policy),
            )
            &&& s.runtime.sandbox_mode matches Some(mode) ==> text::contains_text(
                shown,
                labels::sandbox_name_of(mode),
            )
        }),
{
    let shown = app_text(s, skill);
    let head = "=== ml-intern-codex ===\n"@;
    let runtime = runtime_line(s);
    let session = session_line(s, skill);
    let mid = "Transcript\n----------\n"@;
    let cells = if s.transcript.history.len() == 0 {
        "(empty)\n"@
    } else {
        cells_text(s.transcript.history)
    };
    let foot =
        "\nCommands: type `$` for skills, or use /threads /skills /artifacts /approval /help /clear /quit\n"@;
    assert(shown =~= (head + runtime + session + mid) + cells + foot);
    text::lemma_contains_inside(head + runtime + session + mid, cells, foot);
    assert(shown =~= (head + runtime) + session + (mid + cells + foot));
    text::lemma_contains_inside(head + runtime, session, mid + cells + foot);
    assert(shown =~= head + runtime + (session + mid + cells + foot));
    text::lemma_contains_inside(head, runtime, session + mid + cells + foot);
    lemma_session_tells(s, skill);
    lemma_runtime_tells(s);
    text::lemma_contains_trans(shown, session, labels::connection_name_of(s.connection));
    text::lemma_contains_trans(shown, session, or_else(s.active_thread_id, "none"@));
    text::lemma_contains_trans(shown, session, or_else(skill, "none"@));
    text::lemma_contains_trans(shown, runtime, or_else(s.runtime.cwd, "unknown"@));
    text::lemma_contains_trans(shown, runtime, or_else(s.runtime.codex_version, "unknown"@));
    if let Some(policy) = s.runtime.approval_policy {
        text::lemma_contains_trans(shown, runtime, labels::policy_name_of(policy));
    }
    if let Some(mode) = s.runtime.sandbox_mode {
        text::lemma_contains_trans(shown, runtime, labels::sandbox_name_of(mode));
    }
}

proof fn lemma_session_tells(s: AppStateView, skill: Option<Seq<char>>)
    ensures
        text::contains_text(session_line(s, skill), labels::connection_name_of(s.connection)),
        text::contains_text(session_line(s, skill), or_else(s.active_thread_id, "none"@)),
        text::contains_text(session_line(s, skill), or_else(skill, "none"@)),
{
    let a = "connection: "@;
    let b = labels::connection_name_of(s.connection);
    let c = " | active thread: "@;
    let d = or_else(s.active_thread_id, "none"@);
    let e = " | selected skill: "@;
    let f = or_else(skill, "none"@);
    let g = "\n\n"@;
    let line = session_line(s, skill);
    assert(line =~= a + b + (c + d + e + f + g));
    text::lemma_contains_inside(a, b, c + d + e + f + g);
    assert(line =~= (a + b + c) + d + (e + f + g));
    text::lemma_contains_inside(a + b + c, d, e + f + g);
    assert(line =~= (a + b + c + d + e) + f + g);
    text::lemma_contains_inside(a + b + c + d + e, f, g);
}

proof fn lemma_runtime_tells(s: AppStateView)
    ensures
        text::contains_text(runtime_line(s), or_else(s.runtime.cwd, "unknown"@)),
        text::contains_text(runtime_line(s), or_else(s.runtime.codex_version, "unknown"@)),
        s.runtime.approval_policy matches Some(policy) ==> text::contains_text(
            runtime_line(s),
            labels::policy_name_of(policy),
        ),
        s.runtime.sandbox_mode matches Some(mode) ==> text::contains_text(
            runtime_line(s),
            labels::sandbox_name_of(mode),
        ),
{
    let a = "cwd: "@;
    let b = or_else(s.runtime.cwd, "unknown"@);
    let c = " | codex: "@;
    let d = or_else(s.runtime.codex_version, "unknown"@);
    let e = " | approval: "@;
    let f = match s.runtime.approval_policy {
        Some(policy) => labels::policy_name_of(policy),
        None => "unknown"@,
    };
    let g = " | sandbox: "@;
    let h = match s.runtime.sandbox_mode {
        Some(mode) => labels::sandbox_name_of(mode),
        None => "unknown"@,
    };
    let upto_b = a + b;
    let upto_d = upto_b + c + d;
    let upto_f = upto_d + e + f;
    let upto_h = upto_f + g + h;
    lemma_last_stays(a, b, c + d);
    assert(upto_b + (c + d) =~= upto_d);
    lemma_last_stays(upto_b + c, d, e + f);
    assert(upto_d + (e + f) =~= upto_f);
    lemma_last_stays(upto_d + e, f, g + h);
    assert(upto_f + (g + h) =~= upto_h);
    lemma_last_stays(upto_f + g, h, "\n"@);
    lemma_stays(upto_d, b, e + f);
    lemma_stays(upto_f, b, g + h);
    lemma_stays(upto_h, b, "\n"@);
    lemma_stays(upto_f, d, g + h);
    lemma_stays(upto_h, d, "\n"@);
    lemma_stays(upto_h, f, "\n"@);
}

/// What a text holds it still holds with more behind it.
proof fn lemma_stays(s: Seq<char>, p: Seq<char>, more: Seq<char>)
    requires
        text::contains_text(s, p),
    ensures
        text::contains_text(s + more, p),
{
    let none = Seq::<char>::empty();
    text::lemma_contains_inside(none, s, more);
    assert(none + s + more =~= s + more);
    text::lemma_contains_trans(s + more, s, p);
}

/// What a text ends in it holds, also with more behind it.
proof fn lemma_last_stays(s: Seq<char>, p: Seq<char>, more: Seq<char>)
    ensures
        text::contains_text(s + p, p),
        text::contains_text(s + p + more, p),
{
    let none = Seq::<char>::empty();
    text::lemma_contains_inside(s, p, none);
    assert(s + p + none =~= s + p);
    text::lemma_contains_inside(s, p, more);
}

/// A frame is drawn exactly where the client renders while it runs, from the text of its state and the
/// name of the selected skill.
pub proof fn law_a_frame_shows_the_client(a: TranscriptAppView)
    ensures
        frame_of(a) is Some <==> a.interactive_rendering,
        frame_of(a) matches Some(frame) ==> {
            &&& a.selected_skill matches Some(skill) ==> text::contains_text(
                frame,
                app_text(a.state, Some(skill.name)),
            )
            &&& a.selected_skill is None ==> text::contains_text(frame, app_text(a.state, None))
        },
{
    let none = Seq::<char>::empty();
    let clear = "\u{1b}[2J\u{1b}[H"@;
    let shown = app_text(
        a.state,
        match a.selected_skill {
            Some(skill) => Some(skill.name),
            None => None,
        },
    );
    assert(clear + shown =~= clear + shown + none);
    text::lemma_contains_inside(clear, shown, none);
}

} // verus!
