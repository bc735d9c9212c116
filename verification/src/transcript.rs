//! The transcript: how events become entries, and how a stored transcript is replayed.
use vstd::prelude::*;

use crate::artifacts::{ArtifactManifest, ArtifactManifestView, ArtifactPreview, ArtifactPreviewView};
use crate::protocol::{
    ProjectableThreadItem, ProjectableThreadItemView, ProjectedFileChange, ProjectedFileChangeView,
    ProjectedItemPhase, RestoredPlanStep, RestoredPlanStepStatus, RestoredPlanStepView,
};
use crate::text;
use crate::ui::{
    AppState, AppStateView, ArtifactEventCell, ArtifactEventCellView, AssistantMessageCellView,
    ErrorCell, ErrorCellView, ExecCommandCell, ExecCommandCellView, ExecOutputCell,
    ExecOutputCellView, HistoryCellModel, HistoryCellModelView, PatchSummaryCell,
    PatchSummaryCellView, PlanUpdateCell, PlanUpdateCellView, StatusCell, StatusCellView,
    TranscriptStateView, WarningCell, WarningCellView,
};

verus! {

broadcast use text::group_views;

// -- Entries ---------------------------------------------------------------------

/// A state with another history.
pub open spec fn with_history(s: AppStateView, history: Seq<HistoryCellModelView>) -> AppStateView {
    AppStateView { transcript: TranscriptStateView { history }, ..s }
}

/// A state with one more entry at the end of its history.
pub open spec fn with_cell(s: AppStateView, cell: HistoryCellModelView) -> AppStateView {
    with_history(s, s.transcript.history.push(cell))
}

pub open spec fn status_cell(message: Seq<char>) -> HistoryCellModelView {
    HistoryCellModelView::Status(StatusCellView { message })
}

pub open spec fn warning_cell(message: Seq<char>) -> HistoryCellModelView {
    HistoryCellModelView::Warning(WarningCellView { message })
}

pub open spec fn error_cell(message: Seq<char>) -> HistoryCellModelView {
    HistoryCellModelView::Error(ErrorCellView { message })
}

pub open spec fn plan_cell(summary: Seq<char>) -> HistoryCellModelView {
    HistoryCellModelView::PlanUpdate(PlanUpdateCellView { summary })
}

/// The entry for an artifact: new, or changed.
pub open spec fn artifact_cell(
    manifest: ArtifactManifestView,
    preview: ArtifactPreviewView,
    updated: bool,
) -> HistoryCellModelView {
    let cell = ArtifactEventCellView { manifest, preview };
    if updated {
        HistoryCellModelView::ArtifactUpdated(cell)
    } else {
        HistoryCellModelView::ArtifactCreated(cell)
    }
}

/// Adds an entry at the end of the history.
pub fn push_cell(state: &mut AppState, cell: HistoryCellModel)
    ensures
        final(state)@ == with_cell(old(state)@, cell@),
{
    state.transcript.history.push(cell);
}

/// Adds a notice.
pub fn push_status_cell(state: &mut AppState, message: &str)
    ensures
        final(state)@ == with_cell(old(state)@, status_cell(message@)),
{
    push_cell(state, HistoryCellModel::Status(StatusCell { message: message.to_owned() }));
}

/// Adds a warning.
pub fn push_warning_cell(state: &mut AppState, message: &str)
    ensures
        final(state)@ == with_cell(old(state)@, warning_cell(message@)),
{
    push_cell(state, HistoryCellModel::Warning(WarningCell { message: message.to_owned() }));
}

/// Adds an error.
pub fn push_error_cell(state: &mut AppState, message: &str)
    ensures
        final(state)@ == with_cell(old(state)@, error_cell(message@)),
{
    push_cell(state, HistoryCellModel::Error(ErrorCell { message: message.to_owned() }));
}

/// Adds the entry for an artifact.
pub fn push_artifact_event_cell(
    state: &mut AppState,
    manifest: ArtifactManifest,
    preview: ArtifactPreview,
    updated: bool,
)
    ensures
        final(state)@ == with_cell(old(state)@, artifact_cell(manifest@, preview@, updated)),
{
    let cell = ArtifactEventCell { manifest, preview };
    if updated {
        push_cell(state, HistoryCellModel::ArtifactUpdated(cell));
    } else {
        push_cell(state, HistoryCellModel::ArtifactCreated(cell));
    }
}

// -- Command output ----------------------------------------------------------------

/// Whether an entry is the output of a given command.
pub open spec fn is_output_of(cell: HistoryCellModelView, id: Seq<char>) -> bool {
    cell matches HistoryCellModelView::ExecOutput(output) && output.item_id == id
}

/// The last entry with the output of a command, by its index.
pub open spec fn last_output(history: Seq<HistoryCellModelView>, id: Seq<char>) -> Option<int>
    decreases history.len(),
{
    if history.len() == 0 {
        None
    } else if is_output_of(history.last(), id) {
        Some(history.len() - 1)
    } else {
        last_output(history.drop_last(), id)
    }
}

/// The command line of an entry that starts a given command or shows its output.
pub open spec fn command_in(cell: HistoryCellModelView, id: Seq<char>) -> Option<Seq<char>> {
    match cell {
        HistoryCellModelView::ExecCommand(started) => if started.item_id == id {
            Some(started.command)
        } else {
            None
        },
        HistoryCellModelView::ExecOutput(output) => if output.item_id == id {
            Some(output.command)
        } else {
            None
        },
        _ => None,
    }
}

/// The command line that the last entry on a command gives.
pub open spec fn last_command(history: Seq<HistoryCellModelView>, id: Seq<char>) -> Option<Seq<char>>
    decreases history.len(),
{
    if history.len() == 0 {
        None
    } else if command_in(history.last(), id) is Some {
        command_in(history.last(), id)
    } else {
        last_command(history.drop_last(), id)
    }
}

pub proof fn lemma_last_output(history: Seq<HistoryCellModelView>, id: Seq<char>)
    ensures
        match last_output(history, id) {
            Some(k) => 0 <= k < history.len() && is_output_of(history[k], id) && (forall|j: int|
                k < j < history.len() ==> !is_output_of(#[trigger] history[j], id)),
            None => forall|j: int|
                0 <= j < history.len() ==> !is_output_of(#[trigger] history[j], id),
        },
    decreases history.len(),
{
    if history.len() > 0 && !is_output_of(history.last(), id) {
        let rest = history.drop_last();
        lemma_last_output(rest, id);
        assert forall|j: int| 0 <= j < rest.len() implies #[trigger] history[j] == rest[j] by {}
    }
}

/// The index of the last entry with the output of a command.
pub fn find_exec_output_cell_index(state: &AppState, item_id: &str) -> (found: Option<usize>)
    ensures
        match (found, last_output(state@.transcript.history, item_id@)) {
            (Some(i), Some(k)) => i == k && i < state.transcript.history@.len(),
            (None, None) => true,
            _ => false,
        },
{
    let mut i: usize = state.transcript.history.len();
    let ghost all = state@.transcript.history;
    assert(all.take(all.len() as int) =~= all);
    while i > 0
        invariant
            i <= state.transcript.history@.len(),
            all == state@.transcript.history,
            all.len() == state.transcript.history@.len(),
            last_output(all.take(i as int), item_id@) == last_output(all, item_id@),
        decreases i,
    {
        i = i - 1;
        assert(all.take(i + 1).drop_last() =~= all.take(i as int));
        assert(all.take(i + 1).last() == state.transcript.history@[i as int]@);
        if let HistoryCellModel::ExecOutput(cell) = &state.transcript.history[i] {
            if text::same_text(cell.item_id.as_str(), item_id) {
                return Some(i);
            }
        }
    }
    None
}

/// The command line that the last entry on a command gives.
pub fn latest_exec_command(state: &AppState, item_id: &str) -> (found: Option<String>)
    ensures
        text::opt_view(found) == last_command(state@.transcript.history, item_id@),
{
    let mut i: usize = state.transcript.history.len();
    let ghost all = state@.transcript.history;
    assert(all.take(all.len() as int) =~= all);
    while i > 0
        invariant
            i <= state.transcript.history@.len(),
            all == state@.transcript.history,
            all.len() == state.transcript.history@.len(),
            last_command(all.take(i as int), item_id@) == last_command(all, item_id@),
        decreases i,
    {
        i = i - 1;
        assert(all.take(i + 1).drop_last() =~= all.take(i as int));
        assert(all.take(i + 1).last() == state.transcript.history@[i as int]@);
        match &state.transcript.history[i] {
            HistoryCellModel::ExecCommand(cell) => {
                if text::same_text(cell.item_id.as_str(), item_id) {
                    return Some(cell.command.clone());
                }
            },
            HistoryCellModel::ExecOutput(cell) => {
                if text::same_text(cell.item_id.as_str(), item_id) {
                    return Some(cell.command.clone());
                }
            },
            _ => {},
        }
    }
    None
}

/// An output entry with more output, and still growing.
pub open spec fn output_extended(cell: HistoryCellModelView, delta: Seq<char>) -> HistoryCellModelView {
    match cell {
        HistoryCellModelView::ExecOutput(output) => HistoryCellModelView::ExecOutput(
            ExecOutputCellView { output: output.output + delta, streaming: true, ..output },
        ),
        other => other,
    }
}

/// The state after a piece of a command's output: appended to the entry that the command has, or
/// in a new entry.
pub open spec fn delta_appended(s: AppStateView, id: Seq<char>, delta: Seq<char>) -> AppStateView {
    let history = s.transcript.history;
    if delta.len() == 0 {
        s
    } else {
        match last_output(history, id) {
            Some(k) => with_history(s, history.update(k, output_extended(history[k], delta))),
            None => with_cell(
                s,
                HistoryCellModelView::ExecOutput(
                    ExecOutputCellView {
                        item_id: id,
                        command: match last_command(history, id) {
                            Some(command) => command,
                            None => "<command>"@,
                        },
                        output: delta,
                        streaming: true,
                    },
                ),
            ),
        }
    }
}

/// Takes in a piece of a command's output.
pub fn append_command_output_delta(state: &mut AppState, item_id: &str, delta: &str)
    ensures
        final(state)@ == delta_appended(old(state)@, item_id@, delta@),
{
    if text::is_empty(delta) {
        return ;
    }
    proof {
        lemma_last_output(state@.transcript.history, item_id@);
    }
    match find_exec_output_cell_index(state, item_id) {
        Some(index) => {
            if let HistoryCellModel::ExecOutput(cell) = &mut state.transcript.history[index] {
                cell.output.append(delta);
                cell.streaming = true;
            }
        },
        None => {
            let command: String = match latest_exec_command(state, item_id) {
                Some(command) => command,
                None => "<command>".to_owned(),
            };
            push_cell(
                state,
                HistoryCellModel::ExecOutput(
                    ExecOutputCell {
                        item_id: item_id.to_owned(),
                        command,
                        output: delta.to_owned(),
                        streaming: true,
                    },
                ),
            );
        },
    }
}

/// What stands for the output of a command that is done: its output, or a note that there is none.
pub open spec fn output_summary(output: Option<Seq<char>>, status: Option<Seq<char>>) -> Seq<char> {
    if output is Some && !text::blank(output->0) {
        output->0
    } else {
        match status {
            Some(status) => "<no output> ("@ + status + ")"@,
            None => "<no output>"@,
        }
    }
}

/// What stands for the output of a command that is done.
pub fn summarize_command_output(aggregated_output: &Option<String>, status: &Option<String>) -> (out:
    String)
    ensures
        out@ == output_summary(text::opt_view(*aggregated_output), text::opt_view(*status)),
{
    if let Some(output) = aggregated_output {
        if !text::is_blank(output.as_str()) {
            return output.clone();
        }
    }
    match status {
        Some(status) => text::glue3("<no output> (", status.as_str(), ")"),
        None => "<no output>".to_owned(),
    }
}

/// The output to keep when a command is done: what was streamed, unless the whole output that came
/// at the end only goes on from there.
pub open spec fn output_merged(
    streamed: Seq<char>,
    aggregated: Option<Seq<char>>,
    status: Option<Seq<char>>,
) -> Seq<char> {
    if streamed.len() == 0 {
        output_summary(aggregated, status)
    } else if aggregated is Some && text::begins(aggregated->0, streamed) {
        aggregated->0
    } else {
        streamed
    }
}

/// The output to keep when a command is done.
pub fn merge_command_output(
    streamed_output: &str,
    aggregated_output: &Option<String>,
    status: &Option<String>,
) -> (out: String)
    ensures
        out@ == output_merged(
            streamed_output@,
            text::opt_view(*aggregated_output),
            text::opt_view(*status),
        ),
{
    if text::is_empty(streamed_output) {
        return summarize_command_output(aggregated_output, status);
    }
    if let Some(aggregated) = aggregated_output {
        if text::starts_with(aggregated.as_str(), streamed_output) {
            return aggregated.clone();
        }
    }
    streamed_output.to_owned()
}

/// The state after a command is done: the entry with its output is closed, or one is added.
pub open spec fn command_completed(
    s: AppStateView,
    id: Seq<char>,
    command: Seq<char>,
    aggregated: Option<Seq<char>>,
    status: Option<Seq<char>>,
) -> AppStateView {
    let history = s.transcript.history;
    match last_output(history, id) {
        Some(k) => with_history(
            s,
            history.update(
                k,
                HistoryCellModelView::ExecOutput(
                    ExecOutputCellView {
                        item_id: id,
                        command,
                        output: output_merged(history[k]->ExecOutput_0.output, aggregated, status),
                        streaming: false,
                    },
                ),
            ),
        ),
        None => with_cell(
            s,
            HistoryCellModelView::ExecOutput(
                ExecOutputCellView {
                    item_id: id,
                    command,
                    output: output_summary(aggregated, status),
                    streaming: false,
                },
            ),
        ),
    }
}

/// Closes the entry of a command that is done.
pub fn complete_command_execution_cell(
    state: &mut AppState,
    item_id: &str,
    command: &str,
    aggregated_output: &Option<String>,
    status: &Option<String>,
)
    ensures
        final(state)@ == command_completed(
            old(state)@,
            item_id@,
            command@,
            text::opt_view(*aggregated_output),
            text::opt_view(*status),
        ),
{
    proof {
        lemma_last_output(state@.transcript.history, item_id@);
    }
    match find_exec_output_cell_index(state, item_id) {
        Some(index) => {
            if let HistoryCellModel::ExecOutput(cell) = &mut state.transcript.history[index] {
                let merged: String = merge_command_output(
                    cell.output.as_str(),
                    aggregated_output,
                    status,
                );
                cell.command = command.to_owned();
                cell.output = merged;
                cell.streaming = false;
            }
        },
        None => {
            push_cell(
                state,
                HistoryCellModel::ExecOutput(
                    ExecOutputCell {
                        item_id: item_id.to_owned(),
                        command: command.to_owned(),
                        output: summarize_command_output(aggregated_output, status),
                        streaming: false,
                    },
                ),
            );
        },
    }
}

// -- Changes of files and plans -----------------------------------------------------

/// How a changed file is listed.
pub open spec fn change_label(change: ProjectedFileChangeView) -> Seq<char> {
    change.path + " ("@ + change.kind + ")"@
}

/// What a summary lists of a change: at most three files, and how many more there are.
pub open spec fn change_parts(changes: Seq<ProjectedFileChangeView>) -> Seq<Seq<char>> {
    if changes.len() > 3 {
        Seq::new(3, |i: int| change_label(changes[i])).push(
            "+"@ + text::decimal((changes.len() - 3) as nat) + " more"@,
        )
    } else {
        Seq::new(changes.len(), |i: int| change_label(changes[i]))
    }
}

/// The summary of a change of files.
pub open spec fn change_summary(
    changes: Seq<ProjectedFileChangeView>,
    status: Option<Seq<char>>,
) -> Seq<char> {
    let details = if changes.len() == 0 {
        "no files"@
    } else {
        text::join_of(change_parts(changes), ", "@)
    };
    match status {
        Some(status) => "Patch "@ + status + ": "@ + details,
        None => "Patch: "@ + details,
    }
}

/// The summary of a change of files.
pub fn summarize_file_change(changes: &Vec<ProjectedFileChange>, status: &Option<String>) -> (out:
    String)
    ensures
        out@ == change_summary(text::views(changes@), text::opt_view(*status)),
{
    let total: usize = changes.len();
    let mut parts: Vec<String> = Vec::new();
    let mut i: usize = 0;
    while i < total && i < 3
        invariant
            i <= 3,
            i <= total,
            total == changes@.len(),
            parts@.len() == i,
            forall|j: int| 0 <= j < i ==> (#[trigger] parts@[j])@ == change_label(changes@[j]@),
        decreases total - i,
    {
        parts.push(text::glue4(changes[i].path.as_str(), " (", changes[i].kind.as_str(), ")"));
        i = i + 1;
    }
    if total > 3 {
        let more: String = text::number((total - 3) as u64);
        parts.push(text::glue3("+", more.as_str(), " more"));
    }
    assert(text::views(parts@) =~= change_parts(text::views(changes@)));
    let details: String = if total == 0 {
        "no files".to_owned()
    } else {
        text::join(&parts, ", ")
    };
    match status {
        Some(status) => text::glue4("Patch ", status.as_str(), ": ", details.as_str()),
        None => text::glue("Patch: ", details.as_str()),
    }
}

pub open spec fn plan_status_label(status: RestoredPlanStepStatus) -> Seq<char> {
    match status {
        RestoredPlanStepStatus::Pending => "pending"@,
        RestoredPlanStepStatus::InProgress => "in_progress"@,
        RestoredPlanStepStatus::Completed => "completed"@,
    }
}

/// How the state of a step is written.
pub fn restored_plan_status_label(status: RestoredPlanStepStatus) -> (label: &'static str)
    ensures
        label@ == plan_status_label(status),
{
    match status {
        RestoredPlanStepStatus::Pending => "pending",
        RestoredPlanStepStatus::InProgress => "in_progress",
        RestoredPlanStepStatus::Completed => "completed",
    }
}

/// How a step is listed.
pub open spec fn plan_step_label(step: RestoredPlanStepView) -> Seq<char> {
    "["@ + plan_status_label(step.status) + "] "@ + text::trim_of(step.step)
}

/// What a plan is summarised from: its explanation, where it has one, and its steps, where it has
/// any.
pub open spec fn plan_parts(explanation: Option<Seq<char>>, plan: Seq<RestoredPlanStepView>) -> Seq<
    Seq<char>,
> {
    let words = if explanation is Some && !text::blank(explanation->0) {
        seq![text::trim_of(explanation->0)]
    } else {
        Seq::empty()
    };
    if plan.len() == 0 {
        words
    } else {
        words.push(
            text::join_of(Seq::new(plan.len(), |i: int| plan_step_label(plan[i])), "; "@),
        )
    }
}

/// The summary of a plan.
pub open spec fn plan_summary(explanation: Option<Seq<char>>, plan: Seq<RestoredPlanStepView>) -> Seq<
    char,
> {
    text::join_of(plan_parts(explanation, plan), " | "@)
}

/// The summary of a plan.
pub fn summarize_restored_plan_update(
    explanation: &Option<String>,
    plan: &Vec<RestoredPlanStep>,
) -> (out: String)
    ensures
        out@ == plan_summary(text::opt_view(*explanation), text::views(plan@)),
{
    let mut parts: Vec<String> = Vec::new();
    if let Some(words) = explanation {
        if !text::is_blank(words.as_str()) {
            parts.push(text::trim(words.as_str()));
        }
    }
    if plan.len() > 0 {
        let mut steps: Vec<String> = Vec::new();
        let mut i: usize = 0;
        while i < plan.len()
            invariant
                i <= plan@.len(),
                steps@.len() == i,
                forall|j: int| 0 <= j < i ==> (#[trigger] steps@[j])@ == plan_step_label(plan@[j]@),
            decreases plan@.len() - i,
        {
            let step: String = text::trim(plan[i].step.as_str());
            steps.push(
                text::glue4("[", restored_plan_status_label(plan[i].status), "] ", step.as_str()),
            );
            i = i + 1;
        }
        let ghost expected = Seq::new(
            text::views(plan@).len(),
            |k: int| plan_step_label(text::views(plan@)[k]),
        );
        assert(text::views(steps@) =~= expected);
        parts.push(text::join(&steps, "; "));
    }
    assert(text::views(parts@) =~= plan_parts(text::opt_view(*explanation), text::views(plan@)));
    text::join(&parts, " | ")
}

// -- Items of a turn ------------------------------------------------------------------

/// The state after an item, and whether the item shows in the transcript.
pub open spec fn item_projected(
    s: AppStateView,
    item: Option<ProjectableThreadItemView>,
    phase: ProjectedItemPhase,
) -> (AppStateView, bool) {
    match (phase, item) {
        (
            ProjectedItemPhase::Started,
            Some(ProjectableThreadItemView::CommandExecution { id, command, .. }),
        ) => (
            with_cell(
                s,
                HistoryCellModelView::ExecCommand(ExecCommandCellView { item_id: id, command }),
            ),
            true,
        ),
        (
            ProjectedItemPhase::Completed,
            Some(
                ProjectableThreadItemView::CommandExecution {
                    id,
                    command,
                    aggregated_output,
                    status,
                },
            ),
        ) => (command_completed(s, id, command, aggregated_output, status), true),
        (_, Some(ProjectableThreadItemView::FileChange { changes, status })) => (
            with_cell(
                s,
                HistoryCellModelView::PatchSummary(
                    PatchSummaryCellView { summary: change_summary(changes, status) },
                ),
            ),
            true,
        ),
        (ProjectedItemPhase::Completed, Some(ProjectableThreadItemView::Plan { text })) => {
            if text::blank(text) {
                (s, false)
            } else {
                (with_cell(s, plan_cell(text::trim_of(text))), true)
            }
        },
        _ => (s, false),
    }
}

/// Takes in an item; `None` is an item of no kind that the transcript shows.
pub fn push_projected_item_cells(
    state: &mut AppState,
    item: &Option<ProjectableThreadItem>,
    phase: ProjectedItemPhase,
) -> (shown: bool)
    ensures
        (final(state)@, shown) == item_projected(old(state)@, text::opt_view(*item), phase),
{
    let item: &ProjectableThreadItem = match item {
        Some(item) => item,
        None => {
            return false;
        },
    };
    match item {
        ProjectableThreadItem::CommandExecution { id, command, aggregated_output, status } => {
            match phase {
                ProjectedItemPhase::Started => {
                    push_cell(
                        state,
                        HistoryCellModel::ExecCommand(
                            ExecCommandCell { item_id: id.clone(), command: command.clone() },
                        ),
                    );
                },
                ProjectedItemPhase::Completed => {
                    complete_command_execution_cell(
                        state,
                        id.as_str(),
                        command.as_str(),
                        aggregated_output,
                        status,
                    );
                },
            }
            true
        },
        ProjectableThreadItem::FileChange { changes, status } => {
            push_cell(
                state,
                HistoryCellModel::PatchSummary(
                    PatchSummaryCell { summary: summarize_file_change(changes, status) },
                ),
            );
            true
        },
        ProjectableThreadItem::Plan { text: words } => {
            match phase {
                ProjectedItemPhase::Started => false,
                ProjectedItemPhase::Completed => {
                    if text::is_blank(words.as_str()) {
                        false
                    } else {
                        push_cell(
                            state,
                            HistoryCellModel::PlanUpdate(
                                PlanUpdateCell { summary: text::trim(words.as_str()) },
                            ),
                        );
                        true
                    }
                },
            }
        },
    }
}

// -- Entries that are still growing ----------------------------------------------------

/// The last entry of the assistant, by its index.
pub open spec fn last_assistant(history: Seq<HistoryCellModelView>) -> Option<int>
    decreases history.len(),
{
    if history.len() == 0 {
        None
    } else if history.last() is AssistantMessage {
        Some(history.len() - 1)
    } else {
        last_assistant(history.drop_last())
    }
}

/// The last entry with the output of a command, by its index.
pub open spec fn last_any_output(history: Seq<HistoryCellModelView>) -> Option<int>
    decreases history.len(),
{
    if history.len() == 0 {
        None
    } else if history.last() is ExecOutput {
        Some(history.len() - 1)
    } else {
        last_any_output(history.drop_last())
    }
}

/// An entry marked as growing or not, where it is one that can grow.
pub open spec fn growing(cell: HistoryCellModelView, on: bool) -> HistoryCellModelView {
    match cell {
        HistoryCellModelView::AssistantMessage(message) => HistoryCellModelView::AssistantMessage(
            AssistantMessageCellView { streaming: on, ..message },
        ),
        HistoryCellModelView::ExecOutput(output) => HistoryCellModelView::ExecOutput(
            ExecOutputCellView { streaming: on, ..output },
        ),
        other => other,
    }
}

/// A history in which one entry is marked.
pub open spec fn marked(history: Seq<HistoryCellModelView>, at: Option<int>, on: bool) -> Seq<
    HistoryCellModelView,
> {
    match at {
        Some(k) => history.update(k, growing(history[k], on)),
        None => history,
    }
}

pub proof fn lemma_last_assistant(history: Seq<HistoryCellModelView>)
    ensures
        match last_assistant(history) {
            Some(k) => 0 <= k < history.len() && history[k] is AssistantMessage && (forall|j: int|
                k < j < history.len() ==> !((#[trigger] history[j]) is AssistantMessage)),
            None => forall|j: int|
                0 <= j < history.len() ==> !((#[trigger] history[j]) is AssistantMessage),
        },
    decreases history.len(),
{
    if history.len() > 0 && !(history.last() is AssistantMessage) {
        let rest = history.drop_last();
        lemma_last_assistant(rest);
        assert forall|j: int| 0 <= j < rest.len() implies #[trigger] history[j] == rest[j] by {}
    }
}

/// The index of the last entry of the assistant.
fn latest_assistant_message(state: &AppState) -> (found: Option<usize>)
    ensures
        match (found, last_assistant(state@.transcript.history)) {
            (Some(i), Some(k)) => i == k && i < state.transcript.history@.len()
                && state.transcript.history@[i as int] is AssistantMessage,
            (None, None) => true,
            _ => false,
        },
{
    let mut i: usize = state.transcript.history.len();
    let ghost all = state@.transcript.history;
    assert(all.take(all.len() as int) =~= all);
    while i > 0
        invariant
            i <= state.transcript.history@.len(),
            all == state@.transcript.history,
            all.len() == state.transcript.history@.len(),
            last_assistant(all.take(i as int)) == last_assistant(all),
        decreases i,
    {
        i = i - 1;
        assert(all.take(i + 1).drop_last() =~= all.take(i as int));
        assert(all.take(i + 1).last() == state.transcript.history@[i as int]@);
        if let HistoryCellModel::AssistantMessage(_) = &state.transcript.history[i] {
            return Some(i);
        }
    }
    None
}

/// The index of the last entry with the output of a command.
fn latest_exec_output_cell(state: &AppState) -> (found: Option<usize>)
    ensures
        match (found, last_any_output(state@.transcript.history)) {
            (Some(i), Some(k)) => i == k && i < state.transcript.history@.len()
                && state.transcript.history@[i as int] is ExecOutput,
            (None, None) => true,
            _ => false,
        },
{
    let mut i: usize = state.transcript.history.len();
    let ghost all = state@.transcript.history;
    assert(all.take(all.len() as int) =~= all);
    while i > 0
        invariant
            i <= state.transcript.history@.len(),
            all == state@.transcript.history,
            all.len() == state.transcript.history@.len(),
            last_any_output(all.take(i as int)) == last_any_output(all),
        decreases i,
    {
        i = i - 1;
        assert(all.take(i + 1).drop_last() =~= all.take(i as int));
        assert(all.take(i + 1).last() == state.transcript.history@[i as int]@);
        if let HistoryCellModel::ExecOutput(_) = &state.transcript.history[i] {
            return Some(i);
        }
    }
    None
}

/// A state in which the last entry of the assistant is marked as growing or not.
pub open spec fn assistant_marked(s: AppStateView, on: bool) -> AppStateView {
    with_history(s, marked(s.transcript.history, last_assistant(s.transcript.history), on))
}

/// Marks the last entry of the assistant as growing or not.
pub fn mark_latest_assistant_message(state: &mut AppState, on: bool)
    ensures
        final(state)@ == assistant_marked(old(state)@, on),
{
    if let Some(index) = latest_assistant_message(state) {
        if let HistoryCellModel::AssistantMessage(cell) = &mut state.transcript.history[index] {
            cell.streaming = on;
        }
    }
}

/// A state in which the last entry of the assistant and the last output are marked as growing.
pub open spec fn marked_live(s: AppStateView) -> AppStateView {
    let first = assistant_marked(s, true);
    with_history(
        first,
        marked(first.transcript.history, last_any_output(first.transcript.history), true),
    )
}

/// Marks the last entry of the assistant and the last output as growing.
pub fn mark_latest_streaming_cells_live(state: &mut AppState)
    ensures
        final(state)@ == marked_live(old(state)@),
{
    mark_latest_assistant_message(state, true);
    if let Some(index) = latest_exec_output_cell(state) {
        if let HistoryCellModel::ExecOutput(cell) = &mut state.transcript.history[index] {
            cell.streaming = true;
        }
    }
}

/// An entry whose output grows no more, where it is an output.
pub open spec fn output_closed(cell: HistoryCellModelView) -> HistoryCellModelView {
    if cell is ExecOutput {
        growing(cell, false)
    } else {
        cell
    }
}

/// A state in which the last entry of the assistant and every output grow no more.
pub open spec fn finalized(s: AppStateView) -> AppStateView {
    let history = assistant_marked(s, false).transcript.history;
    with_history(s, Seq::new(history.len(), |i: int| output_closed(history[i])))
}

/// Marks the last entry of the assistant and every output as no longer growing.
pub fn finalize_streaming_cells(state: &mut AppState)
    ensures
        final(state)@ == finalized(old(state)@),
{
    mark_latest_assistant_message(state, false);
    let ghost first = state@;
    let ghost history = first.transcript.history;
    let total: usize = state.transcript.history.len();
    let mut i: usize = 0;
    while i < total
        invariant
            i <= total,
            total == state.transcript.history@.len(),
            total == history.len(),
            history == first.transcript.history,
            state@ == with_history(first, state@.transcript.history),
            state@.transcript.history.len() == total,
            forall|j: int|
                0 <= j < i ==> #[trigger] state@.transcript.history[j] == output_closed(history[j]),
            forall|j: int| i <= j < total ==> #[trigger] state@.transcript.history[j] == history[j],
        decreases total - i,
    {
        let ghost before = state@;
        assert(before.transcript.history[i as int] == history[i as int]);
        assert(state.transcript.history@[i as int]@ == before.transcript.history[i as int]);
        if let HistoryCellModel::ExecOutput(cell) = &mut state.transcript.history[i] {
            cell.streaming = false;
        }
        assert(state@.transcript.history =~= before.transcript.history.update(
            i as int,
            output_closed(history[i as int]),
        ));
        i = i + 1;
    }
    assert(state@.transcript.history =~= finalized(old(state)@).transcript.history);
}

/// Closing the entries keeps them all, and leaves no output marked as one that grows.
pub proof fn law_finalizing_closes_every_output(s: AppStateView, i: int)
    requires
        0 <= i < s.transcript.history.len(),
    ensures
        finalized(s).transcript.history.len() == s.transcript.history.len(),
        finalized(s).transcript.history[i] matches HistoryCellModelView::ExecOutput(output)
            ==> !output.streaming,
{
    lemma_last_assistant(s.transcript.history);
}

/// Closing the entries a second time changes nothing.
pub proof fn law_finalizing_twice_is_finalizing_once(s: AppStateView)
    ensures
        finalized(finalized(s)) == finalized(s),
{
    let history = s.transcript.history;
    let once = finalized(s).transcript.history;
    lemma_last_assistant(history);
    lemma_last_assistant(once);
    assert forall|j: int| 0 <= j < history.len() implies ((#[trigger] history[j]) is AssistantMessage
        <==> once[j] is AssistantMessage) by {}
    assert(last_assistant(once) == last_assistant(history)) by {
        match (last_assistant(once), last_assistant(history)) {
            (Some(a), Some(b)) => {
                assert(history[a] is AssistantMessage <==> once[a] is AssistantMessage);
                assert(history[b] is AssistantMessage <==> once[b] is AssistantMessage);
            },
            (Some(a), None) => {
                assert(history[a] is AssistantMessage <==> once[a] is AssistantMessage);
            },
            (None, Some(b)) => {
                assert(history[b] is AssistantMessage <==> once[b] is AssistantMessage);
            },
            _ => {},
        }
    }
    assert(finalized(finalized(s)).transcript.history =~= once);
}

/// How a command's output is cut into pieces makes no difference to the transcript.
pub proof fn law_output_pieces_join(s: AppStateView, id: Seq<char>, first: Seq<char>, second: Seq<char>)
    ensures
        delta_appended(delta_appended(s, id, first), id, second) == delta_appended(
            s,
            id,
            first + second,
        ),
{
    let history = s.transcript.history;
    lemma_last_output(history, id);
    if first.len() == 0 {
        assert(first + second =~= second);
    } else if second.len() == 0 {
        assert(first + second =~= first);
    } else {
        let once = delta_appended(s, id, first);
        let grown = once.transcript.history;
        lemma_last_output(grown, id);
        match last_output(history, id) {
            Some(k) => {
                assert forall|j: int| 0 <= j < history.len() implies is_output_of(
                    #[trigger] grown[j],
                    id,
                ) == is_output_of(history[j], id) by {}
                assert(is_output_of(grown[k], id));
                assert(last_output(grown, id) == Some(k)) by {
                    let k2 = last_output(grown, id)->0;
                    if k2 < k {
                        assert(!is_output_of(grown[k], id));
                    }
                    if k < k2 {
                        assert(!is_output_of(history[k2], id));
                    }
                }
                let whole = history[k]->ExecOutput_0.output;
                assert(whole + first + second =~= whole + (first + second));
                assert(grown.update(k, output_extended(grown[k], second)) =~= history.update(
                    k,
                    output_extended(history[k], first + second),
                ));
            },
            None => {
                let k = history.len() as int;
                assert(is_output_of(grown[k], id));
                assert(last_output(grown, id) == Some(k));
                assert(grown.update(k, output_extended(grown[k], second)) =~= delta_appended(
                    s,
                    id,
                    first + second,
                ).transcript.history);
            },
        }
    }
}

/// A command that is done shows the whole of its output once, whatever pieces of it came before:
/// where the output streamed so far begins the whole output, the entry that held the pieces holds
/// the whole, and no longer grows.
pub proof fn law_completion_replaces_streamed_output(
    s: AppStateView,
    id: Seq<char>,
    command: Seq<char>,
    whole: Seq<char>,
    status: Option<Seq<char>>,
    k: int,
)
    requires
        last_output(s.transcript.history, id) == Some(k),
        s.transcript.history[k]->ExecOutput_0.output.len() > 0,
        text::begins(whole, s.transcript.history[k]->ExecOutput_0.output),
    ensures
        command_completed(s, id, command, Some(whole), status).transcript.history.len()
            == s.transcript.history.len(),
        command_completed(s, id, command, Some(whole), status).transcript.history[k]
            == HistoryCellModelView::ExecOutput(
            ExecOutputCellView { item_id: id, command, output: whole, streaming: false },
        ),
{
    lemma_last_output(s.transcript.history, id);
}

// -- What holds of the entries ---------------------------------------------------------------------

/// An entry goes to the end of the history; all entries before it, and all else, stay as they are.
pub proof fn law_an_entry_goes_to_the_end(s: AppStateView, cell: HistoryCellModelView)
    ensures
        with_cell(s, cell).transcript.history.len() == s.transcript.history.len() + 1,
        with_cell(s, cell).transcript.history.last() == cell,
        with_cell(s, cell).transcript.history.drop_last() == s.transcript.history,
        with_cell(s, cell) == (AppStateView { transcript: with_cell(s, cell).transcript, ..s }),
{
    assert(with_cell(s, cell).transcript.history.drop_last() =~= s.transcript.history);
}

/// What is told, warned of or failed at is shown under its own kind, word for word; so is a plan, and
/// an artifact shows as new or as changed.
pub proof fn law_messages_are_shown_word_for_word(
    message: Seq<char>,
    manifest: ArtifactManifestView,
    preview: ArtifactPreviewView,
)
    ensures
        status_cell(message) matches HistoryCellModelView::Status(cell) && cell.message == message,
        warning_cell(message) matches HistoryCellModelView::Warning(cell) && cell.message == message,
        error_cell(message) matches HistoryCellModelView::Error(cell) && cell.message == message,
        plan_cell(message) matches HistoryCellModelView::PlanUpdate(cell) && cell.summary == message,
        artifact_cell(manifest, preview, false) matches HistoryCellModelView::ArtifactCreated(cell)
            && cell.manifest == manifest && cell.preview == preview,
        artifact_cell(manifest, preview, true) matches HistoryCellModelView::ArtifactUpdated(cell)
            && cell.manifest == manifest && cell.preview == preview,
{
}

/// Whether the entry with an index holds the output of a command, and no later one does.
pub open spec fn holds_output(history: Seq<HistoryCellModelView>, id: Seq<char>, k: int) -> bool {
    &&& 0 <= k < history.len()
    &&& history[k] matches HistoryCellModelView::ExecOutput(output) && output.item_id == id
    &&& forall|j: int|
        k < j < history.len() ==> !((#[trigger] history[j]) is ExecOutput
            && history[j]->ExecOutput_0.item_id == id)
}

/// Whether no entry holds the output of a command.
pub open spec fn without_output(history: Seq<HistoryCellModelView>, id: Seq<char>) -> bool {
    forall|j: int|
        0 <= j < history.len() ==> !((#[trigger] history[j]) is ExecOutput
            && history[j]->ExecOutput_0.item_id == id)
}

/// More output of a command goes to the end of the entry that holds its output, which grows; nothing
/// that it held is lost, and no other entry changes.
pub proof fn law_output_goes_to_its_command(
    s: AppStateView,
    id: Seq<char>,
    delta: Seq<char>,
    k: int,
)
    requires
        delta.len() > 0,
        holds_output(s.transcript.history, id, k),
    ensures
        ({
            let before = s.transcript.history[k]->ExecOutput_0;
            let after = delta_appended(s, id, delta);
            &&& after.transcript.history.len() == s.transcript.history.len()
            &&& after.transcript.history[k] matches HistoryCellModelView::ExecOutput(output)
                && output.output == before.output + delta && output.command == before.command
                && output.item_id == id && output.streaming
            &&& forall|j: int|
                0 <= j < s.transcript.history.len() && j != k
                    ==> #[trigger] after.transcript.history[j] == s.transcript.history[j]
            &&& after == (AppStateView { transcript: after.transcript, ..s })
        }),
{
    lemma_last_output(s.transcript.history, id);
}

/// The first output of a command gets an entry of its own at the end, under the command that was
/// started with the same identifier last.
pub proof fn law_first_output_opens_an_entry(
    s: AppStateView,
    id: Seq<char>,
    delta: Seq<char>,
    c: int,
)
    requires
        delta.len() > 0,
        without_output(s.transcript.history, id),
        0 <= c < s.transcript.history.len(),
        s.transcript.history[c] is ExecCommand,
        s.transcript.history[c]->ExecCommand_0.item_id == id,
        forall|j: int|
            c < j < s.transcript.history.len() ==> !((#[trigger] s.transcript.history[j])
                is ExecCommand && s.transcript.history[j]->ExecCommand_0.item_id == id),
    ensures
        delta_appended(s, id, delta).transcript.history.drop_last() == s.transcript.history,
        delta_appended(s, id, delta).transcript.history.last()
            matches HistoryCellModelView::ExecOutput(output) && output.item_id == id
            && output.command == s.transcript.history[c]->ExecCommand_0.command && output.output
            == delta && output.streaming,
{
    lemma_last_output(s.transcript.history, id);
    lemma_last_command(s.transcript.history, id, c);
    assert(delta_appended(s, id, delta).transcript.history.drop_last() =~= s.transcript.history);
}

proof fn lemma_last_command(history: Seq<HistoryCellModelView>, id: Seq<char>, c: int)
    requires
        0 <= c < history.len(),
        command_in(history[c], id) is Some,
        forall|j: int| c < j < history.len() ==> command_in(#[trigger] history[j], id) is None,
    ensures
        last_command(history, id) == command_in(history[c], id),
    decreases history.len(),
{
    if c < history.len() - 1 {
        assert(command_in(history[history.len() - 1], id) is None);
        let rest = history.drop_last();
        assert forall|j: int| c < j < rest.len() implies command_in(
            #[trigger] rest[j],
            id,
        ) is None by {
            assert(rest[j] == history[j]);
        }
        lemma_last_command(rest, id, c);
    }
}

/// A command that is done leaves one closed entry with its output where the pieces of it were: the
/// whole output where that goes on from the pieces, else the pieces, which are not lost.
pub proof fn law_a_done_command_keeps_its_output(
    s: AppStateView,
    id: Seq<char>,
    command: Seq<char>,
    aggregated: Option<Seq<char>>,
    status: Option<Seq<char>>,
    k: int,
)
    requires
        holds_output(s.transcript.history, id, k),
        s.transcript.history[k]->ExecOutput_0.output.len() > 0,
    ensures
        ({
            let pieces = s.transcript.history[k]->ExecOutput_0.output;
            let after = command_completed(s, id, command, aggregated, status);
            &&& after.transcript.history.len() == s.transcript.history.len()
            &&& after.transcript.history[k] matches HistoryCellModelView::ExecOutput(output)
                && output.item_id == id && output.command == command && !output.streaming
                && output.output.len() >= pieces.len() && output.output.take(pieces.len() as int)
                == pieces && (output.output == pieces || aggregated == Some(output.output))
            &&& aggregated is Some && aggregated->0.len() >= pieces.len() && aggregated->0.take(
                pieces.len() as int,
            ) == pieces ==> after.transcript.history[k]->ExecOutput_0.output == aggregated->0
            &&& forall|j: int|
                0 <= j < s.transcript.history.len() && j != k
                    ==> #[trigger] after.transcript.history[j] == s.transcript.history[j]
        }),
{
    lemma_last_output(s.transcript.history, id);
    let pieces = s.transcript.history[k]->ExecOutput_0.output;
    assert(pieces.take(pieces.len() as int) =~= pieces);
}

/// A command that is done without output on the way shows the output that it came with, or that
/// there was none; the entry is closed.
pub proof fn law_a_done_command_shows_its_output(
    s: AppStateView,
    id: Seq<char>,
    command: Seq<char>,
    output: Seq<char>,
    status: Option<Seq<char>>,
)
    requires
        without_output(s.transcript.history, id),
    ensures
        ({
            let after = command_completed(s, id, command, Some(output), status).transcript.history;
            &&& after.drop_last() == s.transcript.history
            &&& after.last() matches HistoryCellModelView::ExecOutput(cell) && cell.item_id == id
                && cell.command == command && !cell.streaming
            &&& !text::blank(output) ==> after.last()->ExecOutput_0.output == output
            &&& text::blank(output) ==> text::begins(
                after.last()->ExecOutput_0.output,
                "<no output>"@,
            )
        }),
{
    lemma_last_output(s.transcript.history, id);
    let after = command_completed(s, id, command, Some(output), status).transcript.history;
    assert(after.drop_last() =~= s.transcript.history);
    let none = "<no output>"@;
    assert(none.take(none.len() as int) =~= none);
    reveal_strlit("<no output>");
    reveal_strlit("<no output> (");
    if status is Some {
        assert(("<no output> ("@ + status->0 + ")"@).take(11) =~= none);
    }
}

/// A command that starts is shown with its identifier and its words; a change of files is told of,
/// and a plan with anything in it; everything else leaves no trace, and it is said whether anything
/// was shown.
pub proof fn law_items_are_projected(s: AppStateView, item: ProjectableThreadItemView)
    ensures
        ({
            let started = item_projected(s, Some(item), ProjectedItemPhase::Started);
            let done = item_projected(s, Some(item), ProjectedItemPhase::Completed);
            &&& item_projected(s, None, ProjectedItemPhase::Started) == (s, false)
            &&& item_projected(s, None, ProjectedItemPhase::Completed) == (s, false)
            &&& match item {
                ProjectableThreadItemView::CommandExecution { id, command, .. } => {
                    &&& started.1 && done.1
                    &&& started.0.transcript.history.drop_last() == s.transcript.history
                    &&& started.0.transcript.history.last()
                        matches HistoryCellModelView::ExecCommand(cell) && cell.item_id == id
                        && cell.command == command
                },
                ProjectableThreadItemView::FileChange { .. } => {
                    &&& started == done && done.1
                    &&& done.0.transcript.history.drop_last() == s.transcript.history
                    &&& done.0.transcript.history.last() is PatchSummary
                },
                ProjectableThreadItemView::Plan { text } => {
                    &&& started == (s, false)
                    &&& text::blank(text) ==> done == (s, false)
                    &&& !text::blank(text) ==> done.1 && done.0.transcript.history.drop_last()
                        == s.transcript.history && (done.0.transcript.history.last()
                        matches HistoryCellModelView::PlanUpdate(cell) && cell.summary
                        == text::trim_of(text))
                },
            }
        }),
{
    let started = item_projected(s, Some(item), ProjectedItemPhase::Started).0.transcript.history;
    let done = item_projected(s, Some(item), ProjectedItemPhase::Completed).0.transcript.history;
    if started.len() == s.transcript.history.len() + 1 {
        assert(started.drop_last() =~= s.transcript.history);
    }
    if !(item is CommandExecution) && done.len() == s.transcript.history.len() + 1 {
        assert(done.drop_last() =~= s.transcript.history);
    }
}

/// What is told of a change of files names every file, as long as there are three at most, and the
/// first three of more; and it names how the change went.
pub proof fn law_a_change_names_its_files(
    changes: Seq<ProjectedFileChangeView>,
    status: Option<Seq<char>>,
    i: int,
)
    requires
        0 <= i < changes.len(),
        i < 3,
    ensures
        text::contains_text(change_summary(changes, status), changes[i].path),
        text::contains_text(change_summary(changes, status), changes[i].kind),
        status is Some ==> text::contains_text(change_summary(changes, status), status->0),
        changes.len() > 3 ==> text::contains_text(
            change_summary(changes, status),
            text::decimal((changes.len() - 3) as nat),
        ),
{
    let parts = change_parts(changes);
    let details = text::join_of(parts, ", "@);
    let whole = change_summary(changes, status);
    let none = Seq::<char>::empty();
    let head = match status {
        Some(status) => "Patch "@ + status + ": "@,
        None => "Patch: "@,
    };
    assert(whole =~= head + details + none);
    text::lemma_contains_inside(head, details, none);
    assert(text::contains_text(whole, changes[i].path) && text::contains_text(
        whole,
        changes[i].kind,
    )) by {
        text::lemma_join_contains(parts, ", "@, i);
        assert(parts[i] == change_label(changes[i]));
        lemma_change_label(changes[i]);
        text::lemma_contains_trans(whole, details, parts[i]);
        text::lemma_contains_trans(whole, parts[i], changes[i].path);
        text::lemma_contains_trans(whole, parts[i], changes[i].kind);
    }
    if let Some(words) = status {
        assert(text::contains_text(whole, words)) by {
            assert(whole =~= "Patch "@ + words + (": "@ + details));
            text::lemma_contains_inside("Patch "@, words, ": "@ + details);
        }
    }
    if changes.len() > 3 {
        let n = text::decimal((changes.len() - 3) as nat);
        assert(text::contains_text(whole, n)) by {
            text::lemma_join_contains(parts, ", "@, 3);
            assert(parts[3] == "+"@ + n + " more"@);
            text::lemma_contains_inside("+"@, n, " more"@);
            text::lemma_contains_trans(whole, details, parts[3]);
            text::lemma_contains_trans(whole, parts[3], n);
        }
    }
}

proof fn lemma_change_label(change: ProjectedFileChangeView)
    ensures
        text::contains_text(change_label(change), change.path),
        text::contains_text(change_label(change), change.kind),
{
    let none = Seq::<char>::empty();
    let label = change_label(change);
    let rest = " ("@ + change.kind + ")"@;
    assert(label =~= none + change.path + rest);
    text::lemma_contains_inside(none, change.path, rest);
    text::lemma_contains_inside(change.path + " ("@, change.kind, ")"@);
}

/// What is told of a plan names the words that explain it, if any, and every step.
pub proof fn law_a_plan_names_its_steps(
    explanation: Option<Seq<char>>,
    plan: Seq<RestoredPlanStepView>,
    i: int,
)
    requires
        0 <= i < plan.len(),
    ensures
        text::contains_text(plan_summary(explanation, plan), text::trim_of(plan[i].step)),
        text::contains_text(
            plan_summary(explanation, plan),
            match plan[i].status {
                RestoredPlanStepStatus::Pending => "[pending] "@,
                RestoredPlanStepStatus::InProgress => "[in_progress] "@,
                RestoredPlanStepStatus::Completed => "[completed] "@,
            } + text::trim_of(plan[i].step),
        ),
        explanation is Some && !text::blank(explanation->0) ==> text::contains_text(
            plan_summary(explanation, plan),
            text::trim_of(explanation->0),
        ),
{
    let parts = plan_parts(explanation, plan);
    let steps = Seq::new(plan.len(), |j: int| plan_step_label(plan[j]));
    let whole = plan_summary(explanation, plan);
    text::lemma_join_contains(parts, " | "@, parts.len() - 1);
    text::lemma_join_contains(steps, "; "@, i);
    let listed = text::join_of(steps, "; "@);
    assert(parts[parts.len() - 1] == listed);
    let label = plan_step_label(plan[i]);
    text::lemma_contains_trans(whole, listed, label);
    let step = text::trim_of(plan[i].step);
    let head = "["@ + plan_status_label(plan[i].status) + "] "@;
    let none = Seq::<char>::empty();
    assert(label =~= head + step + none);
    text::lemma_contains_inside(head, step, none);
    text::lemma_contains_trans(whole, label, step);
    reveal_strlit("[");
    reveal_strlit("] ");
    reveal_strlit("pending");
    reveal_strlit("in_progress");
    reveal_strlit("completed");
    reveal_strlit("[pending] ");
    reveal_strlit("[in_progress] ");
    reveal_strlit("[completed] ");
    match plan[i].status {
        RestoredPlanStepStatus::Pending => {
            assert(head =~= "[pending] "@);
        },
        RestoredPlanStepStatus::InProgress => {
            assert(head =~= "[in_progress] "@);
        },
        RestoredPlanStepStatus::Completed => {
            assert(head =~= "[completed] "@);
        },
    }
    if explanation is Some && !text::blank(explanation->0) {
        text::lemma_join_contains(parts, " | "@, 0);
    }
}

/// Closing the entries stops the last of the assistant from growing, and changes no word of any.
pub proof fn law_finalizing_changes_no_word(s: AppStateView, i: int)
    requires
        0 <= i < s.transcript.history.len(),
    ensures
        ({
            let before = s.transcript.history[i];
            let after = finalized(s).transcript.history[i];
            match before {
                HistoryCellModelView::AssistantMessage(said) => after
                    matches HistoryCellModelView::AssistantMessage(cell) && cell.text == said.text
                    && (cell.streaming ==> said.streaming) && ((forall|j: int|
                    i < j < s.transcript.history.len() ==> !((#[trigger] s.transcript.history[j])
                        is AssistantMessage)) ==> !cell.streaming),
                HistoryCellModelView::ExecOutput(held) => after
                    matches HistoryCellModelView::ExecOutput(cell) && cell.output == held.output
                    && cell.command == held.command && cell.item_id == held.item_id
                    && !cell.streaming,
                _ => after == before,
            }
        }),
        finalized(s) == (AppStateView { transcript: finalized(s).transcript, ..s }),
{
    lemma_last_assistant(s.transcript.history);
}

/// Where a turn is followed again, the last entry of the assistant and the last output grow again;
/// no word changes.
pub proof fn law_a_followed_turn_grows_again(s: AppStateView, i: int)
    requires
        0 <= i < s.transcript.history.len(),
    ensures
        marked_live(s).transcript.history.len() == s.transcript.history.len(),
        ({
            let before = s.transcript.history[i];
            let after = marked_live(s).transcript.history[i];
            match before {
                HistoryCellModelView::AssistantMessage(said) => after
                    matches HistoryCellModelView::AssistantMessage(cell) && cell.text == said.text
                    && (said.streaming ==> cell.streaming) && ((forall|j: int|
                    i < j < s.transcript.history.len() ==> !((#[trigger] s.transcript.history[j])
                        is AssistantMessage)) ==> cell.streaming),
                HistoryCellModelView::ExecOutput(held) => after
                    matches HistoryCellModelView::ExecOutput(cell) && cell.output == held.output
                    && cell.command == held.command && cell.item_id == held.item_id && (
                held.streaming ==> cell.streaming) && ((forall|j: int|
                    i < j < s.transcript.history.len() ==> !((#[trigger] s.transcript.history[j])
                        is ExecOutput)) ==> cell.streaming),
                _ => after == before,
            }
        }),
        marked_live(s) == (AppStateView { transcript: marked_live(s).transcript, ..s }),
{
    let history = s.transcript.history;
    let once = assistant_marked(s, true).transcript.history;
    lemma_last_assistant(history);
    lemma_last_any_output(once);
    assert forall|j: int| 0 <= j < history.len() implies ((#[trigger] once[j]) is ExecOutput
        <==> history[j] is ExecOutput) by {}
    if history[i] is ExecOutput && (forall|j: int|
        i < j < history.len() ==> !((#[trigger] history[j]) is ExecOutput)) {
        assert(once[i] is ExecOutput);
        let k = last_any_output(once)->0;
        if k < i {
            assert(!(once[i] is ExecOutput));
        }
        if i < k {
            assert(!(history[k] is ExecOutput));
        }
    }
}

proof fn lemma_last_any_output(history: Seq<HistoryCellModelView>)
    ensures
        match last_any_output(history) {
            Some(k) => 0 <= k < history.len() && history[k] is ExecOutput && (forall|j: int|
                k < j < history.len() ==> !((#[trigger] history[j]) is ExecOutput)),
            None => forall|j: int|
                0 <= j < history.len() ==> !((#[trigger] history[j]) is ExecOutput),
        },
    decreases history.len(),
{
    if history.len() > 0 && !(history.last() is ExecOutput) {
        let rest = history.drop_last();
        lemma_last_any_output(rest);
        assert forall|j: int| 0 <= j < rest.len() implies #[trigger] history[j] == rest[j] by {}
    }
}

} // verus!
