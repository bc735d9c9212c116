//! The state that the client shows.
use vstd::prelude::*;
use crate::artifacts::{ArtifactManifest, ArtifactManifestView, ArtifactPreview, ArtifactPreviewView};
use crate::ids::{ArtifactId, LocalThreadId};
use crate::text;
use crate::threads::{ThreadRecord, ThreadRecordView};

verus! {

/// When the user is asked before something runs.
#[derive(Clone, Copy, Debug, PartialEq, Eq, Structural)]
pub enum ApprovalPolicy {
    Never,
    OnFailure,
    OnRequest,
    Untrusted,
}

/// What a command may touch.
#[derive(Clone, Copy, Debug, PartialEq, Eq, Structural)]
pub enum SandboxMode {
    ReadOnly,
    WorkspaceWrite,
    DangerFullAccess,
}

/// What an approval is asked for.
#[derive(Clone, Copy, Debug, PartialEq, Eq, Structural)]
pub enum ApprovalKind {
    CommandExecution,
    FileChange,
    PermissionRequest,
    RequestUserInput,
}

/// An approval that waits for an answer. `raw_payload` is JSON text.
#[derive(Debug, PartialEq)]
pub struct PendingApproval {
    pub id: String,
    pub kind: ApprovalKind,
    pub title: String,
    pub description: String,
    pub raw_payload: String,
}

/// The model of `PendingApproval`.
#[verifier::ext_equal]
pub struct PendingApprovalView {
    pub id: Seq<char>,
    pub kind: ApprovalKind,
    pub title: Seq<char>,
    pub description: Seq<char>,
    pub raw_payload: Seq<char>,
}

impl View for PendingApproval {
    type V = PendingApprovalView;

    open spec fn view(&self) -> PendingApprovalView {
        PendingApprovalView {
            id: self.id@,
            kind: self.kind,
            title: self.title@,
            description: self.description@,
            raw_payload: self.raw_payload@,
        }
    }
}

impl Clone for PendingApproval {
    fn clone(&self) -> (copy: Self)
        ensures
            copy@ == self@,
    {
        PendingApproval {
            id: self.id.clone(),
            kind: self.kind,
            title: self.title.clone(),
            description: self.description.clone(),
            raw_payload: self.raw_payload.clone(),
        }
    }
}

/// The state of the connection to the runtime.
#[derive(Clone, Copy, Debug, PartialEq, Eq, Structural)]
pub enum ConnectionState {
    Booting,
    Connecting,
    Initializing,
    Ready,
    Streaming,
    WaitingApproval,
    Disconnected,
    Reconnecting,
}

/// A conversation in the list, and whether it is the active one.
#[derive(Debug, PartialEq)]
pub struct ThreadListItem {
    pub thread: ThreadRecord,
    pub selected: bool,
}

/// The model of `ThreadListItem`.
#[verifier::ext_equal]
pub struct ThreadListItemView {
    pub thread: ThreadRecordView,
    pub selected: bool,
}

impl View for ThreadListItem {
    type V = ThreadListItemView;

    open spec fn view(&self) -> ThreadListItemView {
        ThreadListItemView {
            thread: self.thread@,
            selected: self.selected,
        }
    }
}

impl Clone for ThreadListItem {
    fn clone(&self) -> (copy: Self)
        ensures
            copy@ == self@,
    {
        ThreadListItem {
            thread: self.thread.clone(),
            selected: self.selected,
        }
    }
}

/// What the user said.
#[derive(Debug, PartialEq)]
pub struct UserMessageCell {
    pub text: String,
}

/// The model of `UserMessageCell`.
#[verifier::ext_equal]
pub struct UserMessageCellView {
    pub text: Seq<char>,
}

impl View for UserMessageCell {
    type V = UserMessageCellView;

    open spec fn view(&self) -> UserMessageCellView {
        UserMessageCellView {
            text: self.text@,
        }
    }
}

impl Clone for UserMessageCell {
    fn clone(&self) -> (copy: Self)
        ensures
            copy@ == self@,
    {
        UserMessageCell {
            text: self.text.clone(),
        }
    }
}

/// What the assistant said.
#[derive(Debug, PartialEq)]
pub struct AssistantMessageCell {
    pub text: String,
    pub streaming: bool,
}

/// The model of `AssistantMessageCell`.
#[verifier::ext_equal]
pub struct AssistantMessageCellView {
    pub text: Seq<char>,
    pub streaming: bool,
}

impl View for AssistantMessageCell {
    type V = AssistantMessageCellView;

    open spec fn view(&self) -> AssistantMessageCellView {
        AssistantMessageCellView {
            text: self.text@,
            streaming: self.streaming,
        }
    }
}

impl Clone for AssistantMessageCell {
    fn clone(&self) -> (copy: Self)
        ensures
            copy@ == self@,
    {
        AssistantMessageCell {
            text: self.text.clone(),
            streaming: self.streaming,
        }
    }
}

/// A command that was started.
#[derive(Debug, PartialEq)]
pub struct ExecCommandCell {
    pub item_id: String,
    pub command: String,
}

/// The model of `ExecCommandCell`.
#[verifier::ext_equal]
pub struct ExecCommandCellView {
    pub item_id: Seq<char>,
    pub command: Seq<char>,
}

impl View for ExecCommandCell {
    type V = ExecCommandCellView;

    open spec fn view(&self) -> ExecCommandCellView {
        ExecCommandCellView {
            item_id: self.item_id@,
            command: self.command@,
        }
    }
}

impl Clone for ExecCommandCell {
    fn clone(&self) -> (copy: Self)
        ensures
            copy@ == self@,
    {
        ExecCommandCell {
            item_id: self.item_id.clone(),
            command: self.command.clone(),
        }
    }
}

/// A command with its output.
#[derive(Debug, PartialEq)]
pub struct ExecOutputCell {
    pub item_id: String,
    pub command: String,
    pub output: String,
    pub streaming: bool,
}

/// The model of `ExecOutputCell`.
#[verifier::ext_equal]
pub struct ExecOutputCellView {
    pub item_id: Seq<char>,
    pub command: Seq<char>,
    pub output: Seq<char>,
    pub streaming: bool,
}

impl View for ExecOutputCell {
    type V = ExecOutputCellView;

    open spec fn view(&self) -> ExecOutputCellView {
        ExecOutputCellView {
            item_id: self.item_id@,
            command: self.command@,
            output: self.output@,
            streaming: self.streaming,
        }
    }
}

impl Clone for ExecOutputCell {
    fn clone(&self) -> (copy: Self)
        ensures
            copy@ == self@,
    {
        ExecOutputCell {
            item_id: self.item_id.clone(),
            command: self.command.clone(),
            output: self.output.clone(),
            streaming: self.streaming,
        }
    }
}

/// A change of files.
#[derive(Debug, PartialEq)]
pub struct PatchSummaryCell {
    pub summary: String,
}

/// The model of `PatchSummaryCell`.
#[verifier::ext_equal]
pub struct PatchSummaryCellView {
    pub summary: Seq<char>,
}

impl View for PatchSummaryCell {
    type V = PatchSummaryCellView;

    open spec fn view(&self) -> PatchSummaryCellView {
        PatchSummaryCellView {
            summary: self.summary@,
        }
    }
}

impl Clone for PatchSummaryCell {
    fn clone(&self) -> (copy: Self)
        ensures
            copy@ == self@,
    {
        PatchSummaryCell {
            summary: self.summary.clone(),
        }
    }
}

/// A new state of the plan.
#[derive(Debug, PartialEq)]
pub struct PlanUpdateCell {
    pub summary: String,
}

/// The model of `PlanUpdateCell`.
#[verifier::ext_equal]
pub struct PlanUpdateCellView {
    pub summary: Seq<char>,
}

impl View for PlanUpdateCell {
    type V = PlanUpdateCellView;

    open spec fn view(&self) -> PlanUpdateCellView {
        PlanUpdateCellView {
            summary: self.summary@,
        }
    }
}

impl Clone for PlanUpdateCell {
    fn clone(&self) -> (copy: Self)
        ensures
            copy@ == self@,
    {
        PlanUpdateCell {
            summary: self.summary.clone(),
        }
    }
}

/// A request for an approval.
#[derive(Debug, PartialEq)]
pub struct ApprovalCell {
    pub approval: PendingApproval,
}

/// The model of `ApprovalCell`.
#[verifier::ext_equal]
pub struct ApprovalCellView {
    pub approval: PendingApprovalView,
}

impl View for ApprovalCell {
    type V = ApprovalCellView;

    open spec fn view(&self) -> ApprovalCellView {
        ApprovalCellView {
            approval: self.approval@,
        }
    }
}

impl Clone for ApprovalCell {
    fn clone(&self) -> (copy: Self)
        ensures
            copy@ == self@,
    {
        ApprovalCell {
            approval: self.approval.clone(),
        }
    }
}

/// An artifact that was made or changed.
#[derive(Debug, PartialEq)]
pub struct ArtifactEventCell {
    pub manifest: ArtifactManifest,
    pub preview: ArtifactPreview,
}

/// The model of `ArtifactEventCell`.
#[verifier::ext_equal]
pub struct ArtifactEventCellView {
    pub manifest: ArtifactManifestView,
    pub preview: ArtifactPreviewView,
}

impl View for ArtifactEventCell {
    type V = ArtifactEventCellView;

    open spec fn view(&self) -> ArtifactEventCellView {
        ArtifactEventCellView {
            manifest: self.manifest@,
            preview: self.preview@,
        }
    }
}

impl Clone for ArtifactEventCell {
    fn clone(&self) -> (copy: Self)
        ensures
            copy@ == self@,
    {
        ArtifactEventCell {
            manifest: self.manifest.clone(),
            preview: self.preview.clone(),
        }
    }
}

/// A warning.
#[derive(Debug, PartialEq)]
pub struct WarningCell {
    pub message: String,
}

/// The model of `WarningCell`.
#[verifier::ext_equal]
pub struct WarningCellView {
    pub message: Seq<char>,
}

impl View for WarningCell {
    type V = WarningCellView;

    open spec fn view(&self) -> WarningCellView {
        WarningCellView {
            message: self.message@,
        }
    }
}

impl Clone for WarningCell {
    fn clone(&self) -> (copy: Self)
        ensures
            copy@ == self@,
    {
        WarningCell {
            message: self.message.clone(),
        }
    }
}

/// An error.
#[derive(Debug, PartialEq)]
pub struct ErrorCell {
    pub message: String,
}

/// The model of `ErrorCell`.
#[verifier::ext_equal]
pub struct ErrorCellView {
    pub message: Seq<char>,
}

impl View for ErrorCell {
    type V = ErrorCellView;

    open spec fn view(&self) -> ErrorCellView {
        ErrorCellView {
            message: self.message@,
        }
    }
}

impl Clone for ErrorCell {
    fn clone(&self) -> (copy: Self)
        ensures
            copy@ == self@,
    {
        ErrorCell {
            message: self.message.clone(),
        }
    }
}

/// A notice.
#[derive(Debug, PartialEq)]
pub struct StatusCell {
    pub message: String,
}

/// The model of `StatusCell`.
#[verifier::ext_equal]
pub struct StatusCellView {
    pub message: Seq<char>,
}

impl View for StatusCell {
    type V = StatusCellView;

    open spec fn view(&self) -> StatusCellView {
        StatusCellView {
            message: self.message@,
        }
    }
}

impl Clone for StatusCell {
    fn clone(&self) -> (copy: Self)
        ensures
            copy@ == self@,
    {
        StatusCell {
            message: self.message.clone(),
        }
    }
}

/// One entry of the transcript.
#[derive(Debug, PartialEq)]
pub enum HistoryCellModel {
    UserMessage(UserMessageCell),
    AssistantMessage(AssistantMessageCell),
    ExecCommand(ExecCommandCell),
    ExecOutput(ExecOutputCell),
    PatchSummary(PatchSummaryCell),
    PlanUpdate(PlanUpdateCell),
    ApprovalRequest(ApprovalCell),
    ArtifactCreated(ArtifactEventCell),
    ArtifactUpdated(ArtifactEventCell),
    Warning(WarningCell),
    Error(ErrorCell),
    Status(StatusCell),
}

/// The model of `HistoryCellModel`.
#[verifier::ext_equal]
pub enum HistoryCellModelView {
    UserMessage(UserMessageCellView),
    AssistantMessage(AssistantMessageCellView),
    ExecCommand(ExecCommandCellView),
    ExecOutput(ExecOutputCellView),
    PatchSummary(PatchSummaryCellView),
    PlanUpdate(PlanUpdateCellView),
    ApprovalRequest(ApprovalCellView),
    ArtifactCreated(ArtifactEventCellView),
    ArtifactUpdated(ArtifactEventCellView),
    Warning(WarningCellView),
    Error(ErrorCellView),
    Status(StatusCellView),
}

impl View for HistoryCellModel {
    type V = HistoryCellModelView;

    open spec fn view(&self) -> HistoryCellModelView {
        match *self {
            HistoryCellModel::UserMessage(inner) => HistoryCellModelView::UserMessage(inner@),
            HistoryCellModel::AssistantMessage(inner) => HistoryCellModelView::AssistantMessage(inner@),
            HistoryCellModel::ExecCommand(inner) => HistoryCellModelView::ExecCommand(inner@),
            HistoryCellModel::ExecOutput(inner) => HistoryCellModelView::ExecOutput(inner@),
            HistoryCellModel::PatchSummary(inner) => HistoryCellModelView::PatchSummary(inner@),
            HistoryCellModel::PlanUpdate(inner) => HistoryCellModelView::PlanUpdate(inner@),
            HistoryCellModel::ApprovalRequest(inner) => HistoryCellModelView::ApprovalRequest(inner@),
            HistoryCellModel::ArtifactCreated(inner) => HistoryCellModelView::ArtifactCreated(inner@),
            HistoryCellModel::ArtifactUpdated(inner) => HistoryCellModelView::ArtifactUpdated(inner@),
            HistoryCellModel::Warning(inner) => HistoryCellModelView::Warning(inner@),
            HistoryCellModel::Error(inner) => HistoryCellModelView::Error(inner@),
            HistoryCellModel::Status(inner) => HistoryCellModelView::Status(inner@),
        }
    }
}

impl Clone for HistoryCellModel {
    fn clone(&self) -> (copy: Self)
        ensures
            copy@ == self@,
    {
        match self {
            HistoryCellModel::UserMessage(inner) => HistoryCellModel::UserMessage(inner.clone()),
            HistoryCellModel::AssistantMessage(inner) => HistoryCellModel::AssistantMessage(inner.clone()),
            HistoryCellModel::ExecCommand(inner) => HistoryCellModel::ExecCommand(inner.clone()),
            HistoryCellModel::ExecOutput(inner) => HistoryCellModel::ExecOutput(inner.clone()),
            HistoryCellModel::PatchSummary(inner) => HistoryCellModel::PatchSummary(inner.clone()),
            HistoryCellModel::PlanUpdate(inner) => HistoryCellModel::PlanUpdate(inner.clone()),
            HistoryCellModel::ApprovalRequest(inner) => HistoryCellModel::ApprovalRequest(inner.clone()),
            HistoryCellModel::ArtifactCreated(inner) => HistoryCellModel::ArtifactCreated(inner.clone()),
            HistoryCellModel::ArtifactUpdated(inner) => HistoryCellModel::ArtifactUpdated(inner.clone()),
            HistoryCellModel::Warning(inner) => HistoryCellModel::Warning(inner.clone()),
            HistoryCellModel::Error(inner) => HistoryCellModel::Error(inner.clone()),
            HistoryCellModel::Status(inner) => HistoryCellModel::Status(inner.clone()),
        }
    }
}

/// The transcript.
#[derive(Debug, PartialEq)]
pub struct TranscriptState {
    pub history: Vec<HistoryCellModel>,
}

/// The model of `TranscriptState`.
#[verifier::ext_equal]
pub struct TranscriptStateView {
    pub history: Seq<HistoryCellModelView>,
}

impl View for TranscriptState {
    type V = TranscriptStateView;

    open spec fn view(&self) -> TranscriptStateView {
        TranscriptStateView {
            history: text::views(self.history@),
        }
    }
}

impl Clone for TranscriptState {
    fn clone(&self) -> (copy: Self)
        ensures
            copy@ == self@,
    {
        TranscriptState {
            history: text::copy_all(&self.history),
        }
    }
}

broadcast use text::lemma_views_empty;

impl Default for TranscriptState {
    fn default() -> (made: Self)
        ensures
            made@ == (TranscriptStateView { history: Seq::empty() }),
    {
        TranscriptState { history: Vec::new() }
    }
}

/// The line being typed. `cursor` counts bytes.
#[derive(Debug, PartialEq)]
pub struct ComposerState {
    pub buffer: String,
    pub cursor: usize,
    pub skill_query: Option<String>,
}

/// The model of `ComposerState`.
#[verifier::ext_equal]
pub struct ComposerStateView {
    pub buffer: Seq<char>,
    pub cursor: usize,
    pub skill_query: Option<Seq<char>>,
}

impl View for ComposerState {
    type V = ComposerStateView;

    open spec fn view(&self) -> ComposerStateView {
        ComposerStateView {
            buffer: self.buffer@,
            cursor: self.cursor,
            skill_query: text::opt_view(self.skill_query),
        }
    }
}

impl Clone for ComposerState {
    fn clone(&self) -> (copy: Self)
        ensures
            copy@ == self@,
    {
        ComposerState {
            buffer: self.buffer.clone(),
            cursor: self.cursor,
            skill_query: text::copy_maybe(&self.skill_query),
        }
    }
}

impl Default for ComposerState {
    fn default() -> (made: Self)
        ensures
            made@ == (ComposerStateView { buffer: Seq::empty(), cursor: 0, skill_query: None }),
    {
        ComposerState { buffer: String::new(), cursor: 0, skill_query: None }
    }
}

/// The artifacts of the session.
#[derive(Debug, PartialEq)]
pub struct ArtifactUiState {
    pub manifests: Vec<ArtifactManifest>,
    pub selected_artifact_id: Option<ArtifactId>,
}

/// The model of `ArtifactUiState`.
#[verifier::ext_equal]
pub struct ArtifactUiStateView {
    pub manifests: Seq<ArtifactManifestView>,
    pub selected_artifact_id: Option<Seq<char>>,
}

impl View for ArtifactUiState {
    type V = ArtifactUiStateView;

    open spec fn view(&self) -> ArtifactUiStateView {
        ArtifactUiStateView {
            manifests: text::views(self.manifests@),
            selected_artifact_id: text::opt_view(self.selected_artifact_id),
        }
    }
}

impl Clone for ArtifactUiState {
    fn clone(&self) -> (copy: Self)
        ensures
            copy@ == self@,
    {
        ArtifactUiState {
            manifests: text::copy_all(&self.manifests),
            selected_artifact_id: text::copy_maybe(&self.selected_artifact_id),
        }
    }
}

impl Default for ArtifactUiState {
    fn default() -> (made: Self)
        ensures
            made@ == (ArtifactUiStateView { manifests: Seq::empty(), selected_artifact_id: None }),
    {
        ArtifactUiState { manifests: Vec::new(), selected_artifact_id: None }
    }
}

/// The approval that is pending, if any.
#[derive(Debug, PartialEq)]
pub struct ApprovalUiState {
    pub pending: Option<PendingApproval>,
}

/// The model of `ApprovalUiState`.
#[verifier::ext_equal]
pub struct ApprovalUiStateView {
    pub pending: Option<PendingApprovalView>,
}

impl View for ApprovalUiState {
    type V = ApprovalUiStateView;

    open spec fn view(&self) -> ApprovalUiStateView {
        ApprovalUiStateView {
            pending: text::opt_view(self.pending),
        }
    }
}

impl Clone for ApprovalUiState {
    fn clone(&self) -> (copy: Self)
        ensures
            copy@ == self@,
    {
        ApprovalUiState {
            pending: text::copy_maybe(&self.pending),
        }
    }
}

impl Default for ApprovalUiState {
    fn default() -> (made: Self)
        ensures
            made@ == (ApprovalUiStateView { pending: None }),
    {
        ApprovalUiState { pending: None }
    }
}

/// What the banner shows of the runtime.
#[derive(Debug, PartialEq)]
pub struct RuntimeBannerState {
    pub cwd: Option<String>,
    pub codex_version: Option<String>,
    pub approval_policy: Option<ApprovalPolicy>,
    pub sandbox_mode: Option<SandboxMode>,
}

/// The model of `RuntimeBannerState`.
#[verifier::ext_equal]
pub struct RuntimeBannerStateView {
    pub cwd: Option<Seq<char>>,
    pub codex_version: Option<Seq<char>>,
    pub approval_policy: Option<ApprovalPolicy>,
    pub sandbox_mode: Option<SandboxMode>,
}

impl View for RuntimeBannerState {
    type V = RuntimeBannerStateView;

    open spec fn view(&self) -> RuntimeBannerStateView {
        RuntimeBannerStateView {
            cwd: text::opt_view(self.cwd),
            codex_version: text::opt_view(self.codex_version),
            approval_policy: self.approval_policy,
            sandbox_mode: self.sandbox_mode,
        }
    }
}

impl Clone for RuntimeBannerState {
    fn clone(&self) -> (copy: Self)
        ensures
            copy@ == self@,
    {
        RuntimeBannerState {
            cwd: text::copy_maybe(&self.cwd),
            codex_version: text::copy_maybe(&self.codex_version),
            approval_policy: self.approval_policy,
            sandbox_mode: self.sandbox_mode,
        }
    }
}

impl Default for RuntimeBannerState {
    fn default() -> (made: Self)
        ensures
            made@ == (RuntimeBannerStateView { cwd: None, codex_version: None, approval_policy: None, sandbox_mode: None }),
    {
        RuntimeBannerState { cwd: None, codex_version: None, approval_policy: None, sandbox_mode: None }
    }
}

/// The state of the client.
#[derive(Debug, PartialEq)]
pub struct AppState {
    pub connection: ConnectionState,
    pub active_thread_id: Option<LocalThreadId>,
    pub runtime: RuntimeBannerState,
    pub threads: Vec<ThreadListItem>,
    pub transcript: TranscriptState,
    pub composer: ComposerState,
    pub artifacts: ArtifactUiState,
    pub approvals: ApprovalUiState,
}

/// The model of `AppState`.
#[verifier::ext_equal]
pub struct AppStateView {
    pub connection: ConnectionState,
    pub active_thread_id: Option<Seq<char>>,
    pub runtime: RuntimeBannerStateView,
    pub threads: Seq<ThreadListItemView>,
    pub transcript: TranscriptStateView,
    pub composer: ComposerStateView,
    pub artifacts: ArtifactUiStateView,
    pub approvals: ApprovalUiStateView,
}

impl View for AppState {
    type V = AppStateView;

    open spec fn view(&self) -> AppStateView {
        AppStateView {
            connection: self.connection,
            active_thread_id: text::opt_view(self.active_thread_id),
            runtime: self.runtime@,
            threads: text::views(self.threads@),
            transcript: self.transcript@,
            composer: self.composer@,
            artifacts: self.artifacts@,
            approvals: self.approvals@,
        }
    }
}

impl Clone for AppState {
    fn clone(&self) -> (copy: Self)
        ensures
            copy@ == self@,
    {
        AppState {
            connection: self.connection,
            active_thread_id: text::copy_maybe(&self.active_thread_id),
            runtime: self.runtime.clone(),
            threads: text::copy_all(&self.threads),
            transcript: self.transcript.clone(),
            composer: self.composer.clone(),
            artifacts: self.artifacts.clone(),
            approvals: self.approvals.clone(),
        }
    }
}

/// A state with nothing in it, before the connection is up.
pub open spec fn blank_state() -> AppStateView {
    AppStateView {
        connection: ConnectionState::Booting,
        active_thread_id: None,
        runtime: RuntimeBannerStateView {
            cwd: None,
            codex_version: None,
            approval_policy: None,
            sandbox_mode: None,
        },
        threads: Seq::empty(),
        transcript: TranscriptStateView { history: Seq::empty() },
        composer: ComposerStateView { buffer: Seq::empty(), cursor: 0, skill_query: None },
        artifacts: ArtifactUiStateView { manifests: Seq::empty(), selected_artifact_id: None },
        approvals: ApprovalUiStateView { pending: None },
    }
}

impl Default for AppState {
    fn default() -> (made: Self)
        ensures
            made@ == blank_state(),
    {
        AppState {
            connection: ConnectionState::Booting,
            active_thread_id: None,
            runtime: RuntimeBannerState::default(),
            threads: Vec::new(),
            transcript: TranscriptState::default(),
            composer: ComposerState::default(),
            artifacts: ArtifactUiState::default(),
            approvals: ApprovalUiState::default(),
        }
    }
}

/// A state that nothing has happened to shows nothing, waits for nothing and knows nothing.
pub proof fn law_a_blank_state_is_blank()
    ensures
        blank_state().connection == ConnectionState::Booting,
        blank_state().transcript.history.len() == 0,
        blank_state().approvals.pending is None,
        blank_state().active_thread_id is None,
        blank_state().threads.len() == 0,
        blank_state().composer.buffer.len() == 0 && blank_state().composer.cursor == 0,
        blank_state().artifacts.manifests.len() == 0,
        blank_state().runtime.approval_policy is None && blank_state().runtime.sandbox_mode is None,
{
}

} // verus!
