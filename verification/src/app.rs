//! The client: what it holds, and how notifications, commands and replies change it.
use vstd::prelude::*;

use crate::artifacts::{ArtifactManifestView, ArtifactPreviewView};
use crate::ids::{LocalThreadId, LocalTurnId};
use crate::labels;
use crate::picker;
use crate::picker::SkillTokenMatch;
use crate::protocol::{
    ApprovalDecision, ApprovalRespondParams, ProjectableThreadItemView, ProjectedItemPhase,
    ServerNotification, ServerNotificationView, UserInput, UserInputView,
};
use crate::restore;
use crate::skills::{SkillDescriptor, SkillDescriptorView};
use crate::text;
use crate::threads::{ThreadRecord, ThreadRecordView, ThreadStatus, TurnRecordView};
use crate::transcript;
use crate::ui::{
    AppState, AppStateView, ApprovalCell, ApprovalCellView, ApprovalPolicy, ApprovalUiStateView,
    ArtifactUiStateView, AssistantMessageCell, AssistantMessageCellView, ConnectionState,
    HistoryCellModel, HistoryCellModelView, PendingApproval, PendingApprovalView, PlanUpdateCell,
    RuntimeBannerStateView, SandboxMode, ThreadListItem, ThreadListItemView, UserMessageCell,
    UserMessageCellView,
};

verus! {

broadcast use text::group_views;

/// The client: the state that it shows, the skill in use, the turn that runs, and whether it draws.
#[derive(Debug, PartialEq)]
pub struct TranscriptApp {
    pub state: AppState,
    pub selected_skill: Option<SkillDescriptor>,
    pub active_turn_id: Option<LocalTurnId>,
    pub interactive_rendering: bool,
}

/// The model of `TranscriptApp`.
#[verifier::ext_equal]
pub struct TranscriptAppView {
    pub state: AppStateView,
    pub selected_skill: Option<SkillDescriptorView>,
    pub active_turn_id: Option<Seq<char>>,
    pub interactive_rendering: bool,
}

impl View for TranscriptApp {
    type V = TranscriptAppView;

    open spec fn view(&self) -> TranscriptAppView {
        TranscriptAppView {
            state: self.state@,
            selected_skill: text::opt_view(self.selected_skill),
            active_turn_id: text::opt_view(self.active_turn_id),
            interactive_rendering: self.interactive_rendering,
        }
    }
}

impl Clone for TranscriptApp {
    fn clone(&self) -> (copy: Self)
        ensures
            copy@ == self@,
    {
        TranscriptApp {
            state: self.state.clone(),
            selected_skill: text::copy_maybe(&self.selected_skill),
            active_turn_id: text::copy_maybe(&self.active_turn_id),
            interactive_rendering: self.interactive_rendering,
        }
    }
}

/// The client before the session begins.
pub open spec fn fresh_app() -> TranscriptAppView {
    TranscriptAppView {
        state: AppStateView { connection: ConnectionState::Connecting, ..crate::ui::blank_state() },
        selected_skill: None,
        active_turn_id: None,
        interactive_rendering: false,
    }
}

/// A client with another state.
pub open spec fn with_state(a: TranscriptAppView, state: AppStateView) -> TranscriptAppView {
    TranscriptAppView { state, ..a }
}

/// A client with one more entry in its history.
pub open spec fn app_with_cell(a: TranscriptAppView, cell: HistoryCellModelView) -> TranscriptAppView {
    with_state(a, transcript::with_cell(a.state, cell))
}

/// A client with a notice.
pub open spec fn told(a: TranscriptAppView, message: Seq<char>) -> TranscriptAppView {
    app_with_cell(a, transcript::status_cell(message))
}

/// A client with a warning.
pub open spec fn warned(a: TranscriptAppView, message: Seq<char>) -> TranscriptAppView {
    app_with_cell(a, transcript::warning_cell(message))
}

/// A client with an error.
pub open spec fn failed(a: TranscriptAppView, message: Seq<char>) -> TranscriptAppView {
    app_with_cell(a, transcript::error_cell(message))
}

/// A state with another connection.
pub open spec fn connected(s: AppStateView, connection: ConnectionState) -> AppStateView {
    AppStateView { connection, ..s }
}

/// A state with another pending approval, or none.
pub open spec fn awaiting(s: AppStateView, pending: Option<PendingApprovalView>) -> AppStateView {
    AppStateView { approvals: ApprovalUiStateView { pending }, ..s }
}

// -- Conversations --------------------------------------------------------------------------

/// A state in which a conversation is the active one.
pub open spec fn thread_selected(s: AppStateView, id: Seq<char>) -> AppStateView {
    AppStateView {
        active_thread_id: Some(id),
        threads: Seq::new(
            s.threads.len(),
            |i: int|
                ThreadListItemView {
                    thread: s.threads[i].thread,
                    selected: s.threads[i].thread.id == id,
                },
        ),
        ..s
    }
}

/// A state with a new list of conversations.
pub open spec fn threads_listed(s: AppStateView, threads: Seq<ThreadRecordView>) -> AppStateView {
    AppStateView {
        threads: Seq::new(
            threads.len(),
            |i: int|
                ThreadListItemView {
                    thread: threads[i],
                    selected: s.active_thread_id == Some(threads[i].id),
                },
        ),
        ..s
    }
}

/// What came of asking for the list of conversations.
pub open spec fn listing_view(listing: Result<Vec<ThreadRecord>, String>) -> Result<
    Seq<ThreadRecordView>,
    Seq<char>,
> {
    match listing {
        Ok(threads) => Ok(text::views(threads@)),
        Err(error) => Err(error@),
    }
}

// -- Notifications -----------------------------------------------------------------------------

/// Whether a notification makes the client ask for the list of conversations.
pub open spec fn needs_listing(n: ServerNotificationView) -> bool {
    n is ThreadStarted || n is ThreadStatusChanged
}

/// The state after more of what the assistant says.
pub open spec fn message_streamed(s: AppStateView, delta: Seq<char>) -> AppStateView {
    let history = s.transcript.history;
    if history.len() > 0 && history.last() is AssistantMessage
        && history.last()->AssistantMessage_0.streaming {
        transcript::with_history(
            s,
            history.update(
                history.len() - 1,
                HistoryCellModelView::AssistantMessage(
                    AssistantMessageCellView {
                        text: history.last()->AssistantMessage_0.text + delta,
                        streaming: true,
                    },
                ),
            ),
        )
    } else {
        transcript::with_cell(
            s,
            HistoryCellModelView::AssistantMessage(
                AssistantMessageCellView { text: delta, streaming: true },
            ),
        )
    }
}

/// The state after a conversation changed its own state.
pub open spec fn status_changed(s: AppStateView, status: ThreadStatus) -> AppStateView {
    if status == ThreadStatus::WaitingApproval {
        s
    } else {
        connected(
            awaiting(s, None),
            if s.connection != ConnectionState::WaitingApproval {
                s.connection
            } else if status == ThreadStatus::Running {
                ConnectionState::Streaming
            } else {
                ConnectionState::Ready
            },
        )
    }
}

/// The client right after a notification, before it looks at its connection.
pub open spec fn notification_taken(
    a: TranscriptAppView,
    n: ServerNotificationView,
    threads: Seq<ThreadRecordView>,
) -> TranscriptAppView {
    let s = a.state;
    match n {
        ServerNotificationView::ThreadStarted { thread } => with_state(
            a,
            threads_listed(thread_selected(s, thread.id), threads),
        ),
        ServerNotificationView::ThreadStatusChanged { thread } => with_state(
            a,
            status_changed(threads_listed(thread_selected(s, thread.id), threads), thread.status),
        ),
        ServerNotificationView::TurnStarted { turn, .. } => TranscriptAppView {
            active_turn_id: Some(turn.id),
            state: connected(s, ConnectionState::Streaming),
            ..a
        },
        ServerNotificationView::TurnCompleted { .. } => TranscriptAppView {
            active_turn_id: None,
            state: transcript::finalized(connected(awaiting(s, None), ConnectionState::Ready)),
            ..a
        },
        ServerNotificationView::PlanUpdated { summary, .. } => app_with_cell(
            a,
            transcript::plan_cell(summary),
        ),
        ServerNotificationView::ItemStarted { item, .. } => with_state(
            a,
            transcript::item_projected(s, item, ProjectedItemPhase::Started).0,
        ),
        ServerNotificationView::ItemCompleted { item, .. } => with_state(
            a,
            transcript::item_projected(s, item, ProjectedItemPhase::Completed).0,
        ),
        ServerNotificationView::AgentMessageDelta { delta, .. } => with_state(
            a,
            message_streamed(s, delta),
        ),
        ServerNotificationView::CommandExecutionOutputDelta { item_id, delta, .. } => with_state(
            a,
            transcript::delta_appended(s, item_id, delta),
        ),
        ServerNotificationView::ArtifactCreated { manifest, preview } => with_state(
            a,
            transcript::with_cell(
                AppStateView {
                    artifacts: ArtifactUiStateView {
                        manifests: s.artifacts.manifests.push(manifest),
                        ..s.artifacts
                    },
                    ..s
                },
                transcript::artifact_cell(manifest, preview, false),
            ),
        ),
        ServerNotificationView::ArtifactUpdated { manifest, preview } => with_state(
            a,
            transcript::with_cell(
                restore::with_artifact(s, manifest),
                transcript::artifact_cell(manifest, preview, true),
            ),
        ),
        ServerNotificationView::RuntimeStatusChanged => a,
        ServerNotificationView::SkillsChanged { skills } => told(
            a,
            "Skills changed ("@ + text::decimal(skills.len()) + " total)"@,
        ),
        ServerNotificationView::ApprovalRequested { approval } => with_state(
            a,
            connected(
                transcript::with_cell(
                    awaiting(s, Some(approval)),
                    HistoryCellModelView::ApprovalRequest(ApprovalCellView { approval }),
                ),
                ConnectionState::WaitingApproval,
            ),
        ),
        ServerNotificationView::Warning { message } => warned(a, message),
        ServerNotificationView::Error { message } => TranscriptAppView {
            active_turn_id: None,
            state: connected(
                transcript::with_cell(awaiting(s, None), transcript::error_cell(message)),
                ConnectionState::Ready,
            ),
            ..a
        },
    }
}

/// A client whose assistant is silent where the connection is idle.
pub open spec fn settled(a: TranscriptAppView) -> TranscriptAppView {
    if a.state.connection == ConnectionState::Ready {
        with_state(a, transcript::assistant_marked(a.state, false))
    } else {
        a
    }
}

/// The client after a notification.
pub open spec fn notified(
    a: TranscriptAppView,
    n: ServerNotificationView,
    threads: Seq<ThreadRecordView>,
) -> TranscriptAppView {
    settled(notification_taken(a, n, threads))
}

/// The conversation that a notification is about, where it is about one as a whole.
pub open spec fn thread_of(n: ServerNotificationView) -> Seq<char> {
    match n {
        ServerNotificationView::ThreadStarted { thread } => thread.id,
        ServerNotificationView::ThreadStatusChanged { thread } => thread.id,
        _ => Seq::empty(),
    }
}

impl TranscriptApp {
    /// The client before the session begins.
    pub fn new() -> (app: Self)
        ensures
            app@ == fresh_app(),
    {
        let mut state: AppState = AppState::default();
        state.connection = ConnectionState::Connecting;
        TranscriptApp {
            state,
            selected_skill: None,
            active_turn_id: None,
            interactive_rendering: false,
        }
    }

    /// Adds a notice.
    pub fn push_status(&mut self, message: &str)
        ensures
            final(self)@ == told(old(self)@, message@),
    {
        transcript::push_status_cell(&mut self.state, message);
    }

    /// Adds a warning.
    pub fn push_warning(&mut self, message: &str)
        ensures
            final(self)@ == warned(old(self)@, message@),
    {
        transcript::push_warning_cell(&mut self.state, message);
    }

    /// Adds an error.
    pub fn push_error(&mut self, message: &str)
        ensures
            final(self)@ == failed(old(self)@, message@),
    {
        transcript::push_error_cell(&mut self.state, message);
    }

    /// Makes a conversation the active one.
    pub fn set_active_thread(&mut self, thread_id: &LocalThreadId)
        ensures
            final(self)@ == with_state(old(self)@, thread_selected(old(self)@.state, thread_id@)),
    {
        let ghost before = self@;
        self.state.active_thread_id = Some(thread_id.clone());
        let total: usize = self.state.threads.len();
        let mut i: usize = 0;
        let ghost chosen = thread_selected(before.state, thread_id@);
        while i < total
            invariant
                i <= total,
                total == self.state.threads@.len(),
                total == before.state.threads.len(),
                chosen == thread_selected(before.state, thread_id@),
                self@ == with_state(before, AppStateView { threads: self@.state.threads, ..chosen }),
                forall|j: int| 0 <= j < i ==> #[trigger] self@.state.threads[j] == chosen.threads[j],
                forall|j: int|
                    i <= j < total ==> #[trigger] self@.state.threads[j] == before.state.threads[j],
            decreases total - i,
        {
            let ghost now = self@.state.threads;
            assert(self.state.threads@[i as int]@ == now[i as int]);
            let selected: bool = self.state.threads[i].thread.id.same(thread_id);
            self.state.threads[i].selected = selected;
            assert(self@.state.threads =~= now.update(i as int, chosen.threads[i as int]));
            i = i + 1;
        }
        assert(self@.state.threads =~= chosen.threads);
    }

    /// Takes in the list of conversations, or the error that came in its place.
    pub fn refresh_threads(&mut self, listing: Result<Vec<ThreadRecord>, String>) -> (done: Result<
        (),
        String,
    >)
        ensures
            match (listing_view(listing), done) {
                (Ok(threads), Ok(_)) => final(self)@ == with_state(
                    old(self)@,
                    threads_listed(old(self)@.state, threads),
                ),
                (Err(error), Err(given)) => given@ == error && final(self)@ == old(self)@,
                _ => false,
            },
    {
        match listing {
            Ok(threads) => {
                let mut items: Vec<ThreadListItem> = Vec::new();
                let mut i: usize = 0;
                while i < threads.len()
                    invariant
                        i <= threads@.len(),
                        items@.len() == i,
                        forall|j: int|
                            0 <= j < i ==> (#[trigger] items@[j])@ == threads_listed(
                                self@.state,
                                text::views(threads@),
                            ).threads[j],
                    decreases threads@.len() - i,
                {
                    let selected: bool = match &self.state.active_thread_id {
                        Some(active) => active.same(&threads[i].id),
                        None => false,
                    };
                    items.push(ThreadListItem { thread: threads[i].clone(), selected });
                    i = i + 1;
                }
                assert(text::views(items@) =~= threads_listed(
                    self@.state,
                    text::views(threads@),
                ).threads);
                self.state.threads = items;
                Ok(())
            },
            Err(error) => Err(error),
        }
    }

    /// Takes in more of what the assistant says.
    fn stream_message(&mut self, delta: &str)
        ensures
            final(self)@ == with_state(old(self)@, message_streamed(old(self)@.state, delta@)),
    {
        let total: usize = self.state.transcript.history.len();
        if total > 0 {
            assert(self@.state.transcript.history.last() == self.state.transcript.history@[total
                - 1]@);
            if let HistoryCellModel::AssistantMessage(cell) = &mut self.state.transcript.history[total
                - 1] {
                if cell.streaming {
                    cell.text.append(delta);
                    return ;
                }
            }
        }
        transcript::push_cell(
            &mut self.state,
            HistoryCellModel::AssistantMessage(
                AssistantMessageCell { text: delta.to_owned(), streaming: true },
            ),
        );
    }

    /// Takes in a notification. `listing` is what came of asking for the list of conversations, and
    /// counts only for the notifications that make the client ask.
    pub fn apply_notification(
        &mut self,
        notification: ServerNotification,
        listing: Result<Vec<ThreadRecord>, String>,
    ) -> (done: Result<(), String>)
        ensures
            done is Err <==> needs_listing(notification@) && listing is Err,
            match done {
                Ok(_) => final(self)@ == notified(
                    old(self)@,
                    notification@,
                    match listing_view(listing) {
                        Ok(threads) => threads,
                        Err(_) => Seq::empty(),
                    },
                ),
                Err(error) => error@ == listing_view(listing)->Err_0 && final(self)@ == with_state(
                    old(self)@,
                    thread_selected(old(self)@.state, thread_of(notification@)),
                ),
            },
    {
        match notification {
            ServerNotification::ThreadStarted { thread } => {
                self.set_active_thread(&thread.id);
                match self.refresh_threads(listing) {
                    Ok(_) => {},
                    Err(error) => {
                        return Err(error);
                    },
                }
            },
            ServerNotification::ThreadStatusChanged { thread } => {
                self.set_active_thread(&thread.id);
                match self.refresh_threads(listing) {
                    Ok(_) => {},
                    Err(error) => {
                        return Err(error);
                    },
                }
                if thread.status != ThreadStatus::WaitingApproval {
                    self.state.approvals.pending = None;
                    if self.state.connection == ConnectionState::WaitingApproval {
                        self.state.connection = match thread.status {
                            ThreadStatus::Running => ConnectionState::Streaming,
                            _ => ConnectionState::Ready,
                        };
                    }
                }
            },
            ServerNotification::TurnStarted { turn, .. } => {
                self.active_turn_id = Some(turn.id);
                self.state.connection = ConnectionState::Streaming;
            },
            ServerNotification::TurnCompleted { .. } => {
                self.active_turn_id = None;
                self.state.approvals.pending = None;
                self.state.connection = ConnectionState::Ready;
                transcript::finalize_streaming_cells(&mut self.state);
            },
            ServerNotification::PlanUpdated { summary, .. } => {
                transcript::push_cell(
                    &mut self.state,
                    HistoryCellModel::PlanUpdate(PlanUpdateCell { summary }),
                );
            },
            ServerNotification::ItemStarted { item, .. } => {
                let _shown: bool = transcript::push_projected_item_cells(
                    &mut self.state,
                    &item,
                    ProjectedItemPhase::Started,
                );
            },
            ServerNotification::ItemCompleted { item, .. } => {
                let _shown: bool = transcript::push_projected_item_cells(
                    &mut self.state,
                    &item,
                    ProjectedItemPhase::Completed,
                );
            },
            ServerNotification::AgentMessageDelta { delta, .. } => {
                self.stream_message(delta.as_str());
            },
            ServerNotification::CommandExecutionOutputDelta { item_id, delta, .. } => {
                transcript::append_command_output_delta(
                    &mut self.state,
                    item_id.as_str(),
                    delta.as_str(),
                );
            },
            ServerNotification::ArtifactCreated { manifest, preview } => {
                self.state.artifacts.manifests.push(manifest.clone());
                transcript::push_artifact_event_cell(&mut self.state, manifest, preview, false);
            },
            ServerNotification::ArtifactUpdated { manifest, preview } => {
                let _existed: bool = restore::record_restored_artifact(
                    &mut self.state,
                    manifest.clone(),
                );
                transcript::push_artifact_event_cell(&mut self.state, manifest, preview, true);
            },
            ServerNotification::RuntimeStatusChanged => {},
            ServerNotification::SkillsChanged { skills } => {
                let total: String = text::number(skills.len() as u64);
                let message: String = text::glue3("Skills changed (", total.as_str(), " total)");
                self.push_status(message.as_str());
            },
            ServerNotification::ApprovalRequested { approval } => {
                self.state.approvals.pending = Some(approval.clone());
                transcript::push_cell(
                    &mut self.state,
                    HistoryCellModel::ApprovalRequest(ApprovalCell { approval }),
                );
                self.state.connection = ConnectionState::WaitingApproval;
            },
            ServerNotification::Warning { message } => {
                self.push_warning(message.as_str());
            },
            ServerNotification::Error { message } => {
                self.active_turn_id = None;
                self.state.approvals.pending = None;
                transcript::push_error_cell(&mut self.state, message.as_str());
                self.state.connection = ConnectionState::Ready;
            },
        }
        if self.state.connection == ConnectionState::Ready {
            transcript::mark_latest_assistant_message(&mut self.state, false);
        }
        Ok(())
    }
}

// -- What notifications keep -----------------------------------------------------------------

/// Whether exactly the active conversation is selected in the list.
pub open spec fn selection_is_active(s: AppStateView) -> bool {
    forall|i: int|
        0 <= i < s.threads.len() ==> (#[trigger] s.threads[i]).selected == (s.active_thread_id == Some(
            s.threads[i].thread.id,
        ))
}

/// Whether the client waits for an approval only while one is pending.
pub open spec fn waits_for_something(s: AppStateView) -> bool {
    s.connection == ConnectionState::WaitingApproval ==> s.approvals.pending is Some
}

/// Every notification keeps the list in step with the active conversation.
pub proof fn law_selection_follows_the_active_thread(
    a: TranscriptAppView,
    n: ServerNotificationView,
    threads: Seq<ThreadRecordView>,
)
    requires
        selection_is_active(a.state),
    ensures
        selection_is_active(notified(a, n, threads).state),
{
}

/// After every notification the client waits for an approval only while one is pending.
pub proof fn law_waiting_means_pending(
    a: TranscriptAppView,
    n: ServerNotificationView,
    threads: Seq<ThreadRecordView>,
)
    requires
        waits_for_something(a.state),
    ensures
        waits_for_something(notified(a, n, threads).state),
{
}

/// Once a turn is done the client is ready: no turn runs, nothing is pending, and neither an output
/// nor the last entry of the assistant grows.
pub proof fn law_completed_turn_leaves_the_client_ready(
    a: TranscriptAppView,
    n: ServerNotificationView,
    threads: Seq<ThreadRecordView>,
    i: int,
)
    requires
        n is TurnCompleted,
        0 <= i < a.state.transcript.history.len(),
    ensures
        notified(a, n, threads).state.connection == ConnectionState::Ready,
        notified(a, n, threads).active_turn_id is None,
        notified(a, n, threads).state.approvals.pending is None,
        notified(a, n, threads).state.transcript.history.len() == a.state.transcript.history.len(),
        notified(a, n, threads).state.transcript.history[i] matches HistoryCellModelView::ExecOutput(
            output,
        ) ==> !output.streaming,
        transcript::last_assistant(a.state.transcript.history) == Some(i) ==> (notified(
            a,
            n,
            threads,
        ).state.transcript.history[i] matches HistoryCellModelView::AssistantMessage(message)
            && !message.streaming),
{
    let history = a.state.transcript.history;
    let closed = notification_taken(a, n, threads).state.transcript.history;
    transcript::lemma_last_assistant(history);
    transcript::lemma_last_assistant(closed);
    assert forall|j: int| 0 <= j < history.len() implies ((#[trigger] history[j]) is AssistantMessage
        <==> closed[j] is AssistantMessage) by {}
}

/// How what the assistant says is cut into pieces makes no difference to the transcript.
pub proof fn law_message_pieces_join(s: AppStateView, first: Seq<char>, second: Seq<char>)
    ensures
        message_streamed(message_streamed(s, first), second) == message_streamed(s, first + second),
{
    let history = s.transcript.history;
    let once = message_streamed(s, first).transcript.history;
    let both = message_streamed(s, first + second).transcript.history;
    if history.len() > 0 && history.last() is AssistantMessage
        && history.last()->AssistantMessage_0.streaming {
        let said = history.last()->AssistantMessage_0.text;
        assert(said + first + second =~= said + (first + second));
        assert(message_streamed(message_streamed(s, first), second).transcript.history =~= both);
    } else {
        assert(once.last() is AssistantMessage);
        assert(message_streamed(message_streamed(s, first), second).transcript.history =~= both);
    }
}

// -- The session ---------------------------------------------------------------------------------

/// What the runtime says of itself.
#[derive(Debug, PartialEq)]
pub struct RuntimeInfo {
    pub cwd: String,
    pub codex_version: String,
    pub approval_policy: ApprovalPolicy,
    pub sandbox_mode: SandboxMode,
}

/// The model of `RuntimeInfo`.
#[verifier::ext_equal]
pub struct RuntimeInfoView {
    pub cwd: Seq<char>,
    pub codex_version: Seq<char>,
    pub approval_policy: ApprovalPolicy,
    pub sandbox_mode: SandboxMode,
}

impl View for RuntimeInfo {
    type V = RuntimeInfoView;

    open spec fn view(&self) -> RuntimeInfoView {
        RuntimeInfoView {
            cwd: self.cwd@,
            codex_version: self.codex_version@,
            approval_policy: self.approval_policy,
            sandbox_mode: self.sandbox_mode,
        }
    }
}

impl Clone for RuntimeInfo {
    fn clone(&self) -> (copy: Self)
        ensures
            copy@ == self@,
    {
        RuntimeInfo {
            cwd: self.cwd.clone(),
            codex_version: self.codex_version.clone(),
            approval_policy: self.approval_policy,
            sandbox_mode: self.sandbox_mode,
        }
    }
}

/// The client once the runtime has said what it is.
pub open spec fn session_begun(a: TranscriptAppView, info: RuntimeInfoView) -> TranscriptAppView {
    TranscriptAppView {
        state: AppStateView {
            runtime: RuntimeBannerStateView {
                cwd: Some(info.cwd),
                codex_version: Some(info.codex_version),
                approval_policy: Some(info.approval_policy),
                sandbox_mode: Some(info.sandbox_mode),
            },
            connection: ConnectionState::Ready,
            ..a.state
        },
        interactive_rendering: true,
        ..a
    }
}

/// What a line of input is.
#[derive(Debug, PartialEq)]
pub enum LineInput {
    Blank,
    PickSkill,
    Quit,
    Command(String),
    Prompt(String),
}

/// What a line of input is.
pub fn classify_line(line: &str) -> (input: LineInput)
    ensures
        ({
            let t = text::trim_of(line@);
            let quits = t == "/quit"@ || t == "/exit"@;
            let command = t.len() > 0 && t[0] == '/';
            match input {
                LineInput::Blank => t.len() == 0,
                LineInput::PickSkill => t == "$"@ && t.len() > 0,
                LineInput::Quit => quits && t != "$"@ && t.len() > 0,
                LineInput::Command(given) => command && !quits && t != "$"@ && given@ == t,
                LineInput::Prompt(given) => t.len() > 0 && !command && !quits && t != "$"@ && given@
                    == t,
            }
        }),
{
    let trimmed: String = text::trim(line);
    if text::is_empty(trimmed.as_str()) {
        return LineInput::Blank;
    }
    if text::same_text(trimmed.as_str(), "$") {
        return LineInput::PickSkill;
    }
    if text::same_text(trimmed.as_str(), "/quit") || text::same_text(trimmed.as_str(), "/exit") {
        return LineInput::Quit;
    }
    let chars: Vec<char> = text::chars_of(trimmed.as_str());
    if chars[0] == '/' {
        LineInput::Command(trimmed)
    } else {
        LineInput::Prompt(trimmed)
    }
}

/// What is left to do for a command.
#[derive(Clone, Copy, Debug, PartialEq, Eq, Structural)]
pub enum CommandRequest {
    Done,
    PickThread,
    PickSkill,
    BrowseArtifacts,
    RetryApproval,
    ToggleYolo,
    SetMode,
}

/// What is left to do for a command.
pub open spec fn command_request(command: Seq<char>) -> CommandRequest {
    if command == "/help"@ || command == "/clear"@ {
        CommandRequest::Done
    } else if command == "/threads"@ {
        CommandRequest::PickThread
    } else if command == "/skills"@ {
        CommandRequest::PickSkill
    } else if command == "/artifacts"@ {
        CommandRequest::BrowseArtifacts
    } else if command == "/approval"@ {
        CommandRequest::RetryApproval
    } else if command == "/yolo"@ {
        CommandRequest::ToggleYolo
    } else if text::begins(command, "/mode"@) {
        CommandRequest::SetMode
    } else {
        CommandRequest::Done
    }
}

/// What `/help` says.
pub open spec fn help_text() -> Seq<char> {
    "/threads 列线程并恢复；输入 `$` 或 `/skills` 选技能；/artifacts 浏览 artifacts；/approval 重试 pending approval；/yolo 切换 YOLO；/mode safe|readonly|yolo；/clear 清屏；/quit 退出"@
}

/// The client after the part of a command that needs nothing from outside.
pub open spec fn commanded(a: TranscriptAppView, command: Seq<char>) -> TranscriptAppView {
    if command == "/help"@ {
        told(a, help_text())
    } else if command == "/clear"@ {
        with_state(a, transcript::with_history(a.state, Seq::empty()))
    } else if command_request(command) != CommandRequest::Done {
        a
    } else {
        warned(a, "Unknown command: "@ + command)
    }
}

// -- Modes ------------------------------------------------------------------------------------------

/// The other mode: from no limits at all to the usual ones, and from any other to none.
pub open spec fn mode_toggled(runtime: RuntimeBannerStateView) -> (ApprovalPolicy, SandboxMode) {
    let policy = match runtime.approval_policy {
        Some(policy) => policy,
        None => ApprovalPolicy::OnRequest,
    };
    let sandbox = match runtime.sandbox_mode {
        Some(sandbox) => sandbox,
        None => SandboxMode::WorkspaceWrite,
    };
    if labels::yolo(policy, sandbox) {
        (ApprovalPolicy::OnRequest, SandboxMode::WorkspaceWrite)
    } else {
        (ApprovalPolicy::Never, SandboxMode::DangerFullAccess)
    }
}

/// The mode that a word asks for.
pub open spec fn mode_of(word: Seq<char>) -> Option<(ApprovalPolicy, SandboxMode)> {
    if word == "safe"@ {
        Some((ApprovalPolicy::OnRequest, SandboxMode::WorkspaceWrite))
    } else if word == "readonly"@ || word == "read-only"@ {
        Some((ApprovalPolicy::OnRequest, SandboxMode::ReadOnly))
    } else if word == "yolo"@ {
        Some((ApprovalPolicy::Never, SandboxMode::DangerFullAccess))
    } else {
        None
    }
}

/// The client once a mode is written: the banner shows what was kept, the notice what was asked.
pub open spec fn mode_kept(
    a: TranscriptAppView,
    asked: (ApprovalPolicy, SandboxMode),
    kept: (ApprovalPolicy, SandboxMode),
) -> TranscriptAppView {
    told(
        with_state(
            a,
            AppStateView {
                runtime: RuntimeBannerStateView {
                    approval_policy: Some(kept.0),
                    sandbox_mode: Some(kept.1),
                    ..a.state.runtime
                },
                ..a.state
            },
        ),
        "Default mode set to "@ + labels::mode_label_of(asked.0, asked.1) + " for new threads ("@
            + labels::policy_label_of(asked.0) + "/"@ + labels::sandbox_label_of(asked.1) + ")"@,
    )
}

/// Toggling always leads to the other side: out of the mode without limits, or into it.
pub proof fn law_toggle_switches_sides(runtime: RuntimeBannerStateView)
    ensures
        labels::yolo(mode_toggled(runtime).0, mode_toggled(runtime).1) <==> !(
        runtime.approval_policy == Some(ApprovalPolicy::Never) && runtime.sandbox_mode == Some(
            SandboxMode::DangerFullAccess,
        )),
{
}

impl TranscriptApp {
    /// Begins the session with what the runtime says of itself and the list of conversations, or
    /// the error that came in place of the list.
    pub fn begin_session(
        &mut self,
        info: &RuntimeInfo,
        listing: Result<Vec<ThreadRecord>, String>,
    ) -> (done: Result<(), String>)
        ensures
            match (listing_view(listing), done) {
                (Ok(threads), Ok(_)) => final(self)@ == told(
                    with_state(
                        session_begun(old(self)@, info@),
                        threads_listed(session_begun(old(self)@, info@).state, threads),
                    ),
                    "Ready. Enter a prompt or use /help."@,
                ),
                (Err(error), Err(given)) => given@ == error && final(self)@ == session_begun(
                    old(self)@,
                    info@,
                ),
                _ => false,
            },
    {
        self.state.runtime.cwd = Some(info.cwd.clone());
        self.state.runtime.codex_version = Some(info.codex_version.clone());
        self.state.runtime.approval_policy = Some(info.approval_policy);
        self.state.runtime.sandbox_mode = Some(info.sandbox_mode);
        self.state.connection = ConnectionState::Ready;
        self.interactive_rendering = true;
        match self.refresh_threads(listing) {
            Ok(_) => {
                self.push_status("Ready. Enter a prompt or use /help.");
                Ok(())
            },
            Err(error) => Err(error),
        }
    }

    /// Does the part of a command that needs nothing from outside, and says what is left.
    pub fn handle_command(&mut self, command: &str) -> (request: CommandRequest)
        ensures
            request == command_request(command@),
            final(self)@ == commanded(old(self)@, command@),
    {
        if text::same_text(command, "/help") {
            self.push_status(
                "/threads 列线程并恢复；输入 `$` 或 `/skills` 选技能；/artifacts 浏览 artifacts；/approval 重试 pending approval；/yolo 切换 YOLO；/mode safe|readonly|yolo；/clear 清屏；/quit 退出",
            );
            CommandRequest::Done
        } else if text::same_text(command, "/clear") {
            self.clear_transcript();
            CommandRequest::Done
        } else if text::same_text(command, "/threads") {
            CommandRequest::PickThread
        } else if text::same_text(command, "/skills") {
            CommandRequest::PickSkill
        } else if text::same_text(command, "/artifacts") {
            CommandRequest::BrowseArtifacts
        } else if text::same_text(command, "/approval") {
            CommandRequest::RetryApproval
        } else if text::same_text(command, "/yolo") {
            CommandRequest::ToggleYolo
        } else if text::starts_with(command, "/mode") {
            CommandRequest::SetMode
        } else {
            let message: String = text::glue("Unknown command: ", command);
            self.push_warning(message.as_str());
            CommandRequest::Done
        }
    }

    /// Forgets the transcript.
    pub fn clear_transcript(&mut self)
        ensures
            final(self)@ == with_state(
                old(self)@,
                transcript::with_history(old(self)@.state, Seq::empty()),
            ),
    {
        self.state.transcript.history.clear();
    }

    /// The mode that toggling leads to.
    pub fn toggle_yolo_mode(&self) -> (mode: (ApprovalPolicy, SandboxMode))
        ensures
            mode == mode_toggled(self@.state.runtime),
    {
        let policy: ApprovalPolicy = match self.state.runtime.approval_policy {
            Some(policy) => policy,
            None => ApprovalPolicy::OnRequest,
        };
        let sandbox: SandboxMode = match self.state.runtime.sandbox_mode {
            Some(sandbox) => sandbox,
            None => SandboxMode::WorkspaceWrite,
        };
        if labels::is_yolo_mode(policy, sandbox) {
            (ApprovalPolicy::OnRequest, SandboxMode::WorkspaceWrite)
        } else {
            (ApprovalPolicy::Never, SandboxMode::DangerFullAccess)
        }
    }

    /// The mode that a command asks for; where it asks for none, a warning says so.
    pub fn set_mode_command(&mut self, command: &str) -> (mode: Option<
        (ApprovalPolicy, SandboxMode),
    >)
        ensures
            ({
                let words = text::words_of(command@);
                if words.len() != 2 {
                    &&& mode is None
                    &&& final(self)@ == warned(
                        old(self)@,
                        "Usage: /mode safe | /mode readonly | /mode yolo"@,
                    )
                } else {
                    &&& mode == mode_of(words[1])
                    &&& final(self)@ == if mode_of(words[1]) is Some {
                        old(self)@
                    } else {
                        warned(
                            old(self)@,
                            "Unknown mode `"@ + words[1] + "`. Use: safe, readonly, yolo"@,
                        )
                    }
                }
            }),
    {
        let words: Vec<String> = text::words(command);
        if words.len() != 2 {
            assert(text::words_of(command@).len() != 2);
            self.push_warning("Usage: /mode safe | /mode readonly | /mode yolo");
            return None;
        }
        let word: &str = words[1].as_str();
        assert(text::words_of(command@)[1] == word@);
        if text::same_text(word, "safe") {
            Some((ApprovalPolicy::OnRequest, SandboxMode::WorkspaceWrite))
        } else if text::same_text(word, "readonly") || text::same_text(word, "read-only") {
            Some((ApprovalPolicy::OnRequest, SandboxMode::ReadOnly))
        } else if text::same_text(word, "yolo") {
            Some((ApprovalPolicy::Never, SandboxMode::DangerFullAccess))
        } else {
            let message: String = text::glue3("Unknown mode `", word, "`. Use: safe, readonly, yolo");
            self.push_warning(message.as_str());
            None
        }
    }

    /// Shows a mode in the banner.
    pub fn apply_mode_to_banner(&mut self, approval_policy: ApprovalPolicy, sandbox_mode: SandboxMode)
        ensures
            final(self)@ == with_state(
                old(self)@,
                AppStateView {
                    runtime: RuntimeBannerStateView {
                        approval_policy: Some(approval_policy),
                        sandbox_mode: Some(sandbox_mode),
                        ..old(self)@.state.runtime
                    },
                    ..old(self)@.state
                },
            ),
    {
        self.state.runtime.approval_policy = Some(approval_policy);
        self.state.runtime.sandbox_mode = Some(sandbox_mode);
    }

    /// Takes in that a mode was written: `asked` is the mode asked for, `kept` the one kept.
    pub fn set_mode(
        &mut self,
        asked: (ApprovalPolicy, SandboxMode),
        kept: (ApprovalPolicy, SandboxMode),
    )
        ensures
            final(self)@ == mode_kept(old(self)@, asked, kept),
    {
        self.apply_mode_to_banner(kept.0, kept.1);
        let head: String = text::glue4(
            "Default mode set to ",
            labels::runtime_mode_label(asked.0, asked.1),
            " for new threads (",
            labels::approval_policy_label(asked.0),
        );
        let message: String = text::glue4(
            head.as_str(),
            "/",
            labels::sandbox_mode_label(asked.1),
            ")",
        );
        self.push_status(message.as_str());
    }
}

// -- Prompts ----------------------------------------------------------------------------------------

/// What a prompt that may name a skill comes to.
#[derive(Debug, PartialEq)]
pub enum SkillResolution {
    /// The skill in use, where there is one, and the words to send.
    Resolved(Option<SkillDescriptor>, String),
    /// The skills have to be listed to tell what the name stands for.
    NeedSkills { token: String, remainder: String },
}

/// Whether the name of the skill in use is a given one.
pub open spec fn in_use(a: TranscriptAppView, name: Seq<char>) -> bool {
    a.selected_skill is Some && a.selected_skill->0.name == name
}

/// Whether the client refuses prompts until an approval is answered.
pub open spec fn refuses_prompts(a: TranscriptAppView) -> bool {
    a.state.connection == ConnectionState::WaitingApproval && a.state.approvals.pending is Some
}

/// What is left to do for a prompt.
#[derive(Debug, PartialEq)]
pub enum PromptStep {
    Refused,
    Resolution(SkillResolution),
}

/// What is left to do for a prompt whose words are known.
#[derive(Debug, PartialEq)]
pub enum PromptNext {
    SkillSelected,
    StartThread { title: String },
    StartTurn,
}

/// A turn to start.
#[derive(Debug, PartialEq)]
pub struct TurnStartParams {
    pub thread_id: LocalThreadId,
    pub input: Vec<UserInput>,
}

/// The model of `TurnStartParams`.
#[verifier::ext_equal]
pub struct TurnStartParamsView {
    pub thread_id: Seq<char>,
    pub input: Seq<UserInputView>,
}

impl View for TurnStartParams {
    type V = TurnStartParamsView;

    open spec fn view(&self) -> TurnStartParamsView {
        TurnStartParamsView {
            thread_id: self.thread_id@,
            input: text::views(self.input@),
        }
    }
}

impl Clone for TurnStartParams {
    fn clone(&self) -> (copy: Self)
        ensures
            copy@ == self@,
    {
        TurnStartParams {
            thread_id: self.thread_id.clone(),
            input: text::copy_all(&self.input),
        }
    }
}

/// The skill that a turn uses: the one that the prompt names, else the one in use.
pub open spec fn turn_skill(a: TranscriptAppView, named: Option<SkillDescriptorView>) -> Option<
    SkillDescriptorView,
> {
    if named is Some {
        named
    } else {
        a.selected_skill
    }
}

/// What a turn is given: the skill that it uses, if any, and the words.
pub open spec fn turn_input(skill: Option<SkillDescriptorView>, words: Seq<char>) -> Seq<UserInputView> {
    match skill {
        Some(skill) => seq![
            UserInputView::Skill { name: skill.name, path: skill.path },
            UserInputView::Text { text: words },
        ],
        None => seq![UserInputView::Text { text: words }],
    }
}

/// The title of a conversation that begins with a prompt.
pub open spec fn title_of(prompt: Seq<char>) -> Seq<char> {
    if prompt.len() > 60 {
        prompt.take(60)
    } else {
        prompt
    }
}

/// Whether a prompt set something going: another turn runs, or the connection began to stream.
pub open spec fn began_streaming(
    turn_before: Option<Seq<char>>,
    connection_before: ConnectionState,
    a: TranscriptAppView,
) -> bool {
    a.active_turn_id != turn_before || (connection_before != ConnectionState::Streaming
        && a.state.connection == ConnectionState::Streaming)
}

impl TranscriptApp {
    /// Looks for a skill that a prompt names.
    pub fn resolve_inline_skill(&self, raw_text: &str) -> (found: SkillResolution)
        requires
            picker::can_cut_skill(raw_text@),
        ensures
            match found {
                SkillResolution::Resolved(skill, words) => if picker::skill_named(raw_text@) is None {
                    skill is None && words@ == raw_text@
                } else {
                    in_use(self@, picker::skill_named(raw_text@)->0) && text::opt_view(skill)
                        == self@.selected_skill && words@ == picker::after_skill(raw_text@)
                },
                SkillResolution::NeedSkills { token, remainder } => picker::skill_named(raw_text@)
                    == Some(token@) && !in_use(self@, token@) && remainder@ == picker::after_skill(
                    raw_text@,
                ),
            },
    {
        match picker::parse_leading_skill_token(raw_text) {
            None => SkillResolution::Resolved(None, raw_text.to_owned()),
            Some((token, remainder)) => {
                if let Some(skill) = &self.selected_skill {
                    if text::same_text(skill.name.as_str(), token.as_str()) {
                        return SkillResolution::Resolved(Some(skill.clone()), remainder);
                    }
                }
                SkillResolution::NeedSkills { token, remainder }
            },
        }
    }

    /// Tells what a name stands for once the skills are listed: nothing, so that the prompt is sent
    /// as it is; one skill; or several, of which a warning tells.
    pub fn resolve_listed_skill(
        &mut self,
        raw_text: &str,
        token: &str,
        remainder: &str,
        skills: &[SkillDescriptor],
    ) -> (found: Option<(Option<SkillDescriptor>, String)>)
        ensures
            ({
                let named = picker::skills_named(text::views(skills@), token@);
                match found {
                    Some((None, words)) => named.len() == 0 && words@ == raw_text@ && final(self)@
                        == old(self)@,
                    Some((Some(skill), words)) => named == seq![skill@] && words@ == remainder@
                        && final(self)@ == old(self)@,
                    None => named.len() > 1 && final(self)@ == warned(
                        old(self)@,
                        "Multiple skills named `"@ + token@
                            + "`; use `$` or /skills to pick one: "@ + picker::skill_places(named),
                    ),
                }
            }),
    {
        match picker::match_skill_token(token, skills) {
            SkillTokenMatch::Missing => Some((None, raw_text.to_owned())),
            SkillTokenMatch::Unique(skill) => Some((Some(skill), remainder.to_owned())),
            SkillTokenMatch::Ambiguous(matches) => {
                let places: String = picker::summarize_skill_paths(&matches);
                let message: String = text::glue4(
                    "Multiple skills named `",
                    token,
                    "`; use `$` or /skills to pick one: ",
                    places.as_str(),
                );
                self.push_warning(message.as_str());
                None
            },
        }
    }

    /// Begins a prompt: refuses it while an approval is pending, else looks for a skill in it.
    pub fn start_prompt(&mut self, prompt: &str) -> (step: PromptStep)
        requires
            refuses_prompts(old(self)@) || picker::can_cut_skill(prompt@),
        ensures
            match step {
                PromptStep::Refused => refuses_prompts(old(self)@) && final(self)@ == warned(
                    old(self)@,
                    "Resolve the pending approval first with /approval."@,
                ),
                PromptStep::Resolution(found) => !refuses_prompts(old(self)@) && final(self)@ == old(
                    self,
                )@ && match found {
                    SkillResolution::Resolved(skill, words) => if picker::skill_named(
                        prompt@,
                    ) is None {
                        skill is None && words@ == prompt@
                    } else {
                        in_use(old(self)@, picker::skill_named(prompt@)->0) && text::opt_view(skill)
                            == old(self)@.selected_skill && words@ == picker::after_skill(prompt@)
                    },
                    SkillResolution::NeedSkills { token, remainder } => picker::skill_named(prompt@)
                        == Some(token@) && !in_use(old(self)@, token@) && remainder@
                        == picker::after_skill(prompt@),
                },
            },
    {
        if self.state.connection == ConnectionState::WaitingApproval
            && self.state.approvals.pending.is_some() {
            self.push_warning("Resolve the pending approval first with /approval.");
            return PromptStep::Refused;
        }
        PromptStep::Resolution(self.resolve_inline_skill(prompt))
    }

    /// Takes in a prompt whose words are known: one that only names a skill selects it, any other
    /// becomes an entry of the transcript.
    pub fn accept_prompt(&mut self, prompt: &str, skill: &Option<SkillDescriptor>, words: &str) -> (next:
        PromptNext)
        ensures
            match next {
                PromptNext::SkillSelected => text::blank(words@) && skill is Some && final(self)@
                    == told(
                    TranscriptAppView { selected_skill: text::opt_view(*skill), ..old(self)@ },
                    "Selected skill: "@ + picker::skill_label(skill->0@),
                ),
                PromptNext::StartThread { title } => !(text::blank(words@) && skill is Some) && old(
                    self,
                )@.state.active_thread_id is None && title@ == title_of(prompt@) && final(self)@
                    == app_with_cell(
                    old(self)@,
                    HistoryCellModelView::UserMessage(UserMessageCellView { text: prompt@ }),
                ),
                PromptNext::StartTurn => !(text::blank(words@) && skill is Some) && old(
                    self,
                )@.state.active_thread_id is Some && final(self)@ == app_with_cell(
                    old(self)@,
                    HistoryCellModelView::UserMessage(UserMessageCellView { text: prompt@ }),
                ),
            },
    {
        if text::is_blank(words) {
            if let Some(skill) = skill {
                self.selected_skill = Some(skill.clone());
                let label: String = picker::selected_skill_label(skill);
                let message: String = text::glue("Selected skill: ", label.as_str());
                self.push_status(message.as_str());
                return PromptNext::SkillSelected;
            }
        }
        transcript::push_cell(
            &mut self.state,
            HistoryCellModel::UserMessage(UserMessageCell { text: prompt.to_owned() }),
        );
        if self.state.active_thread_id.is_some() {
            return PromptNext::StartTurn;
        }
        let chars: Vec<char> = text::chars_of(prompt);
        let end: usize = if chars.len() > 60 {
            60
        } else {
            chars.len()
        };
        let title: String = text::text_of(&chars, 0, end);
        assert(title@ =~= title_of(prompt@));
        PromptNext::StartThread { title }
    }

    /// Begins a turn in the active conversation; without one nothing changes and none begins.
    pub fn begin_turn(&mut self, skill: &Option<SkillDescriptor>, words: &str) -> (turn: Option<
        TurnStartParams,
    >)
        ensures
            match turn {
                Some(params) => old(self)@.state.active_thread_id == Some(params@.thread_id)
                    && params@.input == turn_input(
                    turn_skill(old(self)@, text::opt_view(*skill)),
                    words@,
                ) && final(self)@ == (TranscriptAppView {
                    selected_skill: turn_skill(old(self)@, text::opt_view(*skill)),
                    state: connected(old(self)@.state, ConnectionState::Streaming),
                    ..old(self)@
                }),
                None => old(self)@.state.active_thread_id is None && final(self)@ == old(self)@,
            },
    {
        let thread_id: LocalThreadId = match &self.state.active_thread_id {
            Some(id) => id.clone(),
            None => {
                return None;
            },
        };
        let mut input: Vec<UserInput> = Vec::new();
        let active: Option<SkillDescriptor> = if skill.is_some() {
            text::copy_maybe(skill)
        } else {
            text::copy_maybe(&self.selected_skill)
        };
        if let Some(skill) = &active {
            input.push(UserInput::Skill { name: skill.name.clone(), path: skill.path.clone() });
        }
        self.selected_skill = active;
        input.push(UserInput::Text { text: words.to_owned() });
        self.state.connection = ConnectionState::Streaming;
        assert(text::views(input@) =~= turn_input(
            turn_skill(old(self)@, text::opt_view(*skill)),
            words@,
        ));
        Some(TurnStartParams { thread_id, input })
    }

    /// Takes in that a turn was started.
    pub fn turn_started(&mut self, turn_id: &LocalTurnId)
        ensures
            final(self)@ == (TranscriptAppView { active_turn_id: Some(turn_id@), ..old(self)@ }),
    {
        self.active_turn_id = Some(turn_id.clone());
    }

    /// Whether a prompt set something going.
    pub fn prompt_began_streaming(
        &self,
        turn_before: &Option<LocalTurnId>,
        connection_before: ConnectionState,
    ) -> (b: bool)
        ensures
            b == began_streaming(text::opt_view(*turn_before), connection_before, self@),
    {
        let same_turn: bool = match (&self.active_turn_id, turn_before) {
            (Some(now), Some(before)) => now.same(before),
            (None, None) => true,
            _ => false,
        };
        !same_turn || (connection_before != ConnectionState::Streaming && self.state.connection
            == ConnectionState::Streaming)
    }
}

// -- Approvals and interrupts --------------------------------------------------------------------------

/// What came of answering an approval.
#[derive(Clone, Copy, Debug, PartialEq, Eq, Structural)]
pub enum ApprovalResolutionOutcome {
    Resolved,
    Deferred,
    NoPending,
}

/// The client after an answer to an approval was sent, or could not be.
pub open spec fn approval_answered(
    a: TranscriptAppView,
    approval: PendingApprovalView,
    decision: ApprovalDecision,
    reply: Result<(), Seq<char>>,
) -> TranscriptAppView {
    match reply {
        Ok(_) => told(
            with_state(a, connected(awaiting(a.state, None), ConnectionState::Streaming)),
            "Approval "@ + approval.id + ": "@ + labels::decision_label_of(decision),
        ),
        Err(error) => failed(
            with_state(
                a,
                connected(awaiting(a.state, Some(approval)), ConnectionState::WaitingApproval),
            ),
            "Failed to send approval "@ + approval.id + ": "@ + error
                + ". Use /approval to retry."@,
        ),
    }
}

/// A client that asked for an interrupt: what came of it goes into the history.
pub open spec fn interrupted(
    a: TranscriptAppView,
    turn_id: Seq<char>,
    reply: Result<(), Seq<char>>,
) -> TranscriptAppView {
    match reply {
        Ok(_) => told(a, "Interrupt requested."@),
        Err(error) => failed(a, "Failed to send interrupt for turn "@ + turn_id + ": "@ + error),
    }
}

/// What came of a request that brings back nothing but whether it was granted.
pub open spec fn reply_view(reply: Result<(), String>) -> Result<(), Seq<char>> {
    match reply {
        Ok(_) => Ok(()),
        Err(error) => Err(error@),
    }
}

impl TranscriptApp {
    /// The approval to ask the user about. Where none is pending the client goes on streaming.
    pub fn pending_approval(&mut self) -> (pending: Option<PendingApproval>)
        ensures
            text::opt_view(pending) == old(self)@.state.approvals.pending,
            final(self)@ == if old(self)@.state.approvals.pending is Some {
                old(self)@
            } else {
                with_state(old(self)@, connected(old(self)@.state, ConnectionState::Streaming))
            },
    {
        let pending: Option<PendingApproval> = text::copy_maybe(&self.state.approvals.pending);
        if pending.is_none() {
            self.state.connection = ConnectionState::Streaming;
        }
        pending
    }

    /// Takes in what came of sending the answer to an approval.
    pub fn submit_approval_response(
        &mut self,
        approval: &PendingApproval,
        request: &ApprovalRespondParams,
        reply: Result<(), String>,
    ) -> (outcome: ApprovalResolutionOutcome)
        ensures
            outcome == (if reply is Ok {
                ApprovalResolutionOutcome::Resolved
            } else {
                ApprovalResolutionOutcome::Deferred
            }),
            final(self)@ == approval_answered(
                old(self)@,
                approval@,
                request@.decision,
                reply_view(reply),
            ),
    {
        match reply {
            Ok(_) => {
                self.state.approvals.pending = None;
                self.state.connection = ConnectionState::Streaming;
                let message: String = text::glue4(
                    "Approval ",
                    approval.id.as_str(),
                    ": ",
                    labels::describe_approval_decision(request.decision),
                );
                self.push_status(message.as_str());
                ApprovalResolutionOutcome::Resolved
            },
            Err(error) => {
                self.state.approvals.pending = Some(approval.clone());
                self.state.connection = ConnectionState::WaitingApproval;
                let message: String = text::glue5(
                    "Failed to send approval ",
                    approval.id.as_str(),
                    ": ",
                    error.as_str(),
                    ". Use /approval to retry.",
                );
                self.push_error(message.as_str());
                ApprovalResolutionOutcome::Deferred
            },
        }
    }

    /// The turn to interrupt, with its conversation; where there is none a warning says so.
    pub fn interrupt_target(&mut self) -> (target: Option<(LocalThreadId, LocalTurnId)>)
        ensures
            match target {
                Some((thread, turn)) => old(self)@.state.active_thread_id == Some(thread@) && old(
                    self,
                )@.active_turn_id == Some(turn@) && final(self)@ == old(self)@,
                None => if old(self)@.state.active_thread_id is None {
                    final(self)@ == warned(old(self)@, "No active thread to interrupt."@)
                } else {
                    old(self)@.active_turn_id is None && final(self)@ == warned(
                        old(self)@,
                        "No active turn to interrupt."@,
                    )
                },
            },
    {
        let thread: LocalThreadId = match &self.state.active_thread_id {
            Some(id) => id.clone(),
            None => {
                self.push_warning("No active thread to interrupt.");
                return None;
            },
        };
        let turn: LocalTurnId = match &self.active_turn_id {
            Some(id) => id.clone(),
            None => {
                self.push_warning("No active turn to interrupt.");
                return None;
            },
        };
        Some((thread, turn))
    }

    /// Takes in what came of asking for an interrupt.
    pub fn request_interrupt(&mut self, turn_id: &LocalTurnId, reply: Result<(), String>)
        ensures
            final(self)@ == interrupted(old(self)@, turn_id@, reply_view(reply)),
    {
        match reply {
            Ok(_) => {
                self.push_status("Interrupt requested.");
            },
            Err(error) => {
                let message: String = text::glue4(
                    "Failed to send interrupt for turn ",
                    turn_id.text.as_str(),
                    ": ",
                    error.as_str(),
                );
                self.push_error(message.as_str());
            },
        }
    }
}

/// An interrupt changes nothing but the history, whether it was granted or not: the turn is still
/// live, and the connection is what it was.
pub proof fn law_interrupt_keeps_the_turn_live(
    a: TranscriptAppView,
    turn_id: Seq<char>,
    reply: Result<(), Seq<char>>,
)
    ensures
        ({
            let after = interrupted(a, turn_id, reply);
            after == with_state(
                a,
                AppStateView { transcript: after.state.transcript, ..a.state },
            )
        }),
        interrupted(a, turn_id, reply).active_turn_id == a.active_turn_id,
        interrupted(a, turn_id, reply).state.connection == a.state.connection,
{
}

/// An approval whose answer could not be sent is still pending, and the client waits for it; so a
/// prompt is refused.
pub proof fn law_unsent_answer_keeps_the_approval(
    a: TranscriptAppView,
    approval: PendingApprovalView,
    decision: ApprovalDecision,
    error: Seq<char>,
)
    ensures
        approval_answered(a, approval, decision, Err(error)).state.approvals.pending == Some(
            approval,
        ),
        refuses_prompts(approval_answered(a, approval, decision, Err(error))),
{
}

// -- What notifications do --------------------------------------------------------------------------

/// Whether two entries say the same: they may differ in whether they grow, and in nothing else.
pub open spec fn says_the_same(one: HistoryCellModelView, other: HistoryCellModelView) -> bool {
    match one {
        HistoryCellModelView::AssistantMessage(said) => other
            matches HistoryCellModelView::AssistantMessage(cell) && cell.text == said.text,
        _ => other == one,
    }
}

/// Whether a history goes on from another by one entry: the entries before say what they said.
pub open spec fn goes_on(before: Seq<HistoryCellModelView>, after: Seq<HistoryCellModelView>) -> bool {
    &&& after.len() == before.len() + 1
    &&& forall|i: int| 0 <= i < before.len() ==> says_the_same(before[i], #[trigger] after[i])
}

/// Whether a client differs from another in nothing but its history.
pub open spec fn only_history(a: TranscriptAppView, b: TranscriptAppView) -> bool {
    b == (TranscriptAppView {
        state: AppStateView { transcript: b.state.transcript, ..a.state },
        ..a
    })
}

/// An approval that is asked for is pending, the client waits for it, so that prompts are refused, and
/// the last entry shows it.
pub proof fn law_a_requested_approval_is_pending(
    a: TranscriptAppView,
    approval: PendingApprovalView,
    threads: Seq<ThreadRecordView>,
)
    ensures
        ({
            let n = ServerNotificationView::ApprovalRequested { approval };
            let after = notified(a, n, threads);
            &&& after.state.approvals.pending == Some(approval)
            &&& after.state.connection == ConnectionState::WaitingApproval
            &&& refuses_prompts(after)
            &&& after.state.transcript.history.drop_last() == a.state.transcript.history
            &&& after.state.transcript.history.last()
                matches HistoryCellModelView::ApprovalRequest(cell) && cell.approval == approval
            &&& after.active_turn_id == a.active_turn_id
        }),
{
    let n = ServerNotificationView::ApprovalRequested { approval };
    let after = notified(a, n, threads);
    assert(after.state.transcript.history.drop_last() =~= a.state.transcript.history);
}

/// What is pending stays pending whatever is told, but for the end or the failure of the turn, a
/// conversation that moves on, and another approval.
pub proof fn law_pending_until_it_is_over(
    a: TranscriptAppView,
    n: ServerNotificationView,
    threads: Seq<ThreadRecordView>,
)
    requires
        a.state.approvals.pending is Some,
        !(n is TurnCompleted),
        !(n is Error),
        !(n is ApprovalRequested),
        n matches ServerNotificationView::ThreadStatusChanged { thread } ==> thread.status
            == ThreadStatus::WaitingApproval,
    ensures
        notified(a, n, threads).state.approvals.pending == a.state.approvals.pending,
        a.state.connection == ConnectionState::WaitingApproval && !(n is TurnStarted) ==> notified(
            a,
            n,
            threads,
        ).state.connection == ConnectionState::WaitingApproval,
{
}

/// A conversation that starts or changes is the active one, and the list of conversations is the one
/// that was read, in its order, with just the active one selected. One that moves on from waiting for
/// an approval leaves none pending.
pub proof fn law_a_named_thread_becomes_active(
    a: TranscriptAppView,
    thread: ThreadRecordView,
    threads: Seq<ThreadRecordView>,
    i: int,
)
    ensures
        ({
            let started = notified(a, ServerNotificationView::ThreadStarted { thread }, threads);
            let changed = notified(
                a,
                ServerNotificationView::ThreadStatusChanged { thread },
                threads,
            );
            &&& started.state.active_thread_id == Some(thread.id)
            &&& changed.state.active_thread_id == Some(thread.id)
            &&& started.state.threads.len() == threads.len() && changed.state.threads.len()
                == threads.len()
            &&& 0 <= i < threads.len() ==> started.state.threads[i].thread == threads[i]
                && changed.state.threads[i].thread == threads[i]
                && started.state.threads[i].selected == (threads[i].id == thread.id)
                && changed.state.threads[i].selected == (threads[i].id == thread.id)
            &&& started.state.connection == a.state.connection
            &&& started.state.approvals == a.state.approvals
            &&& thread.status == ThreadStatus::WaitingApproval ==> changed.state.approvals
                == a.state.approvals && changed.state.connection == a.state.connection
            &&& thread.status != ThreadStatus::WaitingApproval ==> changed.state.approvals.pending
                is None && changed.state.connection == if a.state.connection
                != ConnectionState::WaitingApproval {
                a.state.connection
            } else if thread.status == ThreadStatus::Running {
                ConnectionState::Streaming
            } else {
                ConnectionState::Ready
            }
        }),
{
}

/// A turn that starts runs: its identifier is kept for an interrupt, and the client streams. Nothing
/// else changes.
pub proof fn law_a_started_turn_runs(
    a: TranscriptAppView,
    thread_id: Seq<char>,
    turn: TurnRecordView,
    threads: Seq<ThreadRecordView>,
)
    ensures
        ({
            let n = ServerNotificationView::TurnStarted { thread_id, turn };
            let after = notified(a, n, threads);
            &&& after.active_turn_id == Some(turn.id)
            &&& after.state.connection == ConnectionState::Streaming
            &&& after.state == (AppStateView { connection: ConnectionState::Streaming, ..a.state })
            &&& after.selected_skill == a.selected_skill
        }),
{
}

/// What the assistant says more goes behind what it said, as long as that is the last entry and
/// grows; else it opens an entry of its own. Nothing that was said is lost, and nothing else changes.
pub proof fn law_a_streamed_message_goes_on(
    a: TranscriptAppView,
    thread_id: Seq<char>,
    turn_id: Seq<char>,
    item_id: Seq<char>,
    delta: Seq<char>,
    threads: Seq<ThreadRecordView>,
)
    ensures
        ({
            let n = ServerNotificationView::AgentMessageDelta {
                thread_id,
                turn_id,
                item_id,
                delta,
            };
            let after = notified(a, n, threads);
            let before = a.state.transcript.history;
            let history = after.state.transcript.history;
            let grows = before.len() > 0 && before.last() is AssistantMessage
                && before.last()->AssistantMessage_0.streaming;
            &&& only_history(a, after)
            &&& history.len() == before.len() + if grows {
                0int
            } else {
                1
            }
            &&& history.last() matches HistoryCellModelView::AssistantMessage(cell) && cell.text
                == if grows {
                before.last()->AssistantMessage_0.text + delta
            } else {
                delta
            } && cell.streaming == (a.state.connection != ConnectionState::Ready)
            &&& forall|i: int|
                0 <= i < history.len() - 1 ==> #[trigger] history[i] == before[i]
        }),
{
    let n = ServerNotificationView::AgentMessageDelta { thread_id, turn_id, item_id, delta };
    let taken = notification_taken(a, n, threads).state.transcript.history;
    assert(taken.last() is AssistantMessage);
    assert(transcript::last_assistant(taken) == Some(taken.len() - 1));
}

/// A plan, a warning and an error each become the last entry, word for word. A plan and a warning
/// change nothing else; an error ends the turn: the client is ready, and nothing is pending.
pub proof fn law_plans_warnings_and_errors_are_shown(
    a: TranscriptAppView,
    thread_id: Seq<char>,
    turn_id: Seq<char>,
    words: Seq<char>,
    threads: Seq<ThreadRecordView>,
)
    ensures
        ({
            let plan = notified(
                a,
                ServerNotificationView::PlanUpdated { thread_id, turn_id, summary: words },
                threads,
            );
            let warning = notified(a, ServerNotificationView::Warning { message: words }, threads);
            let error = notified(a, ServerNotificationView::Error { message: words }, threads);
            let before = a.state.transcript.history;
            &&& goes_on(before, plan.state.transcript.history) && only_history(a, plan)
            &&& plan.state.transcript.history.last() matches HistoryCellModelView::PlanUpdate(cell)
                && cell.summary == words
            &&& goes_on(before, warning.state.transcript.history) && only_history(a, warning)
            &&& warning.state.transcript.history.last() matches HistoryCellModelView::Warning(cell)
                && cell.message == words
            &&& goes_on(before, error.state.transcript.history)
            &&& error.state.transcript.history.last() matches HistoryCellModelView::Error(cell)
                && cell.message == words
            &&& error.active_turn_id is None
            &&& error.state.approvals.pending is None
            &&& error.state.connection == ConnectionState::Ready
        }),
{
    let plan = ServerNotificationView::PlanUpdated { thread_id, turn_id, summary: words };
    let warning = ServerNotificationView::Warning { message: words };
    let error = ServerNotificationView::Error { message: words };
    transcript::lemma_last_assistant(
        notification_taken(a, plan, threads).state.transcript.history,
    );
    transcript::lemma_last_assistant(
        notification_taken(a, warning, threads).state.transcript.history,
    );
    transcript::lemma_last_assistant(
        notification_taken(a, error, threads).state.transcript.history,
    );
}

/// A new artifact is recorded behind the others and shown as new; a changed one has one manifest, the
/// last of all, and is shown as changed. Both are shown with manifest and preview.
pub proof fn law_artifacts_are_recorded_and_shown(
    a: TranscriptAppView,
    manifest: ArtifactManifestView,
    preview: ArtifactPreviewView,
    threads: Seq<ThreadRecordView>,
)
    ensures
        ({
            let made = notified(
                a,
                ServerNotificationView::ArtifactCreated { manifest, preview },
                threads,
            );
            let changed = notified(
                a,
                ServerNotificationView::ArtifactUpdated { manifest, preview },
                threads,
            );
            let before = a.state.transcript.history;
            &&& made.state.artifacts.manifests == a.state.artifacts.manifests.push(manifest)
            &&& goes_on(before, made.state.transcript.history)
            &&& made.state.transcript.history.last() matches HistoryCellModelView::ArtifactCreated(
                cell,
            ) && cell.manifest == manifest && cell.preview == preview
            &&& changed.state.artifacts.manifests.last() == manifest
            &&& forall|i: int|
                0 <= i < changed.state.artifacts.manifests.len() - 1 ==> (
                #[trigger] changed.state.artifacts.manifests[i]).id != manifest.id
            &&& forall|other: ArtifactManifestView|
                other.id != manifest.id ==> (changed.state.artifacts.manifests.contains(other)
                    <==> a.state.artifacts.manifests.contains(other))
            &&& goes_on(before, changed.state.transcript.history)
            &&& changed.state.transcript.history.last()
                matches HistoryCellModelView::ArtifactUpdated(cell) && cell.manifest == manifest
                && cell.preview == preview
            &&& made.state.connection == a.state.connection && changed.state.connection
                == a.state.connection
        }),
{
    let made = ServerNotificationView::ArtifactCreated { manifest, preview };
    let changed = ServerNotificationView::ArtifactUpdated { manifest, preview };
    restore::law_artifact_has_one_manifest(a.state, manifest);
    transcript::lemma_last_assistant(
        notification_taken(a, made, threads).state.transcript.history,
    );
    transcript::lemma_last_assistant(
        notification_taken(a, changed, threads).state.transcript.history,
    );
}

/// A running turn's items are shown as they start and as they are done, and its output as it comes;
/// what becomes of the entries is what `transcript` says of items and output. Nothing else changes.
pub proof fn law_items_and_output_are_taken_in(
    a: TranscriptAppView,
    thread_id: Seq<char>,
    turn_id: Seq<char>,
    item_id: Seq<char>,
    item: Option<ProjectableThreadItemView>,
    delta: Seq<char>,
    threads: Seq<ThreadRecordView>,
)
    requires
        a.state.connection != ConnectionState::Ready,
    ensures
        notified(a, ServerNotificationView::ItemStarted { thread_id, turn_id, item }, threads)
            == with_state(
            a,
            transcript::item_projected(a.state, item, ProjectedItemPhase::Started).0,
        ),
        notified(a, ServerNotificationView::ItemCompleted { thread_id, turn_id, item }, threads)
            == with_state(
            a,
            transcript::item_projected(a.state, item, ProjectedItemPhase::Completed).0,
        ),
        notified(
            a,
            ServerNotificationView::CommandExecutionOutputDelta {
                thread_id,
                turn_id,
                item_id,
                delta,
            },
            threads,
        ) == with_state(a, transcript::delta_appended(a.state, item_id, delta)),
{
}

/// The runtime's own state changes nothing that is shown; a change of skills is told of with their
/// number.
pub proof fn law_skills_are_counted(
    a: TranscriptAppView,
    skills: Seq<SkillDescriptorView>,
    threads: Seq<ThreadRecordView>,
)
    requires
        a.state.connection != ConnectionState::Ready,
    ensures
        notified(a, ServerNotificationView::RuntimeStatusChanged, threads) == a,
        ({
            let after = notified(a, ServerNotificationView::SkillsChanged { skills }, threads);
            &&& only_history(a, after)
            &&& after.state.transcript.history.drop_last() == a.state.transcript.history
            &&& after.state.transcript.history.last() matches HistoryCellModelView::Status(cell)
                && text::contains_text(cell.message, text::decimal(skills.len()))
        }),
{
    let after = notified(a, ServerNotificationView::SkillsChanged { skills }, threads);
    assert(after.state.transcript.history.drop_last() =~= a.state.transcript.history);
    text::lemma_contains_inside("Skills changed ("@, text::decimal(skills.len()), " total)"@);
}

/// The end of a turn takes no word out of the history, and leaves every entry of another kind as it
/// is.
pub proof fn law_a_completed_turn_keeps_its_words(
    a: TranscriptAppView,
    thread_id: Seq<char>,
    turn: TurnRecordView,
    threads: Seq<ThreadRecordView>,
    i: int,
)
    requires
        0 <= i < a.state.transcript.history.len(),
    ensures
        ({
            let n = ServerNotificationView::TurnCompleted { thread_id, turn };
            let before = a.state.transcript.history[i];
            let after = notified(a, n, threads).state.transcript.history[i];
            match before {
                HistoryCellModelView::AssistantMessage(said) => after
                    matches HistoryCellModelView::AssistantMessage(cell) && cell.text == said.text,
                HistoryCellModelView::ExecOutput(held) => after
                    matches HistoryCellModelView::ExecOutput(cell) && cell.output == held.output
                    && cell.command == held.command && cell.item_id == held.item_id,
                _ => after == before,
            }
        }),
{
    let n = ServerNotificationView::TurnCompleted { thread_id, turn };
    transcript::lemma_last_assistant(a.state.transcript.history);
    transcript::lemma_last_assistant(
        notification_taken(a, n, threads).state.transcript.history,
    );
}

// -- What commands, modes and prompts do ---------------------------------------------------------------

/// Each command asks for what it is named after, and no other does.
pub proof fn law_commands_do_what_they_say(command: Seq<char>)
    ensures
        command_request(command) == CommandRequest::PickThread <==> command == "/threads"@,
        command_request(command) == CommandRequest::PickSkill <==> command == "/skills"@,
        command_request(command) == CommandRequest::BrowseArtifacts <==> command == "/artifacts"@,
        command_request(command) == CommandRequest::RetryApproval <==> command == "/approval"@,
        command_request(command) == CommandRequest::ToggleYolo <==> command == "/yolo"@,
        command_request(command) == CommandRequest::SetMode <==> text::begins(command, "/mode"@),
{
    lemma_command_words();
    if text::begins(command, "/mode"@) {
        assert(command.take(5)[1] == command[1]);
    }
}

proof fn lemma_command_words()
    ensures
        "/help"@.len() == 5 && "/help"@[1] == 'h',
        "/clear"@.len() == 6 && "/clear"@[1] == 'c',
        "/threads"@.len() == 8 && "/threads"@[1] == 't',
        "/skills"@.len() == 7 && "/skills"@[1] == 's',
        "/artifacts"@.len() == 10 && "/artifacts"@[1] == 'a' && "/artifacts"@[2] == 'r',
        "/approval"@.len() == 9 && "/approval"@[1] == 'a' && "/approval"@[2] == 'p',
        "/yolo"@.len() == 5 && "/yolo"@[1] == 'y',
        "/mode"@.len() == 5 && "/mode"@[1] == 'm',
{
    reveal_strlit("/help");
    reveal_strlit("/clear");
    reveal_strlit("/threads");
    reveal_strlit("/skills");
    reveal_strlit("/artifacts");
    reveal_strlit("/approval");
    reveal_strlit("/yolo");
    reveal_strlit("/mode");
}

/// Only the command to clear takes entries out of the history, and it takes all; nothing else of the
/// client changes by a command itself. One that is not known is warned of by its name.
pub proof fn law_only_clearing_clears(a: TranscriptAppView, command: Seq<char>)
    ensures
        only_history(a, commanded(a, command)),
        command == "/clear"@ ==> commanded(a, command).state.transcript.history.len() == 0,
        command != "/clear"@ ==> {
            let before = a.state.transcript.history;
            let after = commanded(a, command).state.transcript.history;
            &&& after.len() >= before.len()
            &&& after.take(before.len() as int) == before
            &&& command == "/help"@ ==> after.len() == before.len() + 1 && after.last() is Status
            &&& command_request(command) != CommandRequest::Done ==> after == before
            &&& command != "/help"@ && command_request(command) == CommandRequest::Done
                ==> after.len() == before.len() + 1 && (after.last()
                matches HistoryCellModelView::Warning(cell) && cell.message
                == "Unknown command: "@ + command)
        },
{
    let before = a.state.transcript.history;
    let after = commanded(a, command).state.transcript.history;
    lemma_command_words();
    if command != "/clear"@ {
        assert(after.take(before.len() as int) =~= before);
    }
}

/// The words for modes and the words by which modes are told of agree; the safe word gives approvals
/// and a sandbox, and no word but one gives a mode without limits.
pub proof fn law_mode_words_give_their_modes(word: Seq<char>)
    ensures
        mode_of(word) is Some <==> word == "safe"@ || word == "readonly"@ || word == "read-only"@
            || word == "yolo"@,
        mode_of(word) matches Some(mode) ==> labels::mode_label_of(mode.0, mode.1) == if word
            == "read-only"@ {
            "readonly"@
        } else {
            word
        },
        mode_of(word) matches Some(mode) ==> word == "yolo"@ || mode.0 == ApprovalPolicy::OnRequest
            && mode.1 != SandboxMode::DangerFullAccess,
        word == "safe"@ ==> mode_of(word) == Some(
            (ApprovalPolicy::OnRequest, SandboxMode::WorkspaceWrite),
        ),
        word == "yolo"@ ==> mode_of(word) == Some(
            (ApprovalPolicy::Never, SandboxMode::DangerFullAccess),
        ),
        word == "readonly"@ || word == "read-only"@ ==> mode_of(word) == Some(
            (ApprovalPolicy::OnRequest, SandboxMode::ReadOnly),
        ),
{
    reveal_strlit("safe");
    reveal_strlit("readonly");
    reveal_strlit("read-only");
    reveal_strlit("yolo");
    assert("safe"@.len() == 4 && "readonly"@.len() == 8 && "read-only"@.len() == 9
        && "yolo"@.len() == 4);
    assert("safe"@[0] == 's' && "yolo"@[0] == 'y');
}

/// Toggling from the mode without limits leads to the safe one, and from any other to the one without
/// limits; so toggling twice from either of the two comes back.
pub proof fn law_toggling_comes_back(runtime: RuntimeBannerStateView)
    ensures
        ({
            let once = mode_toggled(runtime);
            let twice = mode_toggled(
                RuntimeBannerStateView {
                    approval_policy: Some(once.0),
                    sandbox_mode: Some(once.1),
                    ..runtime
                },
            );
            &&& once == mode_of("safe"@)->0 || once == mode_of("yolo"@)->0
            &&& once == (ApprovalPolicy::Never, SandboxMode::DangerFullAccess) || once == (
                ApprovalPolicy::OnRequest,
                SandboxMode::WorkspaceWrite,
            )
            &&& twice != once
            &&& runtime.approval_policy == Some(ApprovalPolicy::Never) && runtime.sandbox_mode
                == Some(SandboxMode::DangerFullAccess) ==> twice == (
                ApprovalPolicy::Never,
                SandboxMode::DangerFullAccess,
            )
        }),
{
    law_mode_words_give_their_modes("safe"@);
    law_mode_words_give_their_modes("yolo"@);
}

/// Once a mode is written the banner shows the one that was kept, and a notice names the one that was
/// asked for. Nothing else changes.
pub proof fn law_a_written_mode_is_shown(
    a: TranscriptAppView,
    asked: (ApprovalPolicy, SandboxMode),
    kept: (ApprovalPolicy, SandboxMode),
)
    ensures
        ({
            let after = mode_kept(a, asked, kept);
            let label = labels::mode_label_of(asked.0, asked.1);
            &&& after.state.runtime.approval_policy == Some(kept.0)
            &&& after.state.runtime.sandbox_mode == Some(kept.1)
            &&& after.state.runtime.cwd == a.state.runtime.cwd
            &&& after.state.runtime.codex_version == a.state.runtime.codex_version
            &&& after.state.transcript.history.drop_last() == a.state.transcript.history
            &&& after.state.transcript.history.last() matches HistoryCellModelView::Status(cell)
                && text::contains_text(cell.message, label)
            &&& after.state.connection == a.state.connection && after.state.approvals
                == a.state.approvals && after.active_turn_id == a.active_turn_id
        }),
{
    let after = mode_kept(a, asked, kept);
    assert(after.state.transcript.history.drop_last() =~= a.state.transcript.history);
    let head = "Default mode set to "@;
    let label = labels::mode_label_of(asked.0, asked.1);
    let tail = " for new threads ("@ + labels::policy_label_of(asked.0) + "/"@
        + labels::sandbox_label_of(asked.1) + ")"@;
    let whole = head + label + " for new threads ("@ + labels::policy_label_of(asked.0) + "/"@
        + labels::sandbox_label_of(asked.1) + ")"@;
    assert(whole =~= head + label + tail);
    text::lemma_contains_inside(head, label, tail);
}

/// A turn is given the words of the prompt last of all, as they are, and before them the skill that
/// the prompt names, else the one in use, and no other; without a skill it is given the words alone.
pub proof fn law_a_turn_is_given_the_words(
    a: TranscriptAppView,
    named: Option<SkillDescriptorView>,
    words: Seq<char>,
)
    ensures
        ({
            let skill = turn_skill(a, named);
            let input = turn_input(skill, words);
            &&& named is Some ==> skill == named
            &&& named is None ==> skill == a.selected_skill
            &&& input.len() == if skill is Some {
                2int
            } else {
                1
            }
            &&& input.last() matches UserInputView::Text { text } && text == words
            &&& skill is Some ==> (input[0] matches UserInputView::Skill { name, path } && name
                == skill->0.name && path == skill->0.path)
        }),
{
}

/// The title of a conversation is the start of the prompt that opens it, up to sixty characters.
pub proof fn law_a_title_is_the_start_of_the_prompt(prompt: Seq<char>)
    ensures
        title_of(prompt).len() <= 60,
        prompt.len() <= 60 ==> title_of(prompt) == prompt,
        prompt.len() > 60 ==> title_of(prompt).len() == 60,
        forall|i: int| 0 <= i < title_of(prompt).len() ==> #[trigger] title_of(prompt)[i] == prompt[i],
{
}

/// An approval whose answer was sent is no longer pending, the client goes on streaming, and a notice
/// says what was decided.
pub proof fn law_a_sent_answer_ends_the_wait(
    a: TranscriptAppView,
    approval: PendingApprovalView,
    decision: ApprovalDecision,
)
    ensures
        ({
            let after = approval_answered(a, approval, decision, Ok(()));
            &&& after.state.approvals.pending is None
            &&& after.state.connection == ConnectionState::Streaming
            &&& !refuses_prompts(after)
            &&& after.state.transcript.history.drop_last() == a.state.transcript.history
            &&& after.state.transcript.history.last() matches HistoryCellModelView::Status(cell)
                && cell.message == "Approval "@ + approval.id + ": "@ + if decision
                == ApprovalDecision::Approve {
                "approved"@
            } else {
                "rejected"@
            }
            &&& after.active_turn_id == a.active_turn_id
        }),
{
    let after = approval_answered(a, approval, decision, Ok(()));
    assert(after.state.transcript.history.drop_last() =~= a.state.transcript.history);
}

/// An answer that could not be sent is told of as an error, with the approval and what went wrong.
pub proof fn law_an_unsent_answer_is_told_of(
    a: TranscriptAppView,
    approval: PendingApprovalView,
    decision: ApprovalDecision,
    error: Seq<char>,
)
    ensures
        ({
            let after = approval_answered(a, approval, decision, Err(error));
            &&& after.state.connection == ConnectionState::WaitingApproval
            &&& after.state.transcript.history.drop_last() == a.state.transcript.history
            &&& after.state.transcript.history.last() matches HistoryCellModelView::Error(cell)
                && text::contains_text(cell.message, approval.id) && text::contains_text(
                cell.message,
                error,
            )
        }),
{
    let after = approval_answered(a, approval, decision, Err(error));
    assert(after.state.transcript.history.drop_last() =~= a.state.transcript.history);
    let head = "Failed to send approval "@;
    let tail = ". Use /approval to retry."@;
    let whole = head + approval.id + ": "@ + error + tail;
    assert(whole =~= head + approval.id + (": "@ + error + tail));
    text::lemma_contains_inside(head, approval.id, ": "@ + error + tail);
    text::lemma_contains_inside(head + approval.id + ": "@, error, tail);
}

/// An interrupt that was granted is told of as a notice, and one that was not as an error, with the
/// turn and what went wrong.
pub proof fn law_an_interrupt_is_told_of(
    a: TranscriptAppView,
    turn_id: Seq<char>,
    reply: Result<(), Seq<char>>,
)
    ensures
        ({
            let after = interrupted(a, turn_id, reply).state.transcript.history;
            &&& after.drop_last() == a.state.transcript.history
            &&& reply is Ok ==> after.last() is Status
            &&& reply matches Err(error) ==> (after.last() matches HistoryCellModelView::Error(cell)
                && text::contains_text(cell.message, turn_id) && text::contains_text(
                cell.message,
                error,
            ))
        }),
{
    let after = interrupted(a, turn_id, reply).state.transcript.history;
    assert(after.drop_last() =~= a.state.transcript.history);
    if let Err(error) = reply {
        let head = "Failed to send interrupt for turn "@;
        let none = Seq::<char>::empty();
        let whole = head + turn_id + ": "@ + error;
        assert(whole =~= head + turn_id + (": "@ + error));
        text::lemma_contains_inside(head, turn_id, ": "@ + error);
        assert(whole =~= (head + turn_id + ": "@) + error + none);
        text::lemma_contains_inside(head + turn_id + ": "@, error, none);
    }
}

/// Prompts are refused exactly while the client waits for an approval that is pending.
pub proof fn law_prompts_are_refused_while_waiting(a: TranscriptAppView)
    ensures
        refuses_prompts(a) <==> a.state.connection == ConnectionState::WaitingApproval
            && a.state.approvals.pending is Some,
        refuses_prompts(a) ==> !refuses_prompts(
            approval_answered(a, a.state.approvals.pending->0, ApprovalDecision::Reject, Ok(())),
        ),
{
}

/// A prompt set something going exactly where a turn runs that did not run before, or the connection
/// streams that did not stream before.
pub proof fn law_something_began_streaming(
    turn_before: Option<Seq<char>>,
    connection_before: ConnectionState,
    a: TranscriptAppView,
)
    ensures
        a.active_turn_id != turn_before ==> began_streaming(turn_before, connection_before, a),
        a.active_turn_id == turn_before ==> (began_streaming(turn_before, connection_before, a)
            <==> a.state.connection == ConnectionState::Streaming && connection_before
            != ConnectionState::Streaming),
{
}

/// Once the runtime has said what it is the client is ready, and shows just that.
pub proof fn law_a_begun_session_is_ready(a: TranscriptAppView, info: RuntimeInfoView)
    ensures
        session_begun(a, info).state.connection == ConnectionState::Ready,
        session_begun(a, info).state.runtime.cwd == Some(info.cwd),
        session_begun(a, info).state.runtime.codex_version == Some(info.codex_version),
        session_begun(a, info).state.runtime.approval_policy == Some(info.approval_policy),
        session_begun(a, info).state.runtime.sandbox_mode == Some(info.sandbox_mode),
        session_begun(a, info).interactive_rendering,
        session_begun(a, info).state.transcript == a.state.transcript,
        session_begun(a, info).active_turn_id == a.active_turn_id,
{
}

} // verus!
