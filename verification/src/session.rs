//! Resuming conversations, following live turns, and picking things from menus.
use vstd::prelude::*;

use crate::app;
use crate::app::{
    ApprovalResolutionOutcome, TranscriptApp, TranscriptAppView,
};
use crate::artifacts::{
    ArtifactFilePayload, ArtifactFilePayloadView, ArtifactManifest, ArtifactManifestView,
    ArtifactReadBundle, ArtifactReadBundleView,
};
use crate::ids::{LocalThreadId, LocalTurnId};
use crate::labels;
use crate::picker;
use crate::picker::Choice;
use crate::restore;
use crate::restore::TranscriptSource;
use crate::skills::{SkillDescriptor, SkillDescriptorView};
use crate::text;
use crate::threads::{
    ThreadRecord, ThreadRecordView, ThreadStatus, TurnRecord, TurnRecordView, TurnStatus,
};
use crate::transcript;
use crate::ui::{
    AppStateView, ConnectionState, HistoryCellModelView, ThreadListItem, ThreadListItemView,
};

verus! {

broadcast use text::group_views;

// -- Turns that are live ------------------------------------------------------------------

/// Whether a turn goes on.
pub open spec fn is_live(status: TurnStatus) -> bool {
    status == TurnStatus::Starting || status == TurnStatus::Streaming || status
        == TurnStatus::WaitingApproval
}

/// The last turn that goes on.
pub open spec fn live_turn(turns: Seq<TurnRecordView>) -> Option<Seq<char>>
    decreases turns.len(),
{
    if turns.len() == 0 {
        None
    } else if is_live(turns.last().status) {
        Some(turns.last().id)
    } else {
        live_turn(turns.drop_last())
    }
}

/// The last turn that goes on.
pub fn restored_active_turn_id(turns: &[TurnRecord]) -> (found: Option<LocalTurnId>)
    ensures
        text::opt_view(found) == live_turn(text::views(turns@)),
{
    let ghost all = text::views(turns@);
    let mut i: usize = turns.len();
    assert(all.take(all.len() as int) =~= all);
    while i > 0
        invariant
            i <= turns@.len(),
            all == text::views(turns@),
            live_turn(all.take(i as int)) == live_turn(all),
        decreases i,
    {
        i = i - 1;
        assert(all.take(i + 1).drop_last() =~= all.take(i as int));
        assert(all.take(i + 1).last() == turns@[i as int]@);
        match turns[i].status {
            TurnStatus::Starting | TurnStatus::Streaming | TurnStatus::WaitingApproval => {
                return Some(turns[i].id.clone());
            },
            _ => {},
        }
    }
    None
}

// -- Resuming -------------------------------------------------------------------------------

/// A conversation with its turns.
#[derive(Debug, PartialEq)]
pub struct ThreadReadResult {
    pub thread: ThreadRecord,
    pub turns: Vec<TurnRecord>,
}

/// The model of `ThreadReadResult`.
#[verifier::ext_equal]
pub struct ThreadReadResultView {
    pub thread: ThreadRecordView,
    pub turns: Seq<TurnRecordView>,
}

impl View for ThreadReadResult {
    type V = ThreadReadResultView;

    open spec fn view(&self) -> ThreadReadResultView {
        ThreadReadResultView {
            thread: self.thread@,
            turns: text::views(self.turns@),
        }
    }
}

impl Clone for ThreadReadResult {
    fn clone(&self) -> (copy: Self)
        ensures
            copy@ == self@,
    {
        ThreadReadResult {
            thread: self.thread.clone(),
            turns: text::copy_all(&self.turns),
        }
    }
}

/// How a turn is told of where nothing else is known of it.
pub open spec fn turn_note(turn: TurnRecordView) -> Seq<char> {
    "Restored turn "@ + turn.id + " ("@ + labels::turn_status_name_of(turn.status) + ")"@
}

/// A client with a notice for each turn.
pub open spec fn turns_noted(a: TranscriptAppView, turns: Seq<TurnRecordView>) -> TranscriptAppView
    decreases turns.len(),
{
    if turns.len() == 0 {
        a
    } else {
        app::told(turns_noted(a, turns.drop_last()), turn_note(turns.last()))
    }
}

/// The connection that the state of a conversation calls for.
pub open spec fn connection_for(status: ThreadStatus, pending: bool) -> ConnectionState {
    if status == ThreadStatus::Running {
        ConnectionState::Streaming
    } else if status == ThreadStatus::WaitingApproval && pending {
        ConnectionState::WaitingApproval
    } else {
        ConnectionState::Ready
    }
}

/// The state after a stored transcript took the place of the one shown.
pub open spec fn transcript_restored(
    s: AppStateView,
    path: Seq<char>,
    source: TranscriptSource,
) -> AppStateView {
    let reset = restore::transcript_reset(s);
    match source {
        TranscriptSource::Missing => reset,
        TranscriptSource::Unreadable { error } => transcript::with_cell(
            reset,
            transcript::warning_cell("Failed to read transcript "@ + path + ": "@ + error@),
        ),
        TranscriptSource::Read { lines } => transcript::finalized(
            restore::lines_replayed(reset, path, text::views(lines@)),
        ),
    }
}

/// Whether every line of a stored transcript can be replayed.
pub open spec fn can_restore(source: TranscriptSource) -> bool {
    source matches TranscriptSource::Read { lines } ==> forall|i: int|
        0 <= i < lines@.len() ==> restore::can_replay((#[trigger] lines@[i])@.line)
}

/// The client after the transcript of a conversation was restored.
pub open spec fn details_restored(
    a: TranscriptAppView,
    details: ThreadReadResultView,
    source: TranscriptSource,
) -> TranscriptAppView {
    let restored = app::with_state(
        a,
        transcript_restored(a.state, details.thread.transcript_path, source),
    );
    if restored.state.transcript.history.len() == 0 {
        turns_noted(restored, details.turns)
    } else {
        restored
    }
}

/// A client that shows a conversation which the runtime resumed.
pub open spec fn resumed(
    a: TranscriptAppView,
    id: Seq<char>,
    details: ThreadReadResultView,
    source: TranscriptSource,
) -> TranscriptAppView {
    let shown = details_restored(
        app::with_state(a, app::thread_selected(a.state, id)),
        details,
        source,
    );
    TranscriptAppView {
        active_turn_id: live_turn(details.turns),
        state: app::connected(
            shown.state,
            connection_for(details.thread.status, shown.state.approvals.pending is Some),
        ),
        ..shown
    }
}

/// A client that shows what is stored of a conversation which the runtime would not resume.
pub open spec fn resume_lost(
    a: TranscriptAppView,
    error: Seq<char>,
    details: ThreadReadResultView,
    source: TranscriptSource,
) -> TranscriptAppView {
    let shown = details_restored(a, details, source);
    app::warned(
        TranscriptAppView {
            active_turn_id: None,
            state: app::connected(app::awaiting(shown.state, None), ConnectionState::Ready),
            ..shown
        },
        "Resume failed: "@ + error + ". Loaded local transcript only."@,
    )
}

impl TranscriptApp {
    /// Shows the stored transcript of a conversation. The answer is the number of the line that
    /// could not be replayed, if there is one.
    pub fn restore_thread_details(
        &mut self,
        details: &ThreadReadResult,
        source: &TranscriptSource,
    ) -> (stopped: Option<usize>)
        ensures
            stopped is None <==> can_restore(*source),
            stopped is None ==> final(self)@ == details_restored(old(self)@, details@, *source),
    {
        let stopped: Option<usize> = restore::restore_transcript_from_file(
            &mut self.state,
            details.thread.transcript_path.as_str(),
            source,
        );
        if stopped.is_some() {
            return stopped;
        }
        let ghost restored = self@;
        if self.state.transcript.history.len() == 0 {
            let ghost all = text::views(details.turns@);
            let mut i: usize = 0;
            assert(all.take(0) =~= Seq::<TurnRecordView>::empty());
            while i < details.turns.len()
                invariant
                    i <= details.turns@.len(),
                    all == text::views(details.turns@),
                    self@ == turns_noted(restored, all.take(i as int)),
                decreases details.turns@.len() - i,
            {
                assert(all.take(i + 1).drop_last() =~= all.take(i as int));
                assert(all.take(i + 1).last() == details.turns@[i as int]@);
                let message: String = text::glue5(
                    "Restored turn ",
                    details.turns[i].id.text.as_str(),
                    " (",
                    labels::turn_status_name(details.turns[i].status),
                    ")",
                );
                self.push_status(message.as_str());
                i = i + 1;
            }
            assert(all.take(all.len() as int) =~= all);
        }
        None
    }

    /// Sets the connection to what the state of a conversation calls for.
    pub fn sync_connection_from_thread_status(&mut self, status: ThreadStatus)
        ensures
            final(self)@ == app::with_state(
                old(self)@,
                app::connected(
                    old(self)@.state,
                    connection_for(status, old(self)@.state.approvals.pending is Some),
                ),
            ),
    {
        let pending: bool = self.state.approvals.pending.is_some();
        self.state.connection = match status {
            ThreadStatus::Running => ConnectionState::Streaming,
            ThreadStatus::WaitingApproval => {
                if pending {
                    ConnectionState::WaitingApproval
                } else {
                    ConnectionState::Ready
                }
            },
            _ => ConnectionState::Ready,
        };
    }

    /// Shows a conversation that the runtime resumed. The answer is the number of the line that
    /// could not be replayed, if there is one.
    pub fn resume_succeeded(
        &mut self,
        thread_id: &LocalThreadId,
        details: &ThreadReadResult,
        source: &TranscriptSource,
    ) -> (stopped: Option<usize>)
        ensures
            stopped is None <==> can_restore(*source),
            stopped is None ==> final(self)@ == resumed(old(self)@, thread_id@, details@, *source),
    {
        self.set_active_thread(thread_id);
        let stopped: Option<usize> = self.restore_thread_details(details, source);
        if stopped.is_some() {
            return stopped;
        }
        self.active_turn_id = restored_active_turn_id(details.turns.as_slice());
        self.sync_connection_from_thread_status(details.thread.status);
        None
    }

    /// Shows what is stored of a conversation that the runtime would not resume. The answer is the
    /// number of the line that could not be replayed, if there is one.
    pub fn resume_failed(
        &mut self,
        error: &str,
        details: &ThreadReadResult,
        source: &TranscriptSource,
    ) -> (stopped: Option<usize>)
        ensures
            stopped is None <==> can_restore(*source),
            stopped is None ==> final(self)@ == resume_lost(old(self)@, error@, details@, *source),
    {
        let stopped: Option<usize> = self.restore_thread_details(details, source);
        if stopped.is_some() {
            return stopped;
        }
        self.active_turn_id = None;
        self.state.approvals.pending = None;
        self.state.connection = ConnectionState::Ready;
        let message: String = text::glue3(
            "Resume failed: ",
            error,
            ". Loaded local transcript only.",
        );
        self.push_warning(message.as_str());
        None
    }

    /// Whether a conversation that was resumed is to be followed; what grows in it is marked so.
    pub fn follow_resumed_thread(&mut self) -> (follow: bool)
        ensures
            follow == (old(self)@.state.connection == ConnectionState::Streaming || old(
                self,
            )@.state.connection == ConnectionState::WaitingApproval),
            final(self)@ == if old(self)@.state.connection == ConnectionState::Streaming {
                app::with_state(old(self)@, transcript::marked_live(old(self)@.state))
            } else {
                old(self)@
            },
    {
        match self.state.connection {
            ConnectionState::Streaming => {
                transcript::mark_latest_streaming_cells_live(&mut self.state);
                true
            },
            ConnectionState::WaitingApproval => true,
            _ => false,
        }
    }
}

// -- Following a turn -------------------------------------------------------------------------

/// Where the client is while it follows a turn.
#[derive(Clone, Copy, Debug, PartialEq, Eq, Structural)]
pub enum DrainPoint {
    /// A notification was taken in; whether it ended the turn.
    Notified { completed: bool },
    /// The user was asked about an approval after a notification.
    AnsweredAfterNotification { completed: bool, outcome: ApprovalResolutionOutcome },
    /// No notification was there.
    Quiet,
    /// The user was asked about an approval while no notification was there.
    AnsweredWhileQuiet { outcome: ApprovalResolutionOutcome },
}

/// What the client does next while it follows a turn.
#[derive(Clone, Copy, Debug, PartialEq, Eq, Structural)]
pub enum DrainAction {
    /// Look for a notification at once.
    Poll,
    /// Wait a little, then look for a notification.
    Sleep,
    /// Ask the user about the pending approval.
    ResolveApproval,
    /// Take in what notifications there still are, and stop.
    Flush,
    /// Stop.
    Stop,
}

/// What the client does next while it follows a turn.
pub open spec fn drain_action(point: DrainPoint, connection: ConnectionState) -> DrainAction {
    match point {
        DrainPoint::Notified { completed } => if connection == ConnectionState::WaitingApproval {
            DrainAction::ResolveApproval
        } else if completed {
            DrainAction::Flush
        } else {
            DrainAction::Poll
        },
        DrainPoint::AnsweredAfterNotification { completed, outcome } => if outcome
            == ApprovalResolutionOutcome::Deferred {
            DrainAction::Stop
        } else if completed {
            DrainAction::Flush
        } else {
            DrainAction::Poll
        },
        DrainPoint::Quiet => if connection == ConnectionState::WaitingApproval {
            DrainAction::ResolveApproval
        } else if connection == ConnectionState::Disconnected {
            DrainAction::Stop
        } else {
            DrainAction::Sleep
        },
        DrainPoint::AnsweredWhileQuiet { outcome } => if outcome
            == ApprovalResolutionOutcome::Deferred || connection == ConnectionState::Disconnected {
            DrainAction::Stop
        } else {
            DrainAction::Sleep
        },
    }
}

/// What the client does next while it follows a turn.
pub fn next_drain_action(point: DrainPoint, connection: ConnectionState) -> (action: DrainAction)
    ensures
        action == drain_action(point, connection),
{
    match point {
        DrainPoint::Notified { completed } => {
            if connection == ConnectionState::WaitingApproval {
                DrainAction::ResolveApproval
            } else if completed {
                DrainAction::Flush
            } else {
                DrainAction::Poll
            }
        },
        DrainPoint::AnsweredAfterNotification { completed, outcome } => {
            if outcome == ApprovalResolutionOutcome::Deferred {
                DrainAction::Stop
            } else if completed {
                DrainAction::Flush
            } else {
                DrainAction::Poll
            }
        },
        DrainPoint::Quiet => {
            if connection == ConnectionState::WaitingApproval {
                DrainAction::ResolveApproval
            } else if connection == ConnectionState::Disconnected {
                DrainAction::Stop
            } else {
                DrainAction::Sleep
            }
        },
        DrainPoint::AnsweredWhileQuiet { outcome } => {
            if outcome == ApprovalResolutionOutcome::Deferred || connection
                == ConnectionState::Disconnected {
                DrainAction::Stop
            } else {
                DrainAction::Sleep
            }
        },
    }
}

/// An answer that could not be sent stops the following of a turn at once, wherever it is given.
pub proof fn law_deferred_answer_stops_following(completed: bool, connection: ConnectionState)
    ensures
        drain_action(
            DrainPoint::AnsweredAfterNotification {
                completed,
                outcome: ApprovalResolutionOutcome::Deferred,
            },
            connection,
        ) == DrainAction::Stop,
        drain_action(
            DrainPoint::AnsweredWhileQuiet { outcome: ApprovalResolutionOutcome::Deferred },
            connection,
        ) == DrainAction::Stop,
{
}

impl TranscriptApp {
    /// Sets the connection to idle before the last notifications of a turn are taken in.
    pub fn begin_flush(&mut self)
        ensures
            final(self)@ == app::with_state(
                old(self)@,
                app::connected(old(self)@.state, ConnectionState::Ready),
            ),
    {
        self.state.connection = ConnectionState::Ready;
    }

    /// Closes what grew once a turn is no longer followed.
    pub fn finish_drain(&mut self)
        ensures
            final(self)@ == app::with_state(old(self)@, transcript::finalized(old(self)@.state)),
    {
        transcript::finalize_streaming_cells(&mut self.state);
    }

    /// Whether a turn is followed again after a pending approval was put to the user once more:
    /// where the answer was sent and the turn goes on.
    pub fn follows_after_retry(&self, outcome: ApprovalResolutionOutcome) -> (follow: bool)
        ensures
            follow == (outcome == ApprovalResolutionOutcome::Resolved && self@.state.connection
                == ConnectionState::Streaming),
    {
        outcome == ApprovalResolutionOutcome::Resolved && self.state.connection
            == ConnectionState::Streaming
    }

    /// Warns that keys cannot interrupt a turn.
    pub fn interrupts_unavailable(&mut self, error: &str)
        ensures
            final(self)@ == app::warned(
                old(self)@,
                "Interrupt hotkeys unavailable: "@ + error@,
            ),
    {
        let message: String = text::glue("Interrupt hotkeys unavailable: ", error);
        self.push_warning(message.as_str());
    }
}

// -- Menus ----------------------------------------------------------------------------------------

/// The warning that nothing matched a query.
pub open spec fn nothing_matched(what: Seq<char>, query: Option<Seq<char>>) -> Seq<char> {
    "No "@ + what + " matched `"@ + (match query {
        Some(query) => query,
        None => ""@,
    }) + "`."@
}

fn nothing_matched_text(what: &str, query: &Option<String>) -> (out: String)
    ensures
        out@ == nothing_matched(what@, text::opt_view(*query)),
{
    let query: &str = match query {
        Some(query) => query.as_str(),
        None => "",
    };
    text::glue5("No ", what, " matched `", query, "`.")
}

/// The number in front of a line of a menu.
pub open spec fn numbered(i: int) -> Seq<char> {
    "  "@ + text::decimal((i + 1) as nat) + ". "@
}

/// The number in front of a line of a menu.
pub fn numbered_text(i: usize) -> (out: String)
    requires
        i < usize::MAX,
    ensures
        out@ == numbered(i as int),
{
    let number: String = text::number((i + 1) as u64);
    text::glue3("  ", number.as_str(), ". ")
}

/// The name of a conversation in a menu.
pub open spec fn thread_name(thread: ThreadRecordView) -> Seq<char> {
    match thread.title {
        Some(title) => title,
        None => thread.id,
    }
}

/// A line of the menu of conversations.
pub open spec fn thread_line(item: ThreadListItemView, i: int) -> Seq<char> {
    numbered(i) + thread_name(item.thread) + " ("@ + labels::thread_status_name_of(
        item.thread.status,
    ) + ")"@
}

/// The menu of the conversations that a query leaves.
pub fn thread_menu(threads: &Vec<ThreadListItem>, query: &Option<String>) -> (lines: Vec<String>)
    ensures
        ({
            let kept = picker::threads_kept(text::views(threads@), text::opt_view(*query));
            text::views(lines@) == Seq::new(kept.len(), |i: int| thread_line(kept[i], i))
        }),
{
    let wanted: Option<&str> = match query {
        Some(query) => Some(query.as_str()),
        None => None,
    };
    let kept: Vec<&ThreadListItem> = picker::filter_threads(threads.as_slice(), wanted);
    let ghost all = text::views(kept@);
    let mut lines: Vec<String> = Vec::new();
    let mut i: usize = 0;
    while i < kept.len()
        invariant
            i <= kept@.len(),
            all == text::views(kept@),
            lines@.len() == i,
            forall|j: int| 0 <= j < i ==> (#[trigger] lines@[j])@ == thread_line(all[j], j),
        decreases kept@.len() - i,
    {
        assert(all[i as int] == kept@[i as int]@);
        let head: String = numbered_text(i);
        let name: &str = match &kept[i].thread.title {
            Some(title) => title.as_str(),
            None => kept[i].thread.id.text.as_str(),
        };
        lines.push(
            text::glue5(
                head.as_str(),
                name,
                " (",
                labels::thread_status_name(kept[i].thread.status),
                ")",
            ),
        );
        i = i + 1;
    }
    assert(text::views(lines@) =~= Seq::new(all.len(), |k: int| thread_line(all[k], k)));
    lines
}

/// The two lines of a skill in the menu of skills.
pub open spec fn skill_lines(skill: SkillDescriptorView, i: int) -> Seq<Seq<char>> {
    seq![numbered(i) + picker::skill_description(skill), "     "@ + skill.description]
}

/// The menu of skills.
pub open spec fn skill_menu_of(skills: Seq<SkillDescriptorView>) -> Seq<Seq<char>>
    decreases skills.len(),
{
    if skills.len() == 0 {
        Seq::empty()
    } else {
        skill_menu_of(skills.drop_last()) + skill_lines(skills.last(), skills.len() - 1)
    }
}

/// The menu of the skills that a query leaves.
pub fn skill_menu(skills: &Vec<SkillDescriptor>, query: &Option<String>) -> (lines: Vec<String>)
    ensures
        text::views(lines@) == skill_menu_of(
            picker::skills_kept(text::views(skills@), text::opt_view(*query)),
        ),
{
    let wanted: Option<&str> = match query {
        Some(query) => Some(query.as_str()),
        None => None,
    };
    let kept: Vec<&SkillDescriptor> = picker::filter_skills(skills.as_slice(), wanted);
    let ghost all = text::views(kept@);
    let mut lines: Vec<String> = Vec::new();
    let mut i: usize = 0;
    assert(all.take(0) =~= Seq::<SkillDescriptorView>::empty());
    while i < kept.len()
        invariant
            i <= kept@.len(),
            all == text::views(kept@),
            text::views(lines@) == skill_menu_of(all.take(i as int)),
        decreases kept@.len() - i,
    {
        assert(all.take(i + 1).drop_last() =~= all.take(i as int));
        assert(all.take(i + 1).last() == kept@[i as int]@);
        let ghost before = text::views(lines@);
        let head: String = numbered_text(i);
        let description: String = picker::describe_skill(kept[i]);
        lines.push(text::glue(head.as_str(), description.as_str()));
        lines.push(text::glue("     ", kept[i].description.as_str()));
        assert(text::views(lines@) =~= before + skill_lines(kept@[i as int]@, i as int));
        i = i + 1;
    }
    assert(all.take(all.len() as int) =~= all);
    lines
}

/// A line of the menu of artifacts.
pub open spec fn artifact_line(artifact: ArtifactManifestView, i: int) -> Seq<char> {
    numbered(i) + artifact.title + " ("@ + artifact.primary_path + ")"@
}

/// The menu of the artifacts that a query leaves.
pub fn artifact_menu(artifacts: &Vec<ArtifactManifest>, query: &Option<String>) -> (lines: Vec<
    String,
>)
    ensures
        ({
            let kept = picker::artifacts_kept(text::views(artifacts@), text::opt_view(*query));
            text::views(lines@) == Seq::new(kept.len(), |i: int| artifact_line(kept[i], i))
        }),
{
    let wanted: Option<&str> = match query {
        Some(query) => Some(query.as_str()),
        None => None,
    };
    let kept: Vec<&ArtifactManifest> = picker::filter_artifacts(artifacts.as_slice(), wanted);
    let ghost all = text::views(kept@);
    let mut lines: Vec<String> = Vec::new();
    let mut i: usize = 0;
    while i < kept.len()
        invariant
            i <= kept@.len(),
            all == text::views(kept@),
            lines@.len() == i,
            forall|j: int| 0 <= j < i ==> (#[trigger] lines@[j])@ == artifact_line(all[j], j),
        decreases kept@.len() - i,
    {
        assert(all[i as int] == kept@[i as int]@);
        let head: String = numbered_text(i);
        lines.push(
            text::glue5(
                head.as_str(),
                kept[i].title.as_str(),
                " (",
                kept[i].primary_path.as_str(),
                ")",
            ),
        );
        i = i + 1;
    }
    assert(text::views(lines@) =~= Seq::new(all.len(), |k: int| artifact_line(all[k], k)));
    lines
}

/// Why a line at a menu chose nothing.
#[derive(Clone, Copy, Debug, PartialEq, Eq, Structural)]
pub enum ChoiceError {
    NotANumber,
    OutOfRange,
}

/// Whether a menu is offered, and the client then: without one where nothing is there or nothing is
/// left, and then warned.
pub open spec fn offer(
    a: TranscriptAppView,
    what: Seq<char>,
    nothing: Seq<char>,
    all: nat,
    kept: nat,
    query: Option<Seq<char>>,
) -> (bool, TranscriptAppView) {
    if all == 0 {
        (false, app::warned(a, nothing))
    } else if kept == 0 {
        (false, app::warned(a, nothing_matched(what, query)))
    } else {
        (true, a)
    }
}

/// A client after a choice among skills.
pub open spec fn skill_picked(
    a: TranscriptAppView,
    kept: Seq<SkillDescriptorView>,
    choice: Choice,
) -> TranscriptAppView {
    match choice {
        Choice::Cancelled => app::told(
            TranscriptAppView { selected_skill: None, ..a },
            "Cleared selected skill."@,
        ),
        Choice::Chosen(i) => TranscriptAppView {
            selected_skill: Some(kept[i as int]),
            ..app::told(a, "Selected skill: "@ + picker::skill_label(kept[i as int]))
        },
        Choice::NotANumber => a,
        Choice::OutOfRange => a,
    }
}

impl TranscriptApp {
    /// Whether there are conversations to pick from among those that a query leaves; where there
    /// are none a warning says so.
    pub fn offers_threads(&mut self, query: &Option<String>) -> (offered: bool)
        ensures
            ({
                let all = old(self)@.state.threads;
                let kept = picker::threads_kept(all, text::opt_view(*query));
                (offered, final(self)@) == offer(
                    old(self)@,
                    "threads"@,
                    "No threads found."@,
                    all.len(),
                    kept.len(),
                    text::opt_view(*query),
                )
            }),
    {
        if self.state.threads.len() == 0 {
            assert(self@.state.threads.len() == 0);
            self.push_warning("No threads found.");
            return false;
        }
        let wanted: Option<&str> = match query {
            Some(query) => Some(query.as_str()),
            None => None,
        };
        let found: usize = picker::filter_threads(self.state.threads.as_slice(), wanted).len();
        if found == 0 {
            let message: String = nothing_matched_text("threads", query);
            self.push_warning(message.as_str());
            return false;
        }
        true
    }

    /// The conversation that a line chooses from the menu; nothing where it cancels.
    pub fn pick_thread(&self, query: &Option<String>, line: &str) -> (picked: Result<
        Option<LocalThreadId>,
        ChoiceError,
    >)
        ensures
            ({
                let kept = picker::threads_kept(self@.state.threads, text::opt_view(*query));
                match (picker::choice_of(line@, kept.len()), picked) {
                    (Choice::Cancelled, Ok(None)) => true,
                    (Choice::Chosen(i), Ok(Some(id))) => id@ == kept[i as int].thread.id,
                    (Choice::NotANumber, Err(ChoiceError::NotANumber)) => true,
                    (Choice::OutOfRange, Err(ChoiceError::OutOfRange)) => true,
                    _ => false,
                }
            }),
    {
        let wanted: Option<&str> = match query {
            Some(query) => Some(query.as_str()),
            None => None,
        };
        let kept: Vec<&ThreadListItem> = picker::filter_threads(
            self.state.threads.as_slice(),
            wanted,
        );
        match picker::parse_choice(line, kept.len()) {
            Choice::Cancelled => Ok(None),
            Choice::Chosen(i) => {
                assert(text::views(kept@)[i as int] == kept@[i as int]@);
                Ok(Some(kept[i].thread.id.clone()))
            },
            Choice::NotANumber => Err(ChoiceError::NotANumber),
            Choice::OutOfRange => Err(ChoiceError::OutOfRange),
        }
    }

    /// Whether there are skills to pick from among those that a query leaves; where there are none
    /// a warning says so.
    pub fn offers_skills(&mut self, skills: &Vec<SkillDescriptor>, query: &Option<String>) -> (offered:
        bool)
        ensures
            ({
                let all = text::views(skills@);
                let kept = picker::skills_kept(all, text::opt_view(*query));
                (offered, final(self)@) == offer(
                    old(self)@,
                    "skills"@,
                    "No skills available."@,
                    all.len(),
                    kept.len(),
                    text::opt_view(*query),
                )
            }),
    {
        if skills.len() == 0 {
            self.push_warning("No skills available.");
            return false;
        }
        let wanted: Option<&str> = match query {
            Some(query) => Some(query.as_str()),
            None => None,
        };
        let found: usize = picker::filter_skills(skills.as_slice(), wanted).len();
        if found == 0 {
            let message: String = nothing_matched_text("skills", query);
            self.push_warning(message.as_str());
            return false;
        }
        true
    }

    /// Takes the skill that a line chooses from the menu into use; a blank line puts away the one
    /// in use.
    pub fn pick_skill(
        &mut self,
        skills: &Vec<SkillDescriptor>,
        query: &Option<String>,
        line: &str,
    ) -> (picked: Result<(), ChoiceError>)
        ensures
            ({
                let kept = picker::skills_kept(text::views(skills@), text::opt_view(*query));
                let choice = picker::choice_of(line@, kept.len());
                &&& final(self)@ == skill_picked(old(self)@, kept, choice)
                &&& match (choice, picked) {
                    (Choice::Cancelled, Ok(_)) => true,
                    (Choice::Chosen(_), Ok(_)) => true,
                    (Choice::NotANumber, Err(ChoiceError::NotANumber)) => true,
                    (Choice::OutOfRange, Err(ChoiceError::OutOfRange)) => true,
                    _ => false,
                }
            }),
    {
        let wanted: Option<&str> = match query {
            Some(query) => Some(query.as_str()),
            None => None,
        };
        let kept: Vec<&SkillDescriptor> = picker::filter_skills(skills.as_slice(), wanted);
        match picker::parse_choice(line, kept.len()) {
            Choice::Cancelled => {
                self.selected_skill = None;
                self.push_status("Cleared selected skill.");
                Ok(())
            },
            Choice::Chosen(i) => {
                assert(text::views(kept@)[i as int] == kept@[i as int]@);
                let skill: SkillDescriptor = kept[i].clone();
                let label: String = picker::selected_skill_label(&skill);
                let message: String = text::glue("Selected skill: ", label.as_str());
                self.push_status(message.as_str());
                self.selected_skill = Some(skill);
                Ok(())
            },
            Choice::NotANumber => Err(ChoiceError::NotANumber),
            Choice::OutOfRange => Err(ChoiceError::OutOfRange),
        }
    }

    /// Whether there are artifacts to pick from among those that a query leaves; where there are
    /// none a warning says so.
    pub fn offers_artifacts(
        &mut self,
        artifacts: &Vec<ArtifactManifest>,
        query: &Option<String>,
    ) -> (offered: bool)
        ensures
            ({
                let all = text::views(artifacts@);
                let kept = picker::artifacts_kept(all, text::opt_view(*query));
                (offered, final(self)@) == offer(
                    old(self)@,
                    "artifacts"@,
                    "No artifacts found."@,
                    all.len(),
                    kept.len(),
                    text::opt_view(*query),
                )
            }),
    {
        if artifacts.len() == 0 {
            self.push_warning("No artifacts found.");
            return false;
        }
        let wanted: Option<&str> = match query {
            Some(query) => Some(query.as_str()),
            None => None,
        };
        let found: usize = picker::filter_artifacts(artifacts.as_slice(), wanted).len();
        if found == 0 {
            let message: String = nothing_matched_text("artifacts", query);
            self.push_warning(message.as_str());
            return false;
        }
        true
    }

    /// Whether an artifact has files to show; where it has none a warning says so.
    pub fn offers_files(&mut self, bundle: &ArtifactReadBundle) -> (offered: bool)
        ensures
            offered == (bundle@.files.len() > 0),
            final(self)@ == if offered {
                old(self)@
            } else {
                app::warned(old(self)@, "Selected artifact has no readable files."@)
            },
    {
        if bundle.files.len() == 0 {
            self.push_warning("Selected artifact has no readable files.");
            return false;
        }
        true
    }
}

/// The artifact that a line chooses from the menu; nothing where it cancels.
pub fn pick_artifact<'a>(
    artifacts: &'a Vec<ArtifactManifest>,
    query: &Option<String>,
    line: &str,
) -> (picked: Result<Option<&'a ArtifactManifest>, ChoiceError>)
    ensures
        ({
            let kept = picker::artifacts_kept(text::views(artifacts@), text::opt_view(*query));
            match (picker::choice_of(line@, kept.len()), picked) {
                (Choice::Cancelled, Ok(None)) => true,
                (Choice::Chosen(i), Ok(Some(artifact))) => artifact@ == kept[i as int],
                (Choice::NotANumber, Err(ChoiceError::NotANumber)) => true,
                (Choice::OutOfRange, Err(ChoiceError::OutOfRange)) => true,
                _ => false,
            }
        }),
{
    let wanted: Option<&str> = match query {
        Some(query) => Some(query.as_str()),
        None => None,
    };
    let kept: Vec<&'a ArtifactManifest> = picker::filter_artifacts(artifacts.as_slice(), wanted);
    match picker::parse_choice(line, kept.len()) {
        Choice::Cancelled => Ok(None),
        Choice::Chosen(i) => {
            assert(text::views(kept@)[i as int] == kept@[i as int]@);
            Ok(Some(kept[i]))
        },
        Choice::NotANumber => Err(ChoiceError::NotANumber),
        Choice::OutOfRange => Err(ChoiceError::OutOfRange),
    }
}

// -- Files of an artifact ----------------------------------------------------------------------------

/// What a file of an artifact shows: why it could not be read, else its text, else a note.
pub open spec fn file_text(file: ArtifactFilePayloadView) -> Seq<char> {
    match file.read_error {
        Some(error) => error,
        None => match file.text {
            Some(text) => text,
            None => "<binary payload omitted>"@,
        },
    }
}

/// What a file of an artifact shows.
pub fn print_artifact_file(file: &ArtifactFilePayload) -> (out: String)
    ensures
        out@ == file_text(file@),
{
    match &file.read_error {
        Some(error) => error.clone(),
        None => match &file.text {
            Some(text) => text.clone(),
            None => "<binary payload omitted>".to_owned(),
        },
    }
}

/// The line above a file: which it is of how many, where it lies and what it is.
pub open spec fn file_heading(bundle: ArtifactReadBundleView, selected: int) -> Seq<char> {
    "File "@ + text::decimal((selected + 1) as nat) + "/"@ + text::decimal(bundle.files.len())
        + ": "@ + bundle.files[selected].path + " ("@ + bundle.files[selected].media_type + ")"@
}

/// The line above a file.
pub fn artifact_file_heading(bundle: &ArtifactReadBundle, selected: usize) -> (out: String)
    requires
        selected < bundle@.files.len(),
    ensures
        out@ == file_heading(bundle@, selected as int),
{
    let files: usize = bundle.files.len();
    let total: String = text::number(files as u64);
    let number: String = text::number((selected + 1) as u64);
    let place: String = text::glue5("File ", number.as_str(), "/", total.as_str(), ": ");
    text::glue5(
        place.as_str(),
        bundle.files[selected].path.as_str(),
        " (",
        bundle.files[selected].media_type.as_str(),
        ")",
    )
}

/// A line of the menu of files, with a mark at the one that is shown.
pub open spec fn file_line(file: ArtifactFilePayloadView, i: int, shown: bool) -> Seq<char> {
    "  "@ + (if shown {
        "*"@
    } else {
        " "@
    }) + " "@ + text::decimal((i + 1) as nat) + ". "@ + file.path + " ("@ + file.media_type + ")"@
        + (if file.read_error is Some {
        " [read error]"@
    } else {
        ""@
    })
}

/// The menu of the files of an artifact.
pub fn artifact_file_menu(bundle: &ArtifactReadBundle, selected: usize) -> (lines: Vec<String>)
    ensures
        text::views(lines@) == Seq::new(
            bundle@.files.len(),
            |i: int| file_line(bundle@.files[i], i, i == selected),
        ),
{
    let ghost all = bundle@.files;
    let mut lines: Vec<String> = Vec::new();
    let mut i: usize = 0;
    while i < bundle.files.len()
        invariant
            i <= bundle.files@.len(),
            all == text::views(bundle.files@),
            lines@.len() == i,
            forall|j: int| 0 <= j < i ==> (#[trigger] lines@[j])@ == file_line(all[j], j, j == selected),
        decreases bundle.files@.len() - i,
    {
        assert(all[i as int] == bundle.files@[i as int]@);
        let mark: &str = if i == selected {
            "*"
        } else {
            " "
        };
        let number: String = text::number((i + 1) as u64);
        let head: String = text::glue5("  ", mark, " ", number.as_str(), ". ");
        let note: &str = if bundle.files[i].read_error.is_some() {
            " [read error]"
        } else {
            ""
        };
        let body: String = text::glue4(
            head.as_str(),
            bundle.files[i].path.as_str(),
            " (",
            bundle.files[i].media_type.as_str(),
        );
        lines.push(text::glue3(body.as_str(), ")", note));
        i = i + 1;
    }
    assert(text::views(lines@) =~= Seq::new(
        all.len(),
        |k: int| file_line(all[k], k, k == selected),
    ));
    lines
}

// -- What resuming keeps ---------------------------------------------------------------------------------

/// The turn that goes on is the last of those that go on; there is none only if none does.
pub proof fn law_the_last_live_turn_goes_on(turns: Seq<TurnRecordView>)
    ensures
        ({
            let live = |i: int|
                turns[i].status == TurnStatus::Starting || turns[i].status == TurnStatus::Streaming
                    || turns[i].status == TurnStatus::WaitingApproval;
            &&& live_turn(turns) is None <==> forall|i: int| 0 <= i < turns.len() ==> !#[trigger] live(i)
            &&& live_turn(turns) matches Some(id) ==> exists|i: int|
                0 <= i < turns.len() && #[trigger] live(i) && turns[i].id == id && forall|j: int|
                    i < j < turns.len() ==> !#[trigger] live(j)
        }),
    decreases turns.len(),
{
    let live = |i: int|
        turns[i].status == TurnStatus::Starting || turns[i].status == TurnStatus::Streaming
            || turns[i].status == TurnStatus::WaitingApproval;
    if turns.len() > 0 {
        let last = turns.len() - 1;
        if is_live(turns.last().status) {
            assert(live(last));
        } else {
            let rest = turns.drop_last();
            law_the_last_live_turn_goes_on(rest);
            let before = |i: int|
                rest[i].status == TurnStatus::Starting || rest[i].status == TurnStatus::Streaming
                    || rest[i].status == TurnStatus::WaitingApproval;
            assert(!live(last));
            assert forall|i: int| 0 <= i < last implies #[trigger] live(i) == before(i) by {
                assert(rest[i] == turns[i]);
            }
            if live_turn(rest) is Some {
                let i = choose|i: int|
                    0 <= i < rest.len() && #[trigger] before(i) && rest[i].id == live_turn(rest)->0
                        && forall|j: int| i < j < rest.len() ==> !#[trigger] before(j);
                assert(live(i));
                assert(turns[i].id == live_turn(turns)->0);
                assert forall|j: int| i < j < turns.len() implies !#[trigger] live(j) by {
                    if j < last {
                        assert(live(j) == before(j));
                    }
                }
            } else {
                assert forall|i: int| 0 <= i < turns.len() implies !#[trigger] live(i) by {
                    if i < last {
                        assert(live(i) == before(i));
                    }
                }
            }
        }
    }
}

/// A client streams exactly where the conversation runs, and waits exactly where the conversation does
/// and there is something to be answered; otherwise it is ready.
pub proof fn law_the_connection_follows_the_conversation(status: ThreadStatus, pending: bool)
    ensures
        connection_for(status, pending) == ConnectionState::Streaming <==> status
            == ThreadStatus::Running,
        connection_for(status, pending) == ConnectionState::WaitingApproval <==> status
            == ThreadStatus::WaitingApproval && pending,
        connection_for(status, pending) == ConnectionState::Ready <==> status
            != ThreadStatus::Running && !(status == ThreadStatus::WaitingApproval && pending),
{
}

/// A conversation that was resumed is connected as its own status says, and its last turn that goes on
/// is the one that goes on here; the selected skill stays.
pub proof fn law_a_resumed_conversation_goes_on(
    a: TranscriptAppView,
    id: Seq<char>,
    details: ThreadReadResultView,
    source: TranscriptSource,
)
    ensures
        ({
            let now = resumed(a, id, details, source);
            &&& now.active_turn_id == live_turn(details.turns)
            &&& now.selected_skill == a.selected_skill
            &&& now.state.connection == ConnectionState::Streaming <==> details.thread.status
                == ThreadStatus::Running
            &&& now.state.connection == ConnectionState::WaitingApproval <==> details.thread.status
                == ThreadStatus::WaitingApproval && now.state.approvals.pending is Some
            &&& now.state.connection == ConnectionState::Streaming || now.state.connection
                == ConnectionState::WaitingApproval || now.state.connection == ConnectionState::Ready
            &&& source is Missing && details.turns.len() == 0 ==> now.state.transcript.history.len()
                == 0 && now.state.active_thread_id == Some(id) && now.state.approvals.pending is None
        }),
{
    let chosen = app::with_state(a, app::thread_selected(a.state, id));
    let restored = app::with_state(
        chosen,
        transcript_restored(chosen.state, details.thread.transcript_path, source),
    );
    lemma_notes_touch_the_history(restored, details.turns);
}

/// A conversation that would not be resumed is shown, and a warning at its end says so and why; nothing
/// goes on and nothing is waited for.
pub proof fn law_a_lost_conversation_is_told_of(
    a: TranscriptAppView,
    error: Seq<char>,
    details: ThreadReadResultView,
    source: TranscriptSource,
)
    ensures
        ({
            let now = resume_lost(a, error, details, source);
            let shown = details_restored(a, details, source);
            let history = now.state.transcript.history;
            &&& now.active_turn_id is None
            &&& now.selected_skill == a.selected_skill
            &&& now.state.connection == ConnectionState::Ready
            &&& now.state.approvals.pending is None
            &&& history.len() > 0 && history.drop_last() == shown.state.transcript.history
            &&& history.last() matches HistoryCellModelView::Warning(cell) && text::contains_text(
                cell.message,
                error,
            )
        }),
{
    let restored = app::with_state(
        a,
        transcript_restored(a.state, details.thread.transcript_path, source),
    );
    lemma_notes_touch_the_history(restored, details.turns);
    let shown = details_restored(a, details, source);
    assert(shown.state.transcript.history.push(
        resume_lost(a, error, details, source).state.transcript.history.last(),
    ).drop_last() =~= shown.state.transcript.history);
    let tail = ". Loaded local transcript only."@;
    text::lemma_contains_inside("Resume failed: "@, error, tail);
}

/// Notes on turns only go to the end of the history, one for each turn, which names it.
pub proof fn lemma_notes_touch_the_history(a: TranscriptAppView, turns: Seq<TurnRecordView>)
    ensures
        ({
            let now = turns_noted(a, turns);
            let history = now.state.transcript.history;
            let before = a.state.transcript.history;
            &&& now == app::with_state(a, transcript::with_history(a.state, history))
            &&& history.len() == before.len() + turns.len()
            &&& forall|i: int| 0 <= i < before.len() ==> #[trigger] history[i] == before[i]
            &&& forall|i: int|
                0 <= i < turns.len() ==> #[trigger] history[before.len() + i]
                    == transcript::status_cell(turn_note(turns[i]))
        }),
    decreases turns.len(),
{
    if turns.len() > 0 {
        lemma_notes_touch_the_history(a, turns.drop_last());
    }
}

/// What was shown before is gone once a conversation is restored: with no stored transcript a note names
/// every turn, and nothing else is shown; one that cannot be read is warned of, with its path and why.
pub proof fn law_a_restored_conversation_starts_over(
    a: TranscriptAppView,
    details: ThreadReadResultView,
    source: TranscriptSource,
    i: int,
)
    ensures
        ({
            let now = details_restored(a, details, source);
            let history = now.state.transcript.history;
            let path = details.thread.transcript_path;
            &&& source is Missing ==> history.len() == details.turns.len()
            &&& source is Missing && 0 <= i < details.turns.len() ==> (history[i]
                matches HistoryCellModelView::Status(cell) && text::contains_text(
                cell.message,
                details.turns[i].id,
            ) && text::contains_text(
                cell.message,
                labels::turn_status_name_of(details.turns[i].status),
            ))
            &&& source matches TranscriptSource::Unreadable { error } ==> history.len() == 1 && (
            history[0] matches HistoryCellModelView::Warning(cell) && text::contains_text(
                cell.message,
                path,
            ) && text::contains_text(cell.message, error@))
        }),
{
    let path = details.thread.transcript_path;
    let restored = app::with_state(a, transcript_restored(a.state, path, source));
    lemma_notes_touch_the_history(restored, details.turns);
    if source is Missing && 0 <= i < details.turns.len() {
        let turn = details.turns[i];
        let status = labels::turn_status_name_of(turn.status);
        assert(details_restored(a, details, source).state.transcript.history[0int + i]
            == transcript::status_cell(turn_note(turn)));
        assert(turn_note(turn) =~= "Restored turn "@ + turn.id + (" ("@ + status + ")"@));
        text::lemma_contains_inside("Restored turn "@, turn.id, " ("@ + status + ")"@);
        text::lemma_contains_inside("Restored turn "@ + turn.id + " ("@, status, ")"@);
    }
    if let TranscriptSource::Unreadable { error } = source {
        let none = Seq::<char>::empty();
        let head = "Failed to read transcript "@;
        let message = head + path + ": "@ + error@;
        assert(message =~= head + path + (": "@ + error@));
        text::lemma_contains_inside(head, path, ": "@ + error@);
        assert(message =~= (head + path + ": "@) + error@ + none);
        text::lemma_contains_inside(head + path + ": "@, error@, none);
    }
}

/// While a turn is followed the user is asked wherever an approval is waited for, before anything else;
/// following ends once the turn has, once the server is gone and once the user puts the answer off, and
/// otherwise goes on.
pub proof fn law_following_ends_with_the_turn(
    completed: bool,
    outcome: ApprovalResolutionOutcome,
    connection: ConnectionState,
)
    ensures
        ({
            let waits = connection == ConnectionState::WaitingApproval;
            let gone = connection == ConnectionState::Disconnected;
            let later = outcome == ApprovalResolutionOutcome::Deferred;
            let notified = drain_action(DrainPoint::Notified { completed }, connection);
            let answered = drain_action(
                DrainPoint::AnsweredAfterNotification { completed, outcome },
                connection,
            );
            let quiet = drain_action(DrainPoint::Quiet, connection);
            let settled = drain_action(DrainPoint::AnsweredWhileQuiet { outcome }, connection);
            &&& notified == DrainAction::ResolveApproval <==> waits
            &&& notified == DrainAction::Flush <==> !waits && completed
            &&& notified == DrainAction::Poll <==> !waits && !completed
            &&& answered == DrainAction::Stop <==> later
            &&& answered == DrainAction::Flush <==> !later && completed
            &&& answered == DrainAction::Poll <==> !later && !completed
            &&& quiet == DrainAction::ResolveApproval <==> waits
            &&& quiet == DrainAction::Stop <==> gone
            &&& quiet == DrainAction::Sleep <==> !waits && !gone
            &&& settled == DrainAction::Stop <==> later || gone
            &&& settled == DrainAction::Sleep <==> !later && !gone
        }),
{
}

// -- What the menus show ------------------------------------------------------------------------------------

/// Every line of a menu begins with the number that chooses it, and names what it stands for.
pub proof fn law_menu_lines_name_what_they_stand_for(
    thread: ThreadListItemView,
    skill: SkillDescriptorView,
    artifact: ArtifactManifestView,
    i: int,
)
    requires
        0 <= i,
    ensures
        ({
            let number = "  "@ + text::decimal((i + 1) as nat) + ". "@;
            &&& text::begins(thread_line(thread, i), number)
            &&& thread.thread.title matches Some(title) ==> text::contains_text(
                thread_line(thread, i),
                title,
            )
            &&& thread.thread.title is None ==> text::contains_text(
                thread_line(thread, i),
                thread.thread.id,
            )
            &&& text::contains_text(
                thread_line(thread, i),
                labels::thread_status_name_of(thread.thread.status),
            )
            &&& text::begins(artifact_line(artifact, i), number)
            &&& text::contains_text(artifact_line(artifact, i), artifact.title)
            &&& text::contains_text(artifact_line(artifact, i), artifact.primary_path)
            &&& text::begins(skill_lines(skill, i)[0], number)
            &&& text::contains_text(skill_lines(skill, i)[0], picker::skill_description(skill))
            &&& text::contains_text(skill_lines(skill, i)[1], skill.description)
        }),
{
    let none = Seq::<char>::empty();
    let number = numbered(i);
    let name = thread_name(thread.thread);
    let status = labels::thread_status_name_of(thread.thread.status);
    let line = thread_line(thread, i);
    assert(line.take(number.len() as int) =~= number);
    assert(line =~= number + name + (" ("@ + status + ")"@));
    text::lemma_contains_inside(number, name, " ("@ + status + ")"@);
    text::lemma_contains_inside(number + name + " ("@, status, ")"@);
    let shown = artifact_line(artifact, i);
    assert(shown.take(number.len() as int) =~= number);
    assert(shown =~= number + artifact.title + (" ("@ + artifact.primary_path + ")"@));
    text::lemma_contains_inside(number, artifact.title, " ("@ + artifact.primary_path + ")"@);
    text::lemma_contains_inside(number + artifact.title + " ("@, artifact.primary_path, ")"@);
    let words = picker::skill_description(skill);
    assert((number + words).take(number.len() as int) =~= number);
    assert(number + words =~= number + words + none);
    text::lemma_contains_inside(number, words, none);
    assert("     "@ + skill.description =~= "     "@ + skill.description + none);
    text::lemma_contains_inside("     "@, skill.description, none);
}

/// The menu of skills gives each of them two lines, in their order.
pub proof fn law_every_skill_has_two_lines(skills: Seq<SkillDescriptorView>)
    ensures
        skill_menu_of(skills).len() == 2 * skills.len(),
        forall|i: int|
            0 <= i < skills.len() ==> {
                let lines = #[trigger] skill_lines(skills[i], i);
                skill_menu_of(skills)[2 * i] == lines[0] && skill_menu_of(skills)[2 * i + 1]
                    == lines[1]
            },
    decreases skills.len(),
{
    if skills.len() > 0 {
        law_every_skill_has_two_lines(skills.drop_last());
        assert forall|i: int| 0 <= i < skills.len() implies {
            let lines = #[trigger] skill_lines(skills[i], i);
            skill_menu_of(skills)[2 * i] == lines[0] && skill_menu_of(skills)[2 * i + 1] == lines[1]
        } by {
            if i < skills.len() - 1 {
                assert(skills.drop_last()[i] == skills[i]);
                let lines = skill_lines(skills.drop_last()[i], i);
                assert(skill_menu_of(skills.drop_last())[2 * i] == lines[0]);
            }
        }
    }
}

/// A skill that was picked is the selected one, and a notice names it; none is selected once picking was
/// cancelled. A line that chooses nothing changes nothing.
pub proof fn law_the_picked_skill_is_selected(
    a: TranscriptAppView,
    kept: Seq<SkillDescriptorView>,
    i: usize,
)
    requires
        i < kept.len(),
    ensures
        ({
            let now = skill_picked(a, kept, Choice::Chosen(i));
            let none = skill_picked(a, kept, Choice::Cancelled);
            &&& now.selected_skill == Some(kept[i as int])
            &&& now.state.transcript.history.drop_last() == a.state.transcript.history
            &&& now.state.transcript.history.last() matches HistoryCellModelView::Status(cell)
                && text::contains_text(cell.message, picker::skill_label(kept[i as int]))
            &&& none.selected_skill is None
            &&& none.state.transcript.history.drop_last() == a.state.transcript.history
            &&& skill_picked(a, kept, Choice::NotANumber) == a
            &&& skill_picked(a, kept, Choice::OutOfRange) == a
        }),
{
    let history = a.state.transcript.history;
    let now = skill_picked(a, kept, Choice::Chosen(i)).state.transcript.history;
    let none = skill_picked(a, kept, Choice::Cancelled).state.transcript.history;
    assert(now.drop_last() =~= history);
    assert(none.drop_last() =~= history);
    let empty = Seq::<char>::empty();
    let label = picker::skill_label(kept[i as int]);
    assert("Selected skill: "@ + label =~= "Selected skill: "@ + label + empty);
    text::lemma_contains_inside("Selected skill: "@, label, empty);
}

/// A menu comes exactly where something is left to pick from; where nothing is, a warning takes its
/// place, which names the query that left nothing.
pub proof fn law_a_menu_offers_what_is_left(
    a: TranscriptAppView,
    what: Seq<char>,
    nothing: Seq<char>,
    all: nat,
    kept: nat,
    query: Seq<char>,
)
    requires
        kept <= all,
    ensures
        ({
            let now = offer(a, what, nothing, all, kept, Some(query));
            &&& now.0 <==> kept > 0
            &&& now.0 ==> now.1 == a
            &&& !now.0 ==> now.1.state.transcript.history.drop_last() == a.state.transcript.history
                && now.1.selected_skill == a.selected_skill
            &&& all == 0 ==> now.1.state.transcript.history.last() == transcript::warning_cell(
                nothing,
            )
            &&& all > 0 && kept == 0 ==> (now.1.state.transcript.history.last()
                matches HistoryCellModelView::Warning(cell) && text::contains_text(
                cell.message,
                query,
            ) && text::contains_text(cell.message, what))
        }),
{
    let now = offer(a, what, nothing, all, kept, Some(query));
    if kept == 0 {
        assert(now.1.state.transcript.history.drop_last() =~= a.state.transcript.history);
    }
    let message = nothing_matched(what, Some(query));
    assert(message =~= "No "@ + what + (" matched `"@ + query + "`."@));
    text::lemma_contains_inside("No "@, what, " matched `"@ + query + "`."@);
    text::lemma_contains_inside("No "@ + what + " matched `"@, query, "`."@);
}

/// A file is shown by what was read of it; what went wrong while it was read comes first, and where
/// there are no words that is said.
pub proof fn law_a_file_is_shown_by_what_was_read(file: ArtifactFilePayloadView)
    ensures
        file.read_error matches Some(error) ==> file_text(file) == error,
        file.read_error is None ==> (file.text matches Some(words) ==> file_text(file) == words),
        file.read_error is None && file.text is None ==> file_text(file)
            == "<binary payload omitted>"@,
{
}

/// The lines on an artifact's files number them from one, name them and mark the one that is shown.
pub proof fn law_files_are_numbered_and_marked(bundle: ArtifactReadBundleView, i: int, shown: bool)
    requires
        0 <= i < bundle.files.len(),
    ensures
        ({
            let line = file_line(bundle.files[i], i, shown);
            let heading = file_heading(bundle, i);
            let number = text::decimal((i + 1) as nat);
            &&& line[2] == '*' <==> shown
            &&& text::contains_text(line, number + ". "@ + bundle.files[i].path)
            &&& text::contains_text(heading, bundle.files[i].path)
            &&& text::contains_text(heading, bundle.files[i].media_type)
            &&& text::begins(heading, "File "@ + number + "/"@ + text::decimal(bundle.files.len()))
        }),
{
    let file = bundle.files[i];
    let number = text::decimal((i + 1) as nat);
    let all = text::decimal(bundle.files.len());
    let none = Seq::<char>::empty();
    reveal_strlit("  ");
    reveal_strlit("*");
    reveal_strlit(" ");
    let line = file_line(file, i, shown);
    let mark = if shown {
        "*"@
    } else {
        " "@
    };
    let tail = " ("@ + file.media_type + ")"@ + (if file.read_error is Some {
        " [read error]"@
    } else {
        ""@
    });
    assert(line =~= ("  "@ + mark + " "@) + (number + ". "@ + file.path) + tail);
    text::lemma_contains_inside("  "@ + mark + " "@, number + ". "@ + file.path, tail);
    assert(line[2] == mark[0]);
    let heading = file_heading(bundle, i);
    let start = "File "@ + number + "/"@ + all;
    assert(heading.take(start.len() as int) =~= start);
    assert(heading =~= (start + ": "@) + file.path + (" ("@ + file.media_type + ")"@));
    text::lemma_contains_inside(start + ": "@, file.path, " ("@ + file.media_type + ")"@);
    text::lemma_contains_inside(start + ": "@ + file.path + " ("@, file.media_type, ")"@);
}

} // verus!
