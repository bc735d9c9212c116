//! What keys, notifications and replies do to the client on the full screen.
use vstd::prelude::*;

use crate::app;
use crate::app::{
    ApprovalResolutionOutcome, TranscriptApp, TranscriptAppView,
};
use crate::artifacts::{
    ArtifactManifest, ArtifactManifestView, ArtifactReadBundle, ArtifactReadBundleView,
};
use crate::cursor;
use crate::fullscreen::approval;
use crate::fullscreen::approval::{ApprovalStep, ApprovalStepView};
use crate::fullscreen::keys::KeyEvent;
use crate::fullscreen::line;
use crate::fullscreen::pickers;
use crate::fullscreen::pickers::PickerStep;
use crate::fullscreen::state;
use crate::fullscreen::state::{
    ApprovalOverlayState, ArtifactPickerState, ArtifactPickerStateView, ArtifactViewerState,
    FullscreenApp, FullscreenAppView, FullscreenUiState, FullscreenUiStateView, OverlayState,
    OverlayStateView, RedrawRequest, SkillPickerState, SkillPickerStateView, TerminalSize,
    ThreadPickerState, ThreadPickerStateView,
};
use crate::ids::{ArtifactId, LocalThreadId, LocalTurnId};
use crate::picker;
use crate::protocol::{
    ApprovalQuestion, ApprovalQuestionView, ApprovalRespondParams, ApprovalRespondParamsView,
    ServerNotification,
};
use crate::skills::{SkillDescriptor, SkillDescriptorView};
use crate::text;
use crate::threads::{ThreadRecord, ThreadRecordView};
use crate::transcript;
use crate::ui::{AppStateView, ConnectionState, PendingApproval, PendingApprovalView};

verus! {

broadcast use text::group_views;

/// What is left to do outside the client after a key.
#[derive(Debug, PartialEq)]
pub enum FullscreenAction {
    Idle,
    Interrupt,
    ListSkills,
    ListThreads,
    ListArtifacts,
    StartPrompt { prompt: String },
    ResumeThread { thread_id: LocalThreadId },
    ReadArtifact { artifact_id: ArtifactId },
    AnswerApproval {
        overlay: OverlayState,
        approval: PendingApproval,
        request: ApprovalRespondParams,
    },
}

/// The model of `FullscreenAction`.
#[verifier::ext_equal]
pub enum FullscreenActionView {
    Idle,
    Interrupt,
    ListSkills,
    ListThreads,
    ListArtifacts,
    StartPrompt { prompt: Seq<char> },
    ResumeThread { thread_id: Seq<char> },
    ReadArtifact { artifact_id: Seq<char> },
    AnswerApproval {
        overlay: OverlayStateView,
        approval: PendingApprovalView,
        request: ApprovalRespondParamsView,
    },
}

impl View for FullscreenAction {
    type V = FullscreenActionView;

    open spec fn view(&self) -> FullscreenActionView {
        match *self {
            FullscreenAction::Idle => FullscreenActionView::Idle,
            FullscreenAction::Interrupt => FullscreenActionView::Interrupt,
            FullscreenAction::ListSkills => FullscreenActionView::ListSkills,
            FullscreenAction::ListThreads => FullscreenActionView::ListThreads,
            FullscreenAction::ListArtifacts => FullscreenActionView::ListArtifacts,
            FullscreenAction::StartPrompt { prompt } => FullscreenActionView::StartPrompt {
                prompt: prompt@,
            },
            FullscreenAction::ResumeThread { thread_id } => FullscreenActionView::ResumeThread {
                thread_id: thread_id@,
            },
            FullscreenAction::ReadArtifact { artifact_id } => FullscreenActionView::ReadArtifact {
                artifact_id: artifact_id@,
            },
            FullscreenAction::AnswerApproval {
                overlay,
                approval,
                request,
            } => FullscreenActionView::AnswerApproval {
                overlay: overlay@,
                approval: approval@,
                request: request@,
            },
        }
    }
}

impl Clone for FullscreenAction {
    fn clone(&self) -> (copy: Self)
        ensures
            copy@ == self@,
    {
        match self {
            FullscreenAction::Idle => FullscreenAction::Idle,
            FullscreenAction::Interrupt => FullscreenAction::Interrupt,
            FullscreenAction::ListSkills => FullscreenAction::ListSkills,
            FullscreenAction::ListThreads => FullscreenAction::ListThreads,
            FullscreenAction::ListArtifacts => FullscreenAction::ListArtifacts,
            FullscreenAction::StartPrompt { prompt } => FullscreenAction::StartPrompt {
                prompt: prompt.clone(),
            },
            FullscreenAction::ResumeThread { thread_id } => FullscreenAction::ResumeThread {
                thread_id: thread_id.clone(),
            },
            FullscreenAction::ReadArtifact { artifact_id } => FullscreenAction::ReadArtifact {
                artifact_id: artifact_id.clone(),
            },
            FullscreenAction::AnswerApproval {
                overlay,
                approval,
                request,
            } => FullscreenAction::AnswerApproval {
                overlay: overlay.clone(),
                approval: approval.clone(),
                request: request.clone(),
            },
        }
    }
}

// -- Parts of the client ---------------------------------------------------------------------------

pub open spec fn with_core(app: FullscreenAppView, core: TranscriptAppView) -> FullscreenAppView {
    FullscreenAppView { core, ..app }
}

pub open spec fn with_stack(app: FullscreenAppView, stack: Seq<OverlayStateView>) -> FullscreenAppView {
    FullscreenAppView {
        ui: FullscreenUiStateView { overlay_stack: stack, ..app.ui },
        ..app
    }
}

/// With something more over the transcript.
pub open spec fn covered(app: FullscreenAppView, overlay: OverlayStateView) -> FullscreenAppView {
    with_stack(app, app.ui.overlay_stack.push(overlay))
}

pub open spec fn with_scroll(app: FullscreenAppView, scroll: usize) -> FullscreenAppView {
    FullscreenAppView {
        ui: FullscreenUiStateView { transcript_scroll: scroll, ..app.ui },
        ..app
    }
}

pub open spec fn with_composer(app: FullscreenAppView, state: AppStateView) -> FullscreenAppView {
    with_core(app, app::with_state(app.core, state))
}

pub open spec fn with_warning(app: FullscreenAppView, message: Seq<char>) -> FullscreenAppView {
    with_core(app, app::warned(app.core, message))
}

// -- The approval over the transcript --------------------------------------------------------------

/// Those that are no approvals.
pub open spec fn without_approvals(stack: Seq<OverlayStateView>) -> Seq<OverlayStateView>
    decreases stack.len(),
{
    if stack.len() == 0 {
        Seq::empty()
    } else if stack.last() is Approval {
        without_approvals(stack.drop_last())
    } else {
        without_approvals(stack.drop_last()).push(stack.last())
    }
}

/// The identifier of the topmost approval, if there is one.
pub open spec fn approval_shown(stack: Seq<OverlayStateView>) -> Option<Seq<char>>
    decreases stack.len(),
{
    if stack.len() == 0 {
        None
    } else {
        match stack.last() {
            OverlayStateView::Approval(shown) => Some(approval::approval_in(shown).id),
            _ => approval_shown(stack.drop_last()),
        }
    }
}

/// The client with the pending approval over the transcript, and no approval where none is pending.
/// Nothing where the questions that it asks could not be read.
pub open spec fn synced(app: FullscreenAppView, questions: Option<Seq<ApprovalQuestionView>>) -> Option<
    FullscreenAppView,
> {
    let stack = app.ui.overlay_stack;
    match app.core.state.approvals.pending {
        Some(pending) => if approval_shown(stack) == Some(pending.id) {
            Some(app)
        } else {
            match state::overlay_for(pending, questions) {
                Some(overlay) => Some(covered(app, OverlayStateView::Approval(overlay))),
                None => None,
            }
        },
        None => Some(with_stack(app, without_approvals(stack))),
    }
}

/// The client after what a key or a notification did has settled: the pending approval lies over
/// the transcript, the notice in the corner is the last one, and the screen is to be drawn.
pub open spec fn settled(
    app: FullscreenAppView,
    questions: Option<Seq<ApprovalQuestionView>>,
    reason: RedrawRequest,
) -> Option<FullscreenAppView> {
    match synced(app, questions) {
        Some(app) => Some(
            FullscreenAppView {
                ui: FullscreenUiStateView {
                    status_toast: state::last_toast(app.core.state.transcript.history),
                    ..app.ui
                },
                pending_redraw: Some(reason),
                ..app
            },
        ),
        None => None,
    }
}

fn id_of(shown: &ApprovalOverlayState) -> (id: &str)
    ensures
        id@ == approval::approval_in(shown@).id,
{
    match shown {
        ApprovalOverlayState::Decision { approval, .. } => approval.id.as_str(),
        ApprovalOverlayState::Questionnaire { approval, .. } => approval.id.as_str(),
    }
}

fn shows_approval(stack: &Vec<OverlayState>, id: &str) -> (b: bool)
    ensures
        b == (approval_shown(text::views(stack@)) == Some(id@)),
{
    let ghost all = text::views(stack@);
    let mut n: usize = stack.len();
    assert(all.take(n as int) =~= all);
    while n > 0
        invariant
            n <= stack@.len(),
            all == text::views(stack@),
            approval_shown(all) == approval_shown(all.take(n as int)),
        decreases n,
    {
        assert(all.take(n as int).last() == stack@[n - 1]@);
        assert(all.take(n as int).drop_last() =~= all.take(n - 1));
        if let OverlayState::Approval(shown) = &stack[n - 1] {
            return text::same_text(id_of(shown), id);
        }
        n = n - 1;
    }
    false
}

impl FullscreenApp {
    /// The client as it comes to the screen.
    pub fn new(core: TranscriptApp, size: TerminalSize) -> (app: Self)
        ensures
            app@ == (FullscreenAppView {
                core: core@,
                ui: FullscreenUiStateView {
                    overlay_stack: Seq::empty(),
                    transcript_scroll: 0,
                    status_toast: None,
                    size,
                },
                should_quit: false,
                pending_redraw: None,
            }),
    {
        FullscreenApp {
            core,
            ui: FullscreenUiState {
                overlay_stack: Vec::new(),
                transcript_scroll: 0,
                status_toast: None,
                size,
            },
            should_quit: false,
            pending_redraw: None,
        }
    }

    /// Takes the approvals off the transcript.
    pub fn remove_approval_overlays(&mut self)
        ensures
            final(self)@ == with_stack(
                old(self)@,
                without_approvals(old(self)@.ui.overlay_stack),
            ),
    {
        let ghost all = text::views(self.ui.overlay_stack@);
        let mut kept: Vec<OverlayState> = Vec::new();
        let mut i: usize = 0;
        assert(all.take(0) =~= Seq::<OverlayStateView>::empty());
        while i < self.ui.overlay_stack.len()
            invariant
                i <= self.ui.overlay_stack@.len(),
                self@ == old(self)@,
                all == text::views(self.ui.overlay_stack@),
                text::views(kept@) == without_approvals(all.take(i as int)),
            decreases self.ui.overlay_stack@.len() - i,
        {
            assert(all.take(i + 1).last() == self.ui.overlay_stack@[i as int]@);
            assert(all.take(i + 1).drop_last() =~= all.take(i as int));
            match &self.ui.overlay_stack[i] {
                OverlayState::Approval(_) => {},
                other => {
                    kept.push(other.clone());
                },
            }
            i = i + 1;
        }
        assert(all.take(all.len() as int) =~= all);
        self.ui.overlay_stack = kept;
    }

    /// Brings the approval over the transcript in line with the one that is pending, given the
    /// questions that it asks, if they could be read. Nothing changes, and the answer is no, where
    /// they are needed and could not.
    pub fn sync_overlays_with_state(&mut self, questions: &Option<Vec<ApprovalQuestion>>) -> (done: bool)
        ensures
            match synced(old(self)@, text::opt_views(*questions)) {
                Some(app) => done && final(self)@ == app,
                None => !done && final(self)@ == old(self)@,
            },
    {
        let built: Option<ApprovalOverlayState> = match &self.core.state.approvals.pending {
            Some(pending) => {
                if shows_approval(&self.ui.overlay_stack, pending.id.as_str()) {
                    return true;
                }
                state::build_approval_overlay(pending, questions)
            },
            None => {
                self.remove_approval_overlays();
                return true;
            },
        };
        match built {
            Some(overlay) => {
                self.ui.overlay_stack.push(OverlayState::Approval(overlay));
                true
            },
            None => false,
        }
    }

    /// Lets what a key or a notification did settle.
    pub fn settle(&mut self, questions: &Option<Vec<ApprovalQuestion>>, reason: RedrawRequest) -> (done:
        bool)
        ensures
            match settled(old(self)@, text::opt_views(*questions), reason) {
                Some(app) => done && final(self)@ == app,
                None => !done && final(self)@ == old(self)@,
            },
    {
        if !self.sync_overlays_with_state(questions) {
            return false;
        }
        self.refresh_status_toast();
        self.pending_redraw = Some(reason);
        true
    }

    /// Puts the last notice into the corner.
    pub fn refresh_status_toast(&mut self)
        ensures
            final(self)@ == (FullscreenAppView {
                ui: FullscreenUiStateView {
                    status_toast: state::last_toast(old(self)@.core.state.transcript.history),
                    ..old(self)@.ui
                },
                ..old(self)@
            }),
    {
        self.ui.status_toast = state::latest_status_toast(&self.core.state);
    }
}

// -- Keys ------------------------------------------------------------------------------------------

/// A client, and what is left to do outside it.
pub open spec fn idle(app: FullscreenAppView) -> (FullscreenAppView, FullscreenActionView) {
    (app, FullscreenActionView::Idle)
}

/// A client that does something where it is ready for it, and warns where it is not.
pub open spec fn when_ready(
    app: FullscreenAppView,
    what: Seq<char>,
    ready: (FullscreenAppView, FullscreenActionView),
) -> (FullscreenAppView, FullscreenActionView) {
    match state::ready_only_warning(
        app.core.state.connection,
        app.core.state.approvals.pending is Some,
        what,
    ) {
        Some(warning) => idle(with_warning(app, warning)),
        None => ready,
    }
}

/// The client with a skill in use.
pub open spec fn skill_taken(core: TranscriptAppView, skill: SkillDescriptorView) -> TranscriptAppView {
    app::told(
        TranscriptAppView { selected_skill: Some(skill), ..core },
        "Selected skill: "@ + picker::skill_description(skill),
    )
}

/// What a key does to something that lies over the transcript. The client is the one without it.
pub open spec fn overlay_key(
    app: FullscreenAppView,
    overlay: OverlayStateView,
    key: KeyEvent,
) -> (FullscreenAppView, FullscreenActionView) {
    match overlay {
        OverlayStateView::Help => if key == KeyEvent::Esc || key == KeyEvent::Enter || key
            == KeyEvent::CtrlC {
            idle(app)
        } else {
            idle(covered(app, overlay))
        },
        OverlayStateView::Skills(list) => {
            let shown = pickers::shown_skills(list);
            match pickers::picker_step(key, list.selected as int, shown.len() as int) {
                PickerStep::Close => idle(app),
                PickerStep::Confirm => idle(
                    with_core(app, skill_taken(app.core, shown[list.selected as int])),
                ),
                PickerStep::Keep => idle(
                    covered(app, OverlayStateView::Skills(pickers::skill_picker_after(list, key))),
                ),
            }
        },
        OverlayStateView::Threads(list) => {
            let shown = pickers::shown_threads(list);
            match pickers::picker_step(key, list.selected as int, shown.len() as int) {
                PickerStep::Close => idle(app),
                PickerStep::Confirm => (
                    with_scroll(app, 0),
                    FullscreenActionView::ResumeThread {
                        thread_id: shown[list.selected as int].thread.id,
                    },
                ),
                PickerStep::Keep => idle(
                    covered(app, OverlayStateView::Threads(pickers::thread_picker_after(list, key))),
                ),
            }
        },
        OverlayStateView::Artifacts(list) => {
            let shown = pickers::shown_artifacts(list);
            match pickers::picker_step(key, list.selected as int, shown.len() as int) {
                PickerStep::Close => idle(app),
                PickerStep::Confirm => (
                    covered(app, overlay),
                    FullscreenActionView::ReadArtifact {
                        artifact_id: shown[list.selected as int].id,
                    },
                ),
                PickerStep::Keep => idle(
                    covered(
                        app,
                        OverlayStateView::Artifacts(pickers::artifact_picker_after(list, key)),
                    ),
                ),
            }
        },
        OverlayStateView::ArtifactViewer(viewer) => if key == KeyEvent::Esc || key
            == KeyEvent::CtrlC {
            idle(app)
        } else {
            idle(covered(app, OverlayStateView::ArtifactViewer(pickers::viewer_after(viewer, key))))
        },
        OverlayStateView::Approval(asked) => {
            let after = OverlayStateView::Approval(approval::approval_after(asked, key));
            match approval::approval_step(asked, key) {
                ApprovalStepView::Keep => idle(covered(app, after)),
                ApprovalStepView::Warn => idle(
                    covered(
                        with_warning(
                            app,
                            "Provide an answer or press Esc to cancel the request."@,
                        ),
                        after,
                    ),
                ),
                ApprovalStepView::Submit(request) => (
                    app,
                    FullscreenActionView::AnswerApproval {
                        overlay: after,
                        approval: approval::approval_in(asked),
                        request,
                    },
                ),
            }
        },
    }
}

/// What enter does to the line that was typed.
pub open spec fn submitted(app: FullscreenAppView) -> (FullscreenAppView, FullscreenActionView) {
    let input = text::trim_of(app.core.state.composer.buffer);
    if input.len() == 0 {
        idle(app)
    } else if input == "/quit"@ || input == "/exit"@ {
        idle(FullscreenAppView { should_quit: true, ..app })
    } else if input == "/help"@ {
        idle(covered(app, OverlayStateView::Help))
    } else if input == "/clear"@ {
        when_ready(
            app,
            "clearing the transcript"@,
            idle(
                with_core(
                    app,
                    app::told(
                        app::with_state(
                            app.core,
                            transcript::with_history(app.core.state, Seq::empty()),
                        ),
                        "Transcript cleared."@,
                    ),
                ),
            ),
        )
    } else if input == "/threads"@ {
        when_ready(app, "running /threads"@, (app, FullscreenActionView::ListThreads))
    } else if input == "/skills"@ {
        when_ready(app, "running /skills"@, (app, FullscreenActionView::ListSkills))
    } else if input == "/artifacts"@ {
        when_ready(app, "running /artifacts"@, (app, FullscreenActionView::ListArtifacts))
    } else if input == "/approval"@ {
        if app.core.state.approvals.pending is Some {
            idle(app)
        } else {
            idle(with_warning(app, "No pending approval."@))
        }
    } else if text::begins(input, "/"@) {
        idle(with_warning(app, "Unknown command: "@ + input))
    } else if app.core.state.connection != ConnectionState::Ready {
        idle(with_warning(app, "Wait for the current turn to finish or interrupt it first."@))
    } else {
        (app, FullscreenActionView::StartPrompt { prompt: input })
    }
}

/// What a key does where nothing lies over the transcript.
pub open spec fn bare_key(app: FullscreenAppView, key: KeyEvent) -> (
    FullscreenAppView,
    FullscreenActionView,
) {
    let st = app.core.state;
    let scroll = app.ui.transcript_scroll;
    match key {
        KeyEvent::CtrlC => if st.connection == ConnectionState::Streaming {
            (app, FullscreenActionView::Interrupt)
        } else {
            idle(FullscreenAppView { should_quit: true, ..app })
        },
        KeyEvent::Esc => if st.connection == ConnectionState::Streaming {
            (app, FullscreenActionView::Interrupt)
        } else {
            idle(app)
        },
        KeyEvent::CtrlL | KeyEvent::Tab => idle(covered(app, OverlayStateView::Help)),
        KeyEvent::Up => idle(with_scroll(app, pickers::raised(scroll, 1))),
        KeyEvent::Down => idle(with_scroll(app, pickers::stepped_up(scroll, 1))),
        KeyEvent::PageUp => idle(with_scroll(app, pickers::raised(scroll, 10))),
        KeyEvent::PageDown => idle(with_scroll(app, pickers::stepped_up(scroll, 10))),
        KeyEvent::Home => idle(with_composer(app, line::cursor_moved(st, 0))),
        KeyEvent::End => idle(
            with_composer(app, line::cursor_moved(st, cursor::byte_len(st.composer.buffer))),
        ),
        KeyEvent::Left => idle(
            with_composer(
                app,
                line::cursor_moved(
                    st,
                    line::boundary_before(st.composer.buffer, st.composer.cursor),
                ),
            ),
        ),
        KeyEvent::Right => idle(
            with_composer(
                app,
                line::cursor_moved(
                    st,
                    line::boundary_after(st.composer.buffer, st.composer.cursor),
                ),
            ),
        ),
        KeyEvent::Backspace => idle(with_composer(app, line::char_erased(st))),
        KeyEvent::Delete => idle(with_composer(app, line::char_deleted(st))),
        KeyEvent::Enter => submitted(app),
        KeyEvent::Char(ch) => if ch == '$' && st.composer.buffer.len() == 0 {
            match state::ready_only_warning(
                st.connection,
                st.approvals.pending is Some,
                "opening the skill picker"@,
            ) {
                Some(warning) => idle(
                    with_composer(
                        with_warning(app, warning),
                        line::char_typed(with_warning(app, warning).core.state, ch),
                    ),
                ),
                None => (app, FullscreenActionView::ListSkills),
            }
        } else if !text::is_control_char(ch) {
            idle(with_composer(app, line::char_typed(st, ch)))
        } else {
            idle(app)
        },
    }
}

/// What a key does. While a turn runs, escape and control-c interrupt it, also over an overlay,
/// which they close; else the topmost overlay has the keys.
pub open spec fn key_handled(app: FullscreenAppView, key: KeyEvent) -> (
    FullscreenAppView,
    FullscreenActionView,
) {
    let stack = app.ui.overlay_stack;
    if stack.len() > 0 {
        let below = with_stack(app, stack.drop_last());
        if app.core.state.connection == ConnectionState::Streaming && (key == KeyEvent::CtrlC || key
            == KeyEvent::Esc) {
            (below, FullscreenActionView::Interrupt)
        } else {
            overlay_key(below, stack.last(), key)
        }
    } else {
        bare_key(app, key)
    }
}

impl FullscreenApp {
    fn cover(&mut self, overlay: OverlayState)
        ensures
            final(self)@ == covered(old(self)@, overlay@),
    {
        self.ui.overlay_stack.push(overlay);
    }

    /// Puts the help over the transcript.
    pub fn push_help_overlay(&mut self)
        ensures
            final(self)@ == covered(old(self)@, OverlayStateView::Help),
    {
        self.cover(OverlayState::Help);
    }

    /// Whether the client is ready for an action; a warning says why it is not.
    pub fn ready_only_action_allowed(&mut self, action: &str) -> (allowed: bool)
        ensures
            match state::ready_only_warning(
                old(self)@.core.state.connection,
                old(self)@.core.state.approvals.pending is Some,
                action@,
            ) {
                Some(warning) => !allowed && final(self)@ == with_warning(old(self)@, warning),
                None => allowed && final(self)@ == old(self)@,
            },
    {
        match state::ready_only_action_warning(
            &self.core.state.connection,
            self.core.state.approvals.pending.is_some(),
            action,
        ) {
            Some(warning) => {
                self.core.push_warning(warning.as_str());
                false
            },
            None => true,
        }
    }

    /// Gives a key to something that was taken off the transcript.
    pub fn handle_overlay_key(&mut self, overlay: OverlayState, key: KeyEvent) -> (action: FullscreenAction)
        ensures
            (final(self)@, action@) == overlay_key(old(self)@, overlay@, key),
    {
        match overlay {
            OverlayState::Help => {
                match key {
                    KeyEvent::Esc | KeyEvent::Enter | KeyEvent::CtrlC => {},
                    _ => {
                        self.cover(OverlayState::Help);
                    },
                }
                FullscreenAction::Idle
            },
            OverlayState::Skills(list) => {
                let mut list: SkillPickerState = list;
                let (step, found) = pickers::handle_skill_picker_key(&mut list, key);
                match found {
                    Some(skill) => {
                        let label: String = picker::describe_skill(&skill);
                        let message: String = text::glue("Selected skill: ", label.as_str());
                        self.core.selected_skill = Some(skill);
                        self.core.push_status(message.as_str());
                    },
                    None => {
                        if step == PickerStep::Keep {
                            self.cover(OverlayState::Skills(list));
                        }
                    },
                }
                FullscreenAction::Idle
            },
            OverlayState::Threads(list) => {
                let mut list: ThreadPickerState = list;
                let (step, found) = pickers::handle_thread_picker_key(&mut list, key);
                match found {
                    Some(item) => {
                        self.ui.transcript_scroll = 0;
                        FullscreenAction::ResumeThread { thread_id: item.thread.id }
                    },
                    None => {
                        if step == PickerStep::Keep {
                            self.cover(OverlayState::Threads(list));
                        }
                        FullscreenAction::Idle
                    },
                }
            },
            OverlayState::Artifacts(list) => {
                let mut list: ArtifactPickerState = list;
                let (step, found) = pickers::handle_artifact_picker_key(&mut list, key);
                match found {
                    Some(artifact) => {
                        self.cover(OverlayState::Artifacts(list));
                        FullscreenAction::ReadArtifact { artifact_id: artifact.id }
                    },
                    None => {
                        if step == PickerStep::Keep {
                            self.cover(OverlayState::Artifacts(list));
                        }
                        FullscreenAction::Idle
                    },
                }
            },
            OverlayState::ArtifactViewer(viewer) => {
                let mut viewer: ArtifactViewerState = viewer;
                if pickers::handle_artifact_viewer_key(&mut viewer, key) {
                    self.cover(OverlayState::ArtifactViewer(viewer));
                }
                FullscreenAction::Idle
            },
            OverlayState::Approval(asked) => {
                let mut asked: ApprovalOverlayState = asked;
                let pending: PendingApproval = match &asked {
                    ApprovalOverlayState::Decision { approval, .. } => approval.clone(),
                    ApprovalOverlayState::Questionnaire { approval, .. } => approval.clone(),
                };
                match approval::handle_approval_key(&mut asked, key) {
                    ApprovalStep::Keep => {
                        self.cover(OverlayState::Approval(asked));
                        FullscreenAction::Idle
                    },
                    ApprovalStep::Warn => {
                        self.core.push_warning(
                            "Provide an answer or press Esc to cancel the request.",
                        );
                        self.cover(OverlayState::Approval(asked));
                        FullscreenAction::Idle
                    },
                    ApprovalStep::Submit(request) => FullscreenAction::AnswerApproval {
                        overlay: OverlayState::Approval(asked),
                        approval: pending,
                        request,
                    },
                }
            },
        }
    }

    /// Sends off the line that was typed.
    pub fn submit_composer(&mut self) -> (action: FullscreenAction)
        ensures
            (final(self)@, action@) == submitted(old(self)@),
    {
        let input: String = text::trim(self.core.state.composer.buffer.as_str());
        if text::is_empty(input.as_str()) {
            return FullscreenAction::Idle;
        }
        if text::same_text(input.as_str(), "/quit") || text::same_text(input.as_str(), "/exit") {
            self.should_quit = true;
            return FullscreenAction::Idle;
        }
        if text::same_text(input.as_str(), "/help") {
            self.push_help_overlay();
            return FullscreenAction::Idle;
        }
        if text::same_text(input.as_str(), "/clear") {
            if self.ready_only_action_allowed("clearing the transcript") {
                self.core.clear_transcript();
                self.core.push_status("Transcript cleared.");
            }
            return FullscreenAction::Idle;
        }
        if text::same_text(input.as_str(), "/threads") {
            if self.ready_only_action_allowed("running /threads") {
                return FullscreenAction::ListThreads;
            }
            return FullscreenAction::Idle;
        }
        if text::same_text(input.as_str(), "/skills") {
            if self.ready_only_action_allowed("running /skills") {
                return FullscreenAction::ListSkills;
            }
            return FullscreenAction::Idle;
        }
        if text::same_text(input.as_str(), "/artifacts") {
            if self.ready_only_action_allowed("running /artifacts") {
                return FullscreenAction::ListArtifacts;
            }
            return FullscreenAction::Idle;
        }
        if text::same_text(input.as_str(), "/approval") {
            if self.core.state.approvals.pending.is_none() {
                self.core.push_warning("No pending approval.");
            }
            return FullscreenAction::Idle;
        }
        if text::starts_with(input.as_str(), "/") {
            let message: String = text::glue("Unknown command: ", input.as_str());
            self.core.push_warning(message.as_str());
            return FullscreenAction::Idle;
        }
        if self.core.state.connection != ConnectionState::Ready {
            self.core.push_warning("Wait for the current turn to finish or interrupt it first.");
            return FullscreenAction::Idle;
        }
        FullscreenAction::StartPrompt { prompt: input }
    }

    fn handle_char(&mut self, ch: char) -> (action: FullscreenAction)
        ensures
            (final(self)@, action@) == bare_key(old(self)@, KeyEvent::Char(ch)),
    {
        if ch == '$' && text::is_empty(self.core.state.composer.buffer.as_str()) {
            if self.ready_only_action_allowed("opening the skill picker") {
                return FullscreenAction::ListSkills;
            }
            line::insert_composer_char(&mut self.core.state, ch);
        } else if !ch.is_control() {
            line::insert_composer_char(&mut self.core.state, ch);
        }
        FullscreenAction::Idle
    }

    fn handle_bare_key(&mut self, key: KeyEvent) -> (action: FullscreenAction)
        ensures
            (final(self)@, action@) == bare_key(old(self)@, key),
    {
        let streaming: bool = self.core.state.connection == ConnectionState::Streaming;
        match key {
            KeyEvent::CtrlC => {
                if streaming {
                    return FullscreenAction::Interrupt;
                }
                self.should_quit = true;
            },
            KeyEvent::Esc => {
                if streaming {
                    return FullscreenAction::Interrupt;
                }
            },
            KeyEvent::CtrlL | KeyEvent::Tab => {
                self.push_help_overlay();
            },
            KeyEvent::Up => {
                self.ui.transcript_scroll = self.ui.transcript_scroll.saturating_add(1);
            },
            KeyEvent::Down => {
                self.ui.transcript_scroll = pickers::step_up(self.ui.transcript_scroll, 1);
            },
            KeyEvent::PageUp => {
                self.ui.transcript_scroll = self.ui.transcript_scroll.saturating_add(10);
            },
            KeyEvent::PageDown => {
                self.ui.transcript_scroll = pickers::step_up(self.ui.transcript_scroll, 10);
            },
            KeyEvent::Home => {
                self.core.state.composer.cursor = 0;
            },
            KeyEvent::End => {
                self.core.state.composer.cursor = cursor::len_of(
                    self.core.state.composer.buffer.as_str(),
                );
            },
            KeyEvent::Left => {
                line::move_composer_cursor_left(&mut self.core.state);
            },
            KeyEvent::Right => {
                line::move_composer_cursor_right(&mut self.core.state);
            },
            KeyEvent::Backspace => {
                line::delete_composer_backward(&mut self.core.state);
            },
            KeyEvent::Delete => {
                line::delete_composer_forward(&mut self.core.state);
            },
            KeyEvent::Enter => {
                return self.submit_composer();
            },
            KeyEvent::Char(ch) => {
                return self.handle_char(ch);
            },
        }
        FullscreenAction::Idle
    }

    /// Gives a key to the client. What is left to do outside it comes back; `settle` follows.
    pub fn handle_key_event(&mut self, key: KeyEvent) -> (action: FullscreenAction)
        ensures
            (final(self)@, action@) == key_handled(old(self)@, key),
    {
        let ghost stack = self@.ui.overlay_stack;
        match self.ui.overlay_stack.pop() {
            Some(overlay) => {
                assert(self@.ui.overlay_stack =~= stack.drop_last());
                assert(overlay@ == stack.last());
                if self.core.state.connection == ConnectionState::Streaming && (key
                    == KeyEvent::CtrlC || key == KeyEvent::Esc) {
                    return FullscreenAction::Interrupt;
                }
                self.handle_overlay_key(overlay, key)
            },
            None => {
                assert(self@.ui.overlay_stack =~= stack);
                self.handle_bare_key(key)
            },
        }
    }
}

// -- Replies ---------------------------------------------------------------------------------------

/// The client after an answer to an approval was sent, or could not be: the approval goes where it
/// was taken, and comes back where one is pending still.
pub open spec fn approval_sent(
    app: FullscreenAppView,
    overlay: OverlayStateView,
    pending: PendingApprovalView,
    request: ApprovalRespondParamsView,
    reply: Result<(), Seq<char>>,
) -> FullscreenAppView {
    let told = with_core(
        app,
        app::approval_answered(app.core, pending, request.decision, reply),
    );
    match reply {
        Ok(_) => with_stack(told, without_approvals(told.ui.overlay_stack)),
        Err(_) => covered(told, overlay),
    }
}

/// Whether a prompt did something: another turn runs, or another skill is in use.
pub open spec fn prompt_taken(
    core: TranscriptAppView,
    turn_before: Option<Seq<char>>,
    skill_before: Option<SkillDescriptorView>,
) -> bool {
    ||| core.active_turn_id != turn_before && core.state.connection == ConnectionState::Streaming
    ||| core.selected_skill != skill_before
}

/// The client with an empty line, at the end of the transcript.
pub open spec fn line_cleared(app: FullscreenAppView) -> FullscreenAppView {
    with_scroll(with_composer(app, line::line_edited(app.core.state, Seq::empty(), 0)), 0)
}

/// A client after a prompt was handed on: with an empty line where it was taken.
pub open spec fn prompt_noted(
    app: FullscreenAppView,
    turn_before: Option<Seq<char>>,
    skill_before: Option<SkillDescriptorView>,
) -> FullscreenAppView {
    if prompt_taken(app.core, turn_before, skill_before) {
        line_cleared(app)
    } else {
        app
    }
}

/// A client that offers skills, or warns that there are none.
pub open spec fn skills_offered(
    app: FullscreenAppView,
    skills: Seq<SkillDescriptorView>,
) -> FullscreenAppView {
    if skills.len() == 0 {
        with_warning(app, "No skills available."@)
    } else {
        covered(
            app,
            OverlayStateView::Skills(
                SkillPickerStateView { filter: Seq::empty(), selected: 0, skills },
            ),
        )
    }
}

/// A client that offers conversations, or warns that there are none.
pub open spec fn threads_offered(
    app: FullscreenAppView,
    threads: Seq<ThreadRecordView>,
) -> FullscreenAppView {
    let listed = with_composer(app, app::threads_listed(app.core.state, threads));
    if threads.len() == 0 {
        with_warning(listed, "No threads found."@)
    } else {
        covered(
            listed,
            OverlayStateView::Threads(
                ThreadPickerStateView {
                    filter: Seq::empty(),
                    selected: 0,
                    threads: listed.core.state.threads,
                },
            ),
        )
    }
}

/// A client that offers artifacts, or warns that there are none.
pub open spec fn artifacts_offered(
    app: FullscreenAppView,
    artifacts: Seq<ArtifactManifestView>,
) -> FullscreenAppView {
    if artifacts.len() == 0 {
        with_warning(app, "No artifacts found."@)
    } else {
        covered(
            app,
            OverlayStateView::Artifacts(
                ArtifactPickerStateView { filter: Seq::empty(), selected: 0, artifacts },
            ),
        )
    }
}

/// A client that shows an artifact, or warns that it has no files.
pub open spec fn artifact_shown(
    app: FullscreenAppView,
    payload: ArtifactReadBundleView,
) -> FullscreenAppView {
    if payload.files.len() == 0 {
        with_warning(app, "Selected artifact has no readable files."@)
    } else {
        covered(app, OverlayStateView::ArtifactViewer(state::viewer_of(payload)))
    }
}

impl FullscreenApp {
    /// Takes in the skills that were listed.
    pub fn open_skill_picker(&mut self, skills: Vec<SkillDescriptor>)
        ensures
            final(self)@ == skills_offered(old(self)@, text::views(skills@)),
    {
        if skills.len() == 0 {
            self.core.push_warning("No skills available.");
            return ;
        }
        self.cover(
            OverlayState::Skills(SkillPickerState { filter: String::new(), selected: 0, skills }),
        );
    }

    /// Takes in the conversations that were listed. The error comes back where they were not.
    pub fn open_thread_picker(&mut self, listing: Result<Vec<ThreadRecord>, String>) -> (done: Result<
        (),
        String,
    >)
        ensures
            match app::listing_view(listing) {
                Ok(threads) => done is Ok && final(self)@ == threads_offered(old(self)@, threads),
                Err(error) => done matches Err(told) && told@ == error && final(self)@ == old(
                    self,
                )@,
            },
    {
        let ghost asked = app::listing_view(listing);
        let ghost before = self@;
        match self.core.refresh_threads(listing) {
            Ok(_) => {},
            Err(error) => {
                return Err(error);
            },
        }
        assert(asked is Ok);
        assert(self@ == with_composer(before, app::threads_listed(before.core.state, asked->Ok_0)));
        assert(self@.core.state.threads.len() == self.core.state.threads@.len());
        if self.core.state.threads.len() == 0 {
            self.core.push_warning("No threads found.");
            return Ok(());
        }
        let threads: Vec<crate::ui::ThreadListItem> = text::copy_all(&self.core.state.threads);
        self.cover(
            OverlayState::Threads(ThreadPickerState { filter: String::new(), selected: 0, threads }),
        );
        Ok(())
    }

    /// Takes in the artifacts that were listed.
    pub fn open_artifact_picker(&mut self, artifacts: Vec<ArtifactManifest>)
        ensures
            final(self)@ == artifacts_offered(old(self)@, text::views(artifacts@)),
    {
        if artifacts.len() == 0 {
            self.core.push_warning("No artifacts found.");
            return ;
        }
        self.cover(
            OverlayState::Artifacts(
                ArtifactPickerState { filter: String::new(), selected: 0, artifacts },
            ),
        );
    }

    /// Takes in an artifact that was read.
    pub fn show_artifact(&mut self, payload: ArtifactReadBundle)
        ensures
            final(self)@ == artifact_shown(old(self)@, payload@),
    {
        if payload.files.len() == 0 {
            self.core.push_warning("Selected artifact has no readable files.");
            return ;
        }
        self.cover(OverlayState::ArtifactViewer(ArtifactViewerState::new(payload)));
    }

    /// Takes in what came of sending the answer to an approval.
    pub fn submit_approval(
        &mut self,
        overlay: OverlayState,
        pending: &PendingApproval,
        request: &ApprovalRespondParams,
        reply: Result<(), String>,
    )
        ensures
            final(self)@ == approval_sent(
                old(self)@,
                overlay@,
                pending@,
                request@,
                app::reply_view(reply),
            ),
    {
        let outcome: ApprovalResolutionOutcome = self.core.submit_approval_response(
            pending,
            request,
            reply,
        );
        if outcome == ApprovalResolutionOutcome::Resolved {
            self.remove_approval_overlays();
        }
        if self.core.state.approvals.pending.is_some() {
            self.cover(overlay);
        }
    }

    /// Empties the line and goes to the end of the transcript, where a prompt did something.
    pub fn prompt_started(
        &mut self,
        turn_before: &Option<LocalTurnId>,
        skill_before: &Option<SkillDescriptor>,
    )
        ensures
            final(self)@ == prompt_noted(
                old(self)@,
                text::opt_view(*turn_before),
                text::opt_view(*skill_before),
            ),
    {
        let same_turn: bool = match (&self.core.active_turn_id, turn_before) {
            (Some(now), Some(before)) => now.same(before),
            (None, None) => true,
            _ => false,
        };
        let started_turn: bool = !same_turn && self.core.state.connection
            == ConnectionState::Streaming;
        let skill_changed: bool = !crate::skills::same_skill(
            &self.core.selected_skill,
            skill_before,
        );
        if started_turn || skill_changed {
            self.clear_composer();
            self.ui.transcript_scroll = 0;
        }
    }

    /// Empties the line.
    pub fn clear_composer(&mut self)
        ensures
            final(self)@ == with_composer(
                old(self)@,
                line::line_edited(old(self)@.core.state, Seq::empty(), 0),
            ),
    {
        self.core.state.composer.buffer = String::new();
        self.core.state.composer.cursor = 0;
        assert(self@.core.state.composer.buffer =~= Seq::<char>::empty());
    }

    /// Takes in a notification. `settle` follows where it was taken.
    pub fn handle_server_notification(
        &mut self,
        notification: ServerNotification,
        listing: Result<Vec<ThreadRecord>, String>,
    ) -> (done: Result<(), String>)
        ensures
            done is Err <==> app::needs_listing(notification@) && listing is Err,
            match done {
                Ok(_) => final(self)@ == with_core(
                    old(self)@,
                    app::notified(
                        old(self)@.core,
                        notification@,
                        match app::listing_view(listing) {
                            Ok(threads) => threads,
                            Err(_) => Seq::empty(),
                        },
                    ),
                ),
                Err(error) => error@ == app::listing_view(listing)->Err_0 && final(self)@
                    == with_composer(
                    old(self)@,
                    app::thread_selected(
                        old(self)@.core.state,
                        app::thread_of(notification@),
                    ),
                ),
            },
    {
        self.core.apply_notification(notification, listing)
    }

    /// Takes in that time went by: a running turn is drawn again.
    pub fn handle_tick(&mut self)
        ensures
            final(self)@ == if old(self)@.core.state.connection == ConnectionState::Streaming {
                FullscreenAppView { pending_redraw: Some(RedrawRequest::Tick), ..old(self)@ }
            } else {
                old(self)@
            },
    {
        if self.core.state.connection == ConnectionState::Streaming {
            self.pending_redraw = Some(RedrawRequest::Tick);
        }
    }

    /// Takes in another size of the terminal.
    pub fn handle_resize(&mut self, width: u16, height: u16)
        ensures
            final(self)@ == (FullscreenAppView {
                ui: FullscreenUiStateView {
                    size: TerminalSize::new(width, height),
                    ..old(self)@.ui
                },
                pending_redraw: Some(RedrawRequest::Resized),
                ..old(self)@
            }),
    {
        self.ui.size = TerminalSize::new(width, height);
        self.pending_redraw = Some(RedrawRequest::Resized);
    }

    /// Takes the reason to draw the screen, if there is one.
    pub fn take_redraw(&mut self) -> (reason: Option<RedrawRequest>)
        ensures
            reason == old(self)@.pending_redraw,
            final(self)@ == (FullscreenAppView { pending_redraw: None, ..old(self)@ }),
    {
        let reason: Option<RedrawRequest> = self.pending_redraw;
        self.pending_redraw = None;
        reason
    }
}

/// What the client does next.
#[derive(Clone, Copy, Debug, PartialEq, Eq, Structural)]
pub enum LoopStep {
    TakeNotification,
    Draw(RedrawRequest),
    Tick,
    AwaitKey,
    Quit,
}

/// What the client does next: what was sent to it comes before drawing, drawing before the clock,
/// and the clock before the keys.
pub open spec fn step_after(app: FullscreenAppView, notified: bool, tick_due: bool) -> LoopStep {
    if app.should_quit {
        LoopStep::Quit
    } else if notified {
        LoopStep::TakeNotification
    } else if app.pending_redraw is Some {
        LoopStep::Draw(app.pending_redraw->0)
    } else if tick_due {
        LoopStep::Tick
    } else {
        LoopStep::AwaitKey
    }
}

impl FullscreenApp {
    /// What the client does next.
    pub fn next_step(&self, notified: bool, tick_due: bool) -> (step: LoopStep)
        ensures
            step == step_after(self@, notified, tick_due),
    {
        if self.should_quit {
            return LoopStep::Quit;
        }
        if notified {
            return LoopStep::TakeNotification;
        }
        match self.pending_redraw {
            Some(reason) => LoopStep::Draw(reason),
            None => {
                if tick_due {
                    LoopStep::Tick
                } else {
                    LoopStep::AwaitKey
                }
            },
        }
    }
}

// -- What holds of the keys ------------------------------------------------------------------------

/// While a turn runs, escape and control-c interrupt it, whatever lies over the transcript.
pub proof fn law_a_running_turn_can_be_interrupted(app: FullscreenAppView, key: KeyEvent)
    requires
        app.core.state.connection == ConnectionState::Streaming,
        key == KeyEvent::Esc || key == KeyEvent::CtrlC,
    ensures
        key_handled(app, key).1 == FullscreenActionView::Interrupt,
{
}

/// Where no turn runs, escape and control-c close what lies over the transcript, but for an
/// approval, which they reject.
pub proof fn law_escape_closes_the_topmost(app: FullscreenAppView, key: KeyEvent)
    requires
        app.core.state.connection != ConnectionState::Streaming,
        app.ui.overlay_stack.len() > 0,
        key == KeyEvent::Esc || key == KeyEvent::CtrlC,
    ensures
        key_handled(app, key).0 == with_stack(app, app.ui.overlay_stack.drop_last()),
        !(app.ui.overlay_stack.last() is Approval) ==> key_handled(app, key).1
            == FullscreenActionView::Idle,
        app.ui.overlay_stack.last() is Approval ==> key_handled(app, key).1 is AnswerApproval,
{
}

proof fn lemma_no_approval_shown(stack: Seq<OverlayStateView>)
    ensures
        approval_shown(without_approvals(stack)) is None,
        without_approvals(without_approvals(stack)) == without_approvals(stack),
    decreases stack.len(),
{
    if stack.len() > 0 {
        let rest = without_approvals(stack.drop_last());
        lemma_no_approval_shown(stack.drop_last());
        assert(rest.push(stack.last()).drop_last() =~= rest);
    }
}

/// Once things have settled, the approval over the transcript is the pending one, and there is none
/// where none is pending. Settling again changes nothing.
pub proof fn law_the_pending_approval_is_shown(
    app: FullscreenAppView,
    questions: Option<Seq<ApprovalQuestionView>>,
    reason: RedrawRequest,
)
    requires
        settled(app, questions, reason) is Some,
    ensures
        ({
            let after = settled(app, questions, reason)->0;
            let pending = app.core.state.approvals.pending;
            &&& pending is Some ==> approval_shown(after.ui.overlay_stack) == Some(pending->0.id)
            &&& pending is None ==> approval_shown(after.ui.overlay_stack) is None
            &&& settled(after, questions, reason) == Some(after)
        }),
{
    let stack = app.ui.overlay_stack;
    lemma_no_approval_shown(stack);
    if app.core.state.approvals.pending is Some {
        let pending = app.core.state.approvals.pending->0;
        if approval_shown(stack) != Some(pending.id) {
            let overlay = state::overlay_for(pending, questions)->0;
            assert(stack.push(OverlayStateView::Approval(overlay)).last()
                == OverlayStateView::Approval(overlay));
        }
    }
    let after = settled(app, questions, reason)->0;
    assert(synced(after, questions)->0 =~= after);
    assert(settled(after, questions, reason)->0 =~= after);
}

/// A prompt is sent off only where the client is ready and nothing lies over the transcript.
pub proof fn law_prompts_wait_for_the_client(app: FullscreenAppView, key: KeyEvent)
    requires
        key_handled(app, key).1 is StartPrompt,
    ensures
        app.ui.overlay_stack.len() == 0,
        app.core.state.connection == ConnectionState::Ready,
        key_handled(app, key).0 == app,
{
}

/// With nothing over the client, enter hands in what was typed: words go to the assistant where it is
/// ready, and a slash begins a command. Lists are asked for only where the client is ready, and else a
/// warning says why not.
pub proof fn law_enter_hands_in_the_line(app: FullscreenAppView)
    requires
        app.ui.overlay_stack.len() == 0,
    ensures
        ({
            let input = text::trim_of(app.core.state.composer.buffer);
            let slash = input.len() > 0 && input[0] == '/';
            let ready = app.core.state.connection == ConnectionState::Ready;
            let done = key_handled(app, KeyEvent::Enter);
            let now = done.0;
            let before = app.core.state.transcript.history;
            let history = now.core.state.transcript.history;
            let listing = input == "/threads"@ || input == "/skills"@ || input == "/artifacts"@;
            &&& done.1 is StartPrompt <==> input.len() > 0 && !slash && ready
            &&& done.1 matches FullscreenActionView::StartPrompt { prompt } ==> prompt == input
            &&& done.1 == FullscreenActionView::ListThreads <==> input == "/threads"@ && ready
            &&& done.1 == FullscreenActionView::ListSkills <==> input == "/skills"@ && ready
            &&& done.1 == FullscreenActionView::ListArtifacts <==> input == "/artifacts"@ && ready
            &&& now.should_quit <==> app.should_quit || input == "/quit"@ || input == "/exit"@
            &&& now.ui.overlay_stack == (if input == "/help"@ {
                seq![OverlayStateView::Help]
            } else {
                Seq::empty()
            })
            &&& input == "/clear"@ && ready ==> history.len() == 1 && history[0] is Status
            &&& (listing || input == "/clear"@ || (input.len() > 0 && !slash)) && !ready
                ==> history.len() > 0 && history.drop_last() == before && history.last() is Warning
            &&& input.len() == 0 || done.1 is StartPrompt || (listing && ready) ==> now == app
            &&& !(done.1 is Interrupt) && !(done.1 is AnswerApproval) && !(done.1 is ResumeThread)
        }),
{
    let input = text::trim_of(app.core.state.composer.buffer);
    let before = app.core.state.transcript.history;
    let after = submitted(app).0.core.state.transcript.history;
    lemma_commands_differ();
    assert(text::begins(input, "/"@) <==> input.len() > 0 && input[0] == '/') by {
        reveal_strlit("/");
        if input.len() > 0 {
            assert(input.take(1)[0] == input[0]);
            if input[0] == '/' {
                assert(input.take(1) =~= "/"@);
            }
        }
    }
    if after.len() == before.len() + 1 {
        assert(after.drop_last() =~= before || input == "/clear"@);
        if app.core.state.connection != ConnectionState::Ready {
            assert(after.drop_last() =~= before);
        }
    }
    assert(Seq::<OverlayStateView>::empty().push(OverlayStateView::Help) =~= seq![
        OverlayStateView::Help,
    ]);
    assert(app.ui.overlay_stack =~= Seq::empty());
}

/// The commands are different words, and all begin with a slash.
proof fn lemma_commands_differ()
    ensures
        "/help"@.len() == 5,
        "/quit"@.len() == 5,
        "/exit"@.len() == 5,
        "/clear"@.len() == 6,
        "/skills"@.len() == 7,
        "/threads"@.len() == 8,
        "/approval"@.len() == 9,
        "/artifacts"@.len() == 10,
        "/help"@[1] == 'h',
        "/quit"@[1] == 'q',
        "/exit"@[1] == 'e',
        "/help"@[0] == '/',
        "/quit"@[0] == '/',
        "/exit"@[0] == '/',
        "/clear"@[0] == '/',
        "/skills"@[0] == '/',
        "/threads"@[0] == '/',
        "/approval"@[0] == '/',
        "/artifacts"@[0] == '/',
{
    reveal_strlit("/help");
    reveal_strlit("/quit");
    reveal_strlit("/exit");
    reveal_strlit("/clear");
    reveal_strlit("/skills");
    reveal_strlit("/threads");
    reveal_strlit("/approval");
    reveal_strlit("/artifacts");
}

/// With nothing over the client, control-c interrupts a turn that streams and otherwise quits; escape
/// interrupts and otherwise does nothing; the arrows and page keys go through the transcript, by one
/// line and by ten; the others edit the line.
pub proof fn law_keys_reach_the_client(app: FullscreenAppView, key: KeyEvent)
    requires
        app.ui.overlay_stack.len() == 0,
        key != KeyEvent::Enter,
    ensures
        ({
            let done = key_handled(app, key);
            let now = done.0;
            let streams = app.core.state.connection == ConnectionState::Streaming;
            let scroll = app.ui.transcript_scroll;
            &&& done.1 is Interrupt <==> streams && (key == KeyEvent::CtrlC || key == KeyEvent::Esc)
            &&& now.should_quit <==> app.should_quit || (key == KeyEvent::CtrlC && !streams)
            &&& now.ui.overlay_stack.len() > 0 <==> key == KeyEvent::CtrlL || key == KeyEvent::Tab
            &&& now.ui.overlay_stack.len() > 0 ==> now.ui.overlay_stack == seq![
                OverlayStateView::Help,
            ]
            &&& key == KeyEvent::Up && scroll < usize::MAX ==> now.ui.transcript_scroll == scroll + 1
            &&& key == KeyEvent::Down && scroll > 0 ==> now.ui.transcript_scroll == scroll - 1
            &&& key == KeyEvent::Down && scroll == 0 ==> now.ui.transcript_scroll == 0
            &&& key == KeyEvent::PageUp && scroll + 10 <= usize::MAX ==> now.ui.transcript_scroll
                == scroll + 10
            &&& key == KeyEvent::PageDown && scroll >= 10 ==> now.ui.transcript_scroll == scroll - 10
            &&& key == KeyEvent::PageDown && scroll < 10 ==> now.ui.transcript_scroll == 0
            &&& key != KeyEvent::Up && key != KeyEvent::Down && key != KeyEvent::PageUp && key
                != KeyEvent::PageDown ==> now.ui.transcript_scroll == scroll
            &&& key == KeyEvent::Home ==> now.core.state.composer.cursor == 0
            &&& key == KeyEvent::End ==> now.core.state.composer.cursor == cursor::byte_len(
                app.core.state.composer.buffer,
            ) as usize
            &&& key == KeyEvent::Backspace ==> now.core.state == line::char_erased(app.core.state)
            &&& key == KeyEvent::Delete ==> now.core.state == line::char_deleted(app.core.state)
            &&& key matches KeyEvent::Char(ch) ==> (!text::is_control_char(ch) && ch != '$'
                ==> now.core.state == line::char_typed(app.core.state, ch) && done.1 is Idle)
            &&& done.1 == FullscreenActionView::ListSkills <==> key == KeyEvent::Char('$')
                && app.core.state.composer.buffer.len() == 0 && app.core.state.connection
                == ConnectionState::Ready
            &&& !(done.1 is StartPrompt) && !(done.1 is AnswerApproval)
            &&& now.core.selected_skill == app.core.selected_skill
        }),
{
    assert(Seq::<OverlayStateView>::empty().push(OverlayStateView::Help) =~= seq![
        OverlayStateView::Help,
    ]);
    assert(app.ui.overlay_stack =~= Seq::empty());
}

/// What is shown over the client takes the keys: enter on a list selects the skill, resumes the
/// conversation or reads the artifact that is marked there, and an answer to an approval goes out for
/// that approval.
pub proof fn law_what_is_shown_takes_the_keys(
    app: FullscreenAppView,
    overlay: OverlayStateView,
    key: KeyEvent,
)
    ensures
        ({
            let done = overlay_key(app, overlay, key);
            let now = done.0;
            let stack = app.ui.overlay_stack;
            &&& overlay matches OverlayStateView::Skills(list) ==> {
                let shown = pickers::shown_skills(list);
                let taken = key == KeyEvent::Enter && list.selected < shown.len();
                &&& taken ==> now.core.selected_skill == Some(shown[list.selected as int])
                    && now.ui.overlay_stack == stack
                &&& !taken ==> now.core == app.core
            }
            &&& overlay matches OverlayStateView::Threads(list) ==> {
                let shown = pickers::shown_threads(list);
                let taken = key == KeyEvent::Enter && list.selected < shown.len();
                &&& taken <==> done.1 is ResumeThread
                &&& taken ==> done.1 == (FullscreenActionView::ResumeThread {
                    thread_id: shown[list.selected as int].thread.id,
                }) && now.ui.overlay_stack == stack
            }
            &&& overlay matches OverlayStateView::Artifacts(list) ==> {
                let shown = pickers::shown_artifacts(list);
                let taken = key == KeyEvent::Enter && list.selected < shown.len();
                &&& taken <==> done.1 is ReadArtifact
                &&& taken ==> done.1 == (FullscreenActionView::ReadArtifact {
                    artifact_id: shown[list.selected as int].id,
                })
            }
            &&& overlay matches OverlayStateView::Approval(asked) ==> {
                &&& approval::approval_step(asked, key) is Submit <==> done.1 is AnswerApproval
                &&& approval::approval_step(asked, key) matches ApprovalStepView::Submit(sent) ==> (
                done.1 matches FullscreenActionView::AnswerApproval { approval, request, .. }
                    && request == sent && approval == approval::approval_in(asked))
            }
            &&& overlay is Help || overlay is ArtifactViewer || overlay is Skills ==> done.1 is Idle
            &&& !(overlay is Skills) && !(overlay is Approval) ==> now.core == app.core
            &&& now.should_quit == app.should_quit
            &&& key == KeyEvent::Esc || key == KeyEvent::CtrlC ==> now.ui.overlay_stack == stack
        }),
{
}

/// What waits over the client is asked about by its own approval; approvals that are no longer pending
/// are taken away, and everything else that is shown stays, in its order.
pub proof fn law_settled_approvals_are_taken_away(stack: Seq<OverlayStateView>)
    ensures
        ({
            let left = without_approvals(stack);
            &&& forall|i: int| 0 <= i < left.len() ==> !(#[trigger] left[i] is Approval)
            &&& forall|i: int|
                0 <= i < stack.len() && !(#[trigger] stack[i] is Approval) ==> left.contains(stack[i])
            &&& (forall|i: int| 0 <= i < stack.len() ==> !(#[trigger] stack[i] is Approval)) ==> left
                == stack
            &&& left.len() <= stack.len()
        }),
    decreases stack.len(),
{
    if stack.len() > 0 {
        let rest = stack.drop_last();
        law_settled_approvals_are_taken_away(rest);
        let left = without_approvals(stack);
        let before = without_approvals(rest);
        assert forall|i: int|
            0 <= i < stack.len() && !(#[trigger] stack[i] is Approval) implies left.contains(
            stack[i],
        ) by {
            if i < rest.len() {
                assert(rest[i] == stack[i]);
                let k = choose|k: int| 0 <= k < before.len() && before[k] == rest[i];
                assert(left[k] == stack[i]);
            } else {
                assert(left[left.len() - 1] == stack[i]);
            }
        }
        if forall|i: int| 0 <= i < stack.len() ==> !(#[trigger] stack[i] is Approval) {
            assert forall|i: int| 0 <= i < rest.len() implies !(#[trigger] rest[i] is Approval) by {
                assert(rest[i] == stack[i]);
            }
            assert(left =~= stack);
        }
    }
}

/// Once an answer was sent no approval is shown any more; one that could not be sent is shown again, on
/// top.
pub proof fn law_an_unsent_answer_is_asked_for_again(
    app: FullscreenAppView,
    overlay: OverlayStateView,
    pending: PendingApprovalView,
    request: ApprovalRespondParamsView,
    error: Seq<char>,
)
    ensures
        ({
            let sent = approval_sent(app, overlay, pending, request, Ok(()));
            let lost = approval_sent(app, overlay, pending, request, Err(error));
            &&& forall|i: int|
                0 <= i < sent.ui.overlay_stack.len() ==> !(#[trigger] sent.ui.overlay_stack[i]
                    is Approval)
            &&& lost.ui.overlay_stack == app.ui.overlay_stack.push(overlay)
            &&& sent.core == app::approval_answered(app.core, pending, request.decision, Ok(()))
            &&& lost.core == app::approval_answered(app.core, pending, request.decision, Err(error))
        }),
{
    law_settled_approvals_are_taken_away(app.ui.overlay_stack);
}

/// The client quits as soon as it may, takes notifications before it draws, draws before it ticks, and
/// waits for keys only when there is nothing else to do.
pub proof fn law_the_next_step_is_the_most_urgent(
    app: FullscreenAppView,
    notified: bool,
    tick_due: bool,
)
    ensures
        ({
            let step = step_after(app, notified, tick_due);
            let quit = app.should_quit;
            let draw = app.pending_redraw is Some;
            &&& step == LoopStep::Quit <==> quit
            &&& step == LoopStep::TakeNotification <==> !quit && notified
            &&& step is Draw <==> !quit && !notified && draw
            &&& step matches LoopStep::Draw(reason) ==> app.pending_redraw == Some(reason)
            &&& step == LoopStep::Tick <==> !quit && !notified && !draw && tick_due
            &&& step == LoopStep::AwaitKey <==> !quit && !notified && !draw && !tick_due
        }),
{
}

/// The line is emptied once its words were taken: where another turn streams than before, or another
/// skill is selected.
pub proof fn law_the_line_is_emptied_once_taken(
    app: FullscreenAppView,
    turn: Option<Seq<char>>,
    skill: Option<SkillDescriptorView>,
)
    ensures
        ({
            let now = prompt_noted(app, turn, skill);
            let taken = (app.core.active_turn_id != turn && app.core.state.connection
                == ConnectionState::Streaming) || app.core.selected_skill != skill;
            &&& taken ==> now.core.state.composer.buffer.len() == 0 && now.core.state.composer.cursor
                == 0 && now.ui.transcript_scroll == 0
            &&& !taken ==> now == app
            &&& now.core.state.transcript == app.core.state.transcript
            &&& now.core.active_turn_id == app.core.active_turn_id
            &&& now.ui.overlay_stack == app.ui.overlay_stack
        }),
{
}

/// A list is shown where there is anything to choose from, all of it, with nothing typed and the first
/// marked; otherwise a warning says that there is nothing.
pub proof fn law_lists_open_with_everything(
    app: FullscreenAppView,
    skills: Seq<SkillDescriptorView>,
    artifacts: Seq<ArtifactManifestView>,
    threads: Seq<ThreadRecordView>,
)
    ensures
        ({
            let now = skills_offered(app, skills);
            &&& skills.len() == 0 ==> now.ui == app.ui && now.core.state.transcript.history.last()
                is Warning
            &&& skills.len() > 0 ==> now.core == app.core && now.ui.overlay_stack
                == app.ui.overlay_stack.push(
                OverlayStateView::Skills(
                    SkillPickerStateView { filter: Seq::empty(), selected: 0, skills },
                ),
            )
        }),
        ({
            let now = artifacts_offered(app, artifacts);
            &&& artifacts.len() == 0 ==> now.ui == app.ui && now.core.state.transcript.history.last()
                is Warning
            &&& artifacts.len() > 0 ==> now.core == app.core && now.ui.overlay_stack
                == app.ui.overlay_stack.push(
                OverlayStateView::Artifacts(
                    ArtifactPickerStateView { filter: Seq::empty(), selected: 0, artifacts },
                ),
            )
        }),
        ({
            let now = threads_offered(app, threads);
            let listed = now.core.state.threads;
            &&& listed.len() == threads.len()
            &&& forall|i: int|
                0 <= i < threads.len() ==> (#[trigger] listed[i]).thread == threads[i] && (
                listed[i].selected <==> app.core.state.active_thread_id == Some(threads[i].id))
            &&& threads.len() == 0 ==> now.ui == app.ui && now.core.state.transcript.history.last()
                is Warning
            &&& threads.len() > 0 ==> now.ui.overlay_stack == app.ui.overlay_stack.push(
                OverlayStateView::Threads(
                    ThreadPickerStateView { filter: Seq::empty(), selected: 0, threads: listed },
                ),
            )
        }),
{
}

/// An artifact is shown where it has files, from the top of one of them; one without files is warned of.
pub proof fn law_an_artifact_with_files_is_shown(
    app: FullscreenAppView,
    payload: ArtifactReadBundleView,
)
    ensures
        ({
            let now = artifact_shown(app, payload);
            &&& payload.files.len() == 0 ==> now.ui == app.ui
                && now.core.state.transcript.history.last() is Warning
            &&& payload.files.len() > 0 ==> now.core == app.core && now.ui.overlay_stack.len()
                == app.ui.overlay_stack.len() + 1 && (now.ui.overlay_stack.last()
                matches OverlayStateView::ArtifactViewer(viewer) && viewer.payload == payload
                && viewer.scroll == 0)
        }),
{
}

} // verus!
