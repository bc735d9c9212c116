//! What keys and replies do to the inline client.
use vstd::prelude::*;

use crate::app;
use crate::app::TranscriptAppView;
use crate::artifacts::{ArtifactManifest, ArtifactManifestView};
use crate::composer;
use crate::cursor;
use crate::edit;
use crate::ids::LocalThreadId;
use crate::inline_tui::state;
use crate::inline_tui::state::{InlineApp, InlineAppView};
use crate::keys;
use crate::keys::{KeyCode, KeyPress};
use crate::overlay;
use crate::overlay::{Overlay, OverlayOutcome, OverlayOutcomeView, OverlayView};
use crate::picker;
use crate::protocol::{
    ApprovalQuestion, ApprovalQuestionView, ApprovalRespondParams, ApprovalRespondParamsView,
};
use crate::skills::{SkillDescriptor, SkillDescriptorView};
use crate::text;
use crate::threads::{ThreadRecord, ThreadRecordView};
use crate::transcript;
use crate::ui::{
    ComposerStateView, ConnectionState, HistoryCellModelView, PendingApproval,
    PendingApprovalView, ThreadListItem,
};

verus! {

broadcast use text::group_views;

/// What is left to do outside the client after a key. `Flush` brings the scrollback up to date.
#[derive(Debug, PartialEq)]
pub enum InlineAction {
    Idle,
    Interrupt,
    ListSkills,
    ListThreads,
    ListArtifacts,
    StartPrompt { prompt: String },
    ResumeThread { thread_id: LocalThreadId },
    AnswerApproval { approval: PendingApproval, request: ApprovalRespondParams },
    Flush,
}

/// The model of `InlineAction`.
#[verifier::ext_equal]
pub enum InlineActionView {
    Idle,
    Interrupt,
    ListSkills,
    ListThreads,
    ListArtifacts,
    StartPrompt { prompt: Seq<char> },
    ResumeThread { thread_id: Seq<char> },
    AnswerApproval { approval: PendingApprovalView, request: ApprovalRespondParamsView },
    Flush,
}

impl View for InlineAction {
    type V = InlineActionView;

    open spec fn view(&self) -> InlineActionView {
        match *self {
            InlineAction::Idle => InlineActionView::Idle,
            InlineAction::Interrupt => InlineActionView::Interrupt,
            InlineAction::ListSkills => InlineActionView::ListSkills,
            InlineAction::ListThreads => InlineActionView::ListThreads,
            InlineAction::ListArtifacts => InlineActionView::ListArtifacts,
            InlineAction::StartPrompt { prompt } => InlineActionView::StartPrompt {
                prompt: prompt@,
            },
            InlineAction::ResumeThread { thread_id } => InlineActionView::ResumeThread {
                thread_id: thread_id@,
            },
            InlineAction::AnswerApproval { approval, request } => InlineActionView::AnswerApproval {
                approval: approval@,
                request: request@,
            },
            InlineAction::Flush => InlineActionView::Flush,
        }
    }
}

impl Clone for InlineAction {
    fn clone(&self) -> (copy: Self)
        ensures
            copy@ == self@,
    {
        match self {
            InlineAction::Idle => InlineAction::Idle,
            InlineAction::Interrupt => InlineAction::Interrupt,
            InlineAction::ListSkills => InlineAction::ListSkills,
            InlineAction::ListThreads => InlineAction::ListThreads,
            InlineAction::ListArtifacts => InlineAction::ListArtifacts,
            InlineAction::StartPrompt { prompt } => InlineAction::StartPrompt {
                prompt: prompt.clone(),
            },
            InlineAction::ResumeThread { thread_id } => InlineAction::ResumeThread {
                thread_id: thread_id.clone(),
            },
            InlineAction::AnswerApproval { approval, request } => InlineAction::AnswerApproval {
                approval: approval.clone(),
                request: request.clone(),
            },
            InlineAction::Flush => InlineAction::Flush,
        }
    }
}

// -- Editing keys ----------------------------------------------------------------------------------

/// What a key does to the line.
#[derive(Clone, Copy, Debug, PartialEq, Eq, Structural)]
pub enum LineKey {
    Newline,
    Submit,
    Backspace,
    BackspaceWord,
    Delete,
    DeleteWord,
    Left,
    LeftWord,
    Right,
    RightWord,
    Up,
    Down,
    Home,
    End,
    ClearToStart,
    ClearToEnd,
    Type(char),
    Nothing,
}

/// What a key does to the line.
pub open spec fn line_key(key: KeyPress) -> LineKey {
    let bare = !key.control && !key.alt;
    match key.code {
        KeyCode::Enter => if bare && key.shift {
            LineKey::Newline
        } else if bare {
            LineKey::Submit
        } else {
            LineKey::Nothing
        },
        KeyCode::Backspace => if bare {
            LineKey::Backspace
        } else {
            LineKey::BackspaceWord
        },
        KeyCode::Delete => if bare {
            LineKey::Delete
        } else if key.alt {
            LineKey::DeleteWord
        } else {
            LineKey::Nothing
        },
        KeyCode::Left => if bare {
            LineKey::Left
        } else {
            LineKey::LeftWord
        },
        KeyCode::Right => if bare {
            LineKey::Right
        } else {
            LineKey::RightWord
        },
        KeyCode::Up => if bare {
            LineKey::Up
        } else {
            LineKey::Nothing
        },
        KeyCode::Down => if bare {
            LineKey::Down
        } else {
            LineKey::Nothing
        },
        KeyCode::Home => if bare {
            LineKey::Home
        } else {
            LineKey::Nothing
        },
        KeyCode::End => if bare {
            LineKey::End
        } else {
            LineKey::Nothing
        },
        KeyCode::Char(ch) => if key.control {
            if ch == 'a' {
                LineKey::Home
            } else if ch == 'e' {
                LineKey::End
            } else if ch == 'u' {
                LineKey::ClearToStart
            } else if ch == 'k' {
                LineKey::ClearToEnd
            } else if ch == 'w' {
                LineKey::BackspaceWord
            } else {
                LineKey::Nothing
            }
        } else if !key.alt {
            LineKey::Type(ch)
        } else {
            LineKey::Nothing
        },
        _ => LineKey::Nothing,
    }
}

/// What a key does to the line.
pub fn line_key_of(key: KeyPress) -> (what: LineKey)
    ensures
        what == line_key(key),
{
    let bare: bool = !key.control && !key.alt;
    match key.code {
        KeyCode::Enter => {
            if bare && key.shift {
                LineKey::Newline
            } else if bare {
                LineKey::Submit
            } else {
                LineKey::Nothing
            }
        },
        KeyCode::Backspace => {
            if bare {
                LineKey::Backspace
            } else {
                LineKey::BackspaceWord
            }
        },
        KeyCode::Delete => {
            if bare {
                LineKey::Delete
            } else if key.alt {
                LineKey::DeleteWord
            } else {
                LineKey::Nothing
            }
        },
        KeyCode::Left => {
            if bare {
                LineKey::Left
            } else {
                LineKey::LeftWord
            }
        },
        KeyCode::Right => {
            if bare {
                LineKey::Right
            } else {
                LineKey::RightWord
            }
        },
        KeyCode::Up => {
            if bare {
                LineKey::Up
            } else {
                LineKey::Nothing
            }
        },
        KeyCode::Down => {
            if bare {
                LineKey::Down
            } else {
                LineKey::Nothing
            }
        },
        KeyCode::Home => {
            if bare {
                LineKey::Home
            } else {
                LineKey::Nothing
            }
        },
        KeyCode::End => {
            if bare {
                LineKey::End
            } else {
                LineKey::Nothing
            }
        },
        KeyCode::Char(ch) => {
            if key.control {
                if ch == 'a' {
                    LineKey::Home
                } else if ch == 'e' {
                    LineKey::End
                } else if ch == 'u' {
                    LineKey::ClearToStart
                } else if ch == 'k' {
                    LineKey::ClearToEnd
                } else if ch == 'w' {
                    LineKey::BackspaceWord
                } else {
                    LineKey::Nothing
                }
            } else if !key.alt {
                LineKey::Type(ch)
            } else {
                LineKey::Nothing
            }
        },
        _ => LineKey::Nothing,
    }
}

/// The line after a key that edits it.
pub open spec fn line_edited(c: ComposerStateView, what: LineKey) -> ComposerStateView {
    match what {
        LineKey::Newline => composer::typed(c, "\n"@),
        LineKey::Backspace => composer::backspaced(c),
        LineKey::BackspaceWord => composer::word_backspaced(c),
        LineKey::Delete => composer::deleted(c),
        LineKey::DeleteWord => composer::word_deleted(c),
        LineKey::Left => composer::moved(c, edit::before(c.buffer, c.cursor as int)),
        LineKey::LeftWord => composer::moved(c, edit::word_before(c.buffer, c.cursor as int)),
        LineKey::Right => composer::moved(c, edit::after(c.buffer, c.cursor as int)),
        LineKey::RightWord => composer::moved(c, edit::word_after(c.buffer, c.cursor as int)),
        LineKey::Home => composer::moved(c, edit::line_start(c.buffer, composer::clamped(c))),
        LineKey::End => composer::moved(c, edit::line_end(c.buffer, composer::clamped(c))),
        LineKey::ClearToStart => composer::cleared_before(c),
        LineKey::ClearToEnd => composer::cleared_after(c),
        LineKey::Type(ch) => composer::typed(c, seq![ch]),
        _ => c,
    }
}

/// The client one line up, or one prompt back from the first line.
pub open spec fn went_up(app: InlineAppView) -> InlineAppView {
    let c = app.core.state.composer;
    match edit::line_above(c.buffer, composer::clamped(c)) {
        Some(at) => state::with_composer(state::nav_reset(app), composer::moved(c, at)),
        None => state::prompt_before(app),
    }
}

/// The client one line down, or one prompt forth from the last line.
pub open spec fn went_down(app: InlineAppView) -> InlineAppView {
    let c = app.core.state.composer;
    match edit::line_below(c.buffer, composer::clamped(c)) {
        Some(at) => state::with_composer(state::nav_reset(app), composer::moved(c, at)),
        None => state::prompt_after(app),
    }
}

// -- Enter -----------------------------------------------------------------------------------------

/// A client, and nothing left to do.
pub open spec fn idle(app: InlineAppView) -> (InlineAppView, InlineActionView) {
    (app, InlineActionView::Idle)
}

/// The client with the label of the skill in use up to date.
pub open spec fn relabelled(app: InlineAppView) -> InlineAppView {
    InlineAppView { selected_skill_label: state::label_of(app.core), ..app }
}

/// What a command does. `questions` is what a pending approval asks, if that could be read.
pub open spec fn commanded(
    app: InlineAppView,
    command: Seq<char>,
    questions: Option<Seq<ApprovalQuestionView>>,
) -> (InlineAppView, InlineActionView) {
    if command == "/help"@ {
        idle(InlineAppView { overlay: Some(OverlayView::Help), ..app })
    } else if command == "/clear"@ {
        idle(
            InlineAppView {
                core: app::with_state(
                    app.core,
                    transcript::with_history(app.core.state, Seq::empty()),
                ),
                rendered_cells: 0,
                ..app
            },
        )
    } else if command == "/threads"@ {
        (app, InlineActionView::ListThreads)
    } else if command == "/skills"@ {
        (app, InlineActionView::ListSkills)
    } else if command == "/artifacts"@ {
        (app, InlineActionView::ListArtifacts)
    } else if command == "/approval"@ {
        match app.core.state.approvals.pending {
            Some(pending) => idle(
                InlineAppView { overlay: Some(overlay::asked_as(pending, questions)), ..app },
            ),
            None => idle(state::with_toast(app, "no pending approval"@)),
        }
    } else {
        idle(InlineAppView { core: app::warned(app.core, "Unknown command: "@ + command), ..app })
    }
}

/// The client with an empty line.
pub open spec fn line_taken(app: InlineAppView) -> InlineAppView {
    state::with_composer(
        state::nav_reset(app),
        ComposerStateView { buffer: Seq::empty(), cursor: 0, ..app.core.state.composer },
    )
}

/// What enter does: the line goes out, and is kept among the prompts.
pub open spec fn submitted(
    app: InlineAppView,
    questions: Option<Seq<ApprovalQuestionView>>,
) -> (InlineAppView, InlineActionView) {
    let input = text::trim_of(app.core.state.composer.buffer);
    let taken = line_taken(app);
    let kept = InlineAppView {
        prompt_history: state::prompt_kept(taken.prompt_history, input),
        ..taken
    };
    if input.len() == 0 {
        idle(taken)
    } else if input == "/quit"@ || input == "/exit"@ {
        idle(InlineAppView { should_quit: true, ..kept })
    } else if text::begins(input, "/"@) {
        let done = commanded(kept, input, questions);
        (relabelled(done.0), done.1)
    } else {
        (kept, InlineActionView::StartPrompt { prompt: input })
    }
}

/// What comes of a key that went to what takes the place of the composer.
pub open spec fn outcome_taken(app: InlineAppView, outcome: OverlayOutcomeView) -> (
    InlineAppView,
    InlineActionView,
) {
    let closed = InlineAppView { overlay: None, ..app };
    match outcome {
        OverlayOutcomeView::Keep => idle(app),
        OverlayOutcomeView::Dismiss => idle(closed),
        OverlayOutcomeView::CancelApproval => idle(
            state::with_toast(closed, "approval overlay dismissed (use /approval to reopen)"@),
        ),
        OverlayOutcomeView::SubmitApproval(request) => match app.core.state.approvals.pending {
            Some(approval) => (closed, InlineActionView::AnswerApproval { approval, request }),
            None => (closed, InlineActionView::Flush),
        },
        OverlayOutcomeView::SelectSkill(skill) => idle(
            state::with_toast(
                relabelled(
                    InlineAppView {
                        core: TranscriptAppView { selected_skill: Some(skill), ..app.core },
                        ..closed
                    },
                ),
                "selected skill: "@ + picker::skill_label(skill),
            ),
        ),
        OverlayOutcomeView::ResumeThread(thread_id) => (
            closed,
            InlineActionView::ResumeThread { thread_id },
        ),
        OverlayOutcomeView::OpenArtifact(id) => idle(
            state::with_toast(
                closed,
                "artifact viewer not yet implemented (id: "@ + id + ")"@,
            ),
        ),
    }
}

/// What a key does. Control-c interrupts a turn that streams and quits otherwise; control-d quits
/// where nothing was typed; else what takes the place of the composer has the keys, or the line.
pub open spec fn key_handled(
    app: InlineAppView,
    key: KeyPress,
    questions: Option<Seq<ApprovalQuestionView>>,
) -> (InlineAppView, InlineActionView) {
    let quiet = InlineAppView { toast: None, ..app };
    let c = app.core.state.composer;
    if key.control && key.code == KeyCode::Char('c') {
        if app.core.state.connection == ConnectionState::Streaming {
            (state::with_toast(quiet, "interrupt requested"@), InlineActionView::Interrupt)
        } else {
            idle(InlineAppView { should_quit: true, ..quiet })
        }
    } else if key.control && key.code == KeyCode::Char('d') && c.buffer.len() == 0
        && app.overlay is None {
        idle(InlineAppView { should_quit: true, ..quiet })
    } else {
        match app.overlay {
            Some(shown) => outcome_taken(
                InlineAppView { overlay: Some(overlay::overlay_after(shown, key)), ..quiet },
                overlay::outcome_of(shown, key),
            ),
            None => match line_key(key) {
                LineKey::Submit => submitted(quiet, questions),
                LineKey::Newline => idle(
                    state::with_composer(quiet, line_edited(c, LineKey::Newline)),
                ),
                LineKey::Up => idle(went_up(quiet)),
                LineKey::Down => idle(went_down(quiet)),
                LineKey::Nothing => idle(quiet),
                what => idle(
                    state::with_composer(state::nav_reset(quiet), line_edited(c, what)),
                ),
            },
        }
    }
}

impl InlineApp {
    /// Runs a command.
    pub fn handle_slash(&mut self, command: &str, questions: Option<Vec<ApprovalQuestion>>) -> (action:
        InlineAction)
        ensures
            (final(self)@, action@) == commanded(old(self)@, command@, text::opt_views(questions)),
            state::in_order(old(self)@) ==> state::in_order(final(self)@),
    {
        if text::same_text(command, "/help") {
            self.overlay = Some(Overlay::Help);
        } else if text::same_text(command, "/clear") {
            self.core.clear_transcript();
            self.rendered_cells = 0;
        } else if text::same_text(command, "/threads") {
            return InlineAction::ListThreads;
        } else if text::same_text(command, "/skills") {
            return InlineAction::ListSkills;
        } else if text::same_text(command, "/artifacts") {
            return InlineAction::ListArtifacts;
        } else if text::same_text(command, "/approval") {
            let pending: Option<PendingApproval> = text::copy_maybe(
                &self.core.state.approvals.pending,
            );
            match pending {
                Some(pending) => {
                    self.overlay = Some(Overlay::for_pending_approval(pending, questions));
                },
                None => {
                    self.toast = Some("no pending approval".to_owned());
                },
            }
        } else {
            let message: String = text::glue("Unknown command: ", command);
            self.core.push_warning(message.as_str());
        }
        InlineAction::Idle
    }

    /// Sends the line off.
    pub fn submit_composer(&mut self, questions: Option<Vec<ApprovalQuestion>>) -> (action: InlineAction)
        ensures
            (final(self)@, action@) == submitted(old(self)@, text::opt_views(questions)),
            state::in_order(old(self)@) ==> state::in_order(final(self)@),
    {
        self.reset_history_nav();
        let input: String = text::trim(self.core.state.composer.buffer.as_str());
        self.core.state.composer.buffer = String::new();
        self.core.state.composer.cursor = 0;
        proof {
            assert(self.core.state.composer.buffer@ =~= Seq::<char>::empty());
            cursor::lemma_ends(Seq::<char>::empty());
        }
        assert(self@ == line_taken(old(self)@));
        if text::is_empty(input.as_str()) {
            return InlineAction::Idle;
        }
        self.push_history_entry(input.as_str());
        if text::same_text(input.as_str(), "/quit") || text::same_text(input.as_str(), "/exit") {
            self.should_quit = true;
            return InlineAction::Idle;
        }
        if text::starts_with(input.as_str(), "/") {
            let action: InlineAction = self.handle_slash(input.as_str(), questions);
            self.refresh_selected_skill_label();
            return action;
        }
        InlineAction::StartPrompt { prompt: input }
    }

    /// Gives a key to what takes the place of the composer.
    pub fn handle_overlay_key(&mut self, key: KeyPress) -> (action: InlineAction)
        requires
            old(self)@.overlay matches Some(shown) ==> overlay::well_formed(shown),
        ensures
            match old(self)@.overlay {
                Some(shown) => (final(self)@, action@) == outcome_taken(
                    (InlineAppView {
                        overlay: Some(overlay::overlay_after(shown, key)),
                        ..old(self)@
                    }),
                    overlay::outcome_of(shown, key),
                ),
                None => (final(self)@, action@) == idle(old(self)@),
            },
            state::in_order(old(self)@) ==> state::in_order(final(self)@),
    {
        let mut shown: Overlay = match &self.overlay {
            Some(shown) => shown.clone(),
            None => {
                return InlineAction::Idle;
            },
        };
        let outcome: OverlayOutcome = overlay::handle_key(&mut shown, key);
        self.overlay = Some(shown);
        match outcome {
            OverlayOutcome::Keep => {
                return InlineAction::Idle;
            },
            OverlayOutcome::Dismiss => {
                self.overlay = None;
            },
            OverlayOutcome::CancelApproval => {
                self.overlay = None;
                self.toast = Some(
                    "approval overlay dismissed (use /approval to reopen)".to_owned(),
                );
            },
            OverlayOutcome::SubmitApproval(request) => {
                self.overlay = None;
                let pending: Option<PendingApproval> = text::copy_maybe(
                    &self.core.state.approvals.pending,
                );
                match pending {
                    Some(approval) => {
                        return InlineAction::AnswerApproval { approval, request };
                    },
                    None => {
                        return InlineAction::Flush;
                    },
                }
            },
            OverlayOutcome::SelectSkill(skill) => {
                let label: String = picker::selected_skill_label(&skill);
                self.core.selected_skill = Some(skill);
                self.overlay = None;
                self.refresh_selected_skill_label();
                self.toast = Some(text::glue("selected skill: ", label.as_str()));
            },
            OverlayOutcome::ResumeThread(thread_id) => {
                self.overlay = None;
                return InlineAction::ResumeThread { thread_id };
            },
            OverlayOutcome::OpenArtifact(id) => {
                self.overlay = None;
                self.toast = Some(
                    text::glue3(
                        "artifact viewer not yet implemented (id: ",
                        id.text.as_str(),
                        ")",
                    ),
                );
            },
        }
        InlineAction::Idle
    }

    fn go_up(&mut self)
        requires
            state::in_order(old(self)@),
        ensures
            final(self)@ == went_up(old(self)@),
            state::in_order(final(self)@),
    {
        proof {
            cursor::lemma_boundary(
                self@.core.state.composer.buffer,
                self@.core.state.composer.cursor as int,
            );
        }
        match edit::prev_line_cursor(
            self.core.state.composer.buffer.as_str(),
            self.core.state.composer.cursor,
        ) {
            Some(at) => {
                self.reset_history_nav();
                self.core.state.composer.cursor = at;
            },
            None => {
                self.history_prev();
            },
        }
    }

    fn go_down(&mut self)
        requires
            state::in_order(old(self)@),
        ensures
            final(self)@ == went_down(old(self)@),
            state::in_order(final(self)@),
    {
        proof {
            cursor::lemma_boundary(
                self@.core.state.composer.buffer,
                self@.core.state.composer.cursor as int,
            );
        }
        match edit::next_line_cursor(
            self.core.state.composer.buffer.as_str(),
            self.core.state.composer.cursor,
        ) {
            Some(at) => {
                self.reset_history_nav();
                self.core.state.composer.cursor = at;
            },
            None => {
                self.history_next();
            },
        }
    }

    fn edit_line(&mut self, what: LineKey)
        requires
            composer::on_boundary(old(self)@.core.state.composer),
        ensures
            final(self)@ == state::with_composer(
                old(self)@,
                line_edited(old(self)@.core.state.composer, what),
            ),
            composer::on_boundary(final(self)@.core.state.composer),
    {
        proof {
            let c = self@.core.state.composer;
            cursor::lemma_boundary(c.buffer, c.cursor as int);
        }
        match what {
            LineKey::Newline => composer::insert_str(&mut self.core.state.composer, "\n"),
            LineKey::Backspace => composer::backspace(&mut self.core.state.composer),
            LineKey::BackspaceWord => composer::delete_word_backward(&mut self.core.state.composer),
            LineKey::Delete => composer::delete_forward(&mut self.core.state.composer),
            LineKey::DeleteWord => composer::delete_word_forward(&mut self.core.state.composer),
            LineKey::Left => composer::move_left(&mut self.core.state.composer),
            LineKey::LeftWord => composer::move_word_left(&mut self.core.state.composer),
            LineKey::Right => composer::move_right(&mut self.core.state.composer),
            LineKey::RightWord => composer::move_word_right(&mut self.core.state.composer),
            LineKey::Home => composer::move_line_home(&mut self.core.state.composer),
            LineKey::End => composer::move_line_end(&mut self.core.state.composer),
            LineKey::ClearToStart => composer::clear_to_line_start(&mut self.core.state.composer),
            LineKey::ClearToEnd => composer::clear_to_line_end(&mut self.core.state.composer),
            LineKey::Type(ch) => composer::insert_char(&mut self.core.state.composer, ch),
            _ => {},
        }
    }

    /// Gives a key to the client. What is left to do outside it comes back. `questions` is what a
    /// pending approval asks, if that could be read.
    pub fn handle_key(&mut self, key: KeyPress, questions: Option<Vec<ApprovalQuestion>>) -> (action:
        InlineAction)
        requires
            state::in_order(old(self)@),
        ensures
            (final(self)@, action@) == key_handled(old(self)@, key, text::opt_views(questions)),
            state::in_order(final(self)@),
    {
        self.toast = None;
        if key.control && key.code == KeyCode::Char('c') {
            if self.core.state.connection == ConnectionState::Streaming {
                self.toast = Some("interrupt requested".to_owned());
                return InlineAction::Interrupt;
            }
            self.should_quit = true;
            return InlineAction::Idle;
        }
        if key.control && key.code == KeyCode::Char('d') && text::is_empty(
            self.core.state.composer.buffer.as_str(),
        ) && self.overlay.is_none() {
            self.should_quit = true;
            return InlineAction::Idle;
        }
        if self.overlay.is_some() {
            return self.handle_overlay_key(key);
        }
        let what: LineKey = line_key_of(key);
        match what {
            LineKey::Submit => {
                return self.submit_composer(questions);
            },
            LineKey::Newline => {
                self.edit_line(what);
            },
            LineKey::Up => {
                self.go_up();
            },
            LineKey::Down => {
                self.go_down();
            },
            LineKey::Nothing => {},
            _ => {
                self.reset_history_nav();
                self.edit_line(what);
            },
        }
        InlineAction::Idle
    }
}

// -- Pasting ---------------------------------------------------------------------------------------

/// What takes the place of the composer after characters were pasted into it, one by one; what each
/// would come to does not count.
pub open spec fn pasted_over(shown: OverlayView, data: Seq<char>) -> OverlayView
    decreases data.len(),
{
    if data.len() == 0 {
        shown
    } else {
        overlay::overlay_after(
            pasted_over(shown, data.drop_last()),
            keys::bare(KeyCode::Char(data.last())),
        )
    }
}

/// The client after something was pasted.
pub open spec fn pasted(app: InlineAppView, data: Seq<char>) -> InlineAppView {
    match app.overlay {
        Some(shown) => InlineAppView { overlay: Some(pasted_over(shown, data)), ..app },
        None => state::with_composer(
            state::nav_reset(app),
            composer::typed(app.core.state.composer, data),
        ),
    }
}

/// A client that offers skills, or says that there are none.
pub open spec fn skills_offered(
    app: InlineAppView,
    skills: Seq<SkillDescriptorView>,
) -> InlineAppView {
    if skills.len() == 0 {
        state::with_toast(app, "no skills available"@)
    } else {
        InlineAppView {
            overlay: Some(OverlayView::SkillPicker { skills, query: Seq::empty(), cursor: 0 }),
            ..app
        }
    }
}

/// A client that offers conversations, or says that there are none.
pub open spec fn threads_offered(app: InlineAppView, threads: Seq<ThreadRecordView>) -> InlineAppView {
    let listed = InlineAppView {
        core: app::with_state(app.core, app::threads_listed(app.core.state, threads)),
        ..app
    };
    if threads.len() == 0 {
        state::with_toast(listed, "no threads yet"@)
    } else {
        InlineAppView {
            overlay: Some(
                OverlayView::ThreadPicker {
                    threads: listed.core.state.threads,
                    query: Seq::empty(),
                    cursor: 0,
                },
            ),
            ..listed
        }
    }
}

/// A client that offers artifacts, or says that there are none.
pub open spec fn artifacts_offered(
    app: InlineAppView,
    artifacts: Seq<ArtifactManifestView>,
) -> InlineAppView {
    if artifacts.len() == 0 {
        state::with_toast(app, "no artifacts yet"@)
    } else {
        InlineAppView {
            overlay: Some(OverlayView::ArtifactPicker { artifacts, query: Seq::empty(), cursor: 0 }),
            ..app
        }
    }
}

/// A client after a conversation was resumed, or was not.
pub open spec fn resume_noted(app: InlineAppView, resumed: Result<(), Seq<char>>) -> InlineAppView {
    match resumed {
        Ok(_) => InlineAppView { rendered_cells: 0, ..app },
        Err(error) => state::with_toast(app, "resume failed: "@ + error),
    }
}

impl InlineApp {
    /// Takes in what was pasted.
    pub fn handle_paste(&mut self, data: &str)
        requires
            state::in_order(old(self)@),
        ensures
            final(self)@ == pasted(old(self)@, data@),
            state::in_order(final(self)@),
    {
        if let Some(shown) = &self.overlay {
            let ghost start = shown@;
            let mut shown: Overlay = shown.clone();
            let chars: Vec<char> = text::chars_of(data);
            let mut i: usize = 0;
            assert(data@.take(0) =~= Seq::<char>::empty());
            while i < chars.len()
                invariant
                    i <= chars@.len(),
                    chars@ == data@,
                    overlay::well_formed(shown@),
                    shown@ == pasted_over(start, data@.take(i as int)),
                decreases chars@.len() - i,
            {
                assert(data@.take(i + 1).drop_last() =~= data@.take(i as int));
                assert(data@.take(i + 1).last() == chars@[i as int]);
                let _outcome: OverlayOutcome = overlay::handle_key(
                    &mut shown,
                    keys::bare(KeyCode::Char(chars[i])),
                );
                i = i + 1;
            }
            assert(data@.take(data@.len() as int) =~= data@);
            self.overlay = Some(shown);
            return ;
        }
        proof {
            let c = self@.core.state.composer;
            cursor::lemma_boundary(c.buffer, c.cursor as int);
        }
        self.reset_history_nav();
        composer::insert_str(&mut self.core.state.composer, data);
    }

    // -- Replies -----------------------------------------------------------------------------------

    /// Takes in the skills that were listed.
    pub fn open_skill_picker(&mut self, skills: Vec<SkillDescriptor>)
        ensures
            final(self)@ == skills_offered(old(self)@, text::views(skills@)),
    {
        if skills.len() == 0 {
            self.toast = Some("no skills available".to_owned());
            return ;
        }
        let query: String = String::new();
        assert(query@ =~= Seq::<char>::empty());
        self.overlay = Some(Overlay::SkillPicker { skills, query, cursor: 0 });
    }

    /// Takes in the conversations that were listed. The error comes back where they were not.
    pub fn open_thread_picker(&mut self, listing: Result<Vec<ThreadRecord>, String>) -> (done: Result<
        (),
        String,
    >)
        ensures
            match app::listing_view(listing) {
                Ok(threads) => done is Ok && final(self)@ == threads_offered(old(self)@, threads),
                Err(error) => done matches Err(told) && told@ == error && final(self)@ == old(
                    self,
                )@,
            },
    {
        let ghost asked = app::listing_view(listing);
        match self.core.refresh_threads(listing) {
            Ok(_) => {},
            Err(error) => {
                return Err(error);
            },
        }
        assert(asked is Ok);
        assert(self@.core.state.threads.len() == self.core.state.threads@.len());
        if self.core.state.threads.len() == 0 {
            self.toast = Some("no threads yet".to_owned());
            return Ok(());
        }
        let threads: Vec<ThreadListItem> = text::copy_all(&self.core.state.threads);
        let query: String = String::new();
        assert(query@ =~= Seq::<char>::empty());
        self.overlay = Some(Overlay::ThreadPicker { threads, query, cursor: 0 });
        Ok(())
    }

    /// Takes in the artifacts that were listed.
    pub fn open_artifact_picker(&mut self, artifacts: Vec<ArtifactManifest>)
        ensures
            final(self)@ == artifacts_offered(old(self)@, text::views(artifacts@)),
    {
        if artifacts.len() == 0 {
            self.toast = Some("no artifacts yet".to_owned());
            return ;
        }
        let query: String = String::new();
        assert(query@ =~= Seq::<char>::empty());
        self.overlay = Some(Overlay::ArtifactPicker { artifacts, query, cursor: 0 });
    }

    /// Takes in what came of resuming a conversation: the transcript goes into the scrollback anew.
    pub fn thread_resumed(&mut self, resumed: Result<(), String>)
        ensures
            final(self)@ == resume_noted(old(self)@, app::reply_view(resumed)),
    {
        match resumed {
            Ok(_) => {
                self.rendered_cells = 0;
            },
            Err(error) => {
                self.toast = Some(text::glue("resume failed: ", error.as_str()));
            },
        }
    }
}

/// While a turn streams, control-c interrupts it and does not quit, whatever takes the place of the
/// composer.
pub proof fn law_control_c_interrupts_first(
    app: InlineAppView,
    key: KeyPress,
    questions: Option<Seq<ApprovalQuestionView>>,
)
    requires
        key.control,
        key.code == KeyCode::Char('c'),
    ensures
        app.core.state.connection == ConnectionState::Streaming ==> key_handled(
            app,
            key,
            questions,
        ).1 == InlineActionView::Interrupt && key_handled(app, key, questions).0.should_quit
            == app.should_quit,
        app.core.state.connection != ConnectionState::Streaming ==> key_handled(
            app,
            key,
            questions,
        ).0.should_quit,
{
}

/// The client quits on nothing but control-c, control-d on an empty line, and the commands to quit.
pub proof fn law_quitting_is_asked_for(
    app: InlineAppView,
    key: KeyPress,
    questions: Option<Seq<ApprovalQuestionView>>,
)
    requires
        !app.should_quit,
        key_handled(app, key, questions).0.should_quit,
    ensures
        ({
            let input = text::trim_of(app.core.state.composer.buffer);
            ||| key.control && key.code == KeyCode::Char('c')
            ||| key.control && key.code == KeyCode::Char('d') && app.core.state.composer.buffer.len() == 0
            ||| key.code == KeyCode::Enter && (input == "/quit"@ || input == "/exit"@)
        }),
{
    let quiet = InlineAppView { toast: None, ..app };
    if app.overlay is None && line_key(key) == LineKey::Submit {
        let done = commanded(
            InlineAppView {
                prompt_history: state::prompt_kept(
                    line_taken(quiet).prompt_history,
                    text::trim_of(app.core.state.composer.buffer),
                ),
                ..line_taken(quiet)
            },
            text::trim_of(app.core.state.composer.buffer),
            questions,
        );
        assert(!done.0.should_quit);
    }
}

// -- What keys mean ------------------------------------------------------------------------------------------

/// Without control and alt a key does what it says: a character types itself, shift with enter opens a
/// line and enter alone hands it in.
pub proof fn law_plain_keys_do_what_they_say(key: KeyPress)
    requires
        !key.control,
        !key.alt,
    ensures
        key.code matches KeyCode::Char(ch) ==> line_key(key) == LineKey::Type(ch),
        line_key(key) == LineKey::Submit <==> key.code == KeyCode::Enter && !key.shift,
        line_key(key) == LineKey::Newline <==> key.code == KeyCode::Enter && key.shift,
        line_key(key) == LineKey::Backspace <==> key.code == KeyCode::Backspace,
        line_key(key) == LineKey::Delete <==> key.code == KeyCode::Delete,
        line_key(key) == LineKey::Left <==> key.code == KeyCode::Left,
        line_key(key) == LineKey::Right <==> key.code == KeyCode::Right,
        line_key(key) == LineKey::Up <==> key.code == KeyCode::Up,
        line_key(key) == LineKey::Down <==> key.code == KeyCode::Down,
        line_key(key) == LineKey::Home <==> key.code == KeyCode::Home,
        line_key(key) == LineKey::End <==> key.code == KeyCode::End,
{
}

/// With control or alt, backspace and the arrows to the sides go by words; the other arrows, enter and
/// the ends do nothing, and neither do characters but the five that control gives a meaning.
pub proof fn law_modified_keys_go_by_words(key: KeyPress)
    requires
        key.control || key.alt,
    ensures
        key.code == KeyCode::Backspace ==> line_key(key) == LineKey::BackspaceWord,
        key.code == KeyCode::Left <==> line_key(key) == LineKey::LeftWord,
        key.code == KeyCode::Right <==> line_key(key) == LineKey::RightWord,
        key.code == KeyCode::Delete && key.alt <==> line_key(key) == LineKey::DeleteWord,
        line_key(key) == LineKey::Home <==> key.control && key.code == KeyCode::Char('a'),
        line_key(key) == LineKey::End <==> key.control && key.code == KeyCode::Char('e'),
        line_key(key) == LineKey::ClearToStart <==> key.control && key.code == KeyCode::Char('u'),
        line_key(key) == LineKey::ClearToEnd <==> key.control && key.code == KeyCode::Char('k'),
        line_key(key) == LineKey::BackspaceWord <==> key.code == KeyCode::Backspace || (key.control
            && key.code == KeyCode::Char('w')),
        !(line_key(key) is Type),
        line_key(key) != LineKey::Submit && line_key(key) != LineKey::Newline,
        line_key(key) != LineKey::Up && line_key(key) != LineKey::Down,
{
}

/// Enter hands in what was typed, without white space around it: the line is empty then, and what was
/// typed is the last prompt that is kept. It goes to the assistant unless it begins with a slash; then it
/// is a command.
pub proof fn law_enter_hands_in_the_line(
    app: InlineAppView,
    key: KeyPress,
    questions: Option<Seq<ApprovalQuestionView>>,
)
    requires
        key.code == KeyCode::Enter,
        !key.control && !key.alt && !key.shift,
        app.overlay is None,
    ensures
        ({
            let input = text::trim_of(app.core.state.composer.buffer);
            let slash = input.len() > 0 && input[0] == '/';
            let done = key_handled(app, key, questions);
            let now = done.0;
            &&& now.core.state.composer.buffer.len() == 0 && now.core.state.composer.cursor == 0
            &&& now.history_cursor is None && now.history_draft is None
            &&& done.1 is StartPrompt <==> input.len() > 0 && !slash
            &&& done.1 matches InlineActionView::StartPrompt { prompt } ==> prompt == input
            &&& done.1 == InlineActionView::ListThreads <==> input == "/threads"@
            &&& done.1 == InlineActionView::ListSkills <==> input == "/skills"@
            &&& done.1 == InlineActionView::ListArtifacts <==> input == "/artifacts"@
            &&& now.should_quit <==> app.should_quit || input == "/quit"@ || input == "/exit"@
            &&& now.overlay == Some(OverlayView::Help) <==> input == "/help"@
            &&& input.len() == 0 ==> now.prompt_history == app.prompt_history
            &&& input.len() > 0 ==> now.prompt_history.len() > 0 && now.prompt_history.last()
                == input
            &&& !(done.1 is Interrupt) && !(done.1 is AnswerApproval) && !(done.1 is ResumeThread)
        }),
{
    let input = text::trim_of(app.core.state.composer.buffer);
    text::lemma_trim_twice(app.core.state.composer.buffer);
    lemma_commands_differ();
    assert(text::begins(input, "/"@) <==> input.len() > 0 && input[0] == '/') by {
        reveal_strlit("/");
        if input.len() > 0 {
            assert(input.take(1)[0] == input[0]);
            if input[0] == '/' {
                assert(input.take(1) =~= "/"@);
            }
        }
    }
}

/// The commands are different words, and all begin with a slash.
proof fn lemma_commands_differ()
    ensures
        "/help"@.len() == 5,
        "/quit"@.len() == 5,
        "/exit"@.len() == 5,
        "/clear"@.len() == 6,
        "/skills"@.len() == 7,
        "/threads"@.len() == 8,
        "/approval"@.len() == 9,
        "/artifacts"@.len() == 10,
        "/help"@[1] == 'h',
        "/quit"@[1] == 'q',
        "/exit"@[1] == 'e',
        "/help"@[0] == '/',
        "/quit"@[0] == '/',
        "/exit"@[0] == '/',
        "/clear"@[0] == '/',
        "/skills"@[0] == '/',
        "/threads"@[0] == '/',
        "/approval"@[0] == '/',
        "/artifacts"@[0] == '/',
{
    reveal_strlit("/help");
    reveal_strlit("/quit");
    reveal_strlit("/exit");
    reveal_strlit("/clear");
    reveal_strlit("/skills");
    reveal_strlit("/threads");
    reveal_strlit("/approval");
    reveal_strlit("/artifacts");
}

/// A command does what it names: clearing empties what is shown, the approval is asked about again if
/// one is pending, and a command that there is not is warned of by name. None touches anything else.
pub proof fn law_commands_do_what_they_name(
    app: InlineAppView,
    command: Seq<char>,
    questions: Option<Seq<ApprovalQuestionView>>,
)
    ensures
        ({
            let done = commanded(app, command, questions);
            let now = done.0;
            let history = now.core.state.transcript.history;
            let known = command == "/help"@ || command == "/clear"@ || command == "/threads"@
                || command == "/skills"@ || command == "/artifacts"@ || command == "/approval"@;
            &&& command == "/clear"@ ==> history.len() == 0 && now.rendered_cells == 0
            &&& command != "/clear"@ ==> now.rendered_cells == app.rendered_cells
            &&& known && command != "/clear"@ ==> history == app.core.state.transcript.history
            &&& !known ==> history.drop_last() == app.core.state.transcript.history && (
            history.last() matches HistoryCellModelView::Warning(cell) && text::contains_text(
                cell.message,
                command,
            ))
            &&& command == "/approval"@ && app.core.state.approvals.pending is None ==> now.overlay
                == app.overlay && now.toast is Some
            &&& command == "/approval"@ ==> (app.core.state.approvals.pending
                matches Some(pending) ==> now.overlay == Some(overlay::asked_as(pending, questions)))
            &&& command != "/approval"@ && command != "/help"@ ==> now.overlay == app.overlay
            &&& now.core.selected_skill == app.core.selected_skill
            &&& now.core.state.approvals == app.core.state.approvals
            &&& now.core.state.connection == app.core.state.connection
            &&& now.core.state.composer == app.core.state.composer
            &&& now.should_quit == app.should_quit
        }),
{
    lemma_commands_differ();
    let done = commanded(app, command, questions);
    let none = Seq::<char>::empty();
    assert("Unknown command: "@ + command =~= "Unknown command: "@ + command + none);
    text::lemma_contains_inside("Unknown command: "@, command, none);
    let message = "Unknown command: "@ + command;
    let before = app.core.state.transcript.history;
    assert(before.push(transcript::warning_cell(message)).drop_last() =~= before);
}

/// What was chosen over the client takes effect, and what was shown over it is gone: the answer goes out
/// for the approval that is pending, the chosen skill is selected, and the chosen conversation is
/// resumed.
pub proof fn law_what_was_chosen_takes_effect(app: InlineAppView, outcome: OverlayOutcomeView)
    ensures
        ({
            let done = outcome_taken(app, outcome);
            let now = done.0;
            &&& outcome is Keep ==> done == (app, InlineActionView::Idle)
            &&& !(outcome is Keep) ==> now.overlay is None
            &&& outcome matches OverlayOutcomeView::SubmitApproval(request) ==> {
                &&& app.core.state.approvals.pending matches Some(approval) ==> done.1 == (
                InlineActionView::AnswerApproval { approval, request })
                &&& app.core.state.approvals.pending is None ==> done.1 == InlineActionView::Flush
            }
            &&& done.1 is AnswerApproval ==> outcome is SubmitApproval
            &&& outcome matches OverlayOutcomeView::ResumeThread(id) ==> done.1 == (
            InlineActionView::ResumeThread { thread_id: id })
            &&& done.1 is ResumeThread ==> outcome is ResumeThread
            &&& outcome matches OverlayOutcomeView::SelectSkill(skill) ==> now.core.selected_skill
                == Some(skill) && now.selected_skill_label == Some(picker::skill_label(skill))
            &&& !(outcome is SelectSkill) ==> now.core == app.core
            &&& now.core.state == app.core.state
            &&& now.should_quit == app.should_quit
        }),
{
}

/// What is pasted goes where what is typed would: into what is shown over the client, or else to the
/// cursor.
pub proof fn law_pasting_is_typing(app: InlineAppView, data: Seq<char>, ch: char)
    ensures
        app.overlay is None ==> pasted(app, data).core.state.composer == composer::typed(
            app.core.state.composer,
            data,
        ) && pasted(app, data).overlay is None,
        app.overlay matches Some(shown) ==> pasted(app, seq![ch]).overlay == Some(
            overlay::overlay_after(shown, keys::bare(KeyCode::Char(ch))),
        ) && pasted(app, data).core == app.core,
        app.overlay matches Some(shown) ==> pasted_over(shown, data.push(ch))
            == overlay::overlay_after(pasted_over(shown, data), keys::bare(KeyCode::Char(ch))),
{
    reveal_with_fuel(pasted_over, 2);
    assert(seq![ch].drop_last() =~= Seq::<char>::empty());
    assert(data.push(ch).drop_last() =~= data);
}

/// A key that edits the line changes nothing but the line, and ends going through earlier prompts; an
/// earlier notice is gone after any key.
pub proof fn law_editing_touches_the_line_only(
    app: InlineAppView,
    key: KeyPress,
    questions: Option<Seq<ApprovalQuestionView>>,
)
    requires
        app.overlay is None,
        line_key(key) != LineKey::Submit,
        !(key.control && (key.code == KeyCode::Char('c') || key.code == KeyCode::Char('d'))),
    ensures
        ({
            let done = key_handled(app, key, questions);
            let now = done.0;
            let what = line_key(key);
            let c = app.core.state.composer;
            &&& done.1 == InlineActionView::Idle
            &&& now.toast is None
            &&& now.core.state.transcript == app.core.state.transcript
            &&& now.core.state.approvals == app.core.state.approvals
            &&& now.core.selected_skill == app.core.selected_skill
            &&& now.prompt_history == app.prompt_history
            &&& now.should_quit == app.should_quit
            &&& now.overlay is None
            &&& what == LineKey::Nothing ==> now.core.state.composer == c
            &&& what matches LineKey::Type(ch) ==> now.core.state.composer == composer::typed(
                c,
                seq![ch],
            )
            &&& what == LineKey::Newline ==> now.core.state.composer == composer::typed(c, seq!['\n'])
            &&& what == LineKey::Backspace ==> now.core.state.composer == composer::backspaced(c)
            &&& what == LineKey::BackspaceWord ==> now.core.state.composer
                == composer::word_backspaced(c)
            &&& what == LineKey::Delete ==> now.core.state.composer == composer::deleted(c)
            &&& what == LineKey::DeleteWord ==> now.core.state.composer == composer::word_deleted(c)
            &&& what == LineKey::ClearToStart ==> now.core.state.composer
                == composer::cleared_before(c)
            &&& what == LineKey::ClearToEnd ==> now.core.state.composer == composer::cleared_after(c)
            &&& what == LineKey::Left || what == LineKey::Right || what == LineKey::LeftWord || what
                == LineKey::RightWord || what == LineKey::Home || what == LineKey::End
                ==> now.core.state.composer.buffer == c.buffer
        }),
{
    reveal_strlit("\n");
    assert("\n"@ =~= seq!['\n']);
}

/// The arrows up and down stay in the text while it has a line there; only past its ends do they go
/// through earlier prompts.
pub proof fn law_arrows_stay_in_the_text_first(app: InlineAppView)
    ensures
        ({
            let c = app.core.state.composer;
            let above = edit::line_above(c.buffer, composer::clamped(c));
            let below = edit::line_below(c.buffer, composer::clamped(c));
            &&& above is Some ==> went_up(app).core.state.composer.buffer == c.buffer && went_up(
                app,
            ).history_cursor is None
            &&& above is None ==> went_up(app) == state::prompt_before(app)
            &&& below is Some ==> went_down(app).core.state.composer.buffer == c.buffer && went_down(
                app,
            ).history_cursor is None
            &&& below is None ==> went_down(app) == state::prompt_after(app)
        }),
{
}

/// A list is shown where there is anything to choose from, all of it, with nothing typed and the first
/// marked; otherwise only a notice says so.
pub proof fn law_lists_open_with_everything(
    app: InlineAppView,
    skills: Seq<SkillDescriptorView>,
    artifacts: Seq<ArtifactManifestView>,
    threads: Seq<ThreadRecordView>,
)
    ensures
        ({
            let now = skills_offered(app, skills);
            &&& skills.len() == 0 ==> now.overlay == app.overlay && now.toast is Some
            &&& skills.len() > 0 ==> (now.overlay matches Some(
                OverlayView::SkillPicker { skills: shown, query, cursor },
            ) && shown == skills && query.len() == 0 && cursor == 0)
            &&& now.core == app.core
        }),
        ({
            let now = artifacts_offered(app, artifacts);
            &&& artifacts.len() == 0 ==> now.overlay == app.overlay && now.toast is Some
            &&& artifacts.len() > 0 ==> (now.overlay matches Some(
                OverlayView::ArtifactPicker { artifacts: shown, query, cursor },
            ) && shown == artifacts && query.len() == 0 && cursor == 0)
            &&& now.core == app.core
        }),
        ({
            let now = threads_offered(app, threads);
            let listed = now.core.state.threads;
            &&& listed.len() == threads.len()
            &&& forall|i: int|
                0 <= i < threads.len() ==> (#[trigger] listed[i]).thread == threads[i] && (
                listed[i].selected <==> app.core.state.active_thread_id == Some(threads[i].id))
            &&& threads.len() == 0 ==> now.overlay == app.overlay && now.toast is Some
            &&& threads.len() > 0 ==> (now.overlay matches Some(
                OverlayView::ThreadPicker { threads: shown, query, cursor },
            ) && shown == listed && query.len() == 0 && cursor == 0)
            &&& now.core.state.transcript == app.core.state.transcript
            &&& now.core.state.active_thread_id == app.core.state.active_thread_id
        }),
{
}

/// A conversation that was resumed is shown from its beginning; one that was not leaves everything as it
/// is but for a notice, which says why.
pub proof fn law_a_resumed_conversation_is_shown_anew(app: InlineAppView, error: Seq<char>)
    ensures
        resume_noted(app, Ok(())).rendered_cells == 0,
        resume_noted(app, Ok(())).core == app.core,
        resume_noted(app, Err(error)).rendered_cells == app.rendered_cells,
        resume_noted(app, Err(error)).core == app.core,
        resume_noted(app, Err(error)).toast matches Some(words) && text::contains_text(words, error),
{
    let none = Seq::<char>::empty();
    assert("resume failed: "@ + error =~= "resume failed: "@ + error + none);
    text::lemma_contains_inside("resume failed: "@, error, none);
}

} // verus!
