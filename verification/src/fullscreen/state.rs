//! What the full screen holds beside the client.
use vstd::prelude::*;

use crate::app;
use crate::app::{TranscriptApp, TranscriptAppView};
use crate::artifacts::{
    ArtifactManifest, ArtifactManifestView, ArtifactReadBundle, ArtifactReadBundleView,
};
use crate::draw::Area;
use crate::picker;
use crate::protocol::{
    AnswerMap, ApprovalAnswerView, ApprovalQuestion, ApprovalQuestionView,
};
use crate::skills::{SkillDescriptor, SkillDescriptorView};
use crate::text;
use crate::ui::{
    AppState, ApprovalKind, ConnectionState, HistoryCellModel, HistoryCellModelView,
    PendingApproval, PendingApprovalView, ThreadListItem, ThreadListItemView,
};

verus! {

broadcast use text::group_views;

/// Why the screen is drawn again.
#[derive(Clone, Copy, Debug, PartialEq, Eq, Structural)]
pub enum RedrawRequest {
    Initial,
    DataChanged,
    KeyPress,
    Tick,
    Resized,
}

/// The answer to an approval.
#[derive(Clone, Copy, Debug, PartialEq, Eq, Structural)]
pub enum ApprovalChoice {
    Approve,
    Reject,
}

impl ApprovalChoice {
    /// The other answer.
    #[verifier::allow_in_spec]
    pub fn toggle(self) -> Self
        returns
            (match self {
                ApprovalChoice::Approve => ApprovalChoice::Reject,
                ApprovalChoice::Reject => ApprovalChoice::Approve,
            }),
    {
        match self {
            ApprovalChoice::Approve => ApprovalChoice::Reject,
            ApprovalChoice::Reject => ApprovalChoice::Approve,
        }
    }
}

/// The part of a question that has the keys.
#[derive(Clone, Copy, Debug, PartialEq, Eq, Structural)]
pub enum QuestionFocus {
    Options,
    TextInput,
}

impl QuestionFocus {
    /// The other part.
    #[verifier::allow_in_spec]
    pub fn toggle(self) -> Self
        returns
            (match self {
                QuestionFocus::Options => QuestionFocus::TextInput,
                QuestionFocus::TextInput => QuestionFocus::Options,
            }),
    {
        match self {
            QuestionFocus::Options => QuestionFocus::TextInput,
            QuestionFocus::TextInput => QuestionFocus::Options,
        }
    }
}

/// The list of skills.
#[derive(Debug, PartialEq)]
pub struct SkillPickerState {
    pub filter: String,
    pub selected: usize,
    pub skills: Vec<SkillDescriptor>,
}

/// The model of `SkillPickerState`.
#[verifier::ext_equal]
pub struct SkillPickerStateView {
    pub filter: Seq<char>,
    pub selected: usize,
    pub skills: Seq<SkillDescriptorView>,
}

impl View for SkillPickerState {
    type V = SkillPickerStateView;

    open spec fn view(&self) -> SkillPickerStateView {
        SkillPickerStateView {
            filter: self.filter@,
            selected: self.selected,
            skills: text::views(self.skills@),
        }
    }
}

impl Clone for SkillPickerState {
    fn clone(&self) -> (copy: Self)
        ensures
            copy@ == self@,
    {
        SkillPickerState {
            filter: self.filter.clone(),
            selected: self.selected,
            skills: text::copy_all(&self.skills),
        }
    }
}

/// The list of conversations.
#[derive(Debug, PartialEq)]
pub struct ThreadPickerState {
    pub filter: String,
    pub selected: usize,
    pub threads: Vec<ThreadListItem>,
}

/// The model of `ThreadPickerState`.
#[verifier::ext_equal]
pub struct ThreadPickerStateView {
    pub filter: Seq<char>,
    pub selected: usize,
    pub threads: Seq<ThreadListItemView>,
}

impl View for ThreadPickerState {
    type V = ThreadPickerStateView;

    open spec fn view(&self) -> ThreadPickerStateView {
        ThreadPickerStateView {
            filter: self.filter@,
            selected: self.selected,
            threads: text::views(self.threads@),
        }
    }
}

impl Clone for ThreadPickerState {
    fn clone(&self) -> (copy: Self)
        ensures
            copy@ == self@,
    {
        ThreadPickerState {
            filter: self.filter.clone(),
            selected: self.selected,
            threads: text::copy_all(&self.threads),
        }
    }
}

/// The list of artifacts.
#[derive(Debug, PartialEq)]
pub struct ArtifactPickerState {
    pub filter: String,
    pub selected: usize,
    pub artifacts: Vec<ArtifactManifest>,
}

/// The model of `ArtifactPickerState`.
#[verifier::ext_equal]
pub struct ArtifactPickerStateView {
    pub filter: Seq<char>,
    pub selected: usize,
    pub artifacts: Seq<ArtifactManifestView>,
}

impl View for ArtifactPickerState {
    type V = ArtifactPickerStateView;

    open spec fn view(&self) -> ArtifactPickerStateView {
        ArtifactPickerStateView {
            filter: self.filter@,
            selected: self.selected,
            artifacts: text::views(self.artifacts@),
        }
    }
}

impl Clone for ArtifactPickerState {
    fn clone(&self) -> (copy: Self)
        ensures
            copy@ == self@,
    {
        ArtifactPickerState {
            filter: self.filter.clone(),
            selected: self.selected,
            artifacts: text::copy_all(&self.artifacts),
        }
    }
}

/// An artifact that is shown: one of its files, from some row on.
#[derive(Debug, PartialEq)]
pub struct ArtifactViewerState {
    pub payload: ArtifactReadBundle,
    pub selected_file: usize,
    pub scroll: usize,
}

/// The model of `ArtifactViewerState`.
#[verifier::ext_equal]
pub struct ArtifactViewerStateView {
    pub payload: ArtifactReadBundleView,
    pub selected_file: usize,
    pub scroll: usize,
}

impl View for ArtifactViewerState {
    type V = ArtifactViewerStateView;

    open spec fn view(&self) -> ArtifactViewerStateView {
        ArtifactViewerStateView {
            payload: self.payload@,
            selected_file: self.selected_file,
            scroll: self.scroll,
        }
    }
}

impl Clone for ArtifactViewerState {
    fn clone(&self) -> (copy: Self)
        ensures
            copy@ == self@,
    {
        ArtifactViewerState {
            payload: self.payload.clone(),
            selected_file: self.selected_file,
            scroll: self.scroll,
        }
    }
}

/// An approval that is asked for: as one decision, or as questions of which the answers so far are
/// kept.
#[derive(Debug, PartialEq)]
pub enum ApprovalOverlayState {
    Decision { approval: PendingApproval, choice: ApprovalChoice },
    Questionnaire {
        approval: PendingApproval,
        questions: Vec<ApprovalQuestion>,
        current: usize,
        option_selected: usize,
        focus: QuestionFocus,
        input: String,
        answers: AnswerMap,
    },
}

/// The model of `ApprovalOverlayState`.
#[verifier::ext_equal]
pub enum ApprovalOverlayStateView {
    Decision { approval: PendingApprovalView, choice: ApprovalChoice },
    Questionnaire {
        approval: PendingApprovalView,
        questions: Seq<ApprovalQuestionView>,
        current: usize,
        option_selected: usize,
        focus: QuestionFocus,
        input: Seq<char>,
        answers: Map<Seq<char>, ApprovalAnswerView>,
    },
}

impl View for ApprovalOverlayState {
    type V = ApprovalOverlayStateView;

    open spec fn view(&self) -> ApprovalOverlayStateView {
        match *self {
            ApprovalOverlayState::Decision {
                approval,
                choice,
            } => ApprovalOverlayStateView::Decision {
                approval: approval@,
                choice,
            },
            ApprovalOverlayState::Questionnaire {
                approval,
                questions,
                current,
                option_selected,
                focus,
                input,
                answers,
            } => ApprovalOverlayStateView::Questionnaire {
                approval: approval@,
                questions: text::views(questions@),
                current,
                option_selected,
                focus,
                input: input@,
                answers: answers@,
            },
        }
    }
}

impl Clone for ApprovalOverlayState {
    fn clone(&self) -> (copy: Self)
        ensures
            copy@ == self@,
    {
        match self {
            ApprovalOverlayState::Decision { approval, choice } => ApprovalOverlayState::Decision {
                approval: approval.clone(),
                choice: *choice,
            },
            ApprovalOverlayState::Questionnaire {
                approval,
                questions,
                current,
                option_selected,
                focus,
                input,
                answers,
            } => ApprovalOverlayState::Questionnaire {
                approval: approval.clone(),
                questions: text::copy_all(questions),
                current: *current,
                option_selected: *option_selected,
                focus: *focus,
                input: input.clone(),
                answers: answers.clone(),
            },
        }
    }
}

/// Something that lies over the transcript.
#[derive(Debug, PartialEq)]
pub enum OverlayState {
    Help,
    Skills(SkillPickerState),
    Threads(ThreadPickerState),
    Artifacts(ArtifactPickerState),
    ArtifactViewer(ArtifactViewerState),
    Approval(ApprovalOverlayState),
}

/// The model of `OverlayState`.
#[verifier::ext_equal]
pub enum OverlayStateView {
    Help,
    Skills(SkillPickerStateView),
    Threads(ThreadPickerStateView),
    Artifacts(ArtifactPickerStateView),
    ArtifactViewer(ArtifactViewerStateView),
    Approval(ApprovalOverlayStateView),
}

impl View for OverlayState {
    type V = OverlayStateView;

    open spec fn view(&self) -> OverlayStateView {
        match *self {
            OverlayState::Help => OverlayStateView::Help,
            OverlayState::Skills(inner) => OverlayStateView::Skills(inner@),
            OverlayState::Threads(inner) => OverlayStateView::Threads(inner@),
            OverlayState::Artifacts(inner) => OverlayStateView::Artifacts(inner@),
            OverlayState::ArtifactViewer(inner) => OverlayStateView::ArtifactViewer(inner@),
            OverlayState::Approval(inner) => OverlayStateView::Approval(inner@),
        }
    }
}

impl Clone for OverlayState {
    fn clone(&self) -> (copy: Self)
        ensures
            copy@ == self@,
    {
        match self {
            OverlayState::Help => OverlayState::Help,
            OverlayState::Skills(inner) => OverlayState::Skills(inner.clone()),
            OverlayState::Threads(inner) => OverlayState::Threads(inner.clone()),
            OverlayState::Artifacts(inner) => OverlayState::Artifacts(inner.clone()),
            OverlayState::ArtifactViewer(inner) => OverlayState::ArtifactViewer(inner.clone()),
            OverlayState::Approval(inner) => OverlayState::Approval(inner.clone()),
        }
    }
}

/// How grave a notice is.
#[derive(Clone, Copy, Debug, PartialEq, Eq, Structural)]
pub enum ToastLevel {
    Info,
    Warning,
    Error,
}

/// A notice in the corner.
#[derive(Debug, PartialEq)]
pub struct StatusToast {
    pub level: ToastLevel,
    pub text: String,
}

/// The model of `StatusToast`.
#[verifier::ext_equal]
pub struct StatusToastView {
    pub level: ToastLevel,
    pub text: Seq<char>,
}

impl View for StatusToast {
    type V = StatusToastView;

    open spec fn view(&self) -> StatusToastView {
        StatusToastView {
            level: self.level,
            text: self.text@,
        }
    }
}

impl Clone for StatusToast {
    fn clone(&self) -> (copy: Self)
        ensures
            copy@ == self@,
    {
        StatusToast {
            level: self.level,
            text: self.text.clone(),
        }
    }
}

/// The size of the terminal.
#[derive(Clone, Copy, Debug, PartialEq, Eq, Structural)]
pub struct TerminalSize {
    pub width: usize,
    pub height: usize,
}

/// The columns of a terminal that reports none.
pub const FALLBACK_TERMINAL_WIDTH: u16 = 80;

/// The rows of a terminal that reports none.
pub const FALLBACK_TERMINAL_HEIGHT: u16 = 24;

impl TerminalSize {
    /// The size that a terminal reports, with a common one in place of nothing.
    #[verifier::allow_in_spec]
    pub fn new(width: u16, height: u16) -> Self
        returns
            (TerminalSize {
                width: if width == 0 {
                    FALLBACK_TERMINAL_WIDTH as usize
                } else {
                    width as usize
                },
                height: if height == 0 {
                    FALLBACK_TERMINAL_HEIGHT as usize
                } else {
                    height as usize
                },
            }),
    {
        TerminalSize {
            width: if width == 0 {
                FALLBACK_TERMINAL_WIDTH as usize
            } else {
                width as usize
            },
            height: if height == 0 {
                FALLBACK_TERMINAL_HEIGHT as usize
            } else {
                height as usize
            },
        }
    }

    /// The whole of a terminal of this size.
    pub fn as_rect(self) -> (area: Area)
        requires
            self.width <= u16::MAX,
            self.height <= u16::MAX,
        ensures
            area == (Area {
                x: 0,
                y: 0,
                width: self.width as u16,
                height: self.height as u16,
            }),
    {
        Area { x: 0, y: 0, width: self.width as u16, height: self.height as u16 }
    }
}

/// What lies over the transcript, how far the transcript is scrolled back, the notice in the
/// corner, and the size of the terminal.
#[derive(Debug, PartialEq)]
pub struct FullscreenUiState {
    pub overlay_stack: Vec<OverlayState>,
    pub transcript_scroll: usize,
    pub status_toast: Option<StatusToast>,
    pub size: TerminalSize,
}

/// The model of `FullscreenUiState`.
#[verifier::ext_equal]
pub struct FullscreenUiStateView {
    pub overlay_stack: Seq<OverlayStateView>,
    pub transcript_scroll: usize,
    pub status_toast: Option<StatusToastView>,
    pub size: TerminalSize,
}

impl View for FullscreenUiState {
    type V = FullscreenUiStateView;

    open spec fn view(&self) -> FullscreenUiStateView {
        FullscreenUiStateView {
            overlay_stack: text::views(self.overlay_stack@),
            transcript_scroll: self.transcript_scroll,
            status_toast: text::opt_view(self.status_toast),
            size: self.size,
        }
    }
}

impl Clone for FullscreenUiState {
    fn clone(&self) -> (copy: Self)
        ensures
            copy@ == self@,
    {
        FullscreenUiState {
            overlay_stack: text::copy_all(&self.overlay_stack),
            transcript_scroll: self.transcript_scroll,
            status_toast: text::copy_maybe(&self.status_toast),
            size: self.size,
        }
    }
}

/// The client on the full screen.
#[derive(Debug, PartialEq)]
pub struct FullscreenApp {
    pub core: TranscriptApp,
    pub ui: FullscreenUiState,
    pub should_quit: bool,
    pub pending_redraw: Option<RedrawRequest>,
}

/// The model of `FullscreenApp`.
#[verifier::ext_equal]
pub struct FullscreenAppView {
    pub core: TranscriptAppView,
    pub ui: FullscreenUiStateView,
    pub should_quit: bool,
    pub pending_redraw: Option<RedrawRequest>,
}

impl View for FullscreenApp {
    type V = FullscreenAppView;

    open spec fn view(&self) -> FullscreenAppView {
        FullscreenAppView {
            core: self.core@,
            ui: self.ui@,
            should_quit: self.should_quit,
            pending_redraw: self.pending_redraw,
        }
    }
}

impl Clone for FullscreenApp {
    fn clone(&self) -> (copy: Self)
        ensures
            copy@ == self@,
    {
        FullscreenApp {
            core: self.core.clone(),
            ui: self.ui.clone(),
            should_quit: self.should_quit,
            pending_redraw: self.pending_redraw,
        }
    }
}

impl ArtifactViewerState {
    /// Shows an artifact from the top of its primary file.
    pub fn new(payload: ArtifactReadBundle) -> (made: Self)
        ensures
            made@ == viewer_of(payload@),
            payload@.files.len() > 0 ==> made@.selected_file < payload@.files.len(),
    {
        let selected_file: usize = picker::preferred_artifact_file_index(&payload);
        ArtifactViewerState { payload, selected_file, scroll: 0 }
    }
}

/// An artifact that is shown from the top of its primary file.
pub open spec fn viewer_of(payload: ArtifactReadBundleView) -> ArtifactViewerStateView {
    ArtifactViewerStateView {
        payload,
        selected_file: picker::preferred_file(
            Seq::new(payload.files.len(), |i: int| payload.files[i].path),
            payload.manifest.primary_path,
            0,
        ) as usize,
        scroll: 0,
    }
}

/// Whether an artifact that is shown shows one of its files, where it has any.
pub open spec fn shows_a_file(viewer: ArtifactViewerStateView) -> bool {
    viewer.payload.files.len() > 0 ==> viewer.selected_file < viewer.payload.files.len()
}

// -- Approvals -------------------------------------------------------------------------------------

/// The part of a question that has the keys first.
pub open spec fn first_focus(question: ApprovalQuestionView) -> QuestionFocus {
    if question.options is Some {
        QuestionFocus::Options
    } else {
        QuestionFocus::TextInput
    }
}

/// The part of a question that has the keys first.
pub fn default_question_focus(question: &ApprovalQuestion) -> (focus: QuestionFocus)
    ensures
        focus == first_focus(question@),
{
    if question.options.is_some() {
        QuestionFocus::Options
    } else {
        QuestionFocus::TextInput
    }
}

/// How an approval is asked for: as a decision that begins with approval, or, where the user is
/// asked for input, as the questions, where they could be read.
pub open spec fn overlay_for(
    approval: PendingApprovalView,
    questions: Option<Seq<ApprovalQuestionView>>,
) -> Option<ApprovalOverlayStateView> {
    if approval.kind != ApprovalKind::RequestUserInput {
        Some(ApprovalOverlayStateView::Decision { approval, choice: ApprovalChoice::Approve })
    } else {
        match questions {
            Some(questions) => Some(
                ApprovalOverlayStateView::Questionnaire {
                    approval,
                    questions,
                    current: 0,
                    option_selected: 0,
                    focus: if questions.len() > 0 {
                        first_focus(questions[0])
                    } else {
                        QuestionFocus::TextInput
                    },
                    input: Seq::empty(),
                    answers: Map::empty(),
                },
            ),
            None => None,
        }
    }
}

/// How an approval is asked for, given the questions that its payload holds, if it holds any.
pub fn build_approval_overlay(approval: &PendingApproval, questions: &Option<Vec<ApprovalQuestion>>) -> (built:
    Option<ApprovalOverlayState>)
    ensures
        text::opt_view(built) == overlay_for(approval@, text::opt_views(*questions)),
{
    if approval.kind != ApprovalKind::RequestUserInput {
        return Some(
            ApprovalOverlayState::Decision {
                approval: approval.clone(),
                choice: ApprovalChoice::Approve,
            },
        );
    }
    match questions {
        Some(questions) => {
            let focus: QuestionFocus = if questions.len() > 0 {
                assert(text::views(questions@)[0] == questions@[0]@);
                default_question_focus(&questions[0])
            } else {
                QuestionFocus::TextInput
            };
            Some(
                ApprovalOverlayState::Questionnaire {
                    approval: approval.clone(),
                    questions: text::copy_all(questions),
                    current: 0,
                    option_selected: 0,
                    focus,
                    input: String::new(),
                    answers: AnswerMap::new(),
                },
            )
        },
        None => None,
    }
}

/// The answer that stands: the option that is marked, or the words that were typed, where the
/// question takes words. None where there is no such option, or nothing was typed.
pub open spec fn standing_answer(
    question: ApprovalQuestionView,
    focus: QuestionFocus,
    option_selected: int,
    input: Seq<char>,
) -> Option<Seq<char>> {
    let typed = if text::blank(input) {
        None
    } else {
        Some(text::trim_of(input))
    };
    match question.options {
        Some(options) => if focus == QuestionFocus::Options {
            if 0 <= option_selected < options.len() {
                Some(options[option_selected].label)
            } else {
                None
            }
        } else if question.is_other {
            typed
        } else {
            None
        },
        None => typed,
    }
}

fn typed_answer(input: &str) -> (answer: Option<String>)
    ensures
        text::opt_view(answer) == if text::blank(input@) {
            None
        } else {
            Some(text::trim_of(input@))
        },
{
    if text::is_blank(input) {
        None
    } else {
        Some(text::trim(input))
    }
}

/// The answer that stands.
pub fn current_question_answer(
    question: &ApprovalQuestion,
    focus: QuestionFocus,
    option_selected: usize,
    input: &str,
) -> (answer: Option<String>)
    ensures
        text::opt_view(answer) == standing_answer(
            question@,
            focus,
            option_selected as int,
            input@,
        ),
{
    match &question.options {
        Some(options) => {
            if focus == QuestionFocus::Options {
                if option_selected < options.len() {
                    assert(text::views(options@)[option_selected as int]
                        == options@[option_selected as int]@);
                    return Some(options[option_selected].label.clone());
                }
                return None;
            }
            if question.is_other {
                return typed_answer(input);
            }
            None
        },
        None => typed_answer(input),
    }
}

/// The warning that keeps an action back, where the client is not ready for it.
pub open spec fn ready_only_warning(
    connection: ConnectionState,
    has_pending_approval: bool,
    action: Seq<char>,
) -> Option<Seq<char>> {
    if connection == ConnectionState::Ready {
        None
    } else if connection == ConnectionState::WaitingApproval && has_pending_approval {
        Some("Resolve the pending approval first with /approval."@)
    } else if connection == ConnectionState::Streaming {
        Some("Interrupt the active turn before "@ + action + "."@)
    } else {
        Some("Wait for the current turn to finish before "@ + action + "."@)
    }
}

/// The warning that keeps an action back, where the client is not ready for it.
pub fn ready_only_action_warning(
    connection: &ConnectionState,
    has_pending_approval: bool,
    action: &str,
) -> (warning: Option<String>)
    ensures
        text::opt_view(warning) == ready_only_warning(*connection, has_pending_approval, action@),
{
    if *connection == ConnectionState::Ready {
        return None;
    }
    if *connection == ConnectionState::WaitingApproval && has_pending_approval {
        return Some("Resolve the pending approval first with /approval.".to_owned());
    }
    if *connection == ConnectionState::Streaming {
        return Some(text::glue3("Interrupt the active turn before ", action, "."));
    }
    Some(text::glue3("Wait for the current turn to finish before ", action, "."))
}

// -- Notices ---------------------------------------------------------------------------------------

/// The notice that an entry of the transcript makes, if it makes one.
pub open spec fn toast_of(cell: HistoryCellModelView) -> Option<StatusToastView> {
    match cell {
        HistoryCellModelView::Status(cell) => Some(
            StatusToastView { level: ToastLevel::Info, text: cell.message },
        ),
        HistoryCellModelView::Warning(cell) => Some(
            StatusToastView { level: ToastLevel::Warning, text: cell.message },
        ),
        HistoryCellModelView::Error(cell) => Some(
            StatusToastView { level: ToastLevel::Error, text: cell.message },
        ),
        _ => None,
    }
}

/// The notice of the last entry that makes one.
pub open spec fn last_toast(history: Seq<HistoryCellModelView>) -> Option<StatusToastView>
    decreases history.len(),
{
    if history.len() == 0 {
        None
    } else if toast_of(history.last()) is Some {
        toast_of(history.last())
    } else {
        last_toast(history.drop_last())
    }
}

/// The notice of the last entry that makes one.
pub fn latest_status_toast(state: &AppState) -> (toast: Option<StatusToast>)
    ensures
        text::opt_view(toast) == last_toast(state@.transcript.history),
{
    let ghost all = state@.transcript.history;
    let mut n: usize = state.transcript.history.len();
    assert(all.take(n as int) =~= all);
    while n > 0
        invariant
            n <= state.transcript.history@.len(),
            all == text::views(state.transcript.history@),
            last_toast(all) == last_toast(all.take(n as int)),
        decreases n,
    {
        assert(all.take(n as int).last() == state.transcript.history@[n - 1]@);
        assert(all.take(n as int).drop_last() =~= all.take(n - 1));
        match &state.transcript.history[n - 1] {
            HistoryCellModel::Status(cell) => {
                return Some(StatusToast { level: ToastLevel::Info, text: cell.message.clone() });
            },
            HistoryCellModel::Warning(cell) => {
                return Some(StatusToast { level: ToastLevel::Warning, text: cell.message.clone() });
            },
            HistoryCellModel::Error(cell) => {
                return Some(StatusToast { level: ToastLevel::Error, text: cell.message.clone() });
            },
            _ => {},
        }
        n = n - 1;
    }
    None
}

/// An approval opens as what it is: as a decision with granting selected, or as the questions that it
/// asks, from the first one and with no answer given.
pub proof fn law_an_approval_is_put_as_what_it_is(
    approval: PendingApprovalView,
    questions: Option<Seq<ApprovalQuestionView>>,
)
    ensures
        approval.kind != ApprovalKind::RequestUserInput ==> (overlay_for(approval, questions)
            matches Some(ApprovalOverlayStateView::Decision { approval: asked, choice }) && asked
            == approval && choice == ApprovalChoice::Approve),
        approval.kind == ApprovalKind::RequestUserInput ==> (overlay_for(approval, questions) is None
            <==> questions is None),
        approval.kind == ApprovalKind::RequestUserInput && questions is Some ==> (overlay_for(
            approval,
            questions,
        ) matches Some(
            ApprovalOverlayStateView::Questionnaire {
                approval: asked,
                questions: put,
                current,
                option_selected,
                focus,
                input,
                answers,
            },
        ) && asked == approval && put == questions->0 && current == 0 && option_selected == 0
            && input.len() == 0 && answers.dom().is_empty() && (put.len() > 0 ==> (focus
            == QuestionFocus::Options <==> put[0].options is Some))),
{
}

/// Only a client that is ready may; any other is told what to wait for: the pending approval where the
/// client waits for one, the turn that streams, or else the end of the turn.
pub proof fn law_only_a_ready_client_may(
    connection: ConnectionState,
    pending: bool,
    action: Seq<char>,
)
    ensures
        ready_only_warning(connection, pending, action) is None <==> connection
            == ConnectionState::Ready,
        connection == ConnectionState::Streaming ==> (ready_only_warning(connection, pending, action)
            matches Some(warning) && text::begins(warning, "Interrupt the active turn before "@)
            && text::contains_text(warning, action)),
        connection == ConnectionState::WaitingApproval && pending ==> ready_only_warning(
            connection,
            pending,
            action,
        ) == Some("Resolve the pending approval first with /approval."@),
        connection != ConnectionState::Ready && connection != ConnectionState::Streaming && !(
        connection == ConnectionState::WaitingApproval && pending) ==> (ready_only_warning(
            connection,
            pending,
            action,
        ) matches Some(warning) && text::begins(
            warning,
            "Wait for the current turn to finish before "@,
        ) && text::contains_text(warning, action)),
{
    let head = "Interrupt the active turn before "@;
    let wait = "Wait for the current turn to finish before "@;
    text::lemma_contains_inside(head, action, "."@);
    text::lemma_contains_inside(wait, action, "."@);
    assert((head + action + "."@).take(head.len() as int) =~= head);
    assert((wait + action + "."@).take(wait.len() as int) =~= wait);
}

/// The notice is the last notice, warning or error of the history, word for word, and as grave as it
/// is; there is none only where the history has none.
pub proof fn law_the_notice_is_the_last_one(history: Seq<HistoryCellModelView>)
    ensures
        ({
            let says = |i: int|
                history[i] is Status || history[i] is Warning || history[i] is Error;
            &&& last_toast(history) is None <==> forall|i: int|
                0 <= i < history.len() ==> !#[trigger] says(i)
            &&& last_toast(history) matches Some(toast) ==> exists|i: int|
                0 <= i < history.len() && #[trigger] says(i) && (forall|j: int|
                    i < j < history.len() ==> !#[trigger] says(j)) && match history[i] {
                    HistoryCellModelView::Status(cell) => toast.level == ToastLevel::Info
                        && toast.text == cell.message,
                    HistoryCellModelView::Warning(cell) => toast.level == ToastLevel::Warning
                        && toast.text == cell.message,
                    HistoryCellModelView::Error(cell) => toast.level == ToastLevel::Error
                        && toast.text == cell.message,
                    _ => false,
                }
        }),
    decreases history.len(),
{
    let says = |i: int| history[i] is Status || history[i] is Warning || history[i] is Error;
    if history.len() > 0 {
        let last = history.len() - 1;
        if toast_of(history.last()) is Some {
            assert(says(last));
        } else {
            assert(!says(last));
            let rest = history.drop_last();
            law_the_notice_is_the_last_one(rest);
            let before = |i: int| rest[i] is Status || rest[i] is Warning || rest[i] is Error;
            assert forall|i: int| 0 <= i < last implies #[trigger] says(i) == before(i) by {
                assert(rest[i] == history[i]);
            }
            if last_toast(rest) is Some {
                let toast = last_toast(rest)->0;
                let i = choose|i: int|
                    0 <= i < rest.len() && #[trigger] before(i) && (forall|j: int|
                        i < j < rest.len() ==> !#[trigger] before(j)) && match rest[i] {
                        HistoryCellModelView::Status(cell) => toast.level == ToastLevel::Info
                            && toast.text == cell.message,
                        HistoryCellModelView::Warning(cell) => toast.level == ToastLevel::Warning
                            && toast.text == cell.message,
                        HistoryCellModelView::Error(cell) => toast.level == ToastLevel::Error
                            && toast.text == cell.message,
                        _ => false,
                    };
                assert(says(i));
                assert(rest[i] == history[i]);
                assert forall|j: int| i < j < history.len() implies !#[trigger] says(j) by {
                    if j < last {
                        assert(says(j) == before(j));
                    }
                }
            } else {
                assert forall|i: int| 0 <= i < history.len() implies !#[trigger] says(i) by {
                    if i < last {
                        assert(says(i) == before(i));
                    }
                }
            }
        }
    }
}

/// A screen is as large as is told, except that no side of it is nought.
pub proof fn law_a_screen_has_two_sides(width: u16, height: u16)
    ensures
        width > 0 ==> TerminalSize::new(width, height).width == width,
        height > 0 ==> TerminalSize::new(width, height).height == height,
        width == 0 ==> TerminalSize::new(width, height).width == 80,
        height == 0 ==> TerminalSize::new(width, height).height == 24,
{
}

/// Changing sides twice changes nothing, and once does.
pub proof fn law_there_are_two_sides(choice: ApprovalChoice, focus: QuestionFocus)
    ensures
        choice.toggle() != choice && choice.toggle().toggle() == choice,
        focus.toggle() != focus && focus.toggle().toggle() == focus,
{
}

} // verus!
