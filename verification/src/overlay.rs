//! What can take the place of the composer in the inline client: the help, lists to pick from, and
//! approvals.
use vstd::prelude::*;

use crate::artifacts::{ArtifactManifest, ArtifactManifestView};
use crate::completion;
use crate::cursor;
use crate::draw;
use crate::draw::{Area, DrawItem, DrawItemView, Rows};
use crate::edit;
use crate::fullscreen::approval;
use crate::ids::{ArtifactId, LocalThreadId};
use crate::keys::{KeyCode, KeyPress};
use crate::labels;
use crate::picker;
use crate::protocol::{
    AnswerMap, ApprovalAnswerView, ApprovalDecision, ApprovalQuestion, ApprovalQuestionOption,
    ApprovalQuestionOptionView, ApprovalQuestionView, ApprovalRespondParams,
    ApprovalRespondParamsView,
};
use crate::renderer;
use crate::skills::{SkillDescriptor, SkillDescriptorView};
use crate::styled;
use crate::styled::{SpanStyle, StyledLine, StyledLineView, StyledSpan, Tint};
use crate::text;
use crate::ui::{
    ApprovalKind, PendingApproval, PendingApprovalView, ThreadListItem, ThreadListItemView,
};

verus! {

broadcast use text::group_views;

/// What takes the place of the composer.
#[derive(Debug, PartialEq)]
pub enum Overlay {
    Help,
    ApprovalYesNo { approval: PendingApproval, selected_yes: bool },
    ApprovalQuestionnaire {
        approval: PendingApproval,
        questions: Vec<ApprovalQuestion>,
        current_index: usize,
        answers: AnswerMap,
        input_buffer: String,
        input_cursor: usize,
        option_cursor: usize,
    },
    SkillPicker { skills: Vec<SkillDescriptor>, query: String, cursor: usize },
    ThreadPicker { threads: Vec<ThreadListItem>, query: String, cursor: usize },
    ArtifactPicker { artifacts: Vec<ArtifactManifest>, query: String, cursor: usize },
}

/// The model of `Overlay`.
#[verifier::ext_equal]
pub enum OverlayView {
    Help,
    ApprovalYesNo { approval: PendingApprovalView, selected_yes: bool },
    ApprovalQuestionnaire {
        approval: PendingApprovalView,
        questions: Seq<ApprovalQuestionView>,
        current_index: usize,
        answers: Map<Seq<char>, ApprovalAnswerView>,
        input_buffer: Seq<char>,
        input_cursor: usize,
        option_cursor: usize,
    },
    SkillPicker { skills: Seq<SkillDescriptorView>, query: Seq<char>, cursor: usize },
    ThreadPicker { threads: Seq<ThreadListItemView>, query: Seq<char>, cursor: usize },
    ArtifactPicker { artifacts: Seq<ArtifactManifestView>, query: Seq<char>, cursor: usize },
}

impl View for Overlay {
    type V = OverlayView;

    open spec fn view(&self) -> OverlayView {
        match *self {
            Overlay::Help => OverlayView::Help,
            Overlay::ApprovalYesNo { approval, selected_yes } => OverlayView::ApprovalYesNo {
                approval: approval@,
                selected_yes,
            },
            Overlay::ApprovalQuestionnaire {
                approval,
                questions,
                current_index,
                answers,
                input_buffer,
                input_cursor,
                option_cursor,
            } => OverlayView::ApprovalQuestionnaire {
                approval: approval@,
                questions: text::views(questions@),
                current_index,
                answers: answers@,
                input_buffer: input_buffer@,
                input_cursor,
                option_cursor,
            },
            Overlay::SkillPicker { skills, query, cursor } => OverlayView::SkillPicker {
                skills: text::views(skills@),
                query: query@,
                cursor,
            },
            Overlay::ThreadPicker { threads, query, cursor } => OverlayView::ThreadPicker {
                threads: text::views(threads@),
                query: query@,
                cursor,
            },
            Overlay::ArtifactPicker { artifacts, query, cursor } => OverlayView::ArtifactPicker {
                artifacts: text::views(artifacts@),
                query: query@,
                cursor,
            },
        }
    }
}

impl Clone for Overlay {
    fn clone(&self) -> (copy: Self)
        ensures
            copy@ == self@,
    {
        match self {
            Overlay::Help => Overlay::Help,
            Overlay::ApprovalYesNo { approval, selected_yes } => Overlay::ApprovalYesNo {
                approval: approval.clone(),
                selected_yes: *selected_yes,
            },
            Overlay::ApprovalQuestionnaire {
                approval,
                questions,
                current_index,
                answers,
                input_buffer,
                input_cursor,
                option_cursor,
            } => Overlay::ApprovalQuestionnaire {
                approval: approval.clone(),
                questions: text::copy_all(questions),
                current_index: *current_index,
                answers: answers.clone(),
                input_buffer: input_buffer.clone(),
                input_cursor: *input_cursor,
                option_cursor: *option_cursor,
            },
            Overlay::SkillPicker { skills, query, cursor } => Overlay::SkillPicker {
                skills: text::copy_all(skills),
                query: query.clone(),
                cursor: *cursor,
            },
            Overlay::ThreadPicker { threads, query, cursor } => Overlay::ThreadPicker {
                threads: text::copy_all(threads),
                query: query.clone(),
                cursor: *cursor,
            },
            Overlay::ArtifactPicker { artifacts, query, cursor } => Overlay::ArtifactPicker {
                artifacts: text::copy_all(artifacts),
                query: query.clone(),
                cursor: *cursor,
            },
        }
    }
}

/// What a key comes to.
#[derive(Debug, PartialEq)]
pub enum OverlayOutcome {
    Keep,
    Dismiss,
    SubmitApproval(ApprovalRespondParams),
    CancelApproval,
    SelectSkill(SkillDescriptor),
    ResumeThread(LocalThreadId),
    OpenArtifact(ArtifactId),
}

/// The model of `OverlayOutcome`.
#[verifier::ext_equal]
pub enum OverlayOutcomeView {
    Keep,
    Dismiss,
    SubmitApproval(ApprovalRespondParamsView),
    CancelApproval,
    SelectSkill(SkillDescriptorView),
    ResumeThread(Seq<char>),
    OpenArtifact(Seq<char>),
}

impl View for OverlayOutcome {
    type V = OverlayOutcomeView;

    open spec fn view(&self) -> OverlayOutcomeView {
        match *self {
            OverlayOutcome::Keep => OverlayOutcomeView::Keep,
            OverlayOutcome::Dismiss => OverlayOutcomeView::Dismiss,
            OverlayOutcome::SubmitApproval(inner) => OverlayOutcomeView::SubmitApproval(inner@),
            OverlayOutcome::CancelApproval => OverlayOutcomeView::CancelApproval,
            OverlayOutcome::SelectSkill(inner) => OverlayOutcomeView::SelectSkill(inner@),
            OverlayOutcome::ResumeThread(inner) => OverlayOutcomeView::ResumeThread(inner@),
            OverlayOutcome::OpenArtifact(inner) => OverlayOutcomeView::OpenArtifact(inner@),
        }
    }
}

impl Clone for OverlayOutcome {
    fn clone(&self) -> (copy: Self)
        ensures
            copy@ == self@,
    {
        match self {
            OverlayOutcome::Keep => OverlayOutcome::Keep,
            OverlayOutcome::Dismiss => OverlayOutcome::Dismiss,
            OverlayOutcome::SubmitApproval(inner) => OverlayOutcome::SubmitApproval(inner.clone()),
            OverlayOutcome::CancelApproval => OverlayOutcome::CancelApproval,
            OverlayOutcome::SelectSkill(inner) => OverlayOutcome::SelectSkill(inner.clone()),
            OverlayOutcome::ResumeThread(inner) => OverlayOutcome::ResumeThread(inner.clone()),
            OverlayOutcome::OpenArtifact(inner) => OverlayOutcome::OpenArtifact(inner.clone()),
        }
    }
}

/// The title.
pub open spec fn title_of(overlay: OverlayView) -> Seq<char> {
    match overlay {
        OverlayView::Help => "help"@,
        OverlayView::ApprovalYesNo { .. } => "approval requested"@,
        OverlayView::ApprovalQuestionnaire { .. } => "approval requested"@,
        OverlayView::SkillPicker { .. } => "skills"@,
        OverlayView::ThreadPicker { .. } => "threads"@,
        OverlayView::ArtifactPicker { .. } => "artifacts"@,
    }
}

/// How an approval is asked for, given the questions that its payload holds, if they could be read:
/// as questions, where the user is asked for input and there are any, else as yes or no. Yes is
/// chosen first, but for input that asks nothing.
pub open spec fn asked_as(
    approval: PendingApprovalView,
    questions: Option<Seq<ApprovalQuestionView>>,
) -> OverlayView {
    if approval.kind != ApprovalKind::RequestUserInput {
        OverlayView::ApprovalYesNo { approval, selected_yes: true }
    } else if questions is Some && questions->0.len() > 0 {
        OverlayView::ApprovalQuestionnaire {
            approval,
            questions: questions->0,
            current_index: 0,
            answers: Map::empty(),
            input_buffer: Seq::empty(),
            input_cursor: 0,
            option_cursor: 0,
        }
    } else {
        OverlayView::ApprovalYesNo { approval, selected_yes: false }
    }
}

/// Whether the cursor in what is typed is on a boundary.
pub open spec fn well_formed(overlay: OverlayView) -> bool {
    overlay matches OverlayView::ApprovalQuestionnaire { input_buffer, input_cursor, .. }
        ==> cursor::boundary(input_buffer, input_cursor as int)
}

impl Overlay {
    /// The title.
    pub fn title(&self) -> (title: &'static str)
        ensures
            title@ == title_of(self@),
    {
        match self {
            Overlay::Help => "help",
            Overlay::ApprovalYesNo { .. } => "approval requested",
            Overlay::ApprovalQuestionnaire { .. } => "approval requested",
            Overlay::SkillPicker { .. } => "skills",
            Overlay::ThreadPicker { .. } => "threads",
            Overlay::ArtifactPicker { .. } => "artifacts",
        }
    }

    /// How an approval is asked for, given the questions that its payload holds, if they could be
    /// read.
    pub fn for_pending_approval(
        approval: PendingApproval,
        questions: Option<Vec<ApprovalQuestion>>,
    ) -> (overlay: Self)
        ensures
            overlay@ == asked_as(approval@, text::opt_views(questions)),
            well_formed(overlay@),
    {
        if approval.kind != ApprovalKind::RequestUserInput {
            return Overlay::ApprovalYesNo { approval, selected_yes: true };
        }
        if let Some(questions) = questions {
            if questions.len() > 0 {
                let input_buffer: String = String::new();
                proof {
                    assert(input_buffer@ =~= Seq::<char>::empty());
                    cursor::lemma_ends(input_buffer@);
                }
                return Overlay::ApprovalQuestionnaire {
                    approval,
                    questions,
                    current_index: 0,
                    answers: AnswerMap::new(),
                    input_buffer,
                    input_cursor: 0,
                    option_cursor: 0,
                };
            }
        }
        Overlay::ApprovalYesNo { approval, selected_yes: false }
    }
}

// -- Keys ------------------------------------------------------------------------------------------

/// The answer yes or no.
pub open spec fn yes_or_no(approval: PendingApprovalView, yes: bool) -> OverlayOutcomeView {
    OverlayOutcomeView::SubmitApproval(
        ApprovalRespondParamsView {
            approval_id: approval.id,
            decision: if yes {
                ApprovalDecision::Approve
            } else {
                ApprovalDecision::Reject
            },
            answers: None,
        },
    )
}

/// The answer yes or no.
pub fn submit_yes_no(approval: &PendingApproval, yes: bool) -> (outcome: OverlayOutcome)
    ensures
        outcome@ == yes_or_no(approval@, yes),
{
    let decision: ApprovalDecision = if yes {
        ApprovalDecision::Approve
    } else {
        ApprovalDecision::Reject
    };
    OverlayOutcome::SubmitApproval(
        ApprovalRespondParams { approval_id: approval.id.clone(), decision, answers: None },
    )
}

/// The query and the selection of a list after a key. `count` is the number of rows.
pub open spec fn list_after(query: Seq<char>, at: usize, key: KeyPress, count: int) -> (
    Seq<char>,
    usize,
) {
    match key.code {
        KeyCode::Up => (
            query,
            if at > 0 {
                (at - 1) as usize
            } else {
                at
            },
        ),
        KeyCode::Down => (
            query,
            if at + 1 < count {
                (at + 1) as usize
            } else {
                at
            },
        ),
        KeyCode::Home => (query, 0),
        KeyCode::End => (
            query,
            if count > 0 {
                (count - 1) as usize
            } else {
                at
            },
        ),
        KeyCode::Backspace => if query.len() > 0 {
            (query.drop_last(), 0)
        } else {
            (query, at)
        },
        KeyCode::Char(ch) => if key.control {
            (query, at)
        } else {
            (query.push(ch), 0)
        },
        _ => (query, at),
    }
}

/// Gives a key to a list. The answer is whether the key picks the selected row.
fn handle_picker_key(query: &mut String, at: &mut usize, key: KeyPress, count: usize) -> (picks: bool)
    ensures
        (final(query)@, *final(at)) == list_after(old(query)@, *old(at), key, count as int),
        picks == (key.code == KeyCode::Enter),
{
    match key.code {
        KeyCode::Up => {
            if *at > 0 {
                *at = *at - 1;
            }
        },
        KeyCode::Down => {
            if count > 0 && *at < count - 1 {
                *at = *at + 1;
            }
        },
        KeyCode::Home => {
            *at = 0;
        },
        KeyCode::End => {
            if count > 0 {
                *at = count - 1;
            }
        },
        KeyCode::Enter => {
            return true;
        },
        KeyCode::Backspace => {
            if !text::is_empty(query.as_str()) {
                text::drop_last_char(query);
                *at = 0;
            }
        },
        KeyCode::Char(ch) => {
            if !key.control {
                query.push(ch);
                *at = 0;
            }
        },
        _ => {},
    }
    false
}

/// The answer that stands in a questionnaire: what was typed, else the marked option.
pub open spec fn chosen_answer(
    question: ApprovalQuestionView,
    input: Seq<char>,
    option_cursor: int,
) -> Option<Seq<char>> {
    if !text::blank(input) {
        Some(text::trim_of(input))
    } else {
        match question.options {
            Some(options) => if 0 <= option_cursor < options.len() {
                Some(options[option_cursor].label)
            } else {
                None
            },
            None => None,
        }
    }
}

fn chosen(question: &ApprovalQuestion, input: &str, option_cursor: usize) -> (answer: Option<String>)
    ensures
        text::opt_view(answer) == chosen_answer(question@, input@, option_cursor as int),
{
    if !text::is_blank(input) {
        return Some(text::trim(input));
    }
    match &question.options {
        Some(options) => {
            if option_cursor < options.len() {
                assert(text::views(options@)[option_cursor as int]
                    == options@[option_cursor as int]@);
                Some(options[option_cursor].label.clone())
            } else {
                None
            }
        },
        None => None,
    }
}

/// The number of options of a question.
pub open spec fn option_count(question: ApprovalQuestionView) -> int {
    match question.options {
        Some(options) => options.len() as int,
        None => 0,
    }
}

/// The marked option after a key.
pub open spec fn option_marked(question: ApprovalQuestionView, at: usize, key: KeyPress) -> usize {
    match key.code {
        KeyCode::Up => if question.options is Some && at > 0 {
            (at - 1) as usize
        } else {
            at
        },
        KeyCode::Down => if question.options is Some && at + 1 < option_count(question) {
            (at + 1) as usize
        } else {
            at
        },
        _ => at,
    }
}

/// What is typed, and the cursor in it, after a key.
pub open spec fn input_after(input: Seq<char>, at: usize, key: KeyPress) -> (Seq<char>, usize) {
    match key.code {
        KeyCode::Backspace => if input.len() > 0 {
            let from = edit::before(input, at as int);
            (
                edit::cut(
                    input,
                    cursor::chars_before(input, from),
                    cursor::chars_before(input, at as int),
                ),
                from as usize,
            )
        } else {
            (input, at)
        },
        KeyCode::Char(ch) => if key.control {
            (input, at)
        } else {
            (
                edit::put_in(input, cursor::chars_before(input, at as int), seq![ch]),
                (at + cursor::char_width(ch)) as usize,
            )
        },
        _ => (input, at),
    }
}

/// What takes the place of the composer, after a key.
pub open spec fn overlay_after(overlay: OverlayView, key: KeyPress) -> OverlayView {
    if key.code == KeyCode::Esc {
        overlay
    } else {
        match overlay {
            OverlayView::Help => overlay,
            OverlayView::ApprovalYesNo { approval, selected_yes } => OverlayView::ApprovalYesNo {
                approval,
                selected_yes: match key.code {
                    KeyCode::Left | KeyCode::Right | KeyCode::Tab => !selected_yes,
                    KeyCode::Char(ch) => if ch == 'y' || ch == 'Y' {
                        true
                    } else if ch == 'n' || ch == 'N' {
                        false
                    } else {
                        selected_yes
                    },
                    _ => selected_yes,
                },
            },
            OverlayView::ApprovalQuestionnaire {
                approval,
                questions,
                current_index,
                answers,
                input_buffer,
                input_cursor,
                option_cursor,
            } => if current_index >= questions.len() {
                overlay
            } else {
                let question = questions[current_index as int];
                if key.code == KeyCode::Enter {
                    match chosen_answer(question, input_buffer, option_cursor as int) {
                        Some(words) => if current_index + 1 < questions.len() {
                            OverlayView::ApprovalQuestionnaire {
                                approval,
                                questions,
                                current_index: (current_index + 1) as usize,
                                answers: answers.insert(
                                    question.id,
                                    ApprovalAnswerView { answers: seq![words] },
                                ),
                                input_buffer: Seq::empty(),
                                input_cursor: 0,
                                option_cursor: 0,
                            }
                        } else {
                            OverlayView::ApprovalQuestionnaire {
                                approval,
                                questions,
                                current_index,
                                answers: Map::empty(),
                                input_buffer: Seq::empty(),
                                input_cursor: 0,
                                option_cursor: 0,
                            }
                        },
                        None => overlay,
                    }
                } else {
                    let typed = input_after(input_buffer, input_cursor, key);
                    OverlayView::ApprovalQuestionnaire {
                        approval,
                        questions,
                        current_index,
                        answers,
                        input_buffer: typed.0,
                        input_cursor: typed.1,
                        option_cursor: option_marked(question, option_cursor, key),
                    }
                }
            },
            OverlayView::SkillPicker { skills, query, cursor } => {
                let after = list_after(
                    query,
                    cursor,
                    key,
                    picker::skills_kept(skills, Some(query)).len() as int,
                );
                OverlayView::SkillPicker { skills, query: after.0, cursor: after.1 }
            },
            OverlayView::ThreadPicker { threads, query, cursor } => {
                let after = list_after(
                    query,
                    cursor,
                    key,
                    picker::threads_kept(threads, Some(query)).len() as int,
                );
                OverlayView::ThreadPicker { threads, query: after.0, cursor: after.1 }
            },
            OverlayView::ArtifactPicker { artifacts, query, cursor } => {
                let after = list_after(
                    query,
                    cursor,
                    key,
                    picker::artifacts_kept(artifacts, Some(query)).len() as int,
                );
                OverlayView::ArtifactPicker { artifacts, query: after.0, cursor: after.1 }
            },
        }
    }
}

/// What a key comes to.
pub open spec fn outcome_of(overlay: OverlayView, key: KeyPress) -> OverlayOutcomeView {
    if key.code == KeyCode::Esc {
        if overlay is ApprovalYesNo || overlay is ApprovalQuestionnaire {
            OverlayOutcomeView::CancelApproval
        } else {
            OverlayOutcomeView::Dismiss
        }
    } else {
        match overlay {
            OverlayView::Help => match key.code {
                KeyCode::Enter => OverlayOutcomeView::Dismiss,
                KeyCode::Char(ch) => if ch == 'q' || ch == 'Q' {
                    OverlayOutcomeView::Dismiss
                } else {
                    OverlayOutcomeView::Keep
                },
                _ => OverlayOutcomeView::Keep,
            },
            OverlayView::ApprovalYesNo { approval, selected_yes } => match key.code {
                KeyCode::Char(ch) => if ch == 'y' || ch == 'Y' {
                    yes_or_no(approval, true)
                } else if ch == 'n' || ch == 'N' {
                    yes_or_no(approval, false)
                } else {
                    OverlayOutcomeView::Keep
                },
                KeyCode::Enter => yes_or_no(approval, selected_yes),
                _ => OverlayOutcomeView::Keep,
            },
            OverlayView::ApprovalQuestionnaire {
                approval,
                questions,
                current_index,
                answers,
                input_buffer,
                option_cursor,
                ..
            } => if current_index >= questions.len() || key.code != KeyCode::Enter {
                OverlayOutcomeView::Keep
            } else {
                let question = questions[current_index as int];
                match chosen_answer(question, input_buffer, option_cursor as int) {
                    Some(words) => if current_index + 1 < questions.len() {
                        OverlayOutcomeView::Keep
                    } else {
                        OverlayOutcomeView::SubmitApproval(
                            approval::answered(
                                approval,
                                answers.insert(
                                    question.id,
                                    ApprovalAnswerView { answers: seq![words] },
                                ),
                            ),
                        )
                    },
                    None => OverlayOutcomeView::Keep,
                }
            },
            OverlayView::SkillPicker { skills, query, cursor } => {
                let shown = picker::skills_kept(skills, Some(query));
                if key.code == KeyCode::Enter && cursor < shown.len() {
                    OverlayOutcomeView::SelectSkill(shown[cursor as int])
                } else {
                    OverlayOutcomeView::Keep
                }
            },
            OverlayView::ThreadPicker { threads, query, cursor } => {
                let shown = picker::threads_kept(threads, Some(query));
                if key.code == KeyCode::Enter && cursor < shown.len() {
                    OverlayOutcomeView::ResumeThread(shown[cursor as int].thread.id)
                } else {
                    OverlayOutcomeView::Keep
                }
            },
            OverlayView::ArtifactPicker { artifacts, query, cursor } => {
                let shown = picker::artifacts_kept(artifacts, Some(query));
                if key.code == KeyCode::Enter && cursor < shown.len() {
                    OverlayOutcomeView::OpenArtifact(shown[cursor as int].id)
                } else {
                    OverlayOutcomeView::Keep
                }
            },
        }
    }
}

fn type_key(input: &mut String, at: &mut usize, key: KeyPress)
    requires
        cursor::boundary(old(input)@, *old(at) as int),
    ensures
        (final(input)@, *final(at)) == input_after(old(input)@, *old(at), key),
        cursor::boundary(final(input)@, *final(at) as int),
{
    proof {
        cursor::lemma_boundary(input@, *at as int);
    }
    match key.code {
        KeyCode::Backspace => {
            if !text::is_empty(input.as_str()) {
                let from: usize = edit::prev_char_boundary(input.as_str(), *at);
                proof {
                    edit::lemma_cut(input@, from as int, *at as int);
                }
                edit::cut_out(input, from, *at);
                *at = from;
            }
        },
        KeyCode::Char(ch) => {
            if !key.control {
                let mut one: String = String::new();
                one.push(ch);
                assert(one@ =~= seq![ch]);
                proof {
                    cursor::lemma_encode_one(ch);
                    cursor::lemma_char_width(ch);
                    edit::lemma_put_in(input@, *at as int, seq![ch]);
                }
                edit::insert_at(input, *at, one.as_str());
                *at = *at + cursor::width_of(ch);
            }
        },
        _ => {},
    }
}

fn mark_option(question: &ApprovalQuestion, at: usize, key: KeyPress) -> (marked: usize)
    ensures
        marked == option_marked(question@, at, key),
{
    let count: usize = match &question.options {
        Some(options) => options.len(),
        None => 0,
    };
    match key.code {
        KeyCode::Up => {
            if question.options.is_some() && at > 0 {
                at - 1
            } else {
                at
            }
        },
        KeyCode::Down => {
            if question.options.is_some() && count > 0 && at < count - 1 {
                at + 1
            } else {
                at
            }
        },
        _ => at,
    }
}

/// Gives a key to what takes the place of the composer.
pub fn handle_key(overlay: &mut Overlay, key: KeyPress) -> (outcome: OverlayOutcome)
    requires
        well_formed(old(overlay)@),
    ensures
        final(overlay)@ == overlay_after(old(overlay)@, key),
        outcome@ == outcome_of(old(overlay)@, key),
        well_formed(final(overlay)@),
{
    if key.code == KeyCode::Esc {
        return match overlay {
            Overlay::ApprovalYesNo { .. } => OverlayOutcome::CancelApproval,
            Overlay::ApprovalQuestionnaire { .. } => OverlayOutcome::CancelApproval,
            _ => OverlayOutcome::Dismiss,
        };
    }
    match overlay {
        Overlay::Help => {
            match key.code {
                KeyCode::Enter => OverlayOutcome::Dismiss,
                KeyCode::Char(ch) => {
                    if ch == 'q' || ch == 'Q' {
                        OverlayOutcome::Dismiss
                    } else {
                        OverlayOutcome::Keep
                    }
                },
                _ => OverlayOutcome::Keep,
            }
        },
        Overlay::ApprovalYesNo { approval, selected_yes } => {
            match key.code {
                KeyCode::Left | KeyCode::Right | KeyCode::Tab => {
                    *selected_yes = !*selected_yes;
                    OverlayOutcome::Keep
                },
                KeyCode::Char(ch) => {
                    if ch == 'y' || ch == 'Y' {
                        *selected_yes = true;
                        submit_yes_no(approval, true)
                    } else if ch == 'n' || ch == 'N' {
                        *selected_yes = false;
                        submit_yes_no(approval, false)
                    } else {
                        OverlayOutcome::Keep
                    }
                },
                KeyCode::Enter => submit_yes_no(approval, *selected_yes),
                _ => OverlayOutcome::Keep,
            }
        },
        Overlay::ApprovalQuestionnaire {
            approval,
            questions,
            current_index,
            answers,
            input_buffer,
            input_cursor,
            option_cursor,
        } => {
            if *current_index >= questions.len() {
                return OverlayOutcome::Keep;
            }
            let question: &ApprovalQuestion = &questions[*current_index];
            assert(text::views(questions@)[*current_index as int] == question@);
            if key.code != KeyCode::Enter {
                *option_cursor = mark_option(question, *option_cursor, key);
                type_key(input_buffer, input_cursor, key);
                return OverlayOutcome::Keep;
            }
            match chosen(question, input_buffer.as_str(), *option_cursor) {
                Some(words) => {
                    answers.insert(question.id.clone(), approval::single_answer(words));
                    *input_buffer = String::new();
                    *input_cursor = 0;
                    *option_cursor = 0;
                    proof {
                        assert(input_buffer@ =~= Seq::<char>::empty());
                        cursor::lemma_ends(input_buffer@);
                    }
                    if *current_index < questions.len() - 1 {
                        *current_index = *current_index + 1;
                        OverlayOutcome::Keep
                    } else {
                        let given: AnswerMap = answers.clone();
                        *answers = AnswerMap::new();
                        OverlayOutcome::SubmitApproval(
                            ApprovalRespondParams {
                                approval_id: approval.id.clone(),
                                decision: ApprovalDecision::Approve,
                                answers: Some(given),
                            },
                        )
                    }
                },
                None => OverlayOutcome::Keep,
            }
        },
        Overlay::SkillPicker { skills, query, cursor } => {
            let shown = picker::filter_skills(skills.as_slice(), Some(query.as_str()));
            let count: usize = shown.len();
            let picked: Option<SkillDescriptor> = if *cursor < count {
                assert(text::views(shown@)[*cursor as int] == shown@[*cursor as int]@);
                Some(shown[*cursor].clone())
            } else {
                None
            };
            assert(text::views(shown@).len() == count);
            if handle_picker_key(query, cursor, key, count) {
                if let Some(skill) = picked {
                    return OverlayOutcome::SelectSkill(skill);
                }
            }
            OverlayOutcome::Keep
        },
        Overlay::ThreadPicker { threads, query, cursor } => {
            let shown = picker::filter_threads(threads.as_slice(), Some(query.as_str()));
            let count: usize = shown.len();
            let picked: Option<LocalThreadId> = if *cursor < count {
                assert(text::views(shown@)[*cursor as int] == shown@[*cursor as int]@);
                Some(shown[*cursor].thread.id.clone())
            } else {
                None
            };
            assert(text::views(shown@).len() == count);
            if handle_picker_key(query, cursor, key, count) {
                if let Some(id) = picked {
                    return OverlayOutcome::ResumeThread(id);
                }
            }
            OverlayOutcome::Keep
        },
        Overlay::ArtifactPicker { artifacts, query, cursor } => {
            let shown = picker::filter_artifacts(artifacts.as_slice(), Some(query.as_str()));
            let count: usize = shown.len();
            let picked: Option<ArtifactId> = if *cursor < count {
                assert(text::views(shown@)[*cursor as int] == shown@[*cursor as int]@);
                Some(shown[*cursor].id.clone())
            } else {
                None
            };
            assert(text::views(shown@).len() == count);
            if handle_picker_key(query, cursor, key, count) {
                if let Some(id) = picked {
                    return OverlayOutcome::OpenArtifact(id);
                }
            }
            OverlayOutcome::Keep
        },
    }
}

/// Whatever is typed into it, what goes out of an approval answers that one.
pub proof fn law_an_answer_names_its_approval(approval: PendingApprovalView, overlay: OverlayView, key: KeyPress)
    requires
        overlay matches OverlayView::ApprovalYesNo { approval: asked, .. } ==> asked == approval,
        overlay matches OverlayView::ApprovalQuestionnaire { approval: asked, .. } ==> asked == approval,
    ensures
        outcome_of(overlay, key) matches OverlayOutcomeView::SubmitApproval(params)
            ==> params.approval_id == approval.id,
{
}

/// Escape leaves everything as it is, and closes: an approval is put off, not answered.
pub proof fn law_escape_answers_nothing(overlay: OverlayView, key: KeyPress)
    requires
        key.code == KeyCode::Esc,
    ensures
        overlay_after(overlay, key) == overlay,
        outcome_of(overlay, key) == OverlayOutcomeView::CancelApproval || outcome_of(overlay, key)
            == OverlayOutcomeView::Dismiss,
{
}

// -- How it looks ----------------------------------------------------------------------------------

/// A text with spaces behind it up to a number of characters.
pub open spec fn padded(s: Seq<char>, width: int) -> Seq<char> {
    s + Seq::new((if s.len() < width { width - s.len() } else { 0 }) as nat, |i: int| ' ')
}

fn pad(s: &str, width: usize) -> (out: String)
    ensures
        out@ == padded(s@, width as int),
{
    let mut n: usize = text::chars_of(s).len();
    let mut out: String = s.to_owned();
    let ghost gap = Seq::new(
        (if s@.len() < width {
            width - s@.len()
        } else {
            0
        }) as nat,
        |i: int| ' ',
    );
    let ghost start = n;
    assert(out@ =~= s@ + gap.take(0));
    while n < width
        invariant
            start == s@.len(),
            start <= n,
            n <= width || n == start,
            gap == Seq::new(
                (if s@.len() < width {
                    width - s@.len()
                } else {
                    0
                }) as nat,
                |i: int| ' ',
            ),
            out@ == s@ + gap.take(n - start),
        decreases width - n,
    {
        out.push(' ');
        assert(gap.take(n - start).push(' ') =~= gap.take(n + 1 - start));
        assert(out@ =~= s@ + gap.take(n + 1 - start));
        n = n + 1;
    }
    assert(gap.take(n - start) =~= gap);
    out
}

/// The lines on the commands.
pub open spec fn command_lines() -> Seq<StyledLineView> {
    let commands = completion::all_commands();
    Seq::new(
        commands.len(),
        |i: int|
            styled::raw_line_of(
                "  "@ + padded(commands[i].name, 11) + " "@ + commands[i].description,
            ),
    )
}

/// The lines of the help.
pub open spec fn help_lines_of() -> Seq<StyledLineView> {
    seq![styled::raw_line_of("Commands"@)] + command_lines() + seq![
        styled::raw_line_of(""@),
        styled::raw_line_of("Keys"@),
        styled::raw_line_of("  Enter          submit prompt"@),
        styled::raw_line_of("  Shift+Enter    newline in composer"@),
        styled::raw_line_of("  Ctrl+C         interrupt / exit"@),
        styled::raw_line_of("  Esc            close overlay"@),
        styled::raw_line_of(""@),
        styled::raw_line_of("Tips"@),
        styled::raw_line_of("  type `$skill-name …` to use a skill just for this turn"@),
    ]
}

/// The lines of the help.
pub fn help_lines() -> (lines: Vec<StyledLine>)
    ensures
        text::views(lines@) == help_lines_of(),
{
    let commands = completion::slash_commands();
    let ghost all = command_lines();
    let ghost head = seq![styled::raw_line_of("Commands"@)];
    let mut lines: Vec<StyledLine> = Vec::new();
    lines.push(styled::raw_line("Commands"));
    let mut i: usize = 0;
    assert(text::views(lines@) =~= head + all.take(0));
    while i < commands.len()
        invariant
            i <= commands@.len(),
            text::views(commands@) == completion::all_commands(),
            all == command_lines(),
            text::views(lines@) == head + all.take(i as int),
        decreases commands@.len() - i,
    {
        assert(text::views(commands@)[i as int] == commands@[i as int]@);
        let name: String = pad(commands[i].name, 11);
        let row: String = text::glue4("  ", name.as_str(), " ", commands[i].description);
        let line: StyledLine = styled::raw_line(row.as_str());
        assert(line@ == all[i as int]);
        lines.push(line);
        assert(all.take(i + 1) =~= all.take(i as int).push(line@));
        assert(text::views(lines@) =~= head + all.take(i + 1));
        i = i + 1;
    }
    assert(all.take(all.len() as int) =~= all);
    lines.push(styled::raw_line(""));
    lines.push(styled::raw_line("Keys"));
    lines.push(styled::raw_line("  Enter          submit prompt"));
    lines.push(styled::raw_line("  Shift+Enter    newline in composer"));
    lines.push(styled::raw_line("  Ctrl+C         interrupt / exit"));
    lines.push(styled::raw_line("  Esc            close overlay"));
    lines.push(styled::raw_line(""));
    lines.push(styled::raw_line("Tips"));
    lines.push(styled::raw_line("  type `$skill-name …` to use a skill just for this turn"));
    assert(text::views(lines@) =~= help_lines_of());
    lines
}

/// What an approval is asked for.
pub open spec fn kind_words(kind: ApprovalKind) -> Seq<char> {
    match kind {
        ApprovalKind::CommandExecution => "run this command"@,
        ApprovalKind::FileChange => "apply this patch"@,
        ApprovalKind::PermissionRequest => "grant this permission"@,
        ApprovalKind::RequestUserInput => "continue with this input"@,
    }
}

/// The look of a choice.
#[verifier::allow_in_spec]
pub fn choice_style(tint: Tint, chosen: bool) -> SpanStyle
    returns
        (if chosen {
            SpanStyle { bg: Some(tint), ..styled::bold_tinted(Tint::Black) }
        } else {
            styled::tinted(tint)
        }),
{
    if chosen {
        styled::on(styled::bold_tinted(Tint::Black), Some(tint))
    } else {
        styled::tinted(tint)
    }
}

/// Lines without any look.
pub open spec fn raw_lines(lines: Seq<Seq<char>>) -> Seq<StyledLineView> {
    Seq::new(lines.len(), |i: int| styled::raw_line_of(lines[i]))
}

/// The lines of an approval that is asked for as yes or no.
pub open spec fn yes_no_lines_of(approval: PendingApprovalView, selected_yes: bool) -> Seq<StyledLineView> {
    seq![
        styled::line_of(
            seq![
                styled::span_of("Approve: "@ + kind_words(approval.kind) + "?"@, styled::bold()),
            ],
        ),
        styled::raw_line_of(""@),
    ] + (if approval.title.len() > 0 {
        seq![styled::line_of(seq![styled::span_of(approval.title, styled::bold())])]
    } else {
        Seq::empty()
    }) + raw_lines(text::lines_of(approval.description)) + seq![
        styled::raw_line_of(""@),
        styled::line_of(
            seq![
                styled::span_of(" approve "@, choice_style(Tint::Green, selected_yes)),
                styled::span_of("   "@, styled::plain()),
                styled::span_of(" reject "@, choice_style(Tint::Red, !selected_yes)),
            ],
        ),
    ]
}

fn push_raw_lines(lines: &mut Vec<StyledLine>, words: &str)
    ensures
        text::views(final(lines)@) == text::views(old(lines)@) + raw_lines(text::lines_of(words@)),
{
    let parts: Vec<String> = text::lines(words);
    let ghost all = raw_lines(text::lines_of(words@));
    let ghost before = text::views(lines@);
    let mut i: usize = 0;
    assert(before =~= before + all.take(0));
    while i < parts.len()
        invariant
            i <= parts@.len(),
            text::views(parts@) == text::lines_of(words@),
            all == raw_lines(text::lines_of(words@)),
            text::views(lines@) == before + all.take(i as int),
        decreases parts@.len() - i,
    {
        assert(text::views(parts@)[i as int] == parts@[i as int]@);
        let line: StyledLine = styled::raw_line(parts[i].as_str());
        assert(line@ == all[i as int]);
        lines.push(line);
        assert(all.take(i + 1) =~= all.take(i as int).push(line@));
        assert(text::views(lines@) =~= before + all.take(i + 1));
        i = i + 1;
    }
    assert(all.take(all.len() as int) =~= all);
}

/// The lines of an approval that is asked for as yes or no.
pub fn yes_no_lines(approval: &PendingApproval, selected_yes: bool) -> (lines: Vec<StyledLine>)
    ensures
        text::views(lines@) == yes_no_lines_of(approval@, selected_yes),
{
    let kind: &str = match approval.kind {
        ApprovalKind::CommandExecution => "run this command",
        ApprovalKind::FileChange => "apply this patch",
        ApprovalKind::PermissionRequest => "grant this permission",
        ApprovalKind::RequestUserInput => "continue with this input",
    };
    let question: String = text::glue3("Approve: ", kind, "?");
    let mut lines: Vec<StyledLine> = Vec::new();
    lines.push(styled::line1(styled::span(question.as_str(), styled::bold())));
    lines.push(styled::raw_line(""));
    let ghost head = text::views(lines@);
    assert(head =~= seq![
        styled::line_of(
            seq![
                styled::span_of("Approve: "@ + kind_words(approval@.kind) + "?"@, styled::bold()),
            ],
        ),
        styled::raw_line_of(""@),
    ]);
    if !text::is_empty(approval.title.as_str()) {
        lines.push(styled::line1(styled::span(approval.title.as_str(), styled::bold())));
        assert(text::views(lines@) =~= head + seq![
            styled::line_of(seq![styled::span_of(approval@.title, styled::bold())]),
        ]);
    } else {
        assert(head =~= head + Seq::<StyledLineView>::empty());
    }
    push_raw_lines(&mut lines, approval.description.as_str());
    let ghost told = text::views(lines@);
    lines.push(styled::raw_line(""));
    lines.push(
        styled::line3(
            styled::span(" approve ", choice_style(Tint::Green, selected_yes)),
            styled::span("   ", styled::plain()),
            styled::span(" reject ", choice_style(Tint::Red, !selected_yes)),
        ),
    );
    assert(text::views(lines@) =~= told + seq![lines@[lines@.len() - 2]@, lines@[lines@.len() - 1]@]);
    lines
}

/// An option of a question.
pub open spec fn option_line_of(option: ApprovalQuestionOptionView, marked: bool) -> StyledLineView {
    styled::line_of(
        seq![
            styled::span_of(
                " "@ + (if marked {
                    "›"@
                } else {
                    " "@
                }) + " "@,
                if marked {
                    SpanStyle { bg: Some(Tint::Cyan), ..styled::bold_tinted(Tint::Black) }
                } else {
                    styled::plain()
                },
            ),
            styled::span_of(" "@, styled::plain()),
            styled::span_of(option.label, styled::bold()),
            styled::span_of("  "@, styled::plain()),
            styled::span_of(option.description, styled::tinted(Tint::DarkGray)),
        ],
    )
}

fn option_line(option: &ApprovalQuestionOption, marked: bool) -> (line: StyledLine)
    ensures
        line@ == option_line_of(option@, marked),
{
    let mark: &str = if marked {
        "›"
    } else {
        " "
    };
    let style: SpanStyle = if marked {
        styled::on(styled::bold_tinted(Tint::Black), Some(Tint::Cyan))
    } else {
        styled::plain()
    };
    let cell: String = text::glue3(" ", mark, " ");
    let mut line: StyledLine = styled::line3(
        styled::span(cell.as_str(), style),
        styled::span(" ", styled::plain()),
        styled::span(option.label.as_str(), styled::bold()),
    );
    line.spans.push(styled::span("  ", styled::plain()));
    line.spans.push(styled::span(option.description.as_str(), styled::tinted(Tint::DarkGray)));
    assert(line@.spans =~= option_line_of(option@, marked).spans);
    line
}

/// The options of a question, and what else can be answered.
pub open spec fn answer_lines(question: ApprovalQuestionView, option_cursor: int) -> Seq<StyledLineView> {
    match question.options {
        Some(options) => Seq::new(
            options.len(),
            |i: int| option_line_of(options[i], i == option_cursor),
        ) + (if question.is_other {
            seq![
                styled::raw_line_of(""@),
                styled::raw_line_of("or type free-form text below and press Enter"@),
            ]
        } else {
            Seq::empty()
        }),
        None => seq![
            styled::line_of(
                seq![
                    styled::span_of(
                        "type a response and press Enter"@,
                        styled::tinted(Tint::DarkGray),
                    ),
                ],
            ),
        ],
    }
}

/// The lines of a question.
pub open spec fn question_lines_of(question: ApprovalQuestionView, input: Seq<char>, option_cursor: int) -> Seq<
    StyledLineView,
> {
    seq![
        styled::line_of(
            seq![styled::span_of(question.header, styled::bold_tinted(Tint::LightCyan))],
        ),
        styled::raw_line_of(question.question),
        styled::raw_line_of(""@),
    ] + answer_lines(question, option_cursor) + seq![
        styled::raw_line_of(""@),
        styled::line_of(
            seq![
                styled::span_of("› "@, styled::bold_tinted(Tint::Cyan)),
                styled::span_of(input, styled::plain()),
                styled::span_of("│"@, styled::bold_tinted(Tint::Cyan)),
            ],
        ),
    ]
}

/// The lines of an approval that is asked for as questions.
pub open spec fn questionnaire_lines_of(
    approval: PendingApprovalView,
    questions: Seq<ApprovalQuestionView>,
    current_index: int,
    input: Seq<char>,
    option_cursor: int,
) -> Seq<StyledLineView> {
    seq![
        styled::line_of(
            seq![
                styled::span_of(approval.title, styled::bold()),
                styled::span_of("  "@, styled::plain()),
                styled::span_of(
                    "("@ + text::decimal((current_index + 1) as nat) + "/"@ + text::decimal(
                        questions.len() as nat,
                    ) + ")"@,
                    styled::tinted(Tint::DarkGray),
                ),
            ],
        ),
        styled::raw_line_of(""@),
    ] + (if current_index < questions.len() {
        question_lines_of(questions[current_index], input, option_cursor)
    } else {
        Seq::empty()
    })
}

fn push_answer_lines(lines: &mut Vec<StyledLine>, question: &ApprovalQuestion, option_cursor: usize)
    ensures
        text::views(final(lines)@) == text::views(old(lines)@) + answer_lines(
            question@,
            option_cursor as int,
        ),
{
    let ghost before = text::views(lines@);
    let ghost wanted = answer_lines(question@, option_cursor as int);
    match &question.options {
        Some(options) => {
            let ghost all = Seq::new(
                options@.len(),
                |i: int| option_line_of(text::views(options@)[i], i == option_cursor as int),
            );
            let mut i: usize = 0;
            assert(before =~= before + all.take(0));
            while i < options.len()
                invariant
                    i <= options@.len(),
                    all == Seq::new(
                        options@.len(),
                        |i: int| option_line_of(text::views(options@)[i], i == option_cursor as int),
                    ),
                    text::views(lines@) == before + all.take(i as int),
                decreases options@.len() - i,
            {
                assert(text::views(options@)[i as int] == options@[i as int]@);
                let line: StyledLine = option_line(&options[i], i == option_cursor);
                assert(line@ == all[i as int]);
                lines.push(line);
                assert(all.take(i + 1) =~= all.take(i as int).push(line@));
                assert(text::views(lines@) =~= before + all.take(i + 1));
                i = i + 1;
            }
            assert(all.take(all.len() as int) =~= all);
            if question.is_other {
                lines.push(styled::raw_line(""));
                lines.push(styled::raw_line("or type free-form text below and press Enter"));
            }
            assert(text::views(lines@) =~= before + wanted);
        },
        None => {
            lines.push(
                styled::line1(
                    styled::span("type a response and press Enter", styled::tinted(Tint::DarkGray)),
                ),
            );
            assert(text::views(lines@) =~= before + wanted);
        },
    }
}

/// The lines of an approval that is asked for as questions.
pub fn questionnaire_lines(
    approval: &PendingApproval,
    questions: &Vec<ApprovalQuestion>,
    current_index: usize,
    input: &str,
    option_cursor: usize,
) -> (lines: Vec<StyledLine>)
    requires
        current_index < usize::MAX,
    ensures
        text::views(lines@) == questionnaire_lines_of(
            approval@,
            text::views(questions@),
            current_index as int,
            input@,
            option_cursor as int,
        ),
{
    let at: String = text::number((current_index + 1) as u64);
    let of: String = text::number(questions.len() as u64);
    let progress: String = text::glue5("(", at.as_str(), "/", of.as_str(), ")");
    let mut lines: Vec<StyledLine> = Vec::new();
    lines.push(
        styled::line3(
            styled::span(approval.title.as_str(), styled::bold()),
            styled::span("  ", styled::plain()),
            styled::span(progress.as_str(), styled::tinted(Tint::DarkGray)),
        ),
    );
    lines.push(styled::raw_line(""));
    let ghost head = text::views(lines@);
    if current_index < questions.len() {
        let question: &ApprovalQuestion = &questions[current_index];
        assert(text::views(questions@)[current_index as int] == question@);
        lines.push(
            styled::line1(
                styled::span(question.header.as_str(), styled::bold_tinted(Tint::LightCyan)),
            ),
        );
        lines.push(styled::raw_line(question.question.as_str()));
        lines.push(styled::raw_line(""));
        push_answer_lines(&mut lines, question, option_cursor);
        lines.push(styled::raw_line(""));
        lines.push(
            styled::line3(
                styled::span("› ", styled::bold_tinted(Tint::Cyan)),
                styled::span(input, styled::plain()),
                styled::span("│", styled::bold_tinted(Tint::Cyan)),
            ),
        );
        assert(text::views(lines@) =~= head + question_lines_of(
            question@,
            input@,
            option_cursor as int,
        ));
    }
    assert(text::views(lines@) =~= questionnaire_lines_of(
        approval@,
        text::views(questions@),
        current_index as int,
        input@,
        option_cursor as int,
    ));
    lines
}

/// The row of a skill.
pub open spec fn skill_row(skill: SkillDescriptorView) -> StyledLineView {
    styled::raw_line_of(picker::skill_description(skill))
}

/// The row of a conversation.
pub open spec fn thread_row(item: ThreadListItemView) -> StyledLineView {
    styled::line_of(
        seq![
            styled::span_of(
                if item.selected {
                    "◎ "@
                } else {
                    "  "@
                },
                styled::plain(),
            ),
            styled::span_of(renderer::or_else(item.thread.title, "(untitled)"@), styled::bold()),
            styled::span_of("  "@, styled::plain()),
            styled::span_of(
                labels::thread_status_name_of(item.thread.status),
                styled::tinted(Tint::DarkGray),
            ),
            styled::span_of("  "@, styled::plain()),
            styled::span_of(item.thread.id, styled::tinted(Tint::DarkGray)),
        ],
    )
}

/// The row of an artifact.
pub open spec fn artifact_row(artifact: ArtifactManifestView) -> StyledLineView {
    styled::line_of(
        seq![
            styled::span_of(
                if artifact.title.len() == 0 {
                    artifact.id
                } else {
                    artifact.title
                },
                styled::bold(),
            ),
            styled::span_of("  "@, styled::plain()),
            styled::span_of(
                labels::artifact_kind_name_of(artifact.kind),
                styled::tinted(Tint::DarkGray),
            ),
        ],
    )
}

fn thread_line(item: &ThreadListItem) -> (line: StyledLine)
    ensures
        line@ == thread_row(item@),
{
    let mark: &str = if item.selected {
        "◎ "
    } else {
        "  "
    };
    let title: &str = match &item.thread.title {
        Some(title) => title.as_str(),
        None => "(untitled)",
    };
    let mut line: StyledLine = styled::line3(
        styled::span(mark, styled::plain()),
        styled::span(title, styled::bold()),
        styled::span("  ", styled::plain()),
    );
    line.spans.push(
        styled::span(
            labels::thread_status_name(item.thread.status),
            styled::tinted(Tint::DarkGray),
        ),
    );
    line.spans.push(styled::span("  ", styled::plain()));
    line.spans.push(
        styled::span(item.thread.id.text.as_str(), styled::tinted(Tint::DarkGray)),
    );
    assert(line@.spans =~= thread_row(item@).spans);
    line
}

fn artifact_line(artifact: &ArtifactManifest) -> (line: StyledLine)
    ensures
        line@ == artifact_row(artifact@),
{
    let title: &str = if text::is_empty(artifact.title.as_str()) {
        artifact.id.text.as_str()
    } else {
        artifact.title.as_str()
    };
    styled::line3(
        styled::span(title, styled::bold()),
        styled::span("  ", styled::plain()),
        styled::span(labels::artifact_kind_name(artifact.kind), styled::tinted(Tint::DarkGray)),
    )
}

/// The query and the rows of a list.
pub open spec fn list_of(overlay: OverlayView) -> Option<(Seq<char>, Seq<StyledLineView>, usize)> {
    match overlay {
        OverlayView::SkillPicker { skills, query, cursor } => {
            let shown = picker::skills_kept(skills, Some(query));
            Some((query, Seq::new(shown.len(), |i: int| skill_row(shown[i])), cursor))
        },
        OverlayView::ThreadPicker { threads, query, cursor } => {
            let shown = picker::threads_kept(threads, Some(query));
            Some((query, Seq::new(shown.len(), |i: int| thread_row(shown[i])), cursor))
        },
        OverlayView::ArtifactPicker { artifacts, query, cursor } => {
            let shown = picker::artifacts_kept(artifacts, Some(query));
            Some((query, Seq::new(shown.len(), |i: int| artifact_row(shown[i])), cursor))
        },
        _ => None,
    }
}

fn skill_rows(skills: &Vec<SkillDescriptor>, query: &str) -> (rows: Vec<StyledLine>)
    ensures
        ({
            let shown = picker::skills_kept(text::views(skills@), Some(query@));
            text::views(rows@) == Seq::new(shown.len(), |i: int| skill_row(shown[i]))
        }),
{
    let shown = picker::filter_skills(skills.as_slice(), Some(query));
    let mut rows: Vec<StyledLine> = Vec::new();
    let mut i: usize = 0;
    while i < shown.len()
        invariant
            i <= shown@.len(),
            rows@.len() == i,
            forall|j: int| 0 <= j < i ==> (#[trigger] rows@[j])@ == skill_row(shown@[j]@),
        decreases shown@.len() - i,
    {
        let label: String = picker::describe_skill(shown[i]);
        rows.push(styled::raw_line(label.as_str()));
        i = i + 1;
    }
    let ghost all = text::views(shown@);
    assert(text::views(rows@) =~= Seq::new(all.len(), |i: int| skill_row(all[i])));
    rows
}

fn thread_rows(threads: &Vec<ThreadListItem>, query: &str) -> (rows: Vec<StyledLine>)
    ensures
        ({
            let shown = picker::threads_kept(text::views(threads@), Some(query@));
            text::views(rows@) == Seq::new(shown.len(), |i: int| thread_row(shown[i]))
        }),
{
    let shown = picker::filter_threads(threads.as_slice(), Some(query));
    let mut rows: Vec<StyledLine> = Vec::new();
    let mut i: usize = 0;
    while i < shown.len()
        invariant
            i <= shown@.len(),
            rows@.len() == i,
            forall|j: int| 0 <= j < i ==> (#[trigger] rows@[j])@ == thread_row(shown@[j]@),
        decreases shown@.len() - i,
    {
        rows.push(thread_line(shown[i]));
        i = i + 1;
    }
    let ghost all = text::views(shown@);
    assert(text::views(rows@) =~= Seq::new(all.len(), |i: int| thread_row(all[i])));
    rows
}

fn artifact_rows(artifacts: &Vec<ArtifactManifest>, query: &str) -> (rows: Vec<StyledLine>)
    ensures
        ({
            let shown = picker::artifacts_kept(text::views(artifacts@), Some(query@));
            text::views(rows@) == Seq::new(shown.len(), |i: int| artifact_row(shown[i]))
        }),
{
    let shown = picker::filter_artifacts(artifacts.as_slice(), Some(query));
    let mut rows: Vec<StyledLine> = Vec::new();
    let mut i: usize = 0;
    while i < shown.len()
        invariant
            i <= shown@.len(),
            rows@.len() == i,
            forall|j: int| 0 <= j < i ==> (#[trigger] rows@[j])@ == artifact_row(shown@[j]@),
        decreases shown@.len() - i,
    {
        rows.push(artifact_line(shown[i]));
        i = i + 1;
    }
    let ghost all = text::views(shown@);
    assert(text::views(rows@) =~= Seq::new(all.len(), |i: int| artifact_row(all[i])));
    rows
}

/// A row of a list with its mark, in the look of the selected row or its own.
pub open spec fn marked_row(row: StyledLineView, selected: bool) -> StyledLineView {
    let over = completion::row_style(selected);
    styled::line_of(
        seq![
            styled::span_of(
                if selected {
                    "› "@
                } else {
                    "  "@
                },
                over,
            ),
        ] + Seq::new(
            row.spans.len(),
            |i: int| styled::span_of(row.spans[i].text, styled::patched(row.spans[i].style, over)),
        ),
    )
}

fn mark_row(row: &StyledLine, selected: bool) -> (line: StyledLine)
    ensures
        line@ == marked_row(row@, selected),
{
    let over: SpanStyle = completion::row_style(selected);
    let mark: &str = if selected {
        "› "
    } else {
        "  "
    };
    let ghost all = marked_row(row@, selected).spans;
    let mut spans: Vec<StyledSpan> = Vec::new();
    spans.push(styled::span(mark, over));
    let mut i: usize = 0;
    while i < row.spans.len()
        invariant
            i <= row.spans@.len(),
            over == completion::row_style(selected),
            all == marked_row(row@, selected).spans,
            spans@.len() == i + 1,
            forall|j: int| 0 <= j < i + 1 ==> (#[trigger] spans@[j])@ == all[j],
        decreases row.spans@.len() - i,
    {
        assert(row@.spans[i as int] == row.spans@[i as int]@);
        spans.push(
            styled::span(row.spans[i].text.as_str(), styled::patched(row.spans[i].style, over)),
        );
        i = i + 1;
    }
    let line = StyledLine { spans, style: styled::plain() };
    assert(line@.spans =~= all);
    line
}

/// The line with the query.
pub open spec fn query_line_of(query: Seq<char>) -> StyledLineView {
    styled::line_of(
        seq![
            styled::span_of("filter › "@, styled::tinted(Tint::DarkGray)),
            styled::span_of(query, styled::plain()),
            styled::span_of("│"@, styled::bold_tinted(Tint::Cyan)),
        ],
    )
}

/// The lines of a list that are in view.
pub open spec fn list_lines_of(rows: Seq<StyledLineView>, capacity: int, at: int) -> Seq<StyledLineView> {
    if rows.len() == 0 {
        seq![
            styled::line_of(
                seq![styled::span_of("no matches"@, styled::tinted(Tint::DarkGray))],
            ),
        ]
    } else {
        let range = completion::window_of(rows.len() as int, capacity, at);
        Seq::new(
            (range.1 - range.0) as nat,
            |i: int| marked_row(rows[range.0 + i], range.0 + i == at),
        )
    }
}

/// The lines of a list that are in view.
pub fn list_lines(rows: &Vec<StyledLine>, capacity: usize, at: usize) -> (lines: Vec<StyledLine>)
    ensures
        text::views(lines@) == list_lines_of(text::views(rows@), capacity as int, at as int),
{
    let mut lines: Vec<StyledLine> = Vec::new();
    let ghost all = list_lines_of(text::views(rows@), capacity as int, at as int);
    if rows.len() == 0 {
        lines.push(
            styled::line1(styled::span("no matches", styled::tinted(Tint::DarkGray))),
        );
        assert(text::views(lines@) =~= all);
        return lines;
    }
    let (start, end) = completion::visible_window(rows.len(), capacity, at);
    let mut i: usize = start;
    while i < end
        invariant
            start <= i <= end <= rows@.len(),
            rows@.len() > 0,
            (start as int, end as int) == completion::window_of(
                rows@.len() as int,
                capacity as int,
                at as int,
            ),
            all == list_lines_of(text::views(rows@), capacity as int, at as int),
            lines@.len() == i - start,
            forall|j: int| 0 <= j < i - start ==> (#[trigger] lines@[j])@ == all[j],
        decreases end - i,
    {
        assert(text::views(rows@)[i as int] == rows@[i as int]@);
        lines.push(mark_row(&rows[i], i == at));
        i = i + 1;
    }
    assert(text::views(lines@) =~= all);
    lines
}

/// The rows that a list asks for: two above it.
pub open spec fn sections_of(overlay: OverlayView) -> Seq<Rows> {
    if list_of(overlay) is Some {
        seq![Rows::Exactly(2), Rows::AtLeast(1)]
    } else {
        Seq::empty()
    }
}

/// What stands inside the frame.
pub open spec fn body_of(inner: Area, sections: Seq<Area>, overlay: OverlayView) -> Seq<DrawItemView> {
    match overlay {
        OverlayView::Help => seq![
            DrawItemView::Lines { area: inner, lines: help_lines_of(), wrap: true },
        ],
        OverlayView::ApprovalYesNo { approval, selected_yes } => seq![
            DrawItemView::Lines {
                area: inner,
                lines: yes_no_lines_of(approval, selected_yes),
                wrap: true,
            },
        ],
        OverlayView::ApprovalQuestionnaire {
            approval,
            questions,
            current_index,
            input_buffer,
            option_cursor,
            ..
        } => seq![
            DrawItemView::Lines {
                area: inner,
                lines: questionnaire_lines_of(
                    approval,
                    questions,
                    current_index as int,
                    input_buffer,
                    option_cursor as int,
                ),
                wrap: true,
            },
        ],
        _ => {
            let list = list_of(overlay)->0;
            seq![
                DrawItemView::Lines {
                    area: sections[0],
                    lines: seq![query_line_of(list.0), styled::raw_line_of(""@)],
                    wrap: false,
                },
                DrawItemView::Lines {
                    area: sections[1],
                    lines: list_lines_of(list.1, sections[1].height as int, list.2 as int),
                    wrap: false,
                },
            ]
        },
    }
}

/// What takes the place of the composer as it is drawn, given the sections inside its frame.
pub open spec fn overlay_items(area: Area, sections: Seq<Area>, overlay: OverlayView) -> Seq<
    DrawItemView,
> {
    seq![
        DrawItemView::Clear { area },
        DrawItemView::Frame {
            area,
            title: styled::line_of(
                seq![
                    styled::span_of(
                        " "@ + title_of(overlay) + " "@,
                        styled::bold_tinted(Tint::LightCyan),
                    ),
                ],
            ),
            border: Tint::DarkGray,
        },
    ] + body_of(draw::inner_of(area), sections, overlay)
}

/// Whether the number of the question, counted from one, is a number.
pub open spec fn drawable(overlay: OverlayView) -> bool {
    overlay matches OverlayView::ApprovalQuestionnaire { current_index, .. } ==> current_index
        < usize::MAX
}

fn push_list(
    items: &mut Vec<DrawItem>,
    sections: &Vec<Area>,
    query: &str,
    rows: &Vec<StyledLine>,
    at: usize,
)
    requires
        sections@.len() == 2,
    ensures
        text::views(final(items)@) == text::views(old(items)@) + seq![
            DrawItemView::Lines {
                area: sections@[0],
                lines: seq![query_line_of(query@), styled::raw_line_of(""@)],
                wrap: false,
            },
            DrawItemView::Lines {
                area: sections@[1],
                lines: list_lines_of(
                    text::views(rows@),
                    sections@[1].height as int,
                    at as int,
                ),
                wrap: false,
            },
        ],
{
    let mut top: Vec<StyledLine> = Vec::new();
    top.push(
        styled::line3(
            styled::span("filter › ", styled::tinted(Tint::DarkGray)),
            styled::span(query, styled::plain()),
            styled::span("│", styled::bold_tinted(Tint::Cyan)),
        ),
    );
    top.push(styled::raw_line(""));
    assert(text::views(top@) =~= seq![query_line_of(query@), styled::raw_line_of(""@)]);
    items.push(DrawItem::Lines { area: sections[0], lines: top, wrap: false });
    let lines: Vec<StyledLine> = list_lines(rows, sections[1].height as usize, at);
    items.push(DrawItem::Lines { area: sections[1], lines, wrap: false });
    assert(text::views(items@) =~= text::views(old(items)@) + seq![
        items@[items@.len() - 2]@,
        items@[items@.len() - 1]@,
    ]);
}

/// Draws what takes the place of the composer, given the sections inside its frame.
pub fn draw_overlay(area: Area, sections: &Vec<Area>, overlay: &Overlay) -> (items: Vec<DrawItem>)
    requires
        sections@.len() == sections_of(overlay@).len(),
        drawable(overlay@),
    ensures
        text::views(items@) == overlay_items(area, sections@, overlay@),
{
    let mut items: Vec<DrawItem> = Vec::new();
    items.push(DrawItem::Clear { area });
    let title: String = text::glue3(" ", overlay.title(), " ");
    items.push(
        DrawItem::Frame {
            area,
            title: styled::line1(
                styled::span(title.as_str(), styled::bold_tinted(Tint::LightCyan)),
            ),
            border: Tint::DarkGray,
        },
    );
    let inner: Area = draw::inner_of(area);
    match overlay {
        Overlay::Help => {
            items.push(DrawItem::Lines { area: inner, lines: help_lines(), wrap: true });
        },
        Overlay::ApprovalYesNo { approval, selected_yes } => {
            let lines: Vec<StyledLine> = yes_no_lines(approval, *selected_yes);
            items.push(DrawItem::Lines { area: inner, lines, wrap: true });
        },
        Overlay::ApprovalQuestionnaire {
            approval,
            questions,
            current_index,
            input_buffer,
            option_cursor,
            ..
        } => {
            let lines: Vec<StyledLine> = questionnaire_lines(
                approval,
                questions,
                *current_index,
                input_buffer.as_str(),
                *option_cursor,
            );
            items.push(DrawItem::Lines { area: inner, lines, wrap: true });
        },
        Overlay::SkillPicker { skills, query, cursor } => {
            let rows: Vec<StyledLine> = skill_rows(skills, query.as_str());
            push_list(&mut items, sections, query.as_str(), &rows, *cursor);
        },
        Overlay::ThreadPicker { threads, query, cursor } => {
            let rows: Vec<StyledLine> = thread_rows(threads, query.as_str());
            push_list(&mut items, sections, query.as_str(), &rows, *cursor);
        },
        Overlay::ArtifactPicker { artifacts, query, cursor } => {
            let rows: Vec<StyledLine> = artifact_rows(artifacts, query.as_str());
            push_list(&mut items, sections, query.as_str(), &rows, *cursor);
        },
    }
    assert(text::views(items@) =~= overlay_items(area, sections@, overlay@));
    items
}

/// The sections inside the frame: a list is divided from its query, which gives way where there are
/// too few rows.
pub open spec fn sections_in(inner: Area, overlay: OverlayView) -> Seq<Area> {
    if list_of(overlay) is Some {
        draw::pair_of(inner, 2, 1)
    } else {
        Seq::empty()
    }
}

/// Draws what takes the place of the composer.
pub fn render(area: Area, overlay: &Overlay) -> (items: Vec<DrawItem>)
    requires
        draw::on_screen(area),
        drawable(overlay@),
    ensures
        text::views(items@) == overlay_items(
            area,
            sections_in(draw::inner_of(area), overlay@),
            overlay@,
        ),
{
    let mut wanted: Vec<Rows> = Vec::new();
    match overlay {
        Overlay::SkillPicker { .. } | Overlay::ThreadPicker { .. } | Overlay::ArtifactPicker { .. } => {
            wanted.push(Rows::Exactly(2));
            wanted.push(Rows::AtLeast(1));
        },
        _ => {},
    }
    assert(wanted@ =~= sections_of(overlay@));
    let sections: Vec<Area> = draw::split_rows(draw::inner_of(area), &wanted);
    proof {
        if list_of(overlay@) is Some {
            draw::law_a_pair_is_split_in_one_way(draw::inner_of(area), 2, 1, sections@);
        }
        assert(sections@ =~= sections_in(draw::inner_of(area), overlay@));
    }
    draw_overlay(area, &sections, overlay)
}

// -- What the keys of an approval and of a list mean -------------------------------------------------------

/// The decision that is sent is to approve exactly where the answer is yes; it names the approval, and
/// carries no answers to questions.
pub proof fn law_yes_approves_and_no_rejects(approval: PendingApprovalView, yes: bool)
    ensures
        yes_or_no(approval, yes) matches OverlayOutcomeView::SubmitApproval(params) && (
        params.decision == ApprovalDecision::Approve <==> yes) && (params.decision
            == ApprovalDecision::Reject <==> !yes) && params.approval_id == approval.id
            && params.answers is None,
{
}

/// Whether a key says yes or no to an approval by itself.
pub open spec fn says(key: KeyPress, yes: bool) -> bool {
    match key.code {
        KeyCode::Char(ch) => if yes {
            ch == 'y' || ch == 'Y'
        } else {
            ch == 'n' || ch == 'N'
        },
        _ => false,
    }
}

/// An approval is answered by the keys for yes and no and by enter, and by no other. The answer is to
/// approve exactly where the user said yes, or pressed enter with yes selected; it is to reject exactly
/// where they said no, or pressed enter with no selected.
pub proof fn law_the_user_decides(
    approval: PendingApprovalView,
    selected_yes: bool,
    key: KeyPress,
)
    ensures
        ({
            let overlay = OverlayView::ApprovalYesNo { approval, selected_yes };
            let outcome = outcome_of(overlay, key);
            let yes = says(key, true) || (key.code == KeyCode::Enter && selected_yes);
            let no = says(key, false) || (key.code == KeyCode::Enter && !selected_yes);
            &&& outcome is SubmitApproval <==> yes || no
            &&& yes ==> (outcome matches OverlayOutcomeView::SubmitApproval(params)
                && params.decision == ApprovalDecision::Approve && params.approval_id
                == approval.id && params.answers is None)
            &&& no ==> (outcome matches OverlayOutcomeView::SubmitApproval(params)
                && params.decision == ApprovalDecision::Reject && params.approval_id == approval.id
                && params.answers is None)
            &&& key.code == KeyCode::Esc ==> outcome == OverlayOutcomeView::CancelApproval
            &&& !yes && !no && key.code != KeyCode::Esc ==> outcome == OverlayOutcomeView::Keep
        }),
{
}

/// The arrows and the tabulator change sides, and twice come back; the keys for yes and no select what
/// they say, and nothing else changes sides. The approval stays the same.
pub proof fn law_the_arrows_change_sides(
    approval: PendingApprovalView,
    selected_yes: bool,
    key: KeyPress,
)
    ensures
        ({
            let overlay = OverlayView::ApprovalYesNo { approval, selected_yes };
            let once = overlay_after(overlay, key);
            let arrow = key.code == KeyCode::Left || key.code == KeyCode::Right || key.code
                == KeyCode::Tab;
            &&& once matches OverlayView::ApprovalYesNo { approval: asked, selected_yes: now }
                && asked == approval && now == if arrow {
                !selected_yes
            } else if says(key, true) {
                true
            } else if says(key, false) {
                false
            } else {
                selected_yes
            }
            &&& arrow ==> overlay_after(once, key) == overlay
        }),
{
}

/// What is marked is what enter would send.
pub proof fn law_the_selected_side_is_marked(approval: PendingApprovalView, selected_yes: bool)
    ensures
        ({
            let line = yes_no_lines_of(approval, selected_yes).last();
            &&& line.spans.len() == 3
            &&& line.spans[0].text == " approve "@ && line.spans[2].text == " reject "@
            &&& line.spans[0].style.bg is Some <==> selected_yes
            &&& line.spans[2].style.bg is Some <==> !selected_yes
        }),
{
}

/// What is asked for is shown: what kind of thing it is, its title, and every line that describes it.
pub proof fn law_an_approval_shows_what_is_asked(
    approval: PendingApprovalView,
    selected_yes: bool,
    i: int,
)
    requires
        0 <= i < text::lines_of(approval.description).len(),
    ensures
        ({
            let lines = yes_no_lines_of(approval, selected_yes);
            let above: int = if approval.title.len() > 0 {
                3
            } else {
                2
            };
            &&& lines.len() > above + i
            &&& styled::line_text(lines[0]) == "Approve: "@ + kind_words(approval.kind) + "?"@
            &&& approval.title.len() > 0 ==> styled::line_text(lines[2]) == approval.title
            &&& styled::line_text(lines[above + i]) == text::lines_of(approval.description)[i]
        }),
{
    let lines = yes_no_lines_of(approval, selected_yes);
    let above: int = if approval.title.len() > 0 {
        3
    } else {
        2
    };
    assert(lines[above + i] == styled::raw_line_of(text::lines_of(approval.description)[i]));
    text::lemma_lines_hold_no_feed(approval.description, i);
    styled::law_a_raw_line_says_its_text(text::lines_of(approval.description)[i]);
    lemma_one_span_text(lines[0]);
    if approval.title.len() > 0 {
        lemma_one_span_text(lines[2]);
    }
}

proof fn lemma_one_span_text(line: StyledLineView)
    requires
        line.spans.len() == 1,
    ensures
        styled::line_text(line) == line.spans[0].text,
{
    reveal_with_fuel(styled::spans_text, 2);
    assert(line.spans.drop_last() =~= Seq::empty());
    assert(styled::spans_text(line.spans) =~= line.spans[0].text);
}

/// The kinds of approval are asked for in different words.
pub proof fn law_kinds_are_told_apart(kind: ApprovalKind, other: ApprovalKind)
    ensures
        kind_words(kind) == kind_words(other) ==> kind == other,
        kind_words(kind) == "run this command"@ <==> kind == ApprovalKind::CommandExecution,
        kind_words(kind) == "apply this patch"@ <==> kind == ApprovalKind::FileChange,
        kind_words(kind) == "grant this permission"@ <==> kind == ApprovalKind::PermissionRequest,
{
    reveal_strlit("run this command");
    reveal_strlit("apply this patch");
    reveal_strlit("grant this permission");
    reveal_strlit("continue with this input");
    assert("run this command"@[0] == 'r' && "apply this patch"@[0] == 'a'
        && "grant this permission"@[0] == 'g' && "continue with this input"@[0] == 'c');
}

/// An approval opens as itself: questions one by one from the first, without answers, where it asks
/// questions; else a choice of yes or no. Where an approval should ask questions and none can be read,
/// yes is not selected.
pub proof fn law_an_approval_opens_as_itself(
    approval: PendingApprovalView,
    questions: Option<Seq<ApprovalQuestionView>>,
)
    ensures
        match asked_as(approval, questions) {
            OverlayView::ApprovalYesNo { approval: asked, selected_yes } => asked == approval && (
            approval.kind != ApprovalKind::RequestUserInput || questions is None
                || questions->0.len() == 0) && (selected_yes <==> approval.kind
                != ApprovalKind::RequestUserInput),
            OverlayView::ApprovalQuestionnaire {
                approval: asked,
                questions: all,
                current_index,
                answers,
                input_buffer,
                input_cursor,
                option_cursor,
            } => asked == approval && approval.kind == ApprovalKind::RequestUserInput && questions
                == Some(all) && all.len() > 0 && current_index == 0 && answers.dom().is_empty()
                && input_buffer.len() == 0 && input_cursor == 0 && option_cursor == 0,
            _ => false,
        },
{
}

/// What answers a question is what was typed, without white space around it, and where nothing was
/// typed the option that is marked; without either there is no answer.
pub proof fn law_what_was_typed_answers(
    question: ApprovalQuestionView,
    input: Seq<char>,
    at: int,
)
    ensures
        !text::blank(input) ==> chosen_answer(question, input, at) == Some(text::trim_of(input)),
        text::blank(input) && question.options is Some && 0 <= at < question.options->0.len()
            ==> chosen_answer(question, input, at) == Some(question.options->0[at].label),
        text::blank(input) && (question.options is None || at >= question.options->0.len())
            ==> chosen_answer(question, input, at) is None,
{
}

/// Enter gives a question its answer and goes on to the next one, with nothing typed; after the last
/// question the answers are sent, all of them, and the approval with them is to go on. Without an
/// answer enter does nothing.
pub proof fn law_enter_answers_the_question(
    approval: PendingApprovalView,
    questions: Seq<ApprovalQuestionView>,
    current_index: usize,
    answers: Map<Seq<char>, ApprovalAnswerView>,
    input_buffer: Seq<char>,
    input_cursor: usize,
    option_cursor: usize,
    key: KeyPress,
)
    requires
        key.code == KeyCode::Enter,
        current_index < questions.len() <= usize::MAX,
    ensures
        ({
            let overlay = OverlayView::ApprovalQuestionnaire {
                approval,
                questions,
                current_index,
                answers,
                input_buffer,
                input_cursor,
                option_cursor,
            };
            let question = questions[current_index as int];
            let answer = chosen_answer(question, input_buffer, option_cursor as int);
            let after = overlay_after(overlay, key);
            let outcome = outcome_of(overlay, key);
            match answer {
                None => after == overlay && outcome == OverlayOutcomeView::Keep,
                Some(words) => {
                    let given = ApprovalAnswerView { answers: seq![words] };
                    if current_index + 1 < questions.len() {
                        &&& outcome == OverlayOutcomeView::Keep
                        &&& after matches OverlayView::ApprovalQuestionnaire {
                            approval: asked,
                            questions: all,
                            current_index: next,
                            answers: now,
                            input_buffer: typed,
                            option_cursor: marked,
                            ..
                        } && asked == approval && all == questions && next == current_index + 1
                            && typed.len() == 0 && marked == 0 && now.contains_key(question.id)
                            && now[question.id] == given && (forall|id: Seq<char>|
                            id != question.id ==> (now.contains_key(id) <==> answers.contains_key(
                                id,
                            )) && (answers.contains_key(id) ==> #[trigger] now[id] == answers[id]))
                    } else {
                        outcome matches OverlayOutcomeView::SubmitApproval(params)
                            && params.approval_id == approval.id && params.decision
                            == ApprovalDecision::Approve && (params.answers matches Some(now)
                            && now.contains_key(question.id) && now[question.id] == given && (
                        forall|id: Seq<char>|
                            id != question.id ==> (now.contains_key(id) <==> answers.contains_key(
                                id,
                            )) && (answers.contains_key(id) ==> #[trigger] now[id] == answers[id])))
                    }
                },
            }
        }),
{
}

/// What is typed at the end goes to the end, and is taken back from there; keys held with control type
/// nothing.
pub proof fn law_typing_goes_to_the_end(input: Seq<char>, ch: char, control: bool, key: KeyPress)
    requires
        cursor::byte_len(input) + cursor::char_width(ch) <= usize::MAX,
        key.code == KeyCode::Char(ch),
        key.control == control,
    ensures
        ({
            let end = cursor::byte_len(input) as usize;
            let after = input_after(input, end, key);
            if control {
                after == (input, end)
            } else {
                &&& after.0 == input.push(ch)
                &&& after.1 == cursor::byte_len(input.push(ch))
                &&& input_after(after.0, after.1, KeyPress { code: KeyCode::Backspace, ..key }) == (
                    input,
                    end,
                )
            }
        }),
{
    let end = cursor::byte_len(input);
    let t = input.push(ch);
    cursor::lemma_ends(input);
    cursor::lemma_ends(t);
    cursor::lemma_byte_at_step(t, input.len() as int);
    assert(t.take(input.len() as int) =~= input);
    assert(edit::put_in(input, input.len() as int, seq![ch]) =~= t);
    if !control {
        cursor::lemma_char_width(ch);
        cursor::lemma_step_from(t, cursor::byte_len(t));
        assert(edit::before(t, cursor::byte_len(t)) == end);
        cursor::lemma_chars_before_byte_at(t, input.len() as int);
        assert(edit::cut(t, input.len() as int, t.len() as int) =~= input);
    }
}

/// The arrows move what is marked by one, and stop at the ends.
pub proof fn law_arrows_mark_the_neighbour(
    question: ApprovalQuestionView,
    at: usize,
    key: KeyPress,
)
    requires
        question.options is Some,
        at < question.options->0.len() <= usize::MAX,
    ensures
        option_marked(question, at, key) < question.options->0.len(),
        key.code == KeyCode::Down && at + 1 < question.options->0.len() ==> option_marked(
            question,
            at,
            key,
        ) == at + 1,
        key.code == KeyCode::Up && at > 0 ==> option_marked(question, at, key) == at - 1,
        key.code == KeyCode::Down && at + 1 == question.options->0.len() ==> option_marked(
            question,
            at,
            key,
        ) == at,
        key.code == KeyCode::Up && at == 0 ==> option_marked(question, at, key) == at,
        key.code != KeyCode::Up && key.code != KeyCode::Down ==> option_marked(question, at, key)
            == at,
{
}

/// In a list, typing narrows the query by a character at its end and begins at the top again, and
/// backspace takes the last one back; the arrows move by one row and stop at the ends; and the selection
/// stays on a row.
pub proof fn law_list_keys(query: Seq<char>, at: usize, key: KeyPress, count: int)
    requires
        0 <= count <= usize::MAX,
    ensures
        ({
            let after = list_after(query, at, key, count);
            &&& key.code matches KeyCode::Char(ch) ==> if key.control {
                after == (query, at)
            } else {
                after == (query.push(ch), 0usize)
            }
            &&& key.code == KeyCode::Backspace && query.len() > 0 ==> after == (
                query.drop_last(),
                0usize,
            )
            &&& key.code == KeyCode::Down && at + 1 < count ==> after == (query, (at + 1) as usize)
            &&& key.code == KeyCode::Down && at + 1 >= count ==> after == (query, at)
            &&& key.code == KeyCode::Up && at > 0 ==> after == (query, (at - 1) as usize)
            &&& key.code == KeyCode::Up && at == 0 ==> after == (query, at)
            &&& key.code == KeyCode::Home ==> after == (query, 0usize)
            &&& key.code == KeyCode::End && count > 0 ==> after == (query, (count - 1) as usize)
            &&& after.0 == query && at < count ==> after.1 < count
        }),
{
}

/// Enter in a list takes what the selection stands on, of what the query leaves; nothing else of a list
/// takes anything, and escape closes it.
pub proof fn law_enter_takes_what_is_selected(overlay: OverlayView, key: KeyPress)
    ensures
        ({
            let outcome = outcome_of(overlay, key);
            &&& overlay matches OverlayView::SkillPicker { skills, query, cursor } ==> {
                let shown = picker::skills_kept(skills, Some(query));
                &&& outcome matches OverlayOutcomeView::SelectSkill(skill) ==> key.code
                    == KeyCode::Enter && cursor < shown.len() && skill == shown[cursor as int]
                &&& key.code == KeyCode::Enter && cursor < shown.len() ==> outcome is SelectSkill
                &&& outcome is SelectSkill || outcome is Keep || (key.code == KeyCode::Esc
                    && outcome is Dismiss)
            }
            &&& overlay matches OverlayView::ThreadPicker { threads, query, cursor } ==> {
                let shown = picker::threads_kept(threads, Some(query));
                &&& outcome matches OverlayOutcomeView::ResumeThread(id) ==> key.code
                    == KeyCode::Enter && cursor < shown.len() && id
                    == shown[cursor as int].thread.id
                &&& key.code == KeyCode::Enter && cursor < shown.len() ==> outcome is ResumeThread
                &&& outcome is ResumeThread || outcome is Keep || (key.code == KeyCode::Esc
                    && outcome is Dismiss)
            }
            &&& overlay matches OverlayView::ArtifactPicker { artifacts, query, cursor } ==> {
                let shown = picker::artifacts_kept(artifacts, Some(query));
                &&& outcome matches OverlayOutcomeView::OpenArtifact(id) ==> key.code
                    == KeyCode::Enter && cursor < shown.len() && id == shown[cursor as int].id
                &&& key.code == KeyCode::Enter && cursor < shown.len() ==> outcome is OpenArtifact
                &&& outcome is OpenArtifact || outcome is Keep || (key.code == KeyCode::Esc
                    && outcome is Dismiss)
            }
            &&& overlay is Help ==> (outcome is Dismiss <==> key.code == KeyCode::Esc || key.code
                == KeyCode::Enter || key.code == KeyCode::Char('q') || key.code == KeyCode::Char(
                'Q',
            )) && (outcome is Dismiss || outcome is Keep)
        }),
{
}

/// A list shows its rows from where the window begins, in order, and marks just the one that the
/// selection stands on; an empty list says so.
pub proof fn law_a_list_marks_its_selection(rows: Seq<StyledLineView>, capacity: int, at: int)
    requires
        0 <= at < rows.len(),
        capacity > 0,
    ensures
        ({
            let shown = list_lines_of(rows, capacity, at);
            let from = completion::window_of(rows.len() as int, capacity, at).0;
            &&& shown.len() == if capacity < rows.len() {
                capacity
            } else {
                rows.len() as int
            }
            &&& 0 <= at - from < shown.len()
            &&& forall|i: int|
                0 <= i < shown.len() ==> {
                    let line = #[trigger] shown[i];
                    &&& line.spans.len() == rows[from + i].spans.len() + 1
                    &&& line.spans[0].text == "› "@ <==> from + i == at
                    &&& forall|k: int|
                        0 <= k < rows[from + i].spans.len() ==> (#[trigger] line.spans[k + 1]).text
                            == rows[from + i].spans[k].text
                }
        }),
{
    completion::law_selected_row_is_in_view(rows.len() as int, capacity, at);
    reveal_strlit("› ");
    reveal_strlit("  ");
    assert("› "@[0] == '›' && "  "@[0] == ' ');
}

// -- What is drawn over the client ----------------------------------------------------------------------------

/// The frame tells what is shown, and what is below is cleared first.
pub proof fn law_the_frame_tells_what_is_shown(
    area: Area,
    sections: Seq<Area>,
    overlay: OverlayView,
)
    ensures
        ({
            let items = overlay_items(area, sections, overlay);
            let name = match overlay {
                OverlayView::Help => "help"@,
                OverlayView::ApprovalYesNo { .. } => "approval requested"@,
                OverlayView::ApprovalQuestionnaire { .. } => "approval requested"@,
                OverlayView::SkillPicker { .. } => "skills"@,
                OverlayView::ThreadPicker { .. } => "threads"@,
                OverlayView::ArtifactPicker { .. } => "artifacts"@,
            };
            &&& items.len() >= 3
            &&& items[0] == (DrawItemView::Clear { area })
            &&& items[1] matches DrawItemView::Frame { area: place, title, .. } && place == area
                && title.spans[0].text == " "@ + name + " "@
        }),
{
}

/// What is drawn inside is what is asked: the decision, the questions, or the list that the words leave,
/// below the words.
pub proof fn law_what_is_asked_is_drawn(inner: Area, sections: Seq<Area>, overlay: OverlayView)
    ensures
        ({
            let body = body_of(inner, sections, overlay);
            match overlay {
                OverlayView::Help => body[0] == (DrawItemView::Lines {
                    area: inner,
                    lines: help_lines_of(),
                    wrap: true,
                }),
                OverlayView::ApprovalYesNo { approval, selected_yes } => body[0] == (
                DrawItemView::Lines {
                    area: inner,
                    lines: yes_no_lines_of(approval, selected_yes),
                    wrap: true,
                }),
                OverlayView::ApprovalQuestionnaire {
                    approval,
                    questions,
                    current_index,
                    input_buffer,
                    option_cursor,
                    ..
                } => body[0] == (DrawItemView::Lines {
                    area: inner,
                    lines: questionnaire_lines_of(
                        approval,
                        questions,
                        current_index as int,
                        input_buffer,
                        option_cursor as int,
                    ),
                    wrap: true,
                }),
                _ => {
                    let list = list_of(overlay)->0;
                    &&& body.len() == 2
                    &&& body[0] matches DrawItemView::Lines { area, lines, .. } && area
                        == sections[0] && lines[0].spans[1].text == list.0
                    &&& body[1] == (DrawItemView::Lines {
                        area: sections[1],
                        lines: list_lines_of(list.1, sections[1].height as int, list.2 as int),
                        wrap: false,
                    })
                },
            }
        }),
{
}

/// The help names every command and says what it does.
pub proof fn law_help_names_every_command(i: int)
    requires
        0 <= i < completion::all_commands().len(),
    ensures
        exists|words: Seq<char>|
            help_lines_of()[i + 1] == #[trigger] styled::raw_line_of(words) && text::contains_text(
                words,
                completion::all_commands()[i].name,
            ) && text::contains_text(words, completion::all_commands()[i].description),
{
    let command = completion::all_commands()[i];
    let gap = Seq::new(
        (if command.name.len() < 11 {
            11 - command.name.len()
        } else {
            0
        }) as nat,
        |k: int| ' ',
    );
    let none = Seq::<char>::empty();
    let words = "  "@ + padded(command.name, 11) + " "@ + command.description;
    assert(help_lines_of()[i + 1] == styled::raw_line_of(words));
    assert(words =~= "  "@ + command.name + (gap + " "@ + command.description));
    text::lemma_contains_inside("  "@, command.name, gap + " "@ + command.description);
    let head = "  "@ + padded(command.name, 11) + " "@;
    assert(words =~= head + command.description + none);
    text::lemma_contains_inside(head, command.description, none);
}

/// A question is drawn with the approval's title, which of how many it is, its header, its options with
/// the chosen one marked, and what was typed.
pub proof fn law_a_question_is_drawn_whole(
    approval: PendingApprovalView,
    questions: Seq<ApprovalQuestionView>,
    at: int,
    input: Seq<char>,
    chosen: int,
    i: int,
)
    requires
        0 <= at < questions.len(),
    ensures
        ({
            let lines = questionnaire_lines_of(approval, questions, at, input, chosen);
            let question = questions[at];
            &&& lines[0].spans[0].text == approval.title
            &&& lines[0].spans[2].text == "("@ + text::decimal((at + 1) as nat) + "/"@
                + text::decimal(questions.len()) + ")"@
            &&& lines[2].spans[0].text == question.header
            &&& lines[3] == styled::raw_line_of(question.question)
            &&& question.options matches Some(options) ==> (0 <= i < options.len() ==> {
                let line = lines[5 + i];
                &&& line.spans[0].text == (if i == chosen {
                    " "@ + "›"@ + " "@
                } else {
                    " "@ + " "@ + " "@
                })
                &&& line.spans[0].style.bg is Some <==> i == chosen
                &&& line.spans[2].text == options[i].label
                &&& line.spans[4].text == options[i].description
            })
            &&& lines.last().spans[1].text == input
        }),
{
    let question = questions[at];
    if question.options is Some && 0 <= i < question.options->0.len() {
        let options = question.options->0;
        assert(answer_lines(question, chosen)[i] == option_line_of(options[i], i == chosen));
        assert(question_lines_of(question, input, chosen)[3 + i] == option_line_of(
            options[i],
            i == chosen,
        ));
    }
    let all = question_lines_of(question, input, chosen);
    assert(questionnaire_lines_of(approval, questions, at, input, chosen).last() == all.last());
}

/// The rows of a list tell what they stand for: the conversation that is active is marked, and what has
/// no title is told by its number or as such.
pub proof fn law_rows_tell_what_they_stand_for(
    item: ThreadListItemView,
    artifact: ArtifactManifestView,
)
    ensures
        ({
            let row = thread_row(item);
            &&& row.spans[0].text == (if item.selected {
                "◎ "@
            } else {
                "  "@
            })
            &&& item.thread.title matches Some(title) ==> row.spans[1].text == title
            &&& item.thread.title is None ==> row.spans[1].text == "(untitled)"@
            &&& row.spans[3].text == labels::thread_status_name_of(item.thread.status)
            &&& row.spans[5].text == item.thread.id
        }),
        artifact_row(artifact).spans[0].text == (if artifact.title.len() > 0 {
            artifact.title
        } else {
            artifact.id
        }),
        artifact_row(artifact).spans[2].text == labels::artifact_kind_name_of(artifact.kind),
{
}

/// A list holds a row for each thing that the words leave, in their order.
pub proof fn law_a_list_holds_what_the_words_leave(overlay: OverlayView, i: int)
    ensures
        match overlay {
            OverlayView::SkillPicker { skills, query, cursor } => {
                let shown = picker::skills_kept(skills, Some(query));
                list_of(overlay) matches Some(list) && list.0 == query && list.2 == cursor
                    && list.1.len() == shown.len() && (0 <= i < shown.len() ==> list.1[i]
                    == styled::raw_line_of(picker::skill_description(shown[i])))
            },
            OverlayView::ThreadPicker { threads, query, cursor } => {
                let shown = picker::threads_kept(threads, Some(query));
                list_of(overlay) matches Some(list) && list.0 == query && list.2 == cursor
                    && list.1.len() == shown.len() && (0 <= i < shown.len() ==> list.1[i]
                    == thread_row(shown[i]))
            },
            OverlayView::ArtifactPicker { artifacts, query, cursor } => {
                let shown = picker::artifacts_kept(artifacts, Some(query));
                list_of(overlay) matches Some(list) && list.0 == query && list.2 == cursor
                    && list.1.len() == shown.len() && (0 <= i < shown.len() ==> list.1[i]
                    == artifact_row(shown[i]))
            },
            _ => list_of(overlay) is None,
        },
{
}

} // verus!
