//! Approvals that are asked for on the full screen.
use vstd::prelude::*;

use crate::fullscreen::keys::KeyEvent;
use crate::fullscreen::pickers;
use crate::fullscreen::state;
use crate::fullscreen::state::{
    ApprovalChoice, ApprovalOverlayState, ApprovalOverlayStateView, QuestionFocus,
};
use crate::protocol::{
    AnswerMap, ApprovalAnswer, ApprovalAnswerView, ApprovalDecision, ApprovalQuestion,
    ApprovalQuestionView, ApprovalRespondParams, ApprovalRespondParamsView,
};
use crate::text;
use crate::ui::{PendingApproval, PendingApprovalView};

verus! {

broadcast use text::group_views;

/// What a key does to an approval: it stays open, it stays open with a warning, or an answer goes
/// out.
#[derive(Debug, PartialEq)]
pub enum ApprovalStep {
    Keep,
    Warn,
    Submit(ApprovalRespondParams),
}

/// The model of `ApprovalStep`.
#[verifier::ext_equal]
pub enum ApprovalStepView {
    Keep,
    Warn,
    Submit(ApprovalRespondParamsView),
}

impl View for ApprovalStep {
    type V = ApprovalStepView;

    open spec fn view(&self) -> ApprovalStepView {
        match *self {
            ApprovalStep::Keep => ApprovalStepView::Keep,
            ApprovalStep::Warn => ApprovalStepView::Warn,
            ApprovalStep::Submit(inner) => ApprovalStepView::Submit(inner@),
        }
    }
}

impl Clone for ApprovalStep {
    fn clone(&self) -> (copy: Self)
        ensures
            copy@ == self@,
    {
        match self {
            ApprovalStep::Keep => ApprovalStep::Keep,
            ApprovalStep::Warn => ApprovalStep::Warn,
            ApprovalStep::Submit(inner) => ApprovalStep::Submit(inner.clone()),
        }
    }
}

/// The answer that a decision makes.
pub open spec fn decided(approval: PendingApprovalView, choice: ApprovalChoice) -> ApprovalRespondParamsView {
    ApprovalRespondParamsView {
        approval_id: approval.id,
        decision: match choice {
            ApprovalChoice::Approve => ApprovalDecision::Approve,
            ApprovalChoice::Reject => ApprovalDecision::Reject,
        },
        answers: None,
    }
}

/// The answer that the answers to questions make.
pub open spec fn answered(
    approval: PendingApprovalView,
    answers: Map<Seq<char>, ApprovalAnswerView>,
) -> ApprovalRespondParamsView {
    ApprovalRespondParamsView {
        approval_id: approval.id,
        decision: ApprovalDecision::Approve,
        answers: Some(answers),
    }
}

/// The approval that is asked for.
pub open spec fn approval_in(state: ApprovalOverlayStateView) -> PendingApprovalView {
    match state {
        ApprovalOverlayStateView::Decision { approval, .. } => approval,
        ApprovalOverlayStateView::Questionnaire { approval, .. } => approval,
    }
}

/// The row that a digit stands for.
pub open spec fn row_named(ch: char) -> Option<int> {
    if '1' <= ch <= '9' {
        Some(ch as int - '1' as int)
    } else {
        None
    }
}

/// The option that is marked after a key.
pub open spec fn option_after(selected: usize, key: KeyEvent, count: int) -> usize {
    match key {
        KeyEvent::Up => pickers::stepped_up(selected, 1),
        KeyEvent::Down => pickers::stepped_down(selected, 1, count),
        KeyEvent::PageUp => pickers::stepped_up(selected, 5),
        KeyEvent::PageDown => pickers::stepped_down(selected, 5, count),
        KeyEvent::Char(ch) => match row_named(ch) {
            Some(row) => if row < count {
                row as usize
            } else {
                selected
            },
            None => selected,
        },
        _ => selected,
    }
}

/// Whether a question has its keys in its options.
pub open spec fn keys_in_options(question: ApprovalQuestionView, focus: QuestionFocus) -> bool {
    question.options is Some && focus == QuestionFocus::Options
}

/// Whether a question takes what is typed.
pub open spec fn takes_words(question: ApprovalQuestionView, focus: QuestionFocus) -> bool {
    focus == QuestionFocus::TextInput || question.options is None
}

/// The number of options of a question.
pub open spec fn option_count(question: ApprovalQuestionView) -> int {
    match question.options {
        Some(options) => options.len() as int,
        None => 0,
    }
}

/// The words typed so far, after a key.
pub open spec fn input_after(
    question: ApprovalQuestionView,
    focus: QuestionFocus,
    input: Seq<char>,
    key: KeyEvent,
) -> Seq<char> {
    if takes_words(question, focus) {
        match key {
            KeyEvent::Backspace => text::without_last(input),
            KeyEvent::Char(ch) => if text::is_control_char(ch) {
                input
            } else {
                input.push(ch)
            },
            _ => input,
        }
    } else {
        input
    }
}

/// An approval after a key.
pub open spec fn approval_after(state: ApprovalOverlayStateView, key: KeyEvent) -> ApprovalOverlayStateView {
    match state {
        ApprovalOverlayStateView::Decision { approval, choice } => ApprovalOverlayStateView::Decision {
            approval,
            choice: match key {
                KeyEvent::Left | KeyEvent::Right | KeyEvent::Tab => choice.toggle(),
                KeyEvent::Char(ch) => if ch == 'a' || ch == 'A' {
                    ApprovalChoice::Approve
                } else if ch == 'r' || ch == 'R' {
                    ApprovalChoice::Reject
                } else {
                    choice
                },
                _ => choice,
            },
        },
        ApprovalOverlayStateView::Questionnaire {
            approval,
            questions,
            current,
            option_selected,
            focus,
            input,
            answers,
        } => if current >= questions.len() {
            state
        } else {
            let question = questions[current as int];
            match key {
                KeyEvent::Enter => match state::standing_answer(
                    question,
                    focus,
                    option_selected as int,
                    input,
                ) {
                    Some(words) => ApprovalOverlayStateView::Questionnaire {
                        approval,
                        questions,
                        current: (current + 1) as usize,
                        option_selected: 0,
                        focus: state::first_focus(question),
                        input: Seq::empty(),
                        answers: answers.insert(
                            question.id,
                            ApprovalAnswerView { answers: seq![words] },
                        ),
                    },
                    None => state,
                },
                _ => ApprovalOverlayStateView::Questionnaire {
                    approval,
                    questions,
                    current,
                    option_selected: if keys_in_options(question, focus) {
                        option_after(option_selected, key, option_count(question))
                    } else {
                        option_selected
                    },
                    focus: if key == KeyEvent::Tab && question.is_other && question.options is Some {
                        focus.toggle()
                    } else {
                        focus
                    },
                    input: input_after(question, focus, input, key),
                    answers,
                },
            }
        },
    }
}

/// What a key does to an approval. Escape and control-c reject it, enter answers it: at once, or
/// one question at a time.
pub open spec fn approval_step(state: ApprovalOverlayStateView, key: KeyEvent) -> ApprovalStepView {
    match state {
        ApprovalOverlayStateView::Decision { approval, choice } => match key {
            KeyEvent::Esc | KeyEvent::CtrlC => ApprovalStepView::Submit(
                decided(approval, ApprovalChoice::Reject),
            ),
            KeyEvent::Enter => ApprovalStepView::Submit(decided(approval, choice)),
            _ => ApprovalStepView::Keep,
        },
        ApprovalOverlayStateView::Questionnaire {
            approval,
            questions,
            current,
            option_selected,
            focus,
            input,
            answers,
        } => if current >= questions.len() {
            ApprovalStepView::Submit(answered(approval, answers))
        } else {
            let question = questions[current as int];
            match key {
                KeyEvent::Esc | KeyEvent::CtrlC => ApprovalStepView::Submit(
                    decided(approval, ApprovalChoice::Reject),
                ),
                KeyEvent::Enter => match state::standing_answer(
                    question,
                    focus,
                    option_selected as int,
                    input,
                ) {
                    Some(words) => if current + 1 >= questions.len() {
                        ApprovalStepView::Submit(
                            answered(
                                approval,
                                answers.insert(
                                    question.id,
                                    ApprovalAnswerView { answers: seq![words] },
                                ),
                            ),
                        )
                    } else {
                        ApprovalStepView::Keep
                    },
                    None => ApprovalStepView::Warn,
                },
                _ => ApprovalStepView::Keep,
            }
        },
    }
}

fn decision_params(approval: &PendingApproval, choice: ApprovalChoice) -> (params: ApprovalRespondParams)
    ensures
        params@ == decided(approval@, choice),
{
    let decision: ApprovalDecision = match choice {
        ApprovalChoice::Approve => ApprovalDecision::Approve,
        ApprovalChoice::Reject => ApprovalDecision::Reject,
    };
    ApprovalRespondParams { approval_id: approval.id.clone(), decision, answers: None }
}

fn answer_params(approval: &PendingApproval, answers: &AnswerMap) -> (params: ApprovalRespondParams)
    ensures
        params@ == answered(approval@, answers@),
{
    ApprovalRespondParams {
        approval_id: approval.id.clone(),
        decision: ApprovalDecision::Approve,
        answers: Some(answers.clone()),
    }
}

/// An answer of one text.
pub fn single_answer(words: String) -> (answer: ApprovalAnswer)
    ensures
        answer@ == (ApprovalAnswerView { answers: seq![words@] }),
{
    let mut answers: Vec<String> = Vec::new();
    answers.push(words);
    assert(text::views(answers@) =~= seq![words@]);
    ApprovalAnswer { answers }
}

fn digit_row(ch: char) -> (row: Option<usize>)
    ensures
        match row {
            Some(n) => row_named(ch) == Some(n as int),
            None => row_named(ch) is None,
        },
{
    if '1' <= ch && ch <= '9' {
        Some((ch as u32 - '1' as u32) as usize)
    } else {
        None
    }
}

fn mark_option(selected: usize, key: KeyEvent, count: usize) -> (marked: usize)
    ensures
        marked == option_after(selected, key, count as int),
{
    match key {
        KeyEvent::Up => pickers::step_up(selected, 1),
        KeyEvent::Down => pickers::step_down(selected, 1, count),
        KeyEvent::PageUp => pickers::step_up(selected, 5),
        KeyEvent::PageDown => pickers::step_down(selected, 5, count),
        KeyEvent::Char(ch) => {
            match digit_row(ch) {
                Some(row) => {
                    if row < count {
                        row
                    } else {
                        selected
                    }
                },
                None => selected,
            }
        },
        _ => selected,
    }
}

/// Gives a key to an approval.
pub fn handle_approval_key(state: &mut ApprovalOverlayState, key: KeyEvent) -> (step: ApprovalStep)
    ensures
        final(state)@ == approval_after(old(state)@, key),
        step@ == approval_step(old(state)@, key),
{
    match state {
        ApprovalOverlayState::Decision { approval, choice } => {
            match key {
                KeyEvent::Esc | KeyEvent::CtrlC => {
                    return ApprovalStep::Submit(decision_params(approval, ApprovalChoice::Reject));
                },
                KeyEvent::Left | KeyEvent::Right | KeyEvent::Tab => {
                    *choice = choice.toggle();
                },
                KeyEvent::Char(ch) => {
                    if ch == 'a' || ch == 'A' {
                        *choice = ApprovalChoice::Approve;
                    } else if ch == 'r' || ch == 'R' {
                        *choice = ApprovalChoice::Reject;
                    }
                },
                KeyEvent::Enter => {
                    return ApprovalStep::Submit(decision_params(approval, *choice));
                },
                _ => {},
            }
            ApprovalStep::Keep
        },
        ApprovalOverlayState::Questionnaire {
            approval,
            questions,
            current,
            option_selected,
            focus,
            input,
            answers,
        } => {
            if *current >= questions.len() {
                return ApprovalStep::Submit(answer_params(approval, answers));
            }
            let question: &ApprovalQuestion = &questions[*current];
            assert(text::views(questions@)[*current as int] == question@);
            let count: usize = match &question.options {
                Some(options) => options.len(),
                None => 0,
            };
            match key {
                KeyEvent::Esc | KeyEvent::CtrlC => {
                    return ApprovalStep::Submit(decision_params(approval, ApprovalChoice::Reject));
                },
                KeyEvent::Enter => {
                    match state::current_question_answer(
                        question,
                        *focus,
                        *option_selected,
                        input.as_str(),
                    ) {
                        Some(words) => {
                            answers.insert(question.id.clone(), single_answer(words));
                            *input = String::new();
                            *option_selected = 0;
                            *focus = state::default_question_focus(question);
                            *current = *current + 1;
                            if *current >= questions.len() {
                                return ApprovalStep::Submit(answer_params(approval, answers));
                            }
                            ApprovalStep::Keep
                        },
                        None => ApprovalStep::Warn,
                    }
                },
                _ => {
                    let has_options: bool = question.options.is_some();
                    let in_options: bool = *focus == QuestionFocus::Options;
                    if has_options && in_options {
                        *option_selected = mark_option(*option_selected, key, count);
                    } else if pickers::edits_filter(key) {
                        pickers::edit_filter(input, key);
                    }
                    if key == KeyEvent::Tab && question.is_other && has_options {
                        *focus = focus.toggle();
                    }
                    ApprovalStep::Keep
                },
            }
        },
    }
}

/// Whatever is typed into it, an approval is the one that was asked for, and what goes out answers
/// that one.
pub proof fn law_answers_name_their_approval(state: ApprovalOverlayStateView, key: KeyEvent)
    ensures
        approval_in(approval_after(state, key)) == approval_in(state),
        approval_step(state, key) matches ApprovalStepView::Submit(params) ==> params.approval_id
            == approval_in(state).id,
{
}

/// An answer to questions goes out only once every question before it was answered: each key that
/// answers a question goes on by one.
pub proof fn law_questions_come_in_turn(state: ApprovalOverlayStateView, key: KeyEvent)
    requires
        state is Questionnaire,
        state->current < state->questions.len() <= usize::MAX,
    ensures
        approval_after(state, key)->current == state->current || approval_after(state, key)->current
            == state->current + 1,
        approval_after(state, key)->current == state->current + 1 ==> approval_after(
            state,
            key,
        )->answers.contains_key(state->questions[state->current as int].id),
        approval_step(state, key) matches ApprovalStepView::Submit(params) && params.answers is Some
            ==> approval_after(state, key)->current == state->questions.len(),
{
}

// -- What the keys of an approval mean -----------------------------------------------------------------

/// A choice goes out as what it is, for the approval that was asked; answers to questions let it go
/// on, and go out all of them.
pub proof fn law_a_choice_goes_out_as_it_is(
    approval: PendingApprovalView,
    choice: ApprovalChoice,
    answers: Map<Seq<char>, ApprovalAnswerView>,
)
    ensures
        decided(approval, choice).approval_id == approval.id,
        decided(approval, choice).decision == ApprovalDecision::Approve <==> choice
            == ApprovalChoice::Approve,
        decided(approval, choice).decision == ApprovalDecision::Reject <==> choice
            == ApprovalChoice::Reject,
        decided(approval, choice).answers is None,
        answered(approval, answers).approval_id == approval.id,
        answered(approval, answers).decision == ApprovalDecision::Approve,
        answered(approval, answers).answers == Some(answers),
        choice.toggle() != choice,
        choice.toggle().toggle() == choice,
{
}

/// An approval is granted only by enter with granting selected; escape and control-c reject it, and so
/// does enter with rejecting selected. No other key answers it.
pub proof fn law_only_enter_grants(
    approval: PendingApprovalView,
    choice: ApprovalChoice,
    key: KeyEvent,
)
    ensures
        ({
            let step = approval_step(
                ApprovalOverlayStateView::Decision { approval, choice },
                key,
            );
            let leaves = key == KeyEvent::Esc || key == KeyEvent::CtrlC;
            &&& step is Submit <==> leaves || key == KeyEvent::Enter
            &&& !(step is Submit) ==> step is Keep
            &&& step matches ApprovalStepView::Submit(params) ==> params.approval_id == approval.id
                && params.answers is None && (params.decision == ApprovalDecision::Approve <==> key
                == KeyEvent::Enter && choice == ApprovalChoice::Approve)
        }),
{
}

/// The arrows and the tabulator change sides, the letters for granting and rejecting select what they
/// stand for, and no other key changes the choice.
pub proof fn law_keys_choose_sides(
    approval: PendingApprovalView,
    choice: ApprovalChoice,
    key: KeyEvent,
)
    ensures
        ({
            let after = approval_after(
                ApprovalOverlayStateView::Decision { approval, choice },
                key,
            );
            let turns = key == KeyEvent::Left || key == KeyEvent::Right || key == KeyEvent::Tab;
            let grants = key == KeyEvent::Char('a') || key == KeyEvent::Char('A');
            let rejects = key == KeyEvent::Char('r') || key == KeyEvent::Char('R');
            &&& after matches ApprovalOverlayStateView::Decision { approval: asked, choice: now }
                && asked == approval && (turns ==> now != choice) && (grants ==> now
                == ApprovalChoice::Approve) && (rejects ==> now == ApprovalChoice::Reject) && (
            !turns && !grants && !rejects ==> now == choice)
        }),
{
}

/// While questions are asked, escape and control-c reject the approval. Enter gives the question its
/// answer and goes on to the next; with the last answer they go out, all of them, and the approval goes
/// on. Without an answer enter only warns. No other key sends anything.
pub proof fn law_enter_answers_questions_in_turn(
    approval: PendingApprovalView,
    questions: Seq<ApprovalQuestionView>,
    current: usize,
    option_selected: usize,
    focus: QuestionFocus,
    input: Seq<char>,
    answers: Map<Seq<char>, ApprovalAnswerView>,
    key: KeyEvent,
)
    requires
        current < questions.len() <= usize::MAX,
    ensures
        ({
            let state = ApprovalOverlayStateView::Questionnaire {
                approval,
                questions,
                current,
                option_selected,
                focus,
                input,
                answers,
            };
            let question = questions[current as int];
            let answer = state::standing_answer(question, focus, option_selected as int, input);
            let step = approval_step(state, key);
            let after = approval_after(state, key);
            &&& key == KeyEvent::Esc || key == KeyEvent::CtrlC ==> (step
                matches ApprovalStepView::Submit(params) && params.decision
                == ApprovalDecision::Reject && params.answers is None && params.approval_id
                == approval.id)
            &&& key == KeyEvent::Enter && answer is None ==> step is Warn && after == state
            &&& key == KeyEvent::Enter && answer is Some ==> {
                let now = after->answers;
                &&& after is Questionnaire && after->current == current + 1
                    && after->Questionnaire_input.len() == 0 && after->option_selected == 0
                    && after->questions == questions
                &&& now.contains_key(question.id) && now[question.id].answers == seq![answer->0]
                &&& forall|id: Seq<char>|
                    id != question.id ==> (now.contains_key(id) <==> answers.contains_key(id)) && (
                    answers.contains_key(id) ==> #[trigger] now[id] == answers[id])
                &&& current + 1 < questions.len() ==> step is Keep
                &&& current + 1 == questions.len() ==> (step matches ApprovalStepView::Submit(
                    params,
                ) && params.decision == ApprovalDecision::Approve && params.answers == Some(now)
                    && params.approval_id == approval.id)
            }
            &&& key != KeyEvent::Enter && key != KeyEvent::Esc && key != KeyEvent::CtrlC ==> step
                is Keep && after->current == current && after->answers == answers
        }),
{
}

/// What stands as the answer is the option that is marked while the options have the keys, and what was
/// typed, without white space around it, where words are taken; never anything else.
pub proof fn law_the_standing_answer(
    question: ApprovalQuestionView,
    focus: QuestionFocus,
    option_selected: int,
    input: Seq<char>,
)
    ensures
        question.options is Some && focus == QuestionFocus::Options && 0 <= option_selected
            < question.options->0.len() ==> state::standing_answer(
            question,
            focus,
            option_selected,
            input,
        ) == Some(question.options->0[option_selected].label),
        (question.options is None || (question.is_other && focus == QuestionFocus::TextInput))
            && !text::blank(input) ==> state::standing_answer(
            question,
            focus,
            option_selected,
            input,
        ) == Some(text::trim_of(input)),
        (question.options is None || focus == QuestionFocus::TextInput) && text::blank(input)
            ==> state::standing_answer(question, focus, option_selected, input) is None,
        question.options is Some && focus == QuestionFocus::TextInput && !question.is_other
            ==> state::standing_answer(question, focus, option_selected, input) is None,
{
}

/// Where words are taken, a character goes to the end of them and backspace takes it back; where they
/// are not, neither changes anything.
pub proof fn law_typed_words_go_to_the_end(
    question: ApprovalQuestionView,
    focus: QuestionFocus,
    input: Seq<char>,
    ch: char,
)
    requires
        !text::is_control_char(ch),
    ensures
        focus == QuestionFocus::TextInput || question.options is None ==> input_after(
            question,
            focus,
            input,
            KeyEvent::Char(ch),
        ) == input.push(ch) && input_after(
            question,
            focus,
            input.push(ch),
            KeyEvent::Backspace,
        ) == input,
        focus == QuestionFocus::Options && question.options is Some ==> input_after(
            question,
            focus,
            input,
            KeyEvent::Char(ch),
        ) == input,
{
    assert(input.push(ch).drop_last() =~= input);
}

/// A digit marks the option with that number, and the arrows the neighbour; what is marked stays one of
/// the options.
pub proof fn law_a_digit_marks_its_option(selected: usize, key: KeyEvent, count: int)
    requires
        selected < count <= usize::MAX,
    ensures
        option_after(selected, key, count) < count,
        key matches KeyEvent::Char(ch) ==> ('1' <= ch <= '9' && ch as int - '0' as int <= count
            ==> option_after(selected, key, count) == ch as int - '0' as int - 1),
        key == KeyEvent::Down && selected + 1 < count ==> option_after(selected, key, count)
            == selected + 1,
        key == KeyEvent::Up && selected > 0 ==> option_after(selected, key, count) == selected - 1,
{
}

} // verus!
