//! Approvals that are asked for line by line.
use vstd::prelude::*;

use crate::protocol::{
    AnswerMap, ApprovalAnswer, ApprovalAnswerView, ApprovalDecision, ApprovalQuestion,
    ApprovalQuestionOptionView, ApprovalQuestionView, ApprovalRespondParams,
    ApprovalRespondParamsView,
};
use crate::session;
use crate::text;
use crate::ui::{ApprovalKind, PendingApproval, PendingApprovalView};

verus! {

broadcast use text::group_views;

/// What a line is as an answer to a question: it gives up, it names no option that there is, it
/// should have named one, or it is an answer.
#[derive(Debug, PartialEq)]
pub enum LineAnswer {
    Cancel,
    OutOfRange,
    NotAnOption,
    Given(String),
}

/// The model of `LineAnswer`.
#[verifier::ext_equal]
pub enum LineAnswerView {
    Cancel,
    OutOfRange,
    NotAnOption,
    Given(Seq<char>),
}

impl View for LineAnswer {
    type V = LineAnswerView;

    open spec fn view(&self) -> LineAnswerView {
        match *self {
            LineAnswer::Cancel => LineAnswerView::Cancel,
            LineAnswer::OutOfRange => LineAnswerView::OutOfRange,
            LineAnswer::NotAnOption => LineAnswerView::NotAnOption,
            LineAnswer::Given(inner) => LineAnswerView::Given(inner@),
        }
    }
}

impl Clone for LineAnswer {
    fn clone(&self) -> (copy: Self)
        ensures
            copy@ == self@,
    {
        match self {
            LineAnswer::Cancel => LineAnswer::Cancel,
            LineAnswer::OutOfRange => LineAnswer::OutOfRange,
            LineAnswer::NotAnOption => LineAnswer::NotAnOption,
            LineAnswer::Given(inner) => LineAnswer::Given(inner.clone()),
        }
    }
}

/// What a line is as an answer: nothing gives up; where there are options a number names one of
/// them, counted from one, and other text counts only where it may.
pub open spec fn line_answer(question: ApprovalQuestionView, raw: Seq<char>) -> LineAnswerView {
    if raw.len() == 0 {
        LineAnswerView::Cancel
    } else {
        match question.options {
            Some(options) => match text::number_of(raw) {
                Some(n) => {
                    let row = if n == 0 {
                        0
                    } else {
                        n - 1
                    };
                    if row < options.len() {
                        LineAnswerView::Given(options[row].label)
                    } else {
                        LineAnswerView::OutOfRange
                    }
                },
                None => if question.is_other {
                    LineAnswerView::Given(raw)
                } else {
                    LineAnswerView::NotAnOption
                },
            },
            None => LineAnswerView::Given(raw),
        }
    }
}

/// Reads a line as an answer to a question.
pub fn read_answer(question: &ApprovalQuestion, raw: &str) -> (answer: LineAnswer)
    ensures
        answer@ == line_answer(question@, raw@),
{
    if text::is_empty(raw) {
        return LineAnswer::Cancel;
    }
    match &question.options {
        Some(options) => {
            assert(question@.options == Some(text::views(options@)));
            match text::parse_number(raw) {
                Some(n) => {
                    let row: usize = if n == 0 {
                        0
                    } else {
                        n - 1
                    };
                    if row < options.len() {
                        assert(text::views(options@)[row as int] == options@[row as int]@);
                        LineAnswer::Given(options[row].label.clone())
                    } else {
                        LineAnswer::OutOfRange
                    }
                },
                None => {
                    if question.is_other {
                        LineAnswer::Given(raw.to_string())
                    } else {
                        LineAnswer::NotAnOption
                    }
                },
            }
        },
        None => LineAnswer::Given(raw.to_string()),
    }
}

/// What is printed for an answer that does not count.
pub open spec fn complaint_of(answer: LineAnswerView) -> Option<Seq<char>> {
    match answer {
        LineAnswerView::OutOfRange => Some("Selection out of range."@),
        LineAnswerView::NotAnOption => Some("Enter one of the listed option numbers."@),
        _ => None,
    }
}

/// What is printed for an answer that does not count.
pub fn complaint(answer: &LineAnswer) -> (words: Option<&'static str>)
    ensures
        text::opt_view(words) == complaint_of(answer@),
{
    match answer {
        LineAnswer::OutOfRange => Some("Selection out of range."),
        LineAnswer::NotAnOption => Some("Enter one of the listed option numbers."),
        LineAnswer::Cancel => None,
        LineAnswer::Given(_) => None,
    }
}

/// The line of an option.
pub open spec fn option_line(option: ApprovalQuestionOptionView, i: int) -> Seq<char> {
    session::numbered(i) + option.label + " - "@ + option.description
}

/// The lines of options.
pub open spec fn option_lines(options: Seq<ApprovalQuestionOptionView>) -> Seq<Seq<char>> {
    Seq::new(options.len(), |i: int| option_line(options[i], i))
}

/// What is printed before a question is answered.
pub open spec fn question_text(question: ApprovalQuestionView) -> Seq<Seq<char>> {
    seq!["\n"@ + question.header + ": "@ + question.question] + (if question.is_secret {
        seq!["(secret input; terminal echo is still enabled in this minimal client)"@]
    } else {
        Seq::empty()
    }) + (match question.options {
        Some(options) => option_lines(options) + (if question.is_other {
            seq!["  or enter free-form text"@]
        } else {
            Seq::empty()
        }),
        None => Seq::empty(),
    })
}

/// What is printed before a question is answered.
pub fn question_lines(question: &ApprovalQuestion) -> (lines: Vec<String>)
    ensures
        text::views(lines@) == question_text(question@),
{
    let mut lines: Vec<String> = Vec::new();
    lines.push(
        text::glue4("\n", question.header.as_str(), ": ", question.question.as_str()),
    );
    if question.is_secret {
        lines.push(
            "(secret input; terminal echo is still enabled in this minimal client)".to_string(),
        );
    }
    let ghost head = text::views(lines@);
    assert(head =~= seq!["\n"@ + question@.header + ": "@ + question@.question] + (
    if question@.is_secret {
        seq!["(secret input; terminal echo is still enabled in this minimal client)"@]
    } else {
        Seq::empty()
    }));
    if let Some(options) = &question.options {
        let ghost all = text::views(options@);
        assert(question@.options == Some(all));
        let mut i: usize = 0;
        assert(head + option_lines(all).take(0) =~= head);
        while i < options.len()
            invariant
                i <= options@.len(),
                all == text::views(options@),
                text::views(lines@) == head + option_lines(all).take(i as int),
            decreases options@.len() - i,
        {
            assert(all[i as int] == options@[i as int]@);
            let number: String = session::numbered_text(i);
            let line: String = text::glue4(
                number.as_str(),
                options[i].label.as_str(),
                " - ",
                options[i].description.as_str(),
            );
            assert(line@ =~= option_line(all[i as int], i as int));
            let ghost before = lines@;
            lines.push(line);
            proof {
                text::lemma_views_push(before, line);
            }
            i = i + 1;
            assert(text::views(lines@) =~= head + option_lines(all).take(i as int));
        }
        assert(option_lines(all).take(all.len() as int) =~= option_lines(all));
        if question.is_other {
            lines.push("  or enter free-form text".to_string());
        }
    }
    assert(text::views(lines@) =~= question_text(question@));
    lines
}

/// What a line says to a yes-or-no question; nothing where it says neither.
pub open spec fn yes_or_no(line: Seq<char>) -> Option<bool> {
    let word = text::lower(text::trim_of(line));
    if word == "y"@ || word == "yes"@ {
        Some(true)
    } else if word.len() == 0 || word == "n"@ || word == "no"@ {
        Some(false)
    } else {
        None
    }
}

/// What a line says to a yes-or-no question; nothing where it says neither.
pub fn parse_yes_no(line: &str) -> (said: Option<bool>)
    ensures
        said == yes_or_no(line@),
{
    let trimmed: String = text::trim(line);
    let word: String = text::to_lower(trimmed.as_str());
    if text::same_text(word.as_str(), "y") || text::same_text(word.as_str(), "yes") {
        Some(true)
    } else if text::is_empty(word.as_str()) || text::same_text(word.as_str(), "n")
        || text::same_text(word.as_str(), "no") {
        Some(false)
    } else {
        None
    }
}

/// What is printed before an approval is answered.
pub open spec fn heading_of(approval: PendingApprovalView) -> Seq<Seq<char>> {
    seq!["\nApproval requested: "@ + approval.title] + (if approval.description.len() > 0 {
        seq![approval.description]
    } else {
        Seq::empty()
    })
}

/// What is printed before an approval is answered.
pub fn approval_heading(approval: &PendingApproval) -> (lines: Vec<String>)
    ensures
        text::views(lines@) == heading_of(approval@),
{
    let mut lines: Vec<String> = Vec::new();
    lines.push(text::glue("\nApproval requested: ", approval.title.as_str()));
    if !text::is_empty(approval.description.as_str()) {
        lines.push(approval.description.clone());
    }
    assert(text::views(lines@) =~= heading_of(approval@));
    lines
}

/// What comes of asking: a line is wanted still, or the decision is made.
#[derive(Debug, PartialEq)]
pub enum Outcome {
    Waiting,
    Decided { decision: ApprovalDecision, answers: Option<AnswerMap> },
}

/// The model of `Outcome`.
#[verifier::ext_equal]
pub enum OutcomeView {
    Waiting,
    Decided { decision: ApprovalDecision, answers: Option<Map<Seq<char>, ApprovalAnswerView>> },
}

impl View for Outcome {
    type V = OutcomeView;

    open spec fn view(&self) -> OutcomeView {
        match *self {
            Outcome::Waiting => OutcomeView::Waiting,
            Outcome::Decided { decision, answers } => OutcomeView::Decided {
                decision,
                answers: text::opt_view(answers),
            },
        }
    }
}

impl Clone for Outcome {
    fn clone(&self) -> (copy: Self)
        ensures
            copy@ == self@,
    {
        match self {
            Outcome::Waiting => Outcome::Waiting,
            Outcome::Decided { decision, answers } => Outcome::Decided {
                decision: *decision,
                answers: text::copy_maybe(answers),
            },
        }
    }
}

/// The questions of an approval, how many of them are answered, and the answers.
#[derive(Debug, PartialEq)]
pub struct AnswerSheet {
    pub questions: Vec<ApprovalQuestion>,
    pub answered: usize,
    pub answers: AnswerMap,
}

/// The model of `AnswerSheet`.
#[verifier::ext_equal]
pub struct AnswerSheetView {
    pub questions: Seq<ApprovalQuestionView>,
    pub answered: usize,
    pub answers: Map<Seq<char>, ApprovalAnswerView>,
}

impl View for AnswerSheet {
    type V = AnswerSheetView;

    open spec fn view(&self) -> AnswerSheetView {
        AnswerSheetView {
            questions: text::views(self.questions@),
            answered: self.answered,
            answers: self.answers@,
        }
    }
}

impl Clone for AnswerSheet {
    fn clone(&self) -> (copy: Self)
        ensures
            copy@ == self@,
    {
        AnswerSheet {
            questions: text::copy_all(&self.questions),
            answered: self.answered,
            answers: self.answers.clone(),
        }
    }
}

/// A sheet with nothing answered.
pub open spec fn blank_sheet(questions: Seq<ApprovalQuestionView>) -> AnswerSheetView {
    AnswerSheetView { questions, answered: 0, answers: Map::empty() }
}

/// Whether there is a question left.
pub open spec fn asks(sheet: AnswerSheetView) -> bool {
    sheet.answered < sheet.questions.len()
}

/// The answers that consist of one text.
pub open spec fn one_answer(words: Seq<char>) -> ApprovalAnswerView {
    ApprovalAnswerView { answers: seq![words] }
}

/// A sheet after a line.
pub open spec fn sheet_after(sheet: AnswerSheetView, line: Seq<char>) -> AnswerSheetView {
    let question = sheet.questions[sheet.answered as int];
    match line_answer(question, line) {
        LineAnswerView::Given(words) => AnswerSheetView {
            answered: (sheet.answered + 1) as usize,
            answers: sheet.answers.insert(question.id, one_answer(words)),
            ..sheet
        },
        _ => sheet,
    }
}

/// What a line makes of a sheet that asks: giving up rejects, and the last answer approves.
pub open spec fn outcome_after(sheet: AnswerSheetView, line: Seq<char>) -> OutcomeView {
    let question = sheet.questions[sheet.answered as int];
    if line_answer(question, line) is Cancel {
        OutcomeView::Decided { decision: ApprovalDecision::Reject, answers: None }
    } else if asks(sheet_after(sheet, line)) {
        OutcomeView::Waiting
    } else {
        OutcomeView::Decided {
            decision: ApprovalDecision::Approve,
            answers: Some(sheet_after(sheet, line).answers),
        }
    }
}

/// What lines make of a sheet that asks; what stands after the line that decides is not read.
pub open spec fn outcome_of(sheet: AnswerSheetView, lines: Seq<Seq<char>>) -> OutcomeView
    decreases lines.len(),
{
    if lines.len() == 0 {
        OutcomeView::Waiting
    } else {
        match outcome_after(sheet, lines[0]) {
            OutcomeView::Waiting => outcome_of(sheet_after(sheet, lines[0]), lines.skip(1)),
            decided => decided,
        }
    }
}

/// What lines make of the questions of an approval. With no question there is nothing to approve.
pub open spec fn collected(questions: Seq<ApprovalQuestionView>, lines: Seq<Seq<char>>) -> OutcomeView {
    if questions.len() == 0 {
        OutcomeView::Decided { decision: ApprovalDecision::Reject, answers: None }
    } else {
        outcome_of(blank_sheet(questions), lines)
    }
}

impl AnswerSheet {
    /// A sheet with nothing answered.
    pub fn new(questions: &Vec<ApprovalQuestion>) -> (sheet: Self)
        ensures
            sheet@ == blank_sheet(text::views(questions@)),
    {
        AnswerSheet {
            questions: text::copy_all(questions),
            answered: 0,
            answers: AnswerMap::new(),
        }
    }

    /// The question that is asked, if any is left.
    pub fn question(&self) -> (question: Option<ApprovalQuestion>)
        ensures
            text::opt_view(question) == if asks(self@) {
                Some(self@.questions[self@.answered as int])
            } else {
                None
            },
    {
        assert(self@.questions.len() == self.questions@.len());
        if self.answered < self.questions.len() {
            assert(self@.questions[self.answered as int] == self.questions@[self.answered as int]@);
            Some(self.questions[self.answered].clone())
        } else {
            None
        }
    }

    /// Takes in a line. What it is as an answer to the question tells whether there is anything to
    /// print.
    pub fn take_line(&mut self, line: &str) -> (taken: (LineAnswer, Outcome))
        requires
            asks(old(self)@),
        ensures
            final(self)@ == sheet_after(old(self)@, line@),
            taken.0@ == line_answer(old(self)@.questions[old(self)@.answered as int], line@),
            taken.1@ == outcome_after(old(self)@, line@),
    {
        let ghost before = self@;
        assert(self@.questions.len() == self.questions@.len());
        assert(self@.questions[self.answered as int] == self.questions@[self.answered as int]@);
        let count: usize = self.questions.len();
        let answer: LineAnswer = read_answer(&self.questions[self.answered], line);
        match &answer {
            LineAnswer::Cancel => {
                return (
                    answer,
                    Outcome::Decided { decision: ApprovalDecision::Reject, answers: None },
                );
            },
            LineAnswer::Given(words) => {
                let mut given: Vec<String> = Vec::new();
                given.push(words.clone());
                assert(text::views(given@) =~= seq![words@]);
                self.answers.insert(
                    self.questions[self.answered].id.clone(),
                    ApprovalAnswer { answers: given },
                );
                self.answered = self.answered + 1;
            },
            _ => {},
        }
        assert(self@ =~= sheet_after(before, line@));
        if self.answered < count {
            (answer, Outcome::Waiting)
        } else {
            (
                answer,
                Outcome::Decided {
                    decision: ApprovalDecision::Approve,
                    answers: Some(self.answers.clone()),
                },
            )
        }
    }
}

/// What lines make of the questions of an approval.
pub fn collect_request_user_input_response_with(
    questions: &Vec<ApprovalQuestion>,
    lines: &Vec<String>,
) -> (outcome: Outcome)
    ensures
        outcome@ == collected(text::views(questions@), text::views(lines@)),
{
    if questions.len() == 0 {
        return Outcome::Decided { decision: ApprovalDecision::Reject, answers: None };
    }
    let mut sheet: AnswerSheet = AnswerSheet::new(questions);
    assert(text::views(questions@).len() == questions@.len());
    let ghost all = text::views(lines@);
    let mut i: usize = 0;
    assert(all.skip(0) =~= all);
    while i < lines.len()
        invariant
            i <= lines@.len(),
            all == text::views(lines@),
            asks(sheet@),
            outcome_of(sheet@, all.skip(i as int)) == outcome_of(
                blank_sheet(text::views(questions@)),
                all,
            ),
            questions@.len() > 0,
            text::views(questions@).len() == questions@.len(),
        decreases lines@.len() - i,
    {
        assert(all.skip(i as int)[0] == lines@[i as int]@);
        assert(all.skip(i as int).skip(1) =~= all.skip(i + 1));
        let (_answer, outcome) = sheet.take_line(lines[i].as_str());
        match outcome {
            Outcome::Waiting => {},
            decided => {
                return decided;
            },
        }
        i = i + 1;
    }
    Outcome::Waiting
}

/// How an approval is answered: yes or no, by its questions, or not at all, because they cannot be
/// read.
#[derive(Clone, Copy, Debug, PartialEq, Eq, Structural)]
pub enum Asking {
    YesNo,
    Questions,
    Unreadable,
}

/// How an approval is answered. `questions` are those of its payload, if they could be read.
pub open spec fn asking_of(
    approval: PendingApprovalView,
    questions: Option<Seq<ApprovalQuestionView>>,
) -> Asking {
    if approval.kind != ApprovalKind::RequestUserInput {
        Asking::YesNo
    } else if questions is Some {
        Asking::Questions
    } else {
        Asking::Unreadable
    }
}

/// How an approval is answered.
pub fn collect_approval_response(
    approval: &PendingApproval,
    questions: &Option<Vec<ApprovalQuestion>>,
) -> (asking: Asking)
    ensures
        asking == asking_of(approval@, text::opt_views(*questions)),
{
    match approval.kind {
        ApprovalKind::RequestUserInput => match questions {
            Some(_) => Asking::Questions,
            None => Asking::Unreadable,
        },
        _ => Asking::YesNo,
    }
}

/// The answer to an approval that is answered yes or no.
pub open spec fn yes_no_answer(approval: PendingApprovalView, approved: bool) -> ApprovalRespondParamsView {
    ApprovalRespondParamsView {
        approval_id: approval.id,
        decision: if approved {
            ApprovalDecision::Approve
        } else {
            ApprovalDecision::Reject
        },
        answers: None,
    }
}

/// The answer to an approval that is answered yes or no.
pub fn answer_yes_no(approval: &PendingApproval, approved: bool) -> (request: ApprovalRespondParams)
    ensures
        request@ == yes_no_answer(approval@, approved),
{
    ApprovalRespondParams {
        approval_id: approval.id.clone(),
        decision: if approved {
            ApprovalDecision::Approve
        } else {
            ApprovalDecision::Reject
        },
        answers: None,
    }
}

/// The answer to an approval whose questions were asked; nothing while a line is wanted.
pub fn answer_questions(approval: &PendingApproval, outcome: &Outcome) -> (request: Option<
    ApprovalRespondParams,
>)
    ensures
        text::opt_view(request) == match outcome@ {
            OutcomeView::Waiting => None,
            OutcomeView::Decided { decision, answers } => Some(
                ApprovalRespondParamsView { approval_id: approval@.id, decision, answers },
            ),
        },
{
    match outcome {
        Outcome::Waiting => None,
        Outcome::Decided { decision, answers } => Some(
            ApprovalRespondParams {
                approval_id: approval.id.clone(),
                decision: *decision,
                answers: text::copy_maybe(answers),
            },
        ),
    }
}

/// Giving up on a question rejects the approval, whatever was answered before.
pub proof fn law_giving_up_rejects(sheet: AnswerSheetView)
    ensures
        outcome_after(sheet, Seq::empty()) == (OutcomeView::Decided {
            decision: ApprovalDecision::Reject,
            answers: None,
        }),
{
}

proof fn lemma_every_question_answered(
    sheet: AnswerSheetView,
    lines: Seq<Seq<char>>,
    answers: Map<Seq<char>, ApprovalAnswerView>,
    i: int,
)
    requires
        asks(sheet),
        sheet.questions.len() <= usize::MAX,
        forall|j: int|
            0 <= j < sheet.answered ==> sheet.answers.contains_key((#[trigger] sheet.questions[j]).id),
        outcome_of(sheet, lines) == (OutcomeView::Decided {
            decision: ApprovalDecision::Approve,
            answers: Some(answers),
        }),
        0 <= i < sheet.questions.len(),
    ensures
        answers.contains_key(sheet.questions[i].id),
    decreases lines.len(),
{
    let next = sheet_after(sheet, lines[0]);
    assert forall|j: int| 0 <= j < next.answered implies next.answers.contains_key(
        (#[trigger] next.questions[j]).id,
    ) by {
        assert(next.questions[j] == sheet.questions[j]);
    }
    match outcome_after(sheet, lines[0]) {
        OutcomeView::Waiting => {
            lemma_every_question_answered(next, lines.skip(1), answers, i);
        },
        _ => {
            assert(next.answered == next.questions.len());
            assert(next.questions[i] == sheet.questions[i]);
        },
    }
}

/// An approval is granted only with an answer to every question: each question has one in what is
/// sent.
pub proof fn law_approval_answers_every_question(
    questions: Seq<ApprovalQuestionView>,
    lines: Seq<Seq<char>>,
    answers: Map<Seq<char>, ApprovalAnswerView>,
    i: int,
)
    requires
        questions.len() <= usize::MAX,
        collected(questions, lines) == (OutcomeView::Decided {
            decision: ApprovalDecision::Approve,
            answers: Some(answers),
        }),
        0 <= i < questions.len(),
    ensures
        answers.contains_key(questions[i].id),
{
    lemma_every_question_answered(blank_sheet(questions), lines, answers, i);
}

// -- What answers mean -----------------------------------------------------------------------------------

/// Only the words for yes are yes, in whatever case and with whatever white space around them; nothing
/// at all is no.
pub proof fn law_only_yes_is_yes(line: Seq<char>)
    ensures
        yes_or_no(line) == Some(true) <==> text::lower(text::trim_of(line)) == "y"@ || text::lower(
            text::trim_of(line),
        ) == "yes"@,
        text::blank(line) ==> yes_or_no(line) == Some(false),
        yes_or_no(line) == Some(false) <==> text::blank(line) || text::lower(text::trim_of(line))
            == "n"@ || text::lower(text::trim_of(line)) == "no"@,
{
    text::lemma_trim_blank_iff(line);
    reveal_strlit("y");
    reveal_strlit("yes");
    reveal_strlit("n");
    reveal_strlit("no");
    assert("y"@.len() == 1 && "n"@.len() == 1 && "yes"@.len() == 3 && "no"@.len() == 2);
    assert("y"@[0] == 'y' && "n"@[0] == 'n');
    assert(text::lower(text::trim_of(line)).len() == text::trim_of(line).len());
}

/// Yes goes out as an approval, and no as a rejection, of the approval that was asked.
pub proof fn law_the_answer_goes_out_as_it_was_given(approval: PendingApprovalView, approved: bool)
    ensures
        yes_no_answer(approval, approved).approval_id == approval.id,
        yes_no_answer(approval, approved).decision == ApprovalDecision::Approve <==> approved,
        yes_no_answer(approval, approved).decision == ApprovalDecision::Reject <==> !approved,
        yes_no_answer(approval, approved).answers is None,
{
}

/// The number of an option is answered by that option; a number that none has is not an answer; and
/// words are one only where the question takes them.
pub proof fn law_a_number_is_answered_by_its_option(
    question: ApprovalQuestionView,
    n: nat,
    words: Seq<char>,
)
    requires
        0 < n <= usize::MAX,
        words.len() > 0,
        text::number_of(words) is None,
    ensures
        question.options matches Some(options) ==> (n <= options.len() ==> line_answer(
            question,
            text::decimal(n),
        ) == LineAnswerView::Given(options[n - 1].label)),
        question.options matches Some(options) ==> (n > options.len() && n > 1 ==> line_answer(
            question,
            text::decimal(n),
        ) == LineAnswerView::OutOfRange),
        question.options is None ==> line_answer(question, words) == LineAnswerView::Given(words)
            && line_answer(question, text::decimal(n)) == LineAnswerView::Given(text::decimal(n)),
        question.options is Some && question.is_other ==> line_answer(question, words)
            == LineAnswerView::Given(words),
        question.options is Some && !question.is_other ==> line_answer(question, words)
            == LineAnswerView::NotAnOption,
        line_answer(question, Seq::empty()) == LineAnswerView::Cancel,
{
    text::lemma_decimal_reads_back(n);
}

/// A line that is an answer is kept for its question, and the next one is asked; one that is not changes
/// nothing, and is complained of unless it gives up.
pub proof fn law_an_answer_is_kept_for_its_question(sheet: AnswerSheetView, line: Seq<char>)
    requires
        sheet.answered < sheet.questions.len() <= usize::MAX,
    ensures
        ({
            let question = sheet.questions[sheet.answered as int];
            let after = sheet_after(sheet, line);
            &&& after.questions == sheet.questions
            &&& match line_answer(question, line) {
                LineAnswerView::Given(words) => {
                    &&& after.answered == sheet.answered + 1
                    &&& after.answers.contains_key(question.id)
                    &&& after.answers[question.id].answers == seq![words]
                    &&& forall|id: Seq<char>|
                        id != question.id ==> (after.answers.contains_key(id)
                            <==> sheet.answers.contains_key(id)) && (sheet.answers.contains_key(id)
                            ==> #[trigger] after.answers[id] == sheet.answers[id])
                },
                answer => after == sheet && (complaint_of(answer) is None <==> answer is Cancel),
            }
        }),
{
}

/// The approval goes on with exactly the answers that were kept, once none is missing; until then it
/// waits.
pub proof fn law_all_answers_go_out(sheet: AnswerSheetView, line: Seq<char>)
    requires
        sheet.answered < sheet.questions.len() <= usize::MAX,
        line.len() > 0,
    ensures
        ({
            let after = sheet_after(sheet, line);
            &&& after.answered < after.questions.len() ==> outcome_after(sheet, line)
                == OutcomeView::Waiting
            &&& after.answered == after.questions.len() ==> outcome_after(sheet, line) == (
            OutcomeView::Decided {
                decision: ApprovalDecision::Approve,
                answers: Some(after.answers),
            })
        }),
{
}

/// An approval that asks questions is put as questions where they can be read, and never as a mere yes
/// or no; any other is put as a yes or no.
pub proof fn law_questions_are_put_as_questions(
    approval: PendingApprovalView,
    questions: Option<Seq<ApprovalQuestionView>>,
)
    ensures
        asking_of(approval, questions) == Asking::YesNo <==> approval.kind
            != ApprovalKind::RequestUserInput,
        asking_of(approval, questions) == Asking::Questions <==> approval.kind
            == ApprovalKind::RequestUserInput && questions is Some,
        collected(Seq::empty(), Seq::empty()) == (OutcomeView::Decided {
            decision: ApprovalDecision::Reject,
            answers: None,
        }),
{
}

/// What is shown of an approval names it and describes it; what is shown of a question puts it, and
/// names every option under the number that chooses it.
pub proof fn law_what_is_asked_is_shown(
    approval: PendingApprovalView,
    question: ApprovalQuestionView,
    i: int,
)
    requires
        question.options is Some,
        0 <= i < question.options->0.len(),
    ensures
        text::contains_text(heading_of(approval)[0], approval.title),
        approval.description.len() > 0 ==> heading_of(approval).last() == approval.description,
        text::contains_text(question_text(question)[0], question.question),
        text::contains_text(question_text(question)[0], question.header),
        ({
            let above: int = if question.is_secret {
                2
            } else {
                1
            };
            let line = question_text(question)[above + i];
            let option = question.options->0[i];
            &&& text::contains_text(line, option.label)
            &&& text::contains_text(line, option.description)
            &&& text::begins(line, "  "@ + text::decimal((i + 1) as nat) + ". "@)
        }),
{
    let none = Seq::<char>::empty();
    let head = "\nApproval requested: "@;
    assert(head + approval.title =~= head + approval.title + none);
    text::lemma_contains_inside(head, approval.title, none);
    let asked = "\n"@ + question.header + ": "@ + question.question;
    assert(asked =~= ("\n"@ + question.header + ": "@) + question.question + none);
    text::lemma_contains_inside("\n"@ + question.header + ": "@, question.question, none);
    assert(asked =~= "\n"@ + question.header + (": "@ + question.question));
    text::lemma_contains_inside("\n"@, question.header, ": "@ + question.question);
    assert(question_text(question)[0] == asked);
    let above: int = if question.is_secret {
        2
    } else {
        1
    };
    let option = question.options->0[i];
    let line = option_line(option, i);
    assert(question_text(question)[above + i] == line);
    let number = session::numbered(i);
    assert(line =~= number + option.label + (" - "@ + option.description));
    text::lemma_contains_inside(number, option.label, " - "@ + option.description);
    assert(line =~= (number + option.label + " - "@) + option.description + none);
    text::lemma_contains_inside(number + option.label + " - "@, option.description, none);
    assert(line.take(number.len() as int) =~= number);
}

/// A question that asks for a secret says so, and one that takes words says that; what is no answer is
/// complained of by what is wrong with it.
pub proof fn law_secrets_and_complaints_are_told(question: ApprovalQuestionView)
    ensures
        question.is_secret ==> question_text(question)[1]
            == "(secret input; terminal echo is still enabled in this minimal client)"@,
        complaint_of(LineAnswerView::OutOfRange) == Some("Selection out of range."@),
        complaint_of(LineAnswerView::NotAnOption) == Some(
            "Enter one of the listed option numbers."@,
        ),
        blank_sheet(seq![question]).answered == 0,
        blank_sheet(seq![question]).answers.dom().is_empty(),
        blank_sheet(seq![question]).questions == seq![question],
{
}

} // verus!
