//! What the client and the runtime say to each other.
use vstd::prelude::*;
use crate::artifacts::{ArtifactManifest, ArtifactManifestView, ArtifactPreview, ArtifactPreviewView};
use crate::ids::{LocalThreadId, LocalTurnId};
use crate::skills::{SkillDescriptor, SkillDescriptorView};
use crate::text;
use crate::threads::{ThreadRecord, ThreadRecordView, TurnRecord, TurnRecordView};
use crate::ui::{PendingApproval, PendingApprovalView};

verus! {

/// One piece of what the user sends.
#[derive(Debug, PartialEq)]
pub enum UserInput {
    Skill { name: String, path: String },
    Text { text: String },
}

/// The model of `UserInput`.
#[verifier::ext_equal]
pub enum UserInputView {
    Skill { name: Seq<char>, path: Seq<char> },
    Text { text: Seq<char> },
}

impl View for UserInput {
    type V = UserInputView;

    open spec fn view(&self) -> UserInputView {
        match *self {
            UserInput::Skill { name, path } => UserInputView::Skill { name: name@, path: path@ },
            UserInput::Text { text } => UserInputView::Text { text: text@ },
        }
    }
}

impl Clone for UserInput {
    fn clone(&self) -> (copy: Self)
        ensures
            copy@ == self@,
    {
        match self {
            UserInput::Skill { name, path } => UserInput::Skill {
                name: name.clone(),
                path: path.clone(),
            },
            UserInput::Text { text } => UserInput::Text { text: text.clone() },
        }
    }
}

/// The answer to an approval.
#[derive(Clone, Copy, Debug, PartialEq, Eq, Structural)]
pub enum ApprovalDecision {
    Approve,
    Reject,
}

/// The answers to one question.
#[derive(Debug, PartialEq)]
pub struct ApprovalAnswer {
    pub answers: Vec<String>,
}

/// The model of `ApprovalAnswer`.
#[verifier::ext_equal]
pub struct ApprovalAnswerView {
    pub answers: Seq<Seq<char>>,
}

impl View for ApprovalAnswer {
    type V = ApprovalAnswerView;

    open spec fn view(&self) -> ApprovalAnswerView {
        ApprovalAnswerView {
            answers: text::views(self.answers@),
        }
    }
}

impl Clone for ApprovalAnswer {
    fn clone(&self) -> (copy: Self)
        ensures
            copy@ == self@,
    {
        ApprovalAnswer {
            answers: text::copy_all(&self.answers),
        }
    }
}

/// One of the answers that a question offers.
#[derive(Debug, PartialEq)]
pub struct ApprovalQuestionOption {
    pub label: String,
    pub description: String,
}

/// The model of `ApprovalQuestionOption`.
#[verifier::ext_equal]
pub struct ApprovalQuestionOptionView {
    pub label: Seq<char>,
    pub description: Seq<char>,
}

impl View for ApprovalQuestionOption {
    type V = ApprovalQuestionOptionView;

    open spec fn view(&self) -> ApprovalQuestionOptionView {
        ApprovalQuestionOptionView {
            label: self.label@,
            description: self.description@,
        }
    }
}

impl Clone for ApprovalQuestionOption {
    fn clone(&self) -> (copy: Self)
        ensures
            copy@ == self@,
    {
        ApprovalQuestionOption {
            label: self.label.clone(),
            description: self.description.clone(),
        }
    }
}

/// A question that an approval asks.
#[derive(Debug, PartialEq)]
pub struct ApprovalQuestion {
    pub id: String,
    pub header: String,
    pub question: String,
    pub is_other: bool,
    pub is_secret: bool,
    pub options: Option<Vec<ApprovalQuestionOption>>,
}

/// The model of `ApprovalQuestion`.
#[verifier::ext_equal]
pub struct ApprovalQuestionView {
    pub id: Seq<char>,
    pub header: Seq<char>,
    pub question: Seq<char>,
    pub is_other: bool,
    pub is_secret: bool,
    pub options: Option<Seq<ApprovalQuestionOptionView>>,
}

impl View for ApprovalQuestion {
    type V = ApprovalQuestionView;

    open spec fn view(&self) -> ApprovalQuestionView {
        ApprovalQuestionView {
            id: self.id@,
            header: self.header@,
            question: self.question@,
            is_other: self.is_other,
            is_secret: self.is_secret,
            options: text::opt_views(self.options),
        }
    }
}

impl Clone for ApprovalQuestion {
    fn clone(&self) -> (copy: Self)
        ensures
            copy@ == self@,
    {
        ApprovalQuestion {
            id: self.id.clone(),
            header: self.header.clone(),
            question: self.question.clone(),
            is_other: self.is_other,
            is_secret: self.is_secret,
            options: text::copy_maybe_all(&self.options),
        }
    }
}

/// The questions that an approval asks.
#[derive(Debug, PartialEq)]
pub struct ApprovalQuestionPayload {
    pub questions: Vec<ApprovalQuestion>,
}

/// The model of `ApprovalQuestionPayload`.
#[verifier::ext_equal]
pub struct ApprovalQuestionPayloadView {
    pub questions: Seq<ApprovalQuestionView>,
}

impl View for ApprovalQuestionPayload {
    type V = ApprovalQuestionPayloadView;

    open spec fn view(&self) -> ApprovalQuestionPayloadView {
        ApprovalQuestionPayloadView {
            questions: text::views(self.questions@),
        }
    }
}

impl Clone for ApprovalQuestionPayload {
    fn clone(&self) -> (copy: Self)
        ensures
            copy@ == self@,
    {
        ApprovalQuestionPayload {
            questions: text::copy_all(&self.questions),
        }
    }
}

/// One file of a change, and what was done to it.
#[derive(Debug, PartialEq)]
pub struct ProjectedFileChange {
    pub path: String,
    pub kind: String,
}

/// The model of `ProjectedFileChange`.
#[verifier::ext_equal]
pub struct ProjectedFileChangeView {
    pub path: Seq<char>,
    pub kind: Seq<char>,
}

impl View for ProjectedFileChange {
    type V = ProjectedFileChangeView;

    open spec fn view(&self) -> ProjectedFileChangeView {
        ProjectedFileChangeView {
            path: self.path@,
            kind: self.kind@,
        }
    }
}

impl Clone for ProjectedFileChange {
    fn clone(&self) -> (copy: Self)
        ensures
            copy@ == self@,
    {
        ProjectedFileChange {
            path: self.path.clone(),
            kind: self.kind.clone(),
        }
    }
}

/// An item of a turn that the transcript shows.
#[derive(Debug, PartialEq)]
pub enum ProjectableThreadItem {
    CommandExecution {
        id: String,
        command: String,
        aggregated_output: Option<String>,
        status: Option<String>,
    },
    FileChange { changes: Vec<ProjectedFileChange>, status: Option<String> },
    Plan { text: String },
}

/// The model of `ProjectableThreadItem`.
#[verifier::ext_equal]
pub enum ProjectableThreadItemView {
    CommandExecution {
        id: Seq<char>,
        command: Seq<char>,
        aggregated_output: Option<Seq<char>>,
        status: Option<Seq<char>>,
    },
    FileChange { changes: Seq<ProjectedFileChangeView>, status: Option<Seq<char>> },
    Plan { text: Seq<char> },
}

impl View for ProjectableThreadItem {
    type V = ProjectableThreadItemView;

    open spec fn view(&self) -> ProjectableThreadItemView {
        match *self {
            ProjectableThreadItem::CommandExecution {
                id,
                command,
                aggregated_output,
                status,
            } => ProjectableThreadItemView::CommandExecution {
                id: id@,
                command: command@,
                aggregated_output: text::opt_view(aggregated_output),
                status: text::opt_view(status),
            },
            ProjectableThreadItem::FileChange {
                changes,
                status,
            } => ProjectableThreadItemView::FileChange {
                changes: text::views(changes@),
                status: text::opt_view(status),
            },
            ProjectableThreadItem::Plan { text } => ProjectableThreadItemView::Plan { text: text@ },
        }
    }
}

impl Clone for ProjectableThreadItem {
    fn clone(&self) -> (copy: Self)
        ensures
            copy@ == self@,
    {
        match self {
            ProjectableThreadItem::CommandExecution {
                id,
                command,
                aggregated_output,
                status,
            } => ProjectableThreadItem::CommandExecution {
                id: id.clone(),
                command: command.clone(),
                aggregated_output: text::copy_maybe(aggregated_output),
                status: text::copy_maybe(status),
            },
            ProjectableThreadItem::FileChange {
                changes,
                status,
            } => ProjectableThreadItem::FileChange {
                changes: text::copy_all(changes),
                status: text::copy_maybe(status),
            },
            ProjectableThreadItem::Plan { text } => ProjectableThreadItem::Plan {
                text: text.clone(),
            },
        }
    }
}

/// Whether an item has just begun or is done.
#[derive(Clone, Copy, Debug, PartialEq, Eq, Structural)]
pub enum ProjectedItemPhase {
    Started,
    Completed,
}

/// The state of a step of a plan.
#[derive(Clone, Copy, Debug, PartialEq, Eq, Structural)]
pub enum RestoredPlanStepStatus {
    Pending,
    InProgress,
    Completed,
}

/// A step of a plan.
#[derive(Debug, PartialEq)]
pub struct RestoredPlanStep {
    pub step: String,
    pub status: RestoredPlanStepStatus,
}

/// The model of `RestoredPlanStep`.
#[verifier::ext_equal]
pub struct RestoredPlanStepView {
    pub step: Seq<char>,
    pub status: RestoredPlanStepStatus,
}

impl View for RestoredPlanStep {
    type V = RestoredPlanStepView;

    open spec fn view(&self) -> RestoredPlanStepView {
        RestoredPlanStepView {
            step: self.step@,
            status: self.status,
        }
    }
}

impl Clone for RestoredPlanStep {
    fn clone(&self) -> (copy: Self)
        ensures
            copy@ == self@,
    {
        RestoredPlanStep {
            step: self.step.clone(),
            status: self.status,
        }
    }
}

/// A new state of a plan.
#[derive(Debug, PartialEq)]
pub struct RestoredPlanUpdatePayload {
    pub explanation: Option<String>,
    pub plan: Vec<RestoredPlanStep>,
}

/// The model of `RestoredPlanUpdatePayload`.
#[verifier::ext_equal]
pub struct RestoredPlanUpdatePayloadView {
    pub explanation: Option<Seq<char>>,
    pub plan: Seq<RestoredPlanStepView>,
}

impl View for RestoredPlanUpdatePayload {
    type V = RestoredPlanUpdatePayloadView;

    open spec fn view(&self) -> RestoredPlanUpdatePayloadView {
        RestoredPlanUpdatePayloadView {
            explanation: text::opt_view(self.explanation),
            plan: text::views(self.plan@),
        }
    }
}

impl Clone for RestoredPlanUpdatePayload {
    fn clone(&self) -> (copy: Self)
        ensures
            copy@ == self@,
    {
        RestoredPlanUpdatePayload {
            explanation: text::copy_maybe(&self.explanation),
            plan: text::copy_all(&self.plan),
        }
    }
}

/// An artifact that was made or changed.
#[derive(Debug, PartialEq)]
pub struct ArtifactNotification {
    pub manifest: ArtifactManifest,
    pub preview: ArtifactPreview,
}

/// The model of `ArtifactNotification`.
#[verifier::ext_equal]
pub struct ArtifactNotificationView {
    pub manifest: ArtifactManifestView,
    pub preview: ArtifactPreviewView,
}

impl View for ArtifactNotification {
    type V = ArtifactNotificationView;

    open spec fn view(&self) -> ArtifactNotificationView {
        ArtifactNotificationView {
            manifest: self.manifest@,
            preview: self.preview@,
        }
    }
}

impl Clone for ArtifactNotification {
    fn clone(&self) -> (copy: Self)
        ensures
            copy@ == self@,
    {
        ArtifactNotification {
            manifest: self.manifest.clone(),
            preview: self.preview.clone(),
        }
    }
}

/// One answered question.
#[derive(Debug, PartialEq)]
struct AnswerEntry {
    key: String,
    answer: ApprovalAnswer,
}

/// The answers that a list of entries gives: of two entries with one key the later counts.
spec fn answers_of(entries: Seq<AnswerEntry>) -> Map<Seq<char>, ApprovalAnswerView>
    decreases entries.len(),
{
    if entries.len() == 0 {
        Map::empty()
    } else {
        answers_of(entries.drop_last()).insert(entries.last().key@, entries.last().answer@)
    }
}

/// Answers by the identifier of the question.
#[derive(Debug, PartialEq)]
pub struct AnswerMap {
    entries: Vec<AnswerEntry>,
}

impl View for AnswerMap {
    type V = Map<Seq<char>, ApprovalAnswerView>;

    closed spec fn view(&self) -> Map<Seq<char>, ApprovalAnswerView> {
        answers_of(self.entries@)
    }
}

proof fn lemma_replace_answer(entries: Seq<AnswerEntry>, i: int, entry: AnswerEntry)
    requires
        0 <= i < entries.len(),
        entries[i].key@ == entry.key@,
        forall|j: int| i < j < entries.len() ==> #[trigger] entries[j].key@ != entry.key@,
    ensures
        answers_of(entries.update(i, entry)) == answers_of(entries).insert(
            entry.key@,
            entry.answer@,
        ),
    decreases entries.len(),
{
    let rest = entries.drop_last();
    if i == entries.len() - 1 {
        assert(entries.update(i, entry).drop_last() =~= rest);
        assert(answers_of(entries.update(i, entry)) =~= answers_of(entries).insert(
            entry.key@,
            entry.answer@,
        ));
    } else {
        assert(entries.update(i, entry).drop_last() =~= rest.update(i, entry));
        assert forall|j: int| i < j < rest.len() implies #[trigger] rest[j].key@ != entry.key@ by {
            assert(rest[j] == entries[j]);
        }
        lemma_replace_answer(rest, i, entry);
        assert(entries[entries.len() - 1].key@ != entry.key@);
        assert(answers_of(entries.update(i, entry)) =~= answers_of(entries).insert(
            entry.key@,
            entry.answer@,
        ));
    }
}

proof fn lemma_missing_answer(entries: Seq<AnswerEntry>, key: Seq<char>)
    requires
        forall|j: int| 0 <= j < entries.len() ==> #[trigger] entries[j].key@ != key,
    ensures
        !answers_of(entries).contains_key(key),
    decreases entries.len(),
{
    if entries.len() > 0 {
        let rest = entries.drop_last();
        assert forall|j: int| 0 <= j < rest.len() implies #[trigger] rest[j].key@ != key by {
            assert(rest[j] == entries[j]);
        }
        lemma_missing_answer(rest, key);
        assert(entries[entries.len() - 1].key@ != key);
    }
}

proof fn lemma_found_answer(entries: Seq<AnswerEntry>, i: int)
    requires
        0 <= i < entries.len(),
        forall|j: int| i < j < entries.len() ==> #[trigger] entries[j].key@ != entries[i].key@,
    ensures
        answers_of(entries).contains_key(entries[i].key@),
        answers_of(entries)[entries[i].key@] == entries[i].answer@,
    decreases entries.len(),
{
    if i < entries.len() - 1 {
        let rest = entries.drop_last();
        assert forall|j: int| i < j < rest.len() implies #[trigger] rest[j].key@
            != rest[i].key@ by {
            assert(rest[j] == entries[j]);
        }
        lemma_found_answer(rest, i);
        assert(entries[entries.len() - 1].key@ != entries[i].key@);
    }
}

impl AnswerMap {
    /// No answers.
    pub fn new() -> (made: Self)
        ensures
            made@ == Map::<Seq<char>, ApprovalAnswerView>::empty(),
    {
        AnswerMap { entries: Vec::new() }
    }

    /// The index after the last entry with a key, or nothing before it.
    fn position(&self, key: &str) -> (after: usize)
        ensures
            after <= self.entries@.len(),
            after > 0 ==> self.entries@[after - 1].key@ == key@,
            forall|j: int| after <= j < self.entries@.len() ==> #[trigger] self.entries@[j].key@ != key@,
    {
        let mut after: usize = self.entries.len();
        while after > 0 && !text::same_text(self.entries[after - 1].key.as_str(), key)
            invariant
                after <= self.entries@.len(),
                forall|j: int|
                    after <= j < self.entries@.len() ==> #[trigger] self.entries@[j].key@ != key@,
            decreases after,
        {
            after = after - 1;
        }
        after
    }

    /// Gives a question its answer, in place of one that it had.
    pub fn insert(&mut self, key: String, answer: ApprovalAnswer)
        ensures
            final(self)@ == old(self)@.insert(key@, answer@),
    {
        let after: usize = self.position(key.as_str());
        let entry = AnswerEntry { key, answer };
        if after > 0 {
            proof {
                lemma_replace_answer(self.entries@, after - 1, entry);
            }
            self.entries.set(after - 1, entry);
        } else {
            let ghost before = self.entries@;
            self.entries.push(entry);
            assert(self.entries@.drop_last() =~= before);
        }
    }

    /// The answer to a question.
    pub fn get(&self, key: &str) -> (found: Option<ApprovalAnswer>)
        ensures
            match found {
                Some(answer) => self@.contains_key(key@) && answer@ == self@[key@],
                None => !self@.contains_key(key@),
            },
    {
        let after: usize = self.position(key);
        if after > 0 {
            proof {
                lemma_found_answer(self.entries@, after - 1);
            }
            Some(self.entries[after - 1].answer.clone())
        } else {
            proof {
                lemma_missing_answer(self.entries@, key@);
            }
            None
        }
    }

    /// The number of questions answered.
    pub fn len(&self) -> (n: usize)
        ensures
            self@.dom().finite(),
            n == self@.dom().len(),
    {
        let keys: Vec<String> = self.keys();
        proof {
            text::views(keys@).unique_seq_to_set();
            assert(text::views(keys@).to_set() =~= self@.dom());
        }
        keys.len()
    }

    /// The identifiers of the questions answered, each once.
    pub fn keys(&self) -> (seen: Vec<String>)
        ensures
            text::views(seen@).no_duplicates(),
            forall|key: Seq<char>| text::views(seen@).contains(key) <==> self@.contains_key(key),
    {
        let mut seen: Vec<String> = Vec::new();
        let mut i: usize = 0;
        let ghost all = self.entries@;
        assert(all.take(0) =~= Seq::<AnswerEntry>::empty());
        assert(text::views(seen@).to_set() =~= answers_of(all.take(0)).dom());
        while i < self.entries.len()
            invariant
                i <= self.entries@.len(),
                all == self.entries@,
                text::views(seen@).no_duplicates(),
                text::views(seen@).to_set() == answers_of(all.take(i as int)).dom(),
            decreases self.entries@.len() - i,
        {
            let ghost before = text::views(seen@);
            assert(all.take(i + 1).drop_last() =~= all.take(i as int));
            let mut j: usize = 0;
            let mut known: bool = false;
            while j < seen.len() && !known
                invariant
                    i < self.entries@.len(),
                    j <= seen@.len(),
                    before == text::views(seen@),
                    known ==> before.contains(self.entries@[i as int].key@),
                    !known ==> forall|k: int|
                        0 <= k < j ==> before[k] != self.entries@[i as int].key@,
                decreases seen@.len() - j, (if known { 0int } else { 1int }),
            {
                assert(before[j as int] == seen@[j as int]@);
                if text::same_text(seen[j].as_str(), self.entries[i].key.as_str()) {
                    known = true;
                } else {
                    j = j + 1;
                }
            }
            let ghost key = self.entries@[i as int].key@;
            if !known {
                assert(!before.contains(key));
                seen.push(self.entries[i].key.clone());
                assert(text::views(seen@) =~= before.push(key));
                assert(before.push(key).to_set() =~= before.to_set().insert(key)) by {
                    broadcast use vstd::seq_lib::group_seq_properties;

                }
            } else {
                assert(before.to_set() =~= before.to_set().insert(key));
            }
            assert(answers_of(all.take(i + 1)).dom() =~= answers_of(all.take(i as int)).dom().insert(
                key,
            ));
            i = i + 1;
        }
        assert(all.take(all.len() as int) =~= all);
        assert forall|key: Seq<char>| text::views(seen@).contains(key) <==> self@.contains_key(
            key,
        ) by {
            assert(text::views(seen@).to_set().contains(key) <==> self@.dom().contains(key));
        }
        seen
    }
}

impl Clone for AnswerMap {
    fn clone(&self) -> (copy: Self)
        ensures
            copy@ == self@,
    {
        let mut copy = AnswerMap::new();
        let mut i: usize = 0;
        assert(self.entries@.take(0) =~= Seq::<AnswerEntry>::empty());
        while i < self.entries.len()
            invariant
                i <= self.entries@.len(),
                copy@ == answers_of(self.entries@.take(i as int)),
            decreases self.entries@.len() - i,
        {
            assert(self.entries@.take(i + 1).drop_last() =~= self.entries@.take(i as int));
            copy.insert(self.entries[i].key.clone(), self.entries[i].answer.clone());
            i = i + 1;
        }
        assert(self.entries@.take(self.entries@.len() as int) =~= self.entries@);
        copy
    }
}

/// The answer that is sent for an approval.
#[derive(Debug, PartialEq)]
pub struct ApprovalRespondParams {
    pub approval_id: String,
    pub decision: ApprovalDecision,
    pub answers: Option<AnswerMap>,
}

/// The model of `ApprovalRespondParams`.
#[verifier::ext_equal]
pub struct ApprovalRespondParamsView {
    pub approval_id: Seq<char>,
    pub decision: ApprovalDecision,
    pub answers: Option<Map<Seq<char>, ApprovalAnswerView>>,
}

impl View for ApprovalRespondParams {
    type V = ApprovalRespondParamsView;

    open spec fn view(&self) -> ApprovalRespondParamsView {
        ApprovalRespondParamsView {
            approval_id: self.approval_id@,
            decision: self.decision,
            answers: text::opt_view(self.answers),
        }
    }
}

impl Clone for ApprovalRespondParams {
    fn clone(&self) -> (copy: Self)
        ensures
            copy@ == self@,
    {
        ApprovalRespondParams {
            approval_id: self.approval_id.clone(),
            decision: self.decision,
            answers: text::copy_maybe(&self.answers),
        }
    }
}

/// What the runtime tells the client.
#[derive(Debug, PartialEq)]
pub enum ServerNotification {
    ThreadStarted { thread: ThreadRecord },
    ThreadStatusChanged { thread: ThreadRecord },
    TurnStarted { thread_id: LocalThreadId, turn: TurnRecord },
    TurnCompleted { thread_id: LocalThreadId, turn: TurnRecord },
    PlanUpdated { thread_id: LocalThreadId, turn_id: LocalTurnId, summary: String },
    ItemStarted {
        thread_id: LocalThreadId,
        turn_id: LocalTurnId,
        item: Option<ProjectableThreadItem>,
    },
    ItemCompleted {
        thread_id: LocalThreadId,
        turn_id: LocalTurnId,
        item: Option<ProjectableThreadItem>,
    },
    AgentMessageDelta {
        thread_id: LocalThreadId,
        turn_id: LocalTurnId,
        item_id: String,
        delta: String,
    },
    CommandExecutionOutputDelta {
        thread_id: LocalThreadId,
        turn_id: LocalTurnId,
        item_id: String,
        delta: String,
    },
    ArtifactCreated { manifest: ArtifactManifest, preview: ArtifactPreview },
    ArtifactUpdated { manifest: ArtifactManifest, preview: ArtifactPreview },
    RuntimeStatusChanged,
    SkillsChanged { skills: Vec<SkillDescriptor> },
    ApprovalRequested { approval: PendingApproval },
    Warning { message: String },
    Error { message: String },
}

/// The model of `ServerNotification`.
#[verifier::ext_equal]
pub enum ServerNotificationView {
    ThreadStarted { thread: ThreadRecordView },
    ThreadStatusChanged { thread: ThreadRecordView },
    TurnStarted { thread_id: Seq<char>, turn: TurnRecordView },
    TurnCompleted { thread_id: Seq<char>, turn: TurnRecordView },
    PlanUpdated { thread_id: Seq<char>, turn_id: Seq<char>, summary: Seq<char> },
    ItemStarted {
        thread_id: Seq<char>,
        turn_id: Seq<char>,
        item: Option<ProjectableThreadItemView>,
    },
    ItemCompleted {
        thread_id: Seq<char>,
        turn_id: Seq<char>,
        item: Option<ProjectableThreadItemView>,
    },
    AgentMessageDelta {
        thread_id: Seq<char>,
        turn_id: Seq<char>,
        item_id: Seq<char>,
        delta: Seq<char>,
    },
    CommandExecutionOutputDelta {
        thread_id: Seq<char>,
        turn_id: Seq<char>,
        item_id: Seq<char>,
        delta: Seq<char>,
    },
    ArtifactCreated { manifest: ArtifactManifestView, preview: ArtifactPreviewView },
    ArtifactUpdated { manifest: ArtifactManifestView, preview: ArtifactPreviewView },
    RuntimeStatusChanged,
    SkillsChanged { skills: Seq<SkillDescriptorView> },
    ApprovalRequested { approval: PendingApprovalView },
    Warning { message: Seq<char> },
    Error { message: Seq<char> },
}

impl View for ServerNotification {
    type V = ServerNotificationView;

    open spec fn view(&self) -> ServerNotificationView {
        match *self {
            ServerNotification::ThreadStarted { thread } => ServerNotificationView::ThreadStarted {
                thread: thread@,
            },
            ServerNotification::ThreadStatusChanged {
                thread,
            } => ServerNotificationView::ThreadStatusChanged {
                thread: thread@,
            },
            ServerNotification::TurnStarted {
                thread_id,
                turn,
            } => ServerNotificationView::TurnStarted {
                thread_id: thread_id@,
                turn: turn@,
            },
            ServerNotification::TurnCompleted {
                thread_id,
                turn,
            } => ServerNotificationView::TurnCompleted {
                thread_id: thread_id@,
                turn: turn@,
            },
            ServerNotification::PlanUpdated {
                thread_id,
                turn_id,
                summary,
            } => ServerNotificationView::PlanUpdated {
                thread_id: thread_id@,
                turn_id: turn_id@,
                summary: summary@,
            },
            ServerNotification::ItemStarted {
                thread_id,
                turn_id,
                item,
            } => ServerNotificationView::ItemStarted {
                thread_id: thread_id@,
                turn_id: turn_id@,
                item: text::opt_view(item),
            },
            ServerNotification::ItemCompleted {
                thread_id,
                turn_id,
                item,
            } => ServerNotificationView::ItemCompleted {
                thread_id: thread_id@,
                turn_id: turn_id@,
                item: text::opt_view(item),
            },
            ServerNotification::AgentMessageDelta {
                thread_id,
                turn_id,
                item_id,
                delta,
            } => ServerNotificationView::AgentMessageDelta {
                thread_id: thread_id@,
                turn_id: turn_id@,
                item_id: item_id@,
                delta: delta@,
            },
            ServerNotification::CommandExecutionOutputDelta {
                thread_id,
                turn_id,
                item_id,
                delta,
            } => ServerNotificationView::CommandExecutionOutputDelta {
                thread_id: thread_id@,
                turn_id: turn_id@,
                item_id: item_id@,
                delta: delta@,
            },
            ServerNotification::ArtifactCreated {
                manifest,
                preview,
            } => ServerNotificationView::ArtifactCreated {
                manifest: manifest@,
                preview: preview@,
            },
            ServerNotification::ArtifactUpdated {
                manifest,
                preview,
            } => ServerNotificationView::ArtifactUpdated {
                manifest: manifest@,
                preview: preview@,
            },
            ServerNotification::RuntimeStatusChanged => ServerNotificationView::RuntimeStatusChanged,
            ServerNotification::SkillsChanged { skills } => ServerNotificationView::SkillsChanged {
                skills: text::views(skills@),
            },
            ServerNotification::ApprovalRequested {
                approval,
            } => ServerNotificationView::ApprovalRequested {
                approval: approval@,
            },
            ServerNotification::Warning { message } => ServerNotificationView::Warning {
                message: message@,
            },
            ServerNotification::Error { message } => ServerNotificationView::Error {
                message: message@,
            },
        }
    }
}

impl Clone for ServerNotification {
    fn clone(&self) -> (copy: Self)
        ensures
            copy@ == self@,
    {
        match self {
            ServerNotification::ThreadStarted { thread } => ServerNotification::ThreadStarted {
                thread: thread.clone(),
            },
            ServerNotification::ThreadStatusChanged {
                thread,
            } => ServerNotification::ThreadStatusChanged {
                thread: thread.clone(),
            },
            ServerNotification::TurnStarted { thread_id, turn } => ServerNotification::TurnStarted {
                thread_id: thread_id.clone(),
                turn: turn.clone(),
            },
            ServerNotification::TurnCompleted {
                thread_id,
                turn,
            } => ServerNotification::TurnCompleted {
                thread_id: thread_id.clone(),
                turn: turn.clone(),
            },
            ServerNotification::PlanUpdated {
                thread_id,
                turn_id,
                summary,
            } => ServerNotification::PlanUpdated {
                thread_id: thread_id.clone(),
                turn_id: turn_id.clone(),
                summary: summary.clone(),
            },
            ServerNotification::ItemStarted {
                thread_id,
                turn_id,
                item,
            } => ServerNotification::ItemStarted {
                thread_id: thread_id.clone(),
                turn_id: turn_id.clone(),
                item: text::copy_maybe(item),
            },
            ServerNotification::ItemCompleted {
                thread_id,
                turn_id,
                item,
            } => ServerNotification::ItemCompleted {
                thread_id: thread_id.clone(),
                turn_id: turn_id.clone(),
                item: text::copy_maybe(item),
            },
            ServerNotification::AgentMessageDelta {
                thread_id,
                turn_id,
                item_id,
                delta,
            } => ServerNotification::AgentMessageDelta {
                thread_id: thread_id.clone(),
                turn_id: turn_id.clone(),
                item_id: item_id.clone(),
                delta: delta.clone(),
            },
            ServerNotification::CommandExecutionOutputDelta {
                thread_id,
                turn_id,
                item_id,
                delta,
            } => ServerNotification::CommandExecutionOutputDelta {
                thread_id: thread_id.clone(),
                turn_id: turn_id.clone(),
                item_id: item_id.clone(),
                delta: delta.clone(),
            },
            ServerNotification::ArtifactCreated {
                manifest,
                preview,
            } => ServerNotification::ArtifactCreated {
                manifest: manifest.clone(),
                preview: preview.clone(),
            },
            ServerNotification::ArtifactUpdated {
                manifest,
                preview,
            } => ServerNotification::ArtifactUpdated {
                manifest: manifest.clone(),
                preview: preview.clone(),
            },
            ServerNotification::RuntimeStatusChanged => ServerNotification::RuntimeStatusChanged,
            ServerNotification::SkillsChanged { skills } => ServerNotification::SkillsChanged {
                skills: text::copy_all(skills),
            },
            ServerNotification::ApprovalRequested {
                approval,
            } => ServerNotification::ApprovalRequested {
                approval: approval.clone(),
            },
            ServerNotification::Warning { message } => ServerNotification::Warning {
                message: message.clone(),
            },
            ServerNotification::Error { message } => ServerNotification::Error {
                message: message.clone(),
            },
        }
    }
}

/// What the payload of a transcript event stands for, in each of the forms that a transcript knows:
/// the summary of the user's input, a plan, an item of a turn, a request for an approval, the text
/// of a warning, an artifact.
#[derive(Debug, PartialEq)]
pub struct DecodedPayload {
    pub input: Option<String>,
    pub plan: Option<RestoredPlanUpdatePayload>,
    pub item: Option<ProjectableThreadItem>,
    pub approval: Option<PendingApproval>,
    pub warning: Option<String>,
    pub artifact: Option<ArtifactNotification>,
}

/// The model of `DecodedPayload`.
#[verifier::ext_equal]
pub struct DecodedPayloadView {
    pub input: Option<Seq<char>>,
    pub plan: Option<RestoredPlanUpdatePayloadView>,
    pub item: Option<ProjectableThreadItemView>,
    pub approval: Option<PendingApprovalView>,
    pub warning: Option<Seq<char>>,
    pub artifact: Option<ArtifactNotificationView>,
}

impl View for DecodedPayload {
    type V = DecodedPayloadView;

    open spec fn view(&self) -> DecodedPayloadView {
        DecodedPayloadView {
            input: text::opt_view(self.input),
            plan: text::opt_view(self.plan),
            item: text::opt_view(self.item),
            approval: text::opt_view(self.approval),
            warning: text::opt_view(self.warning),
            artifact: text::opt_view(self.artifact),
        }
    }
}

impl Clone for DecodedPayload {
    fn clone(&self) -> (copy: Self)
        ensures
            copy@ == self@,
    {
        DecodedPayload {
            input: text::copy_maybe(&self.input),
            plan: text::copy_maybe(&self.plan),
            item: text::copy_maybe(&self.item),
            approval: text::copy_maybe(&self.approval),
            warning: text::copy_maybe(&self.warning),
            artifact: text::copy_maybe(&self.artifact),
        }
    }
}

} // verus!
