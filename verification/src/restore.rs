//! Replaying a stored transcript.
use vstd::prelude::*;

use crate::artifacts::{ArtifactManifest, ArtifactManifestView};
use crate::cursor;
use crate::json;
use crate::protocol::{DecodedPayload, DecodedPayloadView, ProjectedItemPhase};
use crate::text;
use crate::threads::{TranscriptEvent, TranscriptEventSource, TranscriptEventView};
use crate::transcript;
use crate::ui::{
    AppState, AppStateView, ApprovalCell, ApprovalCellView, ApprovalUiStateView,
    ArtifactUiStateView, AssistantMessageCell, AssistantMessageCellView, HistoryCellModel,
    HistoryCellModelView, PlanUpdateCell, UserMessageCell, UserMessageCellView,
};
use crate::width;

verus! {

broadcast use text::group_views;

// -- Short forms of JSON -------------------------------------------------------------

/// The number of bytes that a short form keeps.
pub const SHORT_BYTES: usize = 120;

/// Whether a text can be cut to its short form between two characters.
pub open spec fn can_shorten(raw: Seq<char>) -> bool {
    cursor::byte_len(raw) > SHORT_BYTES ==> cursor::boundary(raw, SHORT_BYTES as int)
}

/// The short form of a text.
pub open spec fn shortened(raw: Seq<char>) -> Seq<char> {
    if cursor::byte_len(raw) > SHORT_BYTES {
        raw.take(cursor::chars_before(raw, SHORT_BYTES as int)) + "..."@
    } else {
        raw
    }
}

/// Whether a text can be cut to its short form between two characters.
pub fn is_shortenable(raw: &str) -> (b: bool)
    ensures
        b == can_shorten(raw@),
{
    cursor::len_of(raw) <= SHORT_BYTES || cursor::at_boundary(raw, SHORT_BYTES)
}

/// The short form of JSON text.
pub fn compact_json(raw: &str) -> (out: String)
    requires
        can_shorten(raw@),
    ensures
        out@ == shortened(raw@),
{
    if cursor::len_of(raw) > SHORT_BYTES {
        let (head, _tail) = cursor::split_at_byte(raw, SHORT_BYTES);
        text::glue(head.as_str(), "...")
    } else {
        raw.to_owned()
    }
}

// -- Artifacts -------------------------------------------------------------------------

/// The manifests of all artifacts but one.
pub open spec fn without_artifact(manifests: Seq<ArtifactManifestView>, id: Seq<char>) -> Seq<
    ArtifactManifestView,
>
    decreases manifests.len(),
{
    if manifests.len() == 0 {
        Seq::empty()
    } else {
        let rest = without_artifact(manifests.drop_last(), id);
        if manifests.last().id == id {
            rest
        } else {
            rest.push(manifests.last())
        }
    }
}

/// Whether an artifact is among those known.
pub open spec fn knows_artifact(manifests: Seq<ArtifactManifestView>, id: Seq<char>) -> bool {
    exists|i: int| 0 <= i < manifests.len() && (#[trigger] manifests[i]).id == id
}

/// A state in which an artifact has a new manifest, the last of all.
pub open spec fn with_artifact(s: AppStateView, manifest: ArtifactManifestView) -> AppStateView {
    AppStateView {
        artifacts: ArtifactUiStateView {
            manifests: without_artifact(s.artifacts.manifests, manifest.id).push(manifest),
            ..s.artifacts
        },
        ..s
    }
}

/// Gives an artifact a new manifest, and says whether it had one.
pub fn record_restored_artifact(state: &mut AppState, manifest: ArtifactManifest) -> (existed: bool)
    ensures
        final(state)@ == with_artifact(old(state)@, manifest@),
        existed == knows_artifact(old(state)@.artifacts.manifests, manifest@.id),
{
    let ghost all = state@.artifacts.manifests;
    let mut existed: bool = false;
    let mut kept: Vec<ArtifactManifest> = Vec::new();
    let mut i: usize = 0;
    assert(all.take(0) =~= Seq::<ArtifactManifestView>::empty());
    while i < state.artifacts.manifests.len()
        invariant
            i <= state.artifacts.manifests@.len(),
            all == state@.artifacts.manifests,
            all.len() == state.artifacts.manifests@.len(),
            text::views(kept@) == without_artifact(all.take(i as int), manifest@.id),
            existed == knows_artifact(all.take(i as int), manifest@.id),
        decreases state.artifacts.manifests@.len() - i,
    {
        let ghost next = all.take(i + 1);
        assert(next.drop_last() =~= all.take(i as int));
        assert(next.last() == state.artifacts.manifests@[i as int]@);
        if state.artifacts.manifests[i].id.same(&manifest.id) {
            existed = true;
            assert(next[i as int].id == manifest@.id);
        } else {
            let copy: ArtifactManifest = state.artifacts.manifests[i].clone();
            kept.push(copy);
        }
        proof {
            if knows_artifact(all.take(i as int), manifest@.id) {
                let j = choose|j: int|
                    0 <= j < all.take(i as int).len() && (#[trigger] all.take(i as int)[j]).id
                        == manifest@.id;
                assert(next[j].id == manifest@.id);
            }
            if knows_artifact(next, manifest@.id) {
                let j = choose|j: int|
                    0 <= j < next.len() && (#[trigger] next[j]).id == manifest@.id;
                if j < i {
                    assert(all.take(i as int)[j].id == manifest@.id);
                }
            }
        }
        i = i + 1;
    }
    assert(all.take(all.len() as int) =~= all);
    kept.push(manifest);
    state.artifacts.manifests = kept;
    existed
}

proof fn lemma_without_artifact(manifests: Seq<ArtifactManifestView>, id: Seq<char>)
    ensures
        forall|i: int|
            0 <= i < without_artifact(manifests, id).len() ==> (#[trigger] without_artifact(
                manifests,
                id,
            )[i]).id != id,
        forall|m: ArtifactManifestView|
            m.id != id ==> (without_artifact(manifests, id).contains(m) <==> manifests.contains(m)),
    decreases manifests.len(),
{
    if manifests.len() > 0 {
        let rest = manifests.drop_last();
        let kept = without_artifact(rest, id);
        lemma_without_artifact(rest, id);
        assert forall|m: ArtifactManifestView| m.id != id implies (without_artifact(
            manifests,
            id,
        ).contains(m) <==> manifests.contains(m)) by {
            assert(manifests[manifests.len() - 1] == manifests.last());
            if manifests.contains(m) && m != manifests.last() {
                let j = choose|j: int| 0 <= j < manifests.len() && manifests[j] == m;
                assert(rest[j] == m);
                assert(rest.contains(m));
                let k = choose|k: int| 0 <= k < kept.len() && kept[k] == m;
                assert(without_artifact(manifests, id)[k] == m);
            }
            if manifests.contains(m) && m == manifests.last() {
                assert(without_artifact(manifests, id)[kept.len() as int] == m);
            }
            if without_artifact(manifests, id).contains(m) && m != manifests.last() {
                let k = choose|k: int|
                    0 <= k < without_artifact(manifests, id).len() && without_artifact(
                        manifests,
                        id,
                    )[k] == m;
                assert(kept[k] == m);
                assert(rest.contains(m));
                let j = choose|j: int| 0 <= j < rest.len() && rest[j] == m;
                assert(manifests[j] == m);
            }
        }
    }
}

/// An artifact has one manifest once it is recorded, the last of all; the manifests of the others
/// stay as they are.
pub proof fn law_artifact_has_one_manifest(s: AppStateView, manifest: ArtifactManifestView)
    ensures
        with_artifact(s, manifest).artifacts.manifests.last() == manifest,
        forall|i: int|
            0 <= i < with_artifact(s, manifest).artifacts.manifests.len() - 1 ==> (
            #[trigger] with_artifact(s, manifest).artifacts.manifests[i]).id != manifest.id,
        forall|other: ArtifactManifestView|
            other.id != manifest.id ==> (with_artifact(s, manifest).artifacts.manifests.contains(
                other,
            ) <==> s.artifacts.manifests.contains(other)),
{
    lemma_without_artifact(s.artifacts.manifests, manifest.id);
    let kept = without_artifact(s.artifacts.manifests, manifest.id);
    assert forall|other: ArtifactManifestView| other.id != manifest.id implies (kept.push(
        manifest,
    ).contains(other) <==> s.artifacts.manifests.contains(other)) by {
        if kept.contains(other) {
            let k = choose|k: int| 0 <= k < kept.len() && kept[k] == other;
            assert(kept.push(manifest)[k] == other);
        }
        if kept.push(manifest).contains(other) {
            let k = choose|k: int| 0 <= k < kept.push(manifest).len() && kept.push(manifest)[k] == other;
            assert(kept[k] == other);
        }
    }
}

// -- Events of the upstream runtime -------------------------------------------------------

/// The phase that the name of an event gives its item.
pub open spec fn phase_of_event(event: Seq<char>) -> ProjectedItemPhase {
    if event == "item_started"@ {
        ProjectedItemPhase::Started
    } else {
        ProjectedItemPhase::Completed
    }
}

/// The phase that the name of an event gives its item.
pub fn projected_item_phase_from_event(event: &str) -> (phase: ProjectedItemPhase)
    ensures
        phase == phase_of_event(event@),
{
    if text::same_text(event, "item_started") {
        ProjectedItemPhase::Started
    } else {
        ProjectedItemPhase::Completed
    }
}

/// The phase that its own status gives an item.
pub open spec fn phase_of_status(status: Option<Seq<char>>) -> ProjectedItemPhase {
    if status is Some && text::lower(status->0) == text::lower("inProgress"@) {
        ProjectedItemPhase::Started
    } else {
        ProjectedItemPhase::Completed
    }
}

/// The phase that its own status gives an item.
pub fn infer_projected_item_phase(status: &Option<String>) -> (phase: ProjectedItemPhase)
    ensures
        phase == phase_of_status(text::opt_view(*status)),
{
    match status {
        Some(status) => {
            if text::same_ignoring_case(status.as_str(), "inProgress") {
                ProjectedItemPhase::Started
            } else {
                ProjectedItemPhase::Completed
            }
        },
        None => ProjectedItemPhase::Completed,
    }
}

/// What is read out of an event of the upstream runtime.
#[derive(Debug, PartialEq)]
pub struct UpstreamFields {
    pub event: Option<String>,
    pub item_id: Option<String>,
    pub delta: Option<String>,
    pub error_message: Option<String>,
    pub turn_status: Option<String>,
    pub has_item: bool,
    pub item_status: Option<String>,
}

/// The model of `UpstreamFields`.
#[verifier::ext_equal]
pub struct UpstreamFieldsView {
    pub event: Option<Seq<char>>,
    pub item_id: Option<Seq<char>>,
    pub delta: Option<Seq<char>>,
    pub error_message: Option<Seq<char>>,
    pub turn_status: Option<Seq<char>>,
    pub has_item: bool,
    pub item_status: Option<Seq<char>>,
}

impl View for UpstreamFields {
    type V = UpstreamFieldsView;

    open spec fn view(&self) -> UpstreamFieldsView {
        UpstreamFieldsView {
            event: text::opt_view(self.event),
            item_id: text::opt_view(self.item_id),
            delta: text::opt_view(self.delta),
            error_message: text::opt_view(self.error_message),
            turn_status: text::opt_view(self.turn_status),
            has_item: self.has_item,
            item_status: text::opt_view(self.item_status),
        }
    }
}

impl Clone for UpstreamFields {
    fn clone(&self) -> (copy: Self)
        ensures
            copy@ == self@,
    {
        UpstreamFields {
            event: text::copy_maybe(&self.event),
            item_id: text::copy_maybe(&self.item_id),
            delta: text::copy_maybe(&self.delta),
            error_message: text::copy_maybe(&self.error_message),
            turn_status: text::copy_maybe(&self.turn_status),
            has_item: self.has_item,
            item_status: text::copy_maybe(&self.item_status),
        }
    }
}

/// What the JSON text of an event of the upstream runtime holds.
pub open spec fn upstream_fields_of(raw: Seq<char>) -> UpstreamFieldsView {
    UpstreamFieldsView {
        event: json::member_text_of(raw, "event"@),
        item_id: json::member_text_of(raw, "item_id"@),
        delta: json::member_text_of(raw, "delta"@),
        error_message: json::nested_text_of(raw, "error"@, "message"@),
        turn_status: json::nested_text_of(raw, "turn"@, "status"@),
        has_item: json::json_member_of(raw, "item"@) is Some,
        item_status: json::nested_text_of(raw, "item"@, "status"@),
    }
}

/// Reads an event of the upstream runtime.
pub fn read_upstream_fields(raw: &str) -> (fields: UpstreamFields)
    ensures
        fields@ == upstream_fields_of(raw@),
{
    UpstreamFields {
        event: json::member_text(raw, "event"),
        item_id: json::member_text(raw, "item_id"),
        delta: json::member_text(raw, "delta"),
        error_message: json::nested_text(raw, "error", "message"),
        turn_status: json::nested_text(raw, "turn", "status"),
        has_item: json::json_member(raw, "item").is_some(),
        item_status: json::nested_text(raw, "item", "status"),
    }
}

/// The summary of the plan that an event brings, where it brings one with anything in it.
pub open spec fn upstream_plan(f: UpstreamFieldsView, d: DecodedPayloadView) -> Option<Seq<char>> {
    if f.event == Some("plan_updated"@) && d.plan is Some {
        let summary = transcript::plan_summary(d.plan->0.explanation, d.plan->0.plan);
        if summary.len() > 0 {
            Some(summary)
        } else {
            None
        }
    } else {
        None
    }
}

/// Whether an event is of no kind known, so that only its text can be shown.
pub open spec fn upstream_is_unknown(f: UpstreamFieldsView, d: DecodedPayloadView) -> bool {
    upstream_plan(f, d) is None && f.delta is None && f.error_message is None && f.turn_status is None
        && !f.has_item
}

/// The state after more of what the assistant says: added to its last entry where that is the last
/// of all, else in an entry of its own.
pub open spec fn message_restored(s: AppStateView, delta: Seq<char>) -> AppStateView {
    let history = s.transcript.history;
    if history.len() > 0 && history.last() is AssistantMessage {
        let cell = history.last()->AssistantMessage_0;
        transcript::with_history(
            s,
            history.update(
                history.len() - 1,
                HistoryCellModelView::AssistantMessage(
                    AssistantMessageCellView { text: cell.text + delta, ..cell },
                ),
            ),
        )
    } else {
        transcript::with_cell(
            s,
            HistoryCellModelView::AssistantMessage(
                AssistantMessageCellView { text: delta, streaming: false },
            ),
        )
    }
}

/// The state after an event of the upstream runtime.
pub open spec fn upstream_restored(
    s: AppStateView,
    f: UpstreamFieldsView,
    d: DecodedPayloadView,
    raw: Seq<char>,
) -> AppStateView {
    if upstream_plan(f, d) is Some {
        transcript::with_cell(s, transcript::plan_cell(upstream_plan(f, d)->0))
    } else if f.event == Some("command_execution_output_delta"@) && f.item_id is Some && f.delta is Some {
        transcript::delta_appended(s, f.item_id->0, f.delta->0)
    } else if f.delta is Some {
        message_restored(s, f.delta->0)
    } else if f.error_message is Some {
        transcript::with_cell(s, transcript::error_cell(f.error_message->0))
    } else if f.turn_status is Some {
        transcript::with_cell(
            s,
            transcript::status_cell("Turn completed with status "@ + f.turn_status->0),
        )
    } else if f.has_item {
        transcript::item_projected(
            s,
            d.item,
            match f.event {
                Some(event) => phase_of_event(event),
                None => phase_of_status(f.item_status),
            },
        ).0
    } else {
        transcript::with_cell(
            s,
            transcript::status_cell("restored upstream event: "@ + shortened(raw)),
        )
    }
}

/// Adds to the last entry of the assistant, or begins one.
fn restore_message(state: &mut AppState, delta: &str)
    ensures
        final(state)@ == message_restored(old(state)@, delta@),
{
    let total: usize = state.transcript.history.len();
    if total > 0 {
        assert(state@.transcript.history.last() == state.transcript.history@[total - 1]@);
        if let HistoryCellModel::AssistantMessage(cell) = &mut state.transcript.history[total - 1] {
            cell.text.append(delta);
            return ;
        }
    }
    transcript::push_cell(
        state,
        HistoryCellModel::AssistantMessage(
            AssistantMessageCell { text: delta.to_owned(), streaming: false },
        ),
    );
}

/// Takes in an event of the upstream runtime that has been read.
pub fn restore_upstream_fields(
    state: &mut AppState,
    fields: &UpstreamFields,
    decoded: &DecodedPayload,
    raw: &str,
)
    requires
        upstream_is_unknown(fields@, decoded@) ==> can_shorten(raw@),
    ensures
        final(state)@ == upstream_restored(old(state)@, fields@, decoded@, raw@),
{
    if text::option_is(&fields.event, "plan_updated") {
        if let Some(plan) = &decoded.plan {
            let summary: String = transcript::summarize_restored_plan_update(
                &plan.explanation,
                &plan.plan,
            );
            if !text::is_empty(summary.as_str()) {
                transcript::push_cell(
                    state,
                    HistoryCellModel::PlanUpdate(PlanUpdateCell { summary }),
                );
                return ;
            }
        }
    }
    if text::option_is(&fields.event, "command_execution_output_delta") {
        if let Some(item_id) = &fields.item_id {
            if let Some(delta) = &fields.delta {
                transcript::append_command_output_delta(state, item_id.as_str(), delta.as_str());
                return ;
            }
        }
    }
    if let Some(delta) = &fields.delta {
        restore_message(state, delta.as_str());
        return ;
    }
    if let Some(message) = &fields.error_message {
        transcript::push_error_cell(state, message.as_str());
        return ;
    }
    if let Some(status) = &fields.turn_status {
        let message: String = text::glue("Turn completed with status ", status.as_str());
        transcript::push_status_cell(state, message.as_str());
        return ;
    }
    if fields.has_item {
        let phase: ProjectedItemPhase = match &fields.event {
            Some(event) => projected_item_phase_from_event(event.as_str()),
            None => infer_projected_item_phase(&fields.item_status),
        };
        let _shown: bool = transcript::push_projected_item_cells(state, &decoded.item, phase);
        return ;
    }
    let short: String = compact_json(raw);
    let message: String = text::glue("restored upstream event: ", short.as_str());
    transcript::push_status_cell(state, message.as_str());
}

/// Takes in an event of the upstream runtime. The answer is false, and nothing changes, where only
/// the text of the event can be shown and that cannot be cut short between two characters.
pub fn restore_upstream_event(state: &mut AppState, payload: &str, decoded: &DecodedPayload) -> (done:
    bool)
    ensures
        done == (upstream_is_unknown(upstream_fields_of(payload@), decoded@) ==> can_shorten(
            payload@,
        )),
        done ==> final(state)@ == upstream_restored(
            old(state)@,
            upstream_fields_of(payload@),
            decoded@,
            payload@,
        ),
        !done ==> final(state)@ == old(state)@,
{
    let fields: UpstreamFields = read_upstream_fields(payload);
    if upstream_unknown(&fields, decoded) && !is_shortenable(payload) {
        return false;
    }
    restore_upstream_fields(state, &fields, decoded, payload);
    true
}

/// Whether an event is of no kind known.
fn upstream_unknown(fields: &UpstreamFields, decoded: &DecodedPayload) -> (b: bool)
    ensures
        b == upstream_is_unknown(fields@, decoded@),
{
    if fields.delta.is_some() || fields.error_message.is_some() || fields.turn_status.is_some()
        || fields.has_item {
        return false;
    }
    if text::option_is(&fields.event, "plan_updated") {
        if let Some(plan) = &decoded.plan {
            let summary: String = transcript::summarize_restored_plan_update(
                &plan.explanation,
                &plan.plan,
            );
            return text::is_empty(summary.as_str());
        }
    }
    true
}

/// Whether an item is one that the transcript leaves out on purpose.
pub open spec fn ignorable_item(item: Seq<char>) -> bool {
    json::member_text_of(item, "type"@) == Some("userMessage"@) || json::member_text_of(
        item,
        "type"@,
    ) == Some("agentMessage"@)
}

/// Whether an item, given as JSON text, is one that the transcript leaves out on purpose.
pub fn is_ignorable_transcript_item(item: &str) -> (b: bool)
    ensures
        b == ignorable_item(item@),
{
    let kind: Option<String> = json::member_text(item, "type");
    text::option_is(&kind, "userMessage") || text::option_is(&kind, "agentMessage")
}

// -- Events of the client itself --------------------------------------------------------------

/// What is read out of an event of the client itself.
#[derive(Debug, PartialEq)]
pub struct WrapperFields {
    pub event: Option<String>,
    pub approval_id: Option<String>,
    pub decision: Option<String>,
    pub resolved: Option<bool>,
    pub status: Option<String>,
    pub has_transcript_path: bool,
    pub has_artifact_root: bool,
}

/// The model of `WrapperFields`.
#[verifier::ext_equal]
pub struct WrapperFieldsView {
    pub event: Option<Seq<char>>,
    pub approval_id: Option<Seq<char>>,
    pub decision: Option<Seq<char>>,
    pub resolved: Option<bool>,
    pub status: Option<Seq<char>>,
    pub has_transcript_path: bool,
    pub has_artifact_root: bool,
}

impl View for WrapperFields {
    type V = WrapperFieldsView;

    open spec fn view(&self) -> WrapperFieldsView {
        WrapperFieldsView {
            event: text::opt_view(self.event),
            approval_id: text::opt_view(self.approval_id),
            decision: text::opt_view(self.decision),
            resolved: self.resolved,
            status: text::opt_view(self.status),
            has_transcript_path: self.has_transcript_path,
            has_artifact_root: self.has_artifact_root,
        }
    }
}

impl Clone for WrapperFields {
    fn clone(&self) -> (copy: Self)
        ensures
            copy@ == self@,
    {
        WrapperFields {
            event: text::copy_maybe(&self.event),
            approval_id: text::copy_maybe(&self.approval_id),
            decision: text::copy_maybe(&self.decision),
            resolved: self.resolved,
            status: text::copy_maybe(&self.status),
            has_transcript_path: self.has_transcript_path,
            has_artifact_root: self.has_artifact_root,
        }
    }
}

/// What the JSON text of an event of the client itself holds.
pub open spec fn wrapper_fields_of(raw: Seq<char>) -> WrapperFieldsView {
    WrapperFieldsView {
        event: json::member_text_of(raw, "event"@),
        approval_id: json::member_text_of(raw, "approval_id"@),
        decision: json::member_text_of(raw, "decision"@),
        resolved: json::member_bool_of(raw, "resolved"@),
        status: json::member_text_of(raw, "status"@),
        has_transcript_path: json::json_member_of(raw, "transcript_path"@) is Some,
        has_artifact_root: json::json_member_of(raw, "artifact_root"@) is Some,
    }
}

/// Reads an event of the client itself.
pub fn read_wrapper_fields(raw: &str) -> (fields: WrapperFields)
    ensures
        fields@ == wrapper_fields_of(raw@),
{
    WrapperFields {
        event: json::member_text(raw, "event"),
        approval_id: json::member_text(raw, "approval_id"),
        decision: json::member_text(raw, "decision"),
        resolved: json::member_bool(raw, "resolved"),
        status: json::member_text(raw, "status"),
        has_transcript_path: json::json_member(raw, "transcript_path").is_some(),
        has_artifact_root: json::json_member(raw, "artifact_root").is_some(),
    }
}

/// A state in which a given approval is not pending.
pub open spec fn approval_cleared(s: AppStateView, id: Seq<char>) -> AppStateView {
    if s.approvals.pending is Some && s.approvals.pending->0.id == id {
        AppStateView { approvals: ApprovalUiStateView { pending: None }, ..s }
    } else {
        s
    }
}

/// Whether an event says that an approval is over.
pub open spec fn settles_approval(f: WrapperFieldsView) -> bool {
    f.approval_id is Some && (f.decision is Some || f.resolved == Some(true))
}

/// Whether an event describes a conversation.
pub open spec fn describes_thread(f: WrapperFieldsView) -> bool {
    f.status is Some && f.has_transcript_path && f.has_artifact_root
}

/// Whether an event is of no kind known, so that only its text can be shown.
pub open spec fn wrapper_is_unknown(f: WrapperFieldsView, d: DecodedPayloadView) -> bool {
    d.approval is None && f.event != Some("interrupt_requested"@) && !settles_approval(f)
        && !describes_thread(f)
}

/// The state after an event of the client itself.
pub open spec fn wrapper_restored(
    s: AppStateView,
    f: WrapperFieldsView,
    d: DecodedPayloadView,
    raw: Seq<char>,
) -> AppStateView {
    if d.approval is Some {
        transcript::with_cell(
            AppStateView { approvals: ApprovalUiStateView { pending: d.approval }, ..s },
            HistoryCellModelView::ApprovalRequest(ApprovalCellView { approval: d.approval->0 }),
        )
    } else if f.event == Some("interrupt_requested"@) {
        transcript::with_cell(s, transcript::status_cell("Interrupt requested."@))
    } else if settles_approval(f) {
        transcript::with_cell(
            approval_cleared(s, f.approval_id->0),
            transcript::status_cell(
                match f.decision {
                    Some(decision) => "restored approval "@ + f.approval_id->0 + ": "@ + decision,
                    None => "restored approval "@ + f.approval_id->0 + " resolved"@,
                },
            ),
        )
    } else if describes_thread(f) {
        transcript::with_cell(s, transcript::status_cell("Thread status: "@ + f.status->0))
    } else {
        transcript::with_cell(
            s,
            transcript::status_cell("restored wrapper event: "@ + shortened(raw)),
        )
    }
}

/// Drops a given approval where it is the one pending.
fn clear_approval(state: &mut AppState, id: &str)
    ensures
        final(state)@ == approval_cleared(old(state)@, id@),
{
    let matches: bool = match &state.approvals.pending {
        Some(approval) => text::same_text(approval.id.as_str(), id),
        None => false,
    };
    if matches {
        state.approvals.pending = None;
    }
}

/// Takes in an event of the client itself that has been read.
pub fn restore_wrapper_fields(
    state: &mut AppState,
    fields: &WrapperFields,
    decoded: &DecodedPayload,
    raw: &str,
)
    requires
        wrapper_is_unknown(fields@, decoded@) ==> can_shorten(raw@),
    ensures
        final(state)@ == wrapper_restored(old(state)@, fields@, decoded@, raw@),
{
    if let Some(approval) = &decoded.approval {
        state.approvals.pending = Some(approval.clone());
        transcript::push_cell(
            state,
            HistoryCellModel::ApprovalRequest(ApprovalCell { approval: approval.clone() }),
        );
        return ;
    }
    if text::option_is(&fields.event, "interrupt_requested") {
        transcript::push_status_cell(state, "Interrupt requested.");
        return ;
    }
    if let Some(id) = &fields.approval_id {
        if let Some(decision) = &fields.decision {
            clear_approval(state, id.as_str());
            let message: String = text::glue4(
                "restored approval ",
                id.as_str(),
                ": ",
                decision.as_str(),
            );
            transcript::push_status_cell(state, message.as_str());
            return ;
        }
        if let Some(resolved) = fields.resolved {
            if resolved {
                clear_approval(state, id.as_str());
                let message: String = text::glue3("restored approval ", id.as_str(), " resolved");
                transcript::push_status_cell(state, message.as_str());
                return ;
            }
        }
    }
    if let Some(status) = &fields.status {
        if fields.has_transcript_path && fields.has_artifact_root {
            let message: String = text::glue("Thread status: ", status.as_str());
            transcript::push_status_cell(state, message.as_str());
            return ;
        }
    }
    let short: String = compact_json(raw);
    let message: String = text::glue("restored wrapper event: ", short.as_str());
    transcript::push_status_cell(state, message.as_str());
}

/// Whether an event is of no kind known.
fn wrapper_unknown(fields: &WrapperFields, decoded: &DecodedPayload) -> (b: bool)
    ensures
        b == wrapper_is_unknown(fields@, decoded@),
{
    if decoded.approval.is_some() || text::option_is(&fields.event, "interrupt_requested") {
        return false;
    }
    let resolved: bool = match fields.resolved {
        Some(resolved) => resolved,
        None => false,
    };
    if fields.approval_id.is_some() && (fields.decision.is_some() || resolved) {
        return false;
    }
    !(fields.status.is_some() && fields.has_transcript_path && fields.has_artifact_root)
}

/// Takes in an event of the client itself. The answer is false, and nothing changes, where only the
/// text of the event can be shown and that cannot be cut short between two characters.
pub fn restore_wrapper_event(state: &mut AppState, payload: &str, decoded: &DecodedPayload) -> (done:
    bool)
    ensures
        done == (wrapper_is_unknown(wrapper_fields_of(payload@), decoded@) ==> can_shorten(
            payload@,
        )),
        done ==> final(state)@ == wrapper_restored(
            old(state)@,
            wrapper_fields_of(payload@),
            decoded@,
            payload@,
        ),
        !done ==> final(state)@ == old(state)@,
{
    let fields: WrapperFields = read_wrapper_fields(payload);
    if wrapper_unknown(&fields, decoded) && !is_shortenable(payload) {
        return false;
    }
    restore_wrapper_fields(state, &fields, decoded, payload);
    true
}

// -- Events about artifacts ---------------------------------------------------------------------

/// The state after an event about artifacts.
pub open spec fn artifact_restored(s: AppStateView, d: DecodedPayloadView, raw: Seq<char>) -> AppStateView {
    if d.warning is Some {
        transcript::with_cell(s, transcript::warning_cell(d.warning->0))
    } else if d.artifact is Some {
        let found = d.artifact->0;
        transcript::with_cell(
            with_artifact(s, found.manifest),
            transcript::artifact_cell(
                found.manifest,
                found.preview,
                knows_artifact(s.artifacts.manifests, found.manifest.id),
            ),
        )
    } else {
        transcript::with_cell(
            s,
            transcript::status_cell("restored artifact event: "@ + shortened(raw)),
        )
    }
}

/// Takes in an event about artifacts.
pub fn restore_artifact_event(state: &mut AppState, payload: &str, decoded: &DecodedPayload)
    requires
        decoded@.warning is None && decoded@.artifact is None ==> can_shorten(payload@),
    ensures
        final(state)@ == artifact_restored(old(state)@, decoded@, payload@),
{
    if let Some(message) = &decoded.warning {
        transcript::push_warning_cell(state, message.as_str());
        return ;
    }
    if let Some(found) = &decoded.artifact {
        let existed: bool = record_restored_artifact(state, found.manifest.clone());
        transcript::push_artifact_event_cell(
            state,
            found.manifest.clone(),
            found.preview.clone(),
            existed,
        );
        return ;
    }
    let short: String = compact_json(payload);
    let message: String = text::glue("restored artifact event: ", short.as_str());
    transcript::push_status_cell(state, message.as_str());
}

/// An artifact that is recorded a second time shows as changed, not as new.
pub proof fn law_second_artifact_event_is_an_update(
    s: AppStateView,
    d: DecodedPayloadView,
    raw: Seq<char>,
)
    requires
        d.warning is None,
        d.artifact is Some,
    ensures
        artifact_restored(artifact_restored(s, d, raw), d, raw).transcript.history.last()
            is ArtifactUpdated,
{
    let once = artifact_restored(s, d, raw);
    let manifests = once.artifacts.manifests;
    assert(manifests[manifests.len() - 1].id == d.artifact->0.manifest.id);
}

// -- A whole transcript ---------------------------------------------------------------------------

/// A line of a stored transcript, with its number counted from one.
#[derive(Debug, PartialEq)]
pub struct TranscriptLine {
    pub number: usize,
    pub text: String,
}

/// The model of `TranscriptLine`.
#[verifier::ext_equal]
pub struct TranscriptLineView {
    pub number: usize,
    pub text: Seq<char>,
}

impl View for TranscriptLine {
    type V = TranscriptLineView;

    open spec fn view(&self) -> TranscriptLineView {
        TranscriptLineView {
            number: self.number,
            text: self.text@,
        }
    }
}

impl Clone for TranscriptLine {
    fn clone(&self) -> (copy: Self)
        ensures
            copy@ == self@,
    {
        TranscriptLine {
            number: self.number,
            text: self.text.clone(),
        }
    }
}

/// The lines among the first `count` that hold anything, with their numbers.
pub open spec fn numbered_lines(lines: Seq<Seq<char>>, count: int) -> Seq<TranscriptLineView>
    decreases count,
{
    if count <= 0 {
        Seq::empty()
    } else if text::blank(lines[count - 1]) {
        numbered_lines(lines, count - 1)
    } else {
        numbered_lines(lines, count - 1).push(
            TranscriptLineView { number: count as usize, text: lines[count - 1] },
        )
    }
}

/// The lines of a stored transcript that hold anything.
pub fn transcript_lines(raw: &str) -> (out: Vec<TranscriptLine>)
    ensures
        text::views(out@) == numbered_lines(
            text::lines_of(raw@),
            text::lines_of(raw@).len() as int,
        ),
{
    let lines: Vec<String> = text::lines(raw);
    let mut out: Vec<TranscriptLine> = Vec::new();
    let mut i: usize = 0;
    while i < lines.len()
        invariant
            i <= lines@.len(),
            text::views(lines@) == text::lines_of(raw@),
            text::views(out@) == numbered_lines(text::lines_of(raw@), i as int),
        decreases lines@.len() - i,
    {
        assert(text::lines_of(raw@)[i as int] == lines@[i as int]@);
        if !text::is_blank(lines[i].as_str()) {
            let line = TranscriptLine { number: i + 1, text: lines[i].clone() };
            out.push(line);
        }
        i = i + 1;
    }
    out
}

/// What a line of a stored transcript turned out to be.
#[derive(Debug, PartialEq)]
pub enum ReplayLine {
    Event { event: TranscriptEvent, decoded: DecodedPayload },
    Corrupt { error: String },
}

/// The model of `ReplayLine`.
#[verifier::ext_equal]
pub enum ReplayLineView {
    Event { event: TranscriptEventView, decoded: DecodedPayloadView },
    Corrupt { error: Seq<char> },
}

impl View for ReplayLine {
    type V = ReplayLineView;

    open spec fn view(&self) -> ReplayLineView {
        match *self {
            ReplayLine::Event { event, decoded } => ReplayLineView::Event {
                event: event@,
                decoded: decoded@,
            },
            ReplayLine::Corrupt { error } => ReplayLineView::Corrupt { error: error@ },
        }
    }
}

impl Clone for ReplayLine {
    fn clone(&self) -> (copy: Self)
        ensures
            copy@ == self@,
    {
        match self {
            ReplayLine::Event { event, decoded } => ReplayLine::Event {
                event: event.clone(),
                decoded: decoded.clone(),
            },
            ReplayLine::Corrupt { error } => ReplayLine::Corrupt { error: error.clone() },
        }
    }
}

/// What a line of a stored transcript turned out to be, with its number.
#[derive(Debug, PartialEq)]
pub struct NumberedReplayLine {
    pub number: usize,
    pub line: ReplayLine,
}

/// The model of `NumberedReplayLine`.
#[verifier::ext_equal]
pub struct NumberedReplayLineView {
    pub number: usize,
    pub line: ReplayLineView,
}

impl View for NumberedReplayLine {
    type V = NumberedReplayLineView;

    open spec fn view(&self) -> NumberedReplayLineView {
        NumberedReplayLineView {
            number: self.number,
            line: self.line@,
        }
    }
}

impl Clone for NumberedReplayLine {
    fn clone(&self) -> (copy: Self)
        ensures
            copy@ == self@,
    {
        NumberedReplayLine {
            number: self.number,
            line: self.line.clone(),
        }
    }
}

/// The state after what the user said.
pub open spec fn user_restored(s: AppStateView, d: DecodedPayloadView) -> AppStateView {
    transcript::with_cell(
        s,
        HistoryCellModelView::UserMessage(
            UserMessageCellView {
                text: match d.input {
                    Some(summary) => summary,
                    None => "<user input>"@,
                },
            },
        ),
    )
}

/// Whether a line can be replayed.
pub open spec fn can_replay(line: ReplayLineView) -> bool {
    match line {
        ReplayLineView::Corrupt { .. } => true,
        ReplayLineView::Event { event, decoded } => match event.source {
            TranscriptEventSource::User => true,
            TranscriptEventSource::UpstreamCodex => upstream_is_unknown(
                upstream_fields_of(event.payload),
                decoded,
            ) ==> can_shorten(event.payload),
            TranscriptEventSource::Wrapper => wrapper_is_unknown(
                wrapper_fields_of(event.payload),
                decoded,
            ) ==> can_shorten(event.payload),
            TranscriptEventSource::ArtifactSystem => decoded.warning is None && decoded.artifact is None
                ==> can_shorten(event.payload),
        },
    }
}

/// The state after a line.
pub open spec fn line_replayed(
    s: AppStateView,
    path: Seq<char>,
    number: usize,
    line: ReplayLineView,
) -> AppStateView {
    match line {
        ReplayLineView::Corrupt { error } => transcript::with_cell(
            s,
            transcript::warning_cell(
                "Skipped corrupt transcript line "@ + text::decimal(number as nat) + " in "@ + path
                    + ": "@ + error,
            ),
        ),
        ReplayLineView::Event { event, decoded } => match event.source {
            TranscriptEventSource::User => user_restored(s, decoded),
            TranscriptEventSource::UpstreamCodex => upstream_restored(
                s,
                upstream_fields_of(event.payload),
                decoded,
                event.payload,
            ),
            TranscriptEventSource::Wrapper => wrapper_restored(
                s,
                wrapper_fields_of(event.payload),
                decoded,
                event.payload,
            ),
            TranscriptEventSource::ArtifactSystem => artifact_restored(s, decoded, event.payload),
        },
    }
}

/// The state after some of the lines, taken in turn.
pub open spec fn lines_replayed(
    s: AppStateView,
    path: Seq<char>,
    lines: Seq<NumberedReplayLineView>,
) -> AppStateView
    decreases lines.len(),
{
    if lines.len() == 0 {
        s
    } else {
        line_replayed(
            lines_replayed(s, path, lines.drop_last()),
            path,
            lines.last().number,
            lines.last().line,
        )
    }
}

/// Replays one line. The answer is false, and nothing changes, where the line cannot be shown.
pub fn replay_line(state: &mut AppState, path: &str, entry: &NumberedReplayLine) -> (done: bool)
    ensures
        done == can_replay(entry@.line),
        done ==> final(state)@ == line_replayed(
            old(state)@,
            path@,
            entry@.number,
            entry@.line,
        ),
        !done ==> final(state)@ == old(state)@,
{
    match &entry.line {
        ReplayLine::Corrupt { error } => {
            let number: String = text::number(entry.number as u64);
            let place: String = text::glue4(
                "Skipped corrupt transcript line ",
                number.as_str(),
                " in ",
                path,
            );
            let message: String = text::glue3(place.as_str(), ": ", error.as_str());
            transcript::push_warning_cell(state, message.as_str());
            true
        },
        ReplayLine::Event { event, decoded } => {
            match event.source {
                TranscriptEventSource::User => {
                    let summary: String = match &decoded.input {
                        Some(summary) => summary.clone(),
                        None => "<user input>".to_owned(),
                    };
                    transcript::push_cell(
                        state,
                        HistoryCellModel::UserMessage(UserMessageCell { text: summary }),
                    );
                    true
                },
                TranscriptEventSource::UpstreamCodex => restore_upstream_event(
                    state,
                    event.payload.as_str(),
                    decoded,
                ),
                TranscriptEventSource::Wrapper => restore_wrapper_event(
                    state,
                    event.payload.as_str(),
                    decoded,
                ),
                TranscriptEventSource::ArtifactSystem => {
                    if decoded.warning.is_none() && decoded.artifact.is_none() && !is_shortenable(
                        event.payload.as_str(),
                    ) {
                        false
                    } else {
                        restore_artifact_event(state, event.payload.as_str(), decoded);
                        true
                    }
                },
            }
        },
    }
}

/// Replays a stored transcript, line after line. The answer is the number of the first line that
/// cannot be shown, at which the replay stops.
pub fn replay_transcript_from_raw(
    state: &mut AppState,
    path: &str,
    lines: &Vec<NumberedReplayLine>,
) -> (stopped: Option<usize>)
    ensures
        match stopped {
            None => (forall|i: int| 0 <= i < lines@.len() ==> can_replay((#[trigger] lines@[i])@.line))
                && final(state)@ == lines_replayed(old(state)@, path@, text::views(lines@)),
            Some(number) => exists|k: int|
                0 <= k < lines@.len() && number == (#[trigger] lines@[k])@.number && !can_replay(
                    lines@[k]@.line,
                ) && (forall|i: int| 0 <= i < k ==> can_replay((#[trigger] lines@[i])@.line))
                    && final(state)@ == lines_replayed(
                    old(state)@,
                    path@,
                    text::views(lines@).take(k),
                ),
        },
{
    let ghost all = text::views(lines@);
    assert(all.take(0) =~= Seq::<NumberedReplayLineView>::empty());
    let mut i: usize = 0;
    while i < lines.len()
        invariant
            i <= lines@.len(),
            all == text::views(lines@),
            forall|j: int| 0 <= j < i ==> can_replay((#[trigger] lines@[j])@.line),
            state@ == lines_replayed(old(state)@, path@, all.take(i as int)),
        decreases lines@.len() - i,
    {
        let ghost next = all.take(i + 1);
        assert(next.drop_last() =~= all.take(i as int));
        assert(next.last() == lines@[i as int]@);
        if !replay_line(state, path, &lines[i]) {
            return Some(lines[i].number);
        }
        i = i + 1;
    }
    assert(all.take(all.len() as int) =~= all);
    None
}

/// A state with no history, no artifacts and no pending approval.
pub open spec fn transcript_reset(s: AppStateView) -> AppStateView {
    AppStateView {
        artifacts: ArtifactUiStateView { manifests: Seq::empty(), ..s.artifacts },
        approvals: ApprovalUiStateView { pending: None },
        ..transcript::with_history(s, Seq::empty())
    }
}

/// Forgets the history, the artifacts and the pending approval.
pub fn reset_restored_transcript_state(state: &mut AppState)
    ensures
        final(state)@ == transcript_reset(old(state)@),
{
    state.transcript.history.clear();
    state.artifacts.manifests.clear();
    state.approvals.pending = None;
}

/// Closes the entries of a transcript that has been replayed.
pub fn finalize_restored_transcript(state: &mut AppState)
    ensures
        final(state)@ == transcript::finalized(old(state)@),
{
    transcript::finalize_streaming_cells(state);
}

/// What came of reading the file of a transcript.
#[derive(Debug, PartialEq)]
pub enum TranscriptSource {
    Missing,
    Unreadable { error: String },
    Read { lines: Vec<NumberedReplayLine> },
}

/// Puts a stored transcript in place of the one shown. The answer is the number of the line at
/// which the replay stopped, if it did; the entries replayed until then stay, and are not closed.
pub fn restore_transcript_from_file(state: &mut AppState, path: &str, source: &TranscriptSource) -> (
stopped: Option<usize>)
    ensures
        match (source, stopped) {
            (TranscriptSource::Missing, None) => final(state)@ == transcript_reset(old(state)@),
            (TranscriptSource::Unreadable { error }, None) => final(state)@ == transcript::with_cell(
                transcript_reset(old(state)@),
                transcript::warning_cell(
                    "Failed to read transcript "@ + path@ + ": "@ + error@,
                ),
            ),
            (TranscriptSource::Read { lines }, None) => (forall|i: int|
                0 <= i < lines@.len() ==> can_replay((#[trigger] lines@[i])@.line)) && final(state)@
                == transcript::finalized(
                lines_replayed(transcript_reset(old(state)@), path@, text::views(lines@)),
            ),
            (TranscriptSource::Read { lines }, Some(number)) => exists|k: int|
                0 <= k < lines@.len() && number == (#[trigger] lines@[k])@.number && !can_replay(
                    lines@[k]@.line,
                ) && (forall|i: int| 0 <= i < k ==> can_replay((#[trigger] lines@[i])@.line))
                    && final(state)@ == lines_replayed(
                    transcript_reset(old(state)@),
                    path@,
                    text::views(lines@).take(k),
                ),
            _ => false,
        },
{
    reset_restored_transcript_state(state);
    match source {
        TranscriptSource::Missing => None,
        TranscriptSource::Unreadable { error } => {
            let message: String = text::glue4(
                "Failed to read transcript ",
                path,
                ": ",
                error.as_str(),
            );
            transcript::push_warning_cell(state, message.as_str());
            None
        },
        TranscriptSource::Read { lines } => {
            let stopped: Option<usize> = replay_transcript_from_raw(state, path, lines);
            if stopped.is_none() {
                finalize_restored_transcript(state);
            }
            stopped
        },
    }
}

/// A transcript can be replayed in parts.
pub proof fn law_replay_goes_on_where_it_stopped(
    s: AppStateView,
    path: Seq<char>,
    first: Seq<NumberedReplayLineView>,
    second: Seq<NumberedReplayLineView>,
)
    ensures
        lines_replayed(s, path, first + second) == lines_replayed(
            lines_replayed(s, path, first),
            path,
            second,
        ),
    decreases second.len(),
{
    if second.len() == 0 {
        assert(first + second =~= first);
    } else {
        assert((first + second).drop_last() =~= first + second.drop_last());
        law_replay_goes_on_where_it_stopped(s, path, first, second.drop_last());
    }
}

// -- What a replay brings back -----------------------------------------------------------------------

/// How what the assistant said is cut into pieces makes no difference to what is brought back of it.
pub proof fn law_restored_pieces_join(s: AppStateView, first: Seq<char>, second: Seq<char>)
    ensures
        message_restored(message_restored(s, first), second) == message_restored(s, first + second),
{
    let history = s.transcript.history;
    let both = message_restored(s, first + second).transcript.history;
    if history.len() > 0 && history.last() is AssistantMessage {
        let said = history.last()->AssistantMessage_0.text;
        assert(said + first + second =~= said + (first + second));
    }
    assert(message_restored(message_restored(s, first), second).transcript.history =~= both);
}

/// More of what the assistant said goes behind what was brought back of it before, of which nothing
/// is lost; where something else came last, it opens an entry of its own, which does not grow. No
/// other entry changes.
pub proof fn law_restored_message_goes_on(s: AppStateView, delta: Seq<char>)
    ensures
        ({
            let before = s.transcript.history;
            let after = message_restored(s, delta).transcript.history;
            &&& message_restored(s, delta) == (AppStateView {
                transcript: message_restored(s, delta).transcript,
                ..s
            })
            &&& after.len() > 0 && (after.last() matches HistoryCellModelView::AssistantMessage(
                cell,
            ))
            &&& if before.len() > 0 && before.last() is AssistantMessage {
                &&& after.drop_last() == before.drop_last()
                &&& after.last()->AssistantMessage_0.text == before.last()->AssistantMessage_0.text
                    + delta
                &&& after.last()->AssistantMessage_0.streaming
                    == before.last()->AssistantMessage_0.streaming
            } else {
                &&& after.drop_last() == before
                &&& after.last()->AssistantMessage_0.text == delta
                &&& !after.last()->AssistantMessage_0.streaming
            }
        }),
{
    let before = s.transcript.history;
    let after = message_restored(s, delta).transcript.history;
    if before.len() > 0 && before.last() is AssistantMessage {
        assert(after.drop_last() =~= before.drop_last());
    } else {
        assert(after.drop_last() =~= before);
    }
}

/// Whether a line holds a piece of what the assistant said.
pub open spec fn is_piece(line: ReplayLineView, piece: Seq<char>) -> bool {
    line matches ReplayLineView::Event { event, decoded } && event.source
        == TranscriptEventSource::UpstreamCodex && json::member_text_of(event.payload, "delta"@)
        == Some(piece) && json::member_text_of(event.payload, "event"@) != Some("plan_updated"@)
        && json::member_text_of(event.payload, "event"@) != Some("command_execution_output_delta"@)
}

/// Pieces of what the assistant said, replayed one after the other, come back as one entry that holds
/// them all, in order, behind everything that was there before.
pub proof fn law_replayed_pieces_make_one_message(
    s: AppStateView,
    path: Seq<char>,
    lines: Seq<NumberedReplayLineView>,
    pieces: Seq<Seq<char>>,
)
    requires
        lines.len() == pieces.len(),
        lines.len() > 0,
        forall|i: int| 0 <= i < lines.len() ==> is_piece((#[trigger] lines[i]).line, pieces[i]),
        s.transcript.history.len() == 0 || !(s.transcript.history.last() is AssistantMessage),
    ensures
        ({
            let after = lines_replayed(s, path, lines).transcript.history;
            &&& after.drop_last() == s.transcript.history
            &&& after.last() matches HistoryCellModelView::AssistantMessage(cell) && cell.text
                == width::joined(pieces) && !cell.streaming
        }),
    decreases lines.len(),
{
    let rest = lines.drop_last();
    let last = lines.last().line;
    assert(is_piece(lines[lines.len() - 1].line, pieces[pieces.len() - 1]));
    let before = lines_replayed(s, path, rest);
    let event = last->event;
    let fields = upstream_fields_of(event.payload);
    assert(upstream_plan(fields, last->decoded) is None);
    assert(lines_replayed(s, path, lines) == message_restored(before, pieces.last()));
    law_restored_message_goes_on(before, pieces.last());
    if rest.len() > 0 {
        assert forall|i: int| 0 <= i < rest.len() implies is_piece(
            (#[trigger] rest[i]).line,
            pieces.drop_last()[i],
        ) by {
            assert(rest[i] == lines[i]);
        }
        law_replayed_pieces_make_one_message(s, path, rest, pieces.drop_last());
    } else {
        assert(pieces.drop_last() =~= Seq::<Seq<char>>::empty());
        reveal_with_fuel(width::joined, 2);
        assert(width::joined(pieces) =~= pieces.last());
    }
}

/// An event of the upstream runtime is brought back under its own kind: output with its command, an
/// error as an error, the end of a turn as a notice with how it ended, a plan as a plan; and one of no
/// kind known as a notice with its text. None of them touches what was there before but the output.
pub proof fn law_upstream_events_come_back_as_what_they_are(
    s: AppStateView,
    f: UpstreamFieldsView,
    d: DecodedPayloadView,
    raw: Seq<char>,
)
    ensures
        ({
            let plain = f.event != Some("plan_updated"@);
            let after = upstream_restored(s, f, d, raw);
            let last = after.transcript.history.last();
            let added = after.transcript.history.drop_last() == s.transcript.history && after == (
            AppStateView { transcript: after.transcript, ..s });
            &&& f.event == Some("command_execution_output_delta"@) && f.item_id is Some && f.delta
                is Some ==> after == transcript::delta_appended(s, f.item_id->0, f.delta->0)
            &&& plain && f.event != Some("command_execution_output_delta"@) && f.delta is Some
                ==> after == message_restored(s, f.delta->0)
            &&& plain && f.delta is None && f.error_message is Some ==> added && (last
                matches HistoryCellModelView::Error(cell) && cell.message == f.error_message->0)
            &&& plain && f.delta is None && f.error_message is None && f.turn_status is Some
                ==> added && (last matches HistoryCellModelView::Status(cell) && cell.message
                == "Turn completed with status "@ + f.turn_status->0)
            &&& plain && f.delta is None && f.error_message is None && f.turn_status is None
                && !f.has_item ==> added && (last matches HistoryCellModelView::Status(cell)
                && cell.message == "restored upstream event: "@ + shortened(raw))
            &&& !plain && d.plan is Some && transcript::plan_summary(
                d.plan->0.explanation,
                d.plan->0.plan,
            ).len() > 0 ==> added && (last matches HistoryCellModelView::PlanUpdate(cell)
                && cell.summary == transcript::plan_summary(
                d.plan->0.explanation,
                d.plan->0.plan,
            ))
        }),
{
    let after = upstream_restored(s, f, d, raw).transcript.history;
    if after.len() == s.transcript.history.len() + 1 && !f.has_item && (f.delta is None
        || upstream_plan(f, d) is Some) {
        assert(after.drop_last() =~= s.transcript.history);
    }
    if f.delta is None && (f.error_message is Some || f.turn_status is Some) {
        assert(after.drop_last() =~= s.transcript.history);
    }
    if upstream_plan(f, d) is Some {
        assert(after.drop_last() =~= s.transcript.history);
    }
    reveal_strlit("plan_updated");
    reveal_strlit("command_execution_output_delta");
    assert("plan_updated"@.len() != "command_execution_output_delta"@.len());
}

/// An item that an event says has started is taken as started, and with any other event as done; where
/// no event says it, what the item says of itself counts, in whatever case it is written.
pub proof fn law_items_come_back_in_their_phase(
    s: AppStateView,
    f: UpstreamFieldsView,
    d: DecodedPayloadView,
    raw: Seq<char>,
)
    requires
        f.has_item,
        f.delta is None,
        f.error_message is None,
        f.turn_status is None,
        f.event != Some("plan_updated"@),
    ensures
        ({
            let started = match f.event {
                Some(event) => event == "item_started"@,
                None => f.item_status is Some && text::lower(f.item_status->0) == text::lower(
                    "inProgress"@,
                ),
            };
            upstream_restored(s, f, d, raw) == transcript::item_projected(
                s,
                d.item,
                if started {
                    ProjectedItemPhase::Started
                } else {
                    ProjectedItemPhase::Completed
                },
            ).0
        }),
{
}

/// An approval that is brought back is pending, and shown last; once its answer is brought back too it
/// is not pending any more. The answer to another approval leaves it pending.
pub proof fn law_a_restored_approval_is_pending_until_answered(
    s: AppStateView,
    asked: WrapperFieldsView,
    d: DecodedPayloadView,
    raw: Seq<char>,
    answer: WrapperFieldsView,
    other: DecodedPayloadView,
    raw_answer: Seq<char>,
)
    requires
        d.approval is Some,
        other.approval is None,
        answer.event != Some("interrupt_requested"@),
        answer.approval_id is Some,
        answer.decision is Some || answer.resolved == Some(true),
    ensures
        ({
            let one = wrapper_restored(s, asked, d, raw);
            let two = wrapper_restored(one, answer, other, raw_answer);
            &&& one.approvals.pending == d.approval
            &&& one.transcript.history.drop_last() == s.transcript.history
            &&& one.transcript.history.last() matches HistoryCellModelView::ApprovalRequest(cell)
                && cell.approval == d.approval->0
            &&& two.transcript.history.drop_last() == one.transcript.history
            &&& two.transcript.history.last() is Status
            &&& answer.approval_id->0 == d.approval->0.id ==> two.approvals.pending is None
            &&& answer.approval_id->0 != d.approval->0.id ==> two.approvals.pending == d.approval
        }),
{
    let one = wrapper_restored(s, asked, d, raw);
    let two = wrapper_restored(one, answer, other, raw_answer);
    assert(one.transcript.history.drop_last() =~= s.transcript.history);
    assert(two.transcript.history.drop_last() =~= one.transcript.history);
}

/// What is told of an answer that is brought back names the approval and, where it is known, what was
/// decided.
pub proof fn law_a_restored_answer_is_named(
    s: AppStateView,
    f: WrapperFieldsView,
    d: DecodedPayloadView,
    raw: Seq<char>,
)
    requires
        d.approval is None,
        f.event != Some("interrupt_requested"@),
        f.approval_id is Some,
        f.decision is Some || f.resolved == Some(true),
    ensures
        wrapper_restored(s, f, d, raw).transcript.history.last()
            matches HistoryCellModelView::Status(cell) && text::contains_text(
            cell.message,
            f.approval_id->0,
        ) && (f.decision is Some ==> text::contains_text(cell.message, f.decision->0)),
{
    let id = f.approval_id->0;
    match f.decision {
        Some(decision) => {
            let whole = "restored approval "@ + id + ": "@ + decision;
            assert(whole =~= "restored approval "@ + id + (": "@ + decision));
            text::lemma_contains_inside("restored approval "@, id, ": "@ + decision);
            let none = Seq::<char>::empty();
            assert(whole =~= ("restored approval "@ + id + ": "@) + decision + none);
            text::lemma_contains_inside("restored approval "@ + id + ": "@, decision, none);
        },
        None => {
            text::lemma_contains_inside("restored approval "@, id, " resolved"@);
        },
    }
}

/// An interrupt, the state of a conversation and an event of no kind known come back as notices, and
/// change nothing else: what was pending stays pending.
pub proof fn law_other_events_come_back_as_notices(
    s: AppStateView,
    f: WrapperFieldsView,
    d: DecodedPayloadView,
    raw: Seq<char>,
)
    requires
        d.approval is None,
        f.approval_id is None || (f.decision is None && f.resolved != Some(true)),
    ensures
        ({
            let after = wrapper_restored(s, f, d, raw);
            &&& after.transcript.history.drop_last() == s.transcript.history
            &&& after == (AppStateView { transcript: after.transcript, ..s })
            &&& after.transcript.history.last() matches HistoryCellModelView::Status(cell)
                && cell.message == if f.event == Some("interrupt_requested"@) {
                "Interrupt requested."@
            } else if f.status is Some && f.has_transcript_path && f.has_artifact_root {
                "Thread status: "@ + f.status->0
            } else {
                "restored wrapper event: "@ + shortened(raw)
            }
        }),
{
    let after = wrapper_restored(s, f, d, raw);
    assert(after.transcript.history.drop_last() =~= s.transcript.history);
}

/// A warning comes back as a warning; an artifact is recorded and shown with its manifest and its
/// preview, as changed where it was known and as new where it was not.
pub proof fn law_artifacts_come_back(s: AppStateView, d: DecodedPayloadView, raw: Seq<char>)
    ensures
        ({
            let after = artifact_restored(s, d, raw);
            let last = after.transcript.history.last();
            &&& after.transcript.history.drop_last() == s.transcript.history
            &&& d.warning is Some ==> (last matches HistoryCellModelView::Warning(cell)
                && cell.message == d.warning->0) && after.artifacts == s.artifacts
            &&& d.warning is None && d.artifact is Some ==> {
                let found = d.artifact->0;
                let known = exists|i: int|
                    0 <= i < s.artifacts.manifests.len() && (
                    #[trigger] s.artifacts.manifests[i]).id == found.manifest.id;
                &&& after.artifacts.manifests.last() == found.manifest
                &&& known ==> (last matches HistoryCellModelView::ArtifactUpdated(cell)
                    && cell.manifest == found.manifest && cell.preview == found.preview)
                &&& !known ==> (last matches HistoryCellModelView::ArtifactCreated(cell)
                    && cell.manifest == found.manifest && cell.preview == found.preview)
            }
            &&& after.approvals == s.approvals && after.connection == s.connection
        }),
{
    let after = artifact_restored(s, d, raw);
    assert(after.transcript.history.drop_last() =~= s.transcript.history);
}

/// What the user said comes back as an entry of its own, word for word.
pub proof fn law_what_the_user_said_comes_back(
    s: AppStateView,
    path: Seq<char>,
    number: usize,
    event: TranscriptEventView,
    decoded: DecodedPayloadView,
    said: Seq<char>,
)
    requires
        event.source == TranscriptEventSource::User,
        decoded.input == Some(said),
    ensures
        ({
            let line = ReplayLineView::Event { event, decoded };
            let after = line_replayed(s, path, number, line).transcript.history;
            &&& after.drop_last() == s.transcript.history
            &&& after.last() matches HistoryCellModelView::UserMessage(cell) && cell.text == said
        }),
{
    let line = ReplayLineView::Event { event, decoded };
    let after = line_replayed(s, path, number, line).transcript.history;
    assert(after.drop_last() =~= s.transcript.history);
}

/// A line that cannot be read is warned of, with its number, its file and what is wrong, and costs
/// nothing of what was brought back before.
pub proof fn law_a_corrupt_line_is_warned_of(
    s: AppStateView,
    path: Seq<char>,
    number: usize,
    error: Seq<char>,
)
    ensures
        ({
            let after = line_replayed(s, path, number, ReplayLineView::Corrupt { error });
            &&& after == (AppStateView { transcript: after.transcript, ..s })
            &&& after.transcript.history.drop_last() == s.transcript.history
            &&& after.transcript.history.last() matches HistoryCellModelView::Warning(cell)
                && text::contains_text(cell.message, text::decimal(number as nat))
                && text::contains_text(cell.message, path) && text::contains_text(
                cell.message,
                error,
            )
        }),
{
    let after = line_replayed(s, path, number, ReplayLineView::Corrupt { error });
    assert(after.transcript.history.drop_last() =~= s.transcript.history);
    let n = text::decimal(number as nat);
    let head = "Skipped corrupt transcript line "@;
    let whole = head + n + " in "@ + path + ": "@ + error;
    let none = Seq::<char>::empty();
    assert(whole =~= head + n + (" in "@ + path + ": "@ + error));
    text::lemma_contains_inside(head, n, " in "@ + path + ": "@ + error);
    assert(whole =~= (head + n + " in "@) + path + (": "@ + error));
    text::lemma_contains_inside(head + n + " in "@, path, ": "@ + error);
    assert(whole =~= (head + n + " in "@ + path + ": "@) + error + none);
    text::lemma_contains_inside(head + n + " in "@ + path + ": "@, error, none);
}

/// A text that is short enough is shown as it is; of a longer one the first bytes are, as many as a
/// short form keeps, and that it goes on.
pub proof fn law_short_forms_keep_the_start(raw: Seq<char>)
    requires
        can_shorten(raw),
    ensures
        cursor::byte_len(raw) <= 120 ==> shortened(raw) == raw,
        cursor::byte_len(raw) > 120 ==> exists|k: int|
            0 <= k <= raw.len() && cursor::byte_len(#[trigger] raw.take(k)) == 120 && shortened(raw)
                == raw.take(k) + "..."@,
{
    if cursor::byte_len(raw) > 120 {
        let k = cursor::chars_before(raw, 120);
        cursor::lemma_boundary(raw, 120);
        assert(cursor::byte_len(raw.take(k)) == 120);
        assert(shortened(raw) == raw.take(k) + "..."@);
    }
}

/// Every line of a stored transcript with anything in it is replayed, once, under its number, in the
/// order of the lines; no blank line is.
pub proof fn law_every_line_is_numbered(lines: Seq<Seq<char>>, count: int)
    requires
        0 <= count <= lines.len() <= usize::MAX,
    ensures
        forall|k: int|
            0 <= k < numbered_lines(lines, count).len() ==> {
                let entry = #[trigger] numbered_lines(lines, count)[k];
                1 <= entry.number <= count && entry.text == lines[entry.number - 1] && !text::blank(
                    entry.text,
                )
            },
        forall|j: int, k: int|
            0 <= j < k < numbered_lines(lines, count).len() ==> (#[trigger] numbered_lines(
                lines,
                count,
            )[j]).number < (#[trigger] numbered_lines(lines, count)[k]).number,
        forall|i: int|
            0 <= i < count && !text::blank(#[trigger] lines[i]) ==> numbered_lines(
                lines,
                count,
            ).contains(TranscriptLineView { number: (i + 1) as usize, text: lines[i] }),
    decreases count,
{
    if count > 0 {
        law_every_line_is_numbered(lines, count - 1);
        let before = numbered_lines(lines, count - 1);
        let now = numbered_lines(lines, count);
        assert forall|i: int| 0 <= i < count && !text::blank(#[trigger] lines[i]) implies now.contains(
            TranscriptLineView { number: (i + 1) as usize, text: lines[i] },
        ) by {
            let entry = TranscriptLineView { number: (i + 1) as usize, text: lines[i] };
            if i == count - 1 {
                assert(now[before.len() as int] == entry);
            } else {
                let k = choose|k: int| 0 <= k < before.len() && before[k] == entry;
                assert(now[k] == entry);
            }
        }
    }
}

/// A stored transcript takes the place of what was shown: nothing of the history, the artifacts and
/// the pending approval from before is left, and the rest of the state is.
pub proof fn law_a_reset_forgets_the_transcript(s: AppStateView)
    ensures
        transcript_reset(s).transcript.history.len() == 0,
        transcript_reset(s).artifacts.manifests.len() == 0,
        transcript_reset(s).approvals.pending is None,
        transcript_reset(s).connection == s.connection,
        transcript_reset(s).active_thread_id == s.active_thread_id,
        transcript_reset(s).threads == s.threads,
        transcript_reset(s).runtime == s.runtime,
        transcript_reset(s).composer == s.composer,
        transcript_reset(s).artifacts.selected_artifact_id == s.artifacts.selected_artifact_id,
{
}

/// What an event holds is read by its name.
pub proof fn law_fields_are_read_by_their_names(raw: Seq<char>)
    ensures
        ({
            let f = upstream_fields_of(raw);
            &&& f.event == json::member_text_of(raw, "event"@)
            &&& f.item_id == json::member_text_of(raw, "item_id"@)
            &&& f.delta == json::member_text_of(raw, "delta"@)
            &&& f.error_message == json::nested_text_of(raw, "error"@, "message"@)
            &&& f.turn_status == json::nested_text_of(raw, "turn"@, "status"@)
            &&& f.item_status == json::nested_text_of(raw, "item"@, "status"@)
            &&& f.has_item <==> json::json_member_of(raw, "item"@) is Some
        }),
        ({
            let f = wrapper_fields_of(raw);
            &&& f.event == json::member_text_of(raw, "event"@)
            &&& f.approval_id == json::member_text_of(raw, "approval_id"@)
            &&& f.decision == json::member_text_of(raw, "decision"@)
            &&& f.resolved == json::member_bool_of(raw, "resolved"@)
            &&& f.status == json::member_text_of(raw, "status"@)
            &&& f.has_transcript_path <==> json::json_member_of(raw, "transcript_path"@) is Some
            &&& f.has_artifact_root <==> json::json_member_of(raw, "artifact_root"@) is Some
        }),
{
}

/// An event that says anything that is known of is not told of as unknown; one that says nothing of it
/// is.
pub proof fn law_events_with_something_known_are_known(
    f: UpstreamFieldsView,
    w: WrapperFieldsView,
    d: DecodedPayloadView,
)
    ensures
        f.delta is Some || f.error_message is Some || f.turn_status is Some || f.has_item
            ==> !upstream_is_unknown(f, d),
        f.delta is None && f.error_message is None && f.turn_status is None && !f.has_item && d.plan
            is None ==> upstream_is_unknown(f, d),
        d.approval is Some ==> !wrapper_is_unknown(w, d),
        w.event == Some("interrupt_requested"@) ==> !wrapper_is_unknown(w, d),
        w.approval_id is Some && (w.decision is Some || w.resolved == Some(true))
            ==> !wrapper_is_unknown(w, d),
        w.status is Some && w.has_transcript_path && w.has_artifact_root ==> !wrapper_is_unknown(
            w,
            d,
        ),
        d.approval is None && w.event is None && w.approval_id is None && w.status is None
            ==> wrapper_is_unknown(w, d),
{
}

/// What the user said, and what could not be read, can always be replayed, and so can every event that
/// is known.
pub proof fn law_what_is_known_can_be_replayed(
    event: TranscriptEventView,
    decoded: DecodedPayloadView,
)
    ensures
        ({
            let can = can_replay(ReplayLineView::Event { event, decoded });
            &&& event.source == TranscriptEventSource::User ==> can
            &&& event.source == TranscriptEventSource::UpstreamCodex && !upstream_is_unknown(
                upstream_fields_of(event.payload),
                decoded,
            ) ==> can
            &&& event.source == TranscriptEventSource::Wrapper && !wrapper_is_unknown(
                wrapper_fields_of(event.payload),
                decoded,
            ) ==> can
            &&& event.source == TranscriptEventSource::ArtifactSystem && (decoded.warning is Some
                || decoded.artifact is Some) ==> can
        }),
{
}

/// Messages are told by events of their own, so items that hold them are left out; no others are.
pub proof fn law_items_that_hold_messages_are_left_out(item: Seq<char>)
    ensures
        ignorable_item(item) <==> json::member_text_of(item, "type"@) == Some("userMessage"@)
            || json::member_text_of(item, "type"@) == Some("agentMessage"@),
{
}

} // verus!
