//! How the states and kinds of things are written.
use vstd::prelude::*;

use crate::artifacts::ArtifactKind;
use crate::protocol::ApprovalDecision;
use crate::skills::SkillScope;
use crate::threads::{ThreadStatus, TurnStatus};
use crate::ui::{ApprovalPolicy, ConnectionState, SandboxMode};

verus! {

/// The name of the state of a conversation.
pub open spec fn thread_status_name_of(status: ThreadStatus) -> Seq<char> {
    match status {
        ThreadStatus::NotLoaded => "NotLoaded"@,
        ThreadStatus::Idle => "Idle"@,
        ThreadStatus::Starting => "Starting"@,
        ThreadStatus::Running => "Running"@,
        ThreadStatus::WaitingApproval => "WaitingApproval"@,
        ThreadStatus::Interrupted => "Interrupted"@,
        ThreadStatus::Error => "Error"@,
    }
}

/// The name of the state of a conversation.
pub fn thread_status_name(status: ThreadStatus) -> (label: &'static str)
    ensures
        label@ == thread_status_name_of(status),
{
    match status {
        ThreadStatus::NotLoaded => "NotLoaded",
        ThreadStatus::Idle => "Idle",
        ThreadStatus::Starting => "Starting",
        ThreadStatus::Running => "Running",
        ThreadStatus::WaitingApproval => "WaitingApproval",
        ThreadStatus::Interrupted => "Interrupted",
        ThreadStatus::Error => "Error",
    }
}

/// The name of the state of a turn.
pub open spec fn turn_status_name_of(status: TurnStatus) -> Seq<char> {
    match status {
        TurnStatus::Pending => "Pending"@,
        TurnStatus::Starting => "Starting"@,
        TurnStatus::Streaming => "Streaming"@,
        TurnStatus::WaitingApproval => "WaitingApproval"@,
        TurnStatus::Completed => "Completed"@,
        TurnStatus::Interrupted => "Interrupted"@,
        TurnStatus::Failed => "Failed"@,
    }
}

/// The name of the state of a turn.
pub fn turn_status_name(status: TurnStatus) -> (label: &'static str)
    ensures
        label@ == turn_status_name_of(status),
{
    match status {
        TurnStatus::Pending => "Pending",
        TurnStatus::Starting => "Starting",
        TurnStatus::Streaming => "Streaming",
        TurnStatus::WaitingApproval => "WaitingApproval",
        TurnStatus::Completed => "Completed",
        TurnStatus::Interrupted => "Interrupted",
        TurnStatus::Failed => "Failed",
    }
}

/// The name of a kind of artifact.
pub open spec fn artifact_kind_name_of(kind: ArtifactKind) -> Seq<char> {
    match kind {
        ArtifactKind::PaperReport => "PaperReport"@,
        ArtifactKind::DatasetAudit => "DatasetAudit"@,
        ArtifactKind::JobSnapshot => "JobSnapshot"@,
        ArtifactKind::JobLogExcerpt => "JobLogExcerpt"@,
        ArtifactKind::JobRunbook => "JobRunbook"@,
        ArtifactKind::GenericMarkdown => "GenericMarkdown"@,
        ArtifactKind::GenericJson => "GenericJson"@,
        ArtifactKind::GenericText => "GenericText"@,
    }
}

/// The name of a kind of artifact.
pub fn artifact_kind_name(kind: ArtifactKind) -> (label: &'static str)
    ensures
        label@ == artifact_kind_name_of(kind),
{
    match kind {
        ArtifactKind::PaperReport => "PaperReport",
        ArtifactKind::DatasetAudit => "DatasetAudit",
        ArtifactKind::JobSnapshot => "JobSnapshot",
        ArtifactKind::JobLogExcerpt => "JobLogExcerpt",
        ArtifactKind::JobRunbook => "JobRunbook",
        ArtifactKind::GenericMarkdown => "GenericMarkdown",
        ArtifactKind::GenericJson => "GenericJson",
        ArtifactKind::GenericText => "GenericText",
    }
}

/// The name of an approval policy.
pub open spec fn policy_name_of(policy: ApprovalPolicy) -> Seq<char> {
    match policy {
        ApprovalPolicy::Never => "Never"@,
        ApprovalPolicy::OnFailure => "OnFailure"@,
        ApprovalPolicy::OnRequest => "OnRequest"@,
        ApprovalPolicy::Untrusted => "Untrusted"@,
    }
}

/// The name of an approval policy.
pub fn approval_policy_name(policy: ApprovalPolicy) -> (label: &'static str)
    ensures
        label@ == policy_name_of(policy),
{
    match policy {
        ApprovalPolicy::Never => "Never",
        ApprovalPolicy::OnFailure => "OnFailure",
        ApprovalPolicy::OnRequest => "OnRequest",
        ApprovalPolicy::Untrusted => "Untrusted",
    }
}

/// The name of a sandbox mode.
pub open spec fn sandbox_name_of(mode: SandboxMode) -> Seq<char> {
    match mode {
        SandboxMode::ReadOnly => "ReadOnly"@,
        SandboxMode::WorkspaceWrite => "WorkspaceWrite"@,
        SandboxMode::DangerFullAccess => "DangerFullAccess"@,
    }
}

/// The name of a sandbox mode.
pub fn sandbox_mode_name(mode: SandboxMode) -> (label: &'static str)
    ensures
        label@ == sandbox_name_of(mode),
{
    match mode {
        SandboxMode::ReadOnly => "ReadOnly",
        SandboxMode::WorkspaceWrite => "WorkspaceWrite",
        SandboxMode::DangerFullAccess => "DangerFullAccess",
    }
}

/// The name of the state of the connection.
pub open spec fn connection_name_of(state: ConnectionState) -> Seq<char> {
    match state {
        ConnectionState::Booting => "Booting"@,
        ConnectionState::Connecting => "Connecting"@,
        ConnectionState::Initializing => "Initializing"@,
        ConnectionState::Ready => "Ready"@,
        ConnectionState::Streaming => "Streaming"@,
        ConnectionState::WaitingApproval => "WaitingApproval"@,
        ConnectionState::Disconnected => "Disconnected"@,
        ConnectionState::Reconnecting => "Reconnecting"@,
    }
}

/// The name of the state of the connection.
pub fn connection_name(state: ConnectionState) -> (label: &'static str)
    ensures
        label@ == connection_name_of(state),
{
    match state {
        ConnectionState::Booting => "Booting",
        ConnectionState::Connecting => "Connecting",
        ConnectionState::Initializing => "Initializing",
        ConnectionState::Ready => "Ready",
        ConnectionState::Streaming => "Streaming",
        ConnectionState::WaitingApproval => "WaitingApproval",
        ConnectionState::Disconnected => "Disconnected",
        ConnectionState::Reconnecting => "Reconnecting",
    }
}

/// Where a skill comes from, in a word.
pub open spec fn scope_label_of(scope: SkillScope) -> Seq<char> {
    match scope {
        SkillScope::Bundled => "bundled"@,
        SkillScope::User => "user"@,
        SkillScope::Repo => "repo"@,
        SkillScope::Generated => "generated"@,
    }
}

/// Where a skill comes from, in a word.
pub fn skill_scope_label(scope: SkillScope) -> (label: &'static str)
    ensures
        label@ == scope_label_of(scope),
{
    match scope {
        SkillScope::Bundled => "bundled",
        SkillScope::User => "user",
        SkillScope::Repo => "repo",
        SkillScope::Generated => "generated",
    }
}

/// How an approval policy is written.
pub open spec fn policy_label_of(policy: ApprovalPolicy) -> Seq<char> {
    match policy {
        ApprovalPolicy::Never => "never"@,
        ApprovalPolicy::OnFailure => "on-failure"@,
        ApprovalPolicy::OnRequest => "on-request"@,
        ApprovalPolicy::Untrusted => "untrusted"@,
    }
}

/// How an approval policy is written.
pub fn approval_policy_label(policy: ApprovalPolicy) -> (label: &'static str)
    ensures
        label@ == policy_label_of(policy),
{
    match policy {
        ApprovalPolicy::Never => "never",
        ApprovalPolicy::OnFailure => "on-failure",
        ApprovalPolicy::OnRequest => "on-request",
        ApprovalPolicy::Untrusted => "untrusted",
    }
}

/// How a sandbox mode is written.
pub open spec fn sandbox_label_of(mode: SandboxMode) -> Seq<char> {
    match mode {
        SandboxMode::ReadOnly => "read-only"@,
        SandboxMode::WorkspaceWrite => "workspace-write"@,
        SandboxMode::DangerFullAccess => "danger-full-access"@,
    }
}

/// How a sandbox mode is written.
pub fn sandbox_mode_label(mode: SandboxMode) -> (label: &'static str)
    ensures
        label@ == sandbox_label_of(mode),
{
    match mode {
        SandboxMode::ReadOnly => "read-only",
        SandboxMode::WorkspaceWrite => "workspace-write",
        SandboxMode::DangerFullAccess => "danger-full-access",
    }
}

/// How the answer to an approval is told.
pub open spec fn decision_label_of(decision: ApprovalDecision) -> Seq<char> {
    match decision {
        ApprovalDecision::Approve => "approved"@,
        ApprovalDecision::Reject => "rejected"@,
    }
}

/// How the answer to an approval is told.
pub fn describe_approval_decision(decision: ApprovalDecision) -> (label: &'static str)
    ensures
        label@ == decision_label_of(decision),
{
    match decision {
        ApprovalDecision::Approve => "approved",
        ApprovalDecision::Reject => "rejected",
    }
}

/// Whether nothing is asked for and nothing is held back.
pub open spec fn yolo(policy: ApprovalPolicy, mode: SandboxMode) -> bool {
    policy == ApprovalPolicy::Never && mode == SandboxMode::DangerFullAccess
}

/// Whether nothing is asked for and nothing is held back.
pub fn is_yolo_mode(approval_policy: ApprovalPolicy, sandbox_mode: SandboxMode) -> (b: bool)
    ensures
        b == yolo(approval_policy, sandbox_mode),
{
    approval_policy == ApprovalPolicy::Never && sandbox_mode == SandboxMode::DangerFullAccess
}

/// The word for a policy and a sandbox mode together.
pub open spec fn mode_label_of(policy: ApprovalPolicy, mode: SandboxMode) -> Seq<char> {
    if yolo(policy, mode) {
        "yolo"@
    } else if mode == SandboxMode::ReadOnly {
        "readonly"@
    } else {
        "safe"@
    }
}

/// The word for a policy and a sandbox mode together.
pub fn runtime_mode_label(approval_policy: ApprovalPolicy, sandbox_mode: SandboxMode) -> (label:
    &'static str)
    ensures
        label@ == mode_label_of(approval_policy, sandbox_mode),
{
    if is_yolo_mode(approval_policy, sandbox_mode) {
        "yolo"
    } else if sandbox_mode == SandboxMode::ReadOnly {
        "readonly"
    } else {
        "safe"
    }
}

/// Only where nothing is asked for and nothing is held back is a mode called so; one that cannot write
/// is called so; and every other is called safe. So what a mode is called never hides that it has no
/// limits.
pub proof fn law_mode_words_tell_the_limits(policy: ApprovalPolicy, mode: SandboxMode)
    ensures
        mode_label_of(policy, mode) == "yolo"@ <==> policy == ApprovalPolicy::Never && mode
            == SandboxMode::DangerFullAccess,
        mode_label_of(policy, mode) == "readonly"@ <==> mode == SandboxMode::ReadOnly,
        mode_label_of(policy, mode) == "safe"@ <==> mode != SandboxMode::ReadOnly && !(policy
            == ApprovalPolicy::Never && mode == SandboxMode::DangerFullAccess),
        yolo(policy, mode) <==> policy == ApprovalPolicy::Never && mode
            == SandboxMode::DangerFullAccess,
{
    reveal_strlit("yolo");
    reveal_strlit("readonly");
    reveal_strlit("safe");
    assert("yolo"@.len() == 4 && "readonly"@.len() == 8 && "safe"@.len() == 4);
    assert("yolo"@[0] == 'y' && "safe"@[0] == 's');
}

/// No two answers, policies, sandbox modes or scopes are written alike, so that what is shown tells
/// which it is; and an approval is told of as approved exactly where it was.
pub proof fn law_labels_tell_apart(
    decision: ApprovalDecision,
    policy: ApprovalPolicy,
    other_policy: ApprovalPolicy,
    mode: SandboxMode,
    other_mode: SandboxMode,
    scope: SkillScope,
    other_scope: SkillScope,
)
    ensures
        decision_label_of(decision) == "approved"@ <==> decision == ApprovalDecision::Approve,
        decision_label_of(decision) == "rejected"@ <==> decision == ApprovalDecision::Reject,
        policy_label_of(policy) == policy_label_of(other_policy) ==> policy == other_policy,
        policy_label_of(policy) == "never"@ <==> policy == ApprovalPolicy::Never,
        policy_label_of(policy) == "on-request"@ <==> policy == ApprovalPolicy::OnRequest,
        policy_label_of(policy) == "on-failure"@ <==> policy == ApprovalPolicy::OnFailure,
        sandbox_label_of(mode) == sandbox_label_of(other_mode) ==> mode == other_mode,
        sandbox_label_of(mode) == "read-only"@ <==> mode == SandboxMode::ReadOnly,
        sandbox_label_of(mode) == "danger-full-access"@ <==> mode == SandboxMode::DangerFullAccess,
        scope_label_of(scope) == scope_label_of(other_scope) ==> scope == other_scope,
        scope_label_of(scope) == "bundled"@ <==> scope == SkillScope::Bundled,
        scope_label_of(scope) == "user"@ <==> scope == SkillScope::User,
        scope_label_of(scope) == "repo"@ <==> scope == SkillScope::Repo,
{
    reveal_strlit("approved");
    reveal_strlit("rejected");
    assert("approved"@[0] == 'a' && "rejected"@[0] == 'r');
    reveal_strlit("never");
    reveal_strlit("on-failure");
    reveal_strlit("on-request");
    reveal_strlit("untrusted");
    assert("never"@[0] == 'n' && "on-failure"@[0] == 'o' && "on-request"@[0] == 'o'
        && "untrusted"@[0] == 'u');
    assert("on-failure"@[3] == 'f' && "on-request"@[3] == 'r');
    reveal_strlit("read-only");
    reveal_strlit("workspace-write");
    reveal_strlit("danger-full-access");
    assert("read-only"@[0] == 'r' && "workspace-write"@[0] == 'w' && "danger-full-access"@[0]
        == 'd');
    reveal_strlit("bundled");
    reveal_strlit("user");
    reveal_strlit("repo");
    reveal_strlit("generated");
    assert("bundled"@[0] == 'b' && "user"@[0] == 'u' && "repo"@[0] == 'r' && "generated"@[0] == 'g');
}

/// Every state has a name of its own.
pub proof fn law_states_have_names_of_their_own(
    turn: TurnStatus,
    other_turn: TurnStatus,
    thread: ThreadStatus,
    other_thread: ThreadStatus,
    connection: ConnectionState,
    other_connection: ConnectionState,
)
    ensures
        turn_status_name_of(turn) == turn_status_name_of(other_turn) ==> turn == other_turn,
        thread_status_name_of(thread) == thread_status_name_of(other_thread) ==> thread
            == other_thread,
        connection_name_of(connection) == connection_name_of(other_connection) ==> connection
            == other_connection,
        turn == TurnStatus::Completed ==> turn_status_name_of(turn) == "Completed"@,
        turn == TurnStatus::Interrupted ==> turn_status_name_of(turn) == "Interrupted"@,
        turn == TurnStatus::Failed ==> turn_status_name_of(turn) == "Failed"@,
        turn == TurnStatus::Pending ==> turn_status_name_of(turn) == "Pending"@,
        turn == TurnStatus::Starting ==> turn_status_name_of(turn) == "Starting"@,
        turn == TurnStatus::Streaming ==> turn_status_name_of(turn) == "Streaming"@,
        thread == ThreadStatus::Idle ==> thread_status_name_of(thread) == "Idle"@,
        thread == ThreadStatus::Running ==> thread_status_name_of(thread) == "Running"@,
        thread == ThreadStatus::Error ==> thread_status_name_of(thread) == "Error"@,
        thread == ThreadStatus::Interrupted ==> thread_status_name_of(thread) == "Interrupted"@,
        connection == ConnectionState::Ready ==> connection_name_of(connection) == "Ready"@,
        connection == ConnectionState::Streaming ==> connection_name_of(connection) == "Streaming"@,
        connection == ConnectionState::Disconnected ==> connection_name_of(connection)
            == "Disconnected"@,
{
    reveal_strlit("Pending");
    reveal_strlit("Starting");
    reveal_strlit("Streaming");
    reveal_strlit("WaitingApproval");
    reveal_strlit("Completed");
    reveal_strlit("Interrupted");
    reveal_strlit("Failed");
    reveal_strlit("NotLoaded");
    reveal_strlit("Idle");
    reveal_strlit("Running");
    reveal_strlit("Error");
    reveal_strlit("Booting");
    reveal_strlit("Connecting");
    reveal_strlit("Initializing");
    reveal_strlit("Ready");
    reveal_strlit("Disconnected");
    reveal_strlit("Reconnecting");
    assert("Pending"@[0] == 'P' && "Starting"@[3] == 'r' && "Streaming"@[3] == 'e');
    assert("WaitingApproval"@[0] == 'W' && "Completed"@[0] == 'C' && "Interrupted"@[2] == 't');
    assert("Failed"@[0] == 'F' && "NotLoaded"@[0] == 'N' && "Idle"@[0] == 'I');
    assert("Idle"@.len() == 4 && "Interrupted"@.len() == 11 && "Initializing"@.len() == 12);
    assert("Running"@[0] == 'R' && "Error"@[0] == 'E' && "Booting"@[0] == 'B');
    assert("Connecting"@[0] == 'C' && "Ready"@.len() == 5 && "Disconnected"@[0] == 'D');
    assert("Reconnecting"@.len() == 12 && "Reconnecting"@[0] == 'R' && "Ready"@[0] == 'R');
    assert("Starting"@[0] == 'S' && "Streaming"@[0] == 'S');
    assert("Interrupted"@[0] == 'I' && "Initializing"@[0] == 'I');
}

/// The names of policies and limits are those of their own.
pub proof fn law_modes_have_names_of_their_own(
    policy: ApprovalPolicy,
    other_policy: ApprovalPolicy,
    mode: SandboxMode,
    other_mode: SandboxMode,
)
    ensures
        policy_name_of(policy) == policy_name_of(other_policy) ==> policy == other_policy,
        sandbox_name_of(mode) == sandbox_name_of(other_mode) ==> mode == other_mode,
        policy == ApprovalPolicy::Never ==> policy_name_of(policy) == "Never"@,
        policy == ApprovalPolicy::OnRequest ==> policy_name_of(policy) == "OnRequest"@,
        policy == ApprovalPolicy::OnFailure ==> policy_name_of(policy) == "OnFailure"@,
        mode == SandboxMode::ReadOnly ==> sandbox_name_of(mode) == "ReadOnly"@,
        mode == SandboxMode::WorkspaceWrite ==> sandbox_name_of(mode) == "WorkspaceWrite"@,
        mode == SandboxMode::DangerFullAccess ==> sandbox_name_of(mode) == "DangerFullAccess"@,
{
    reveal_strlit("Never");
    reveal_strlit("OnFailure");
    reveal_strlit("OnRequest");
    reveal_strlit("Untrusted");
    reveal_strlit("ReadOnly");
    reveal_strlit("WorkspaceWrite");
    reveal_strlit("DangerFullAccess");
    assert("Never"@[0] == 'N' && "OnFailure"@[2] == 'F' && "OnRequest"@[2] == 'R');
    assert("Untrusted"@[0] == 'U' && "OnFailure"@[0] == 'O' && "OnRequest"@[0] == 'O');
    assert("ReadOnly"@[0] == 'R' && "WorkspaceWrite"@[0] == 'W' && "DangerFullAccess"@[0] == 'D');
}

} // verus!
