//! Conversations, their turns, and the events of their transcripts.
use vstd::prelude::*;
use crate::clock::utc_now;
use crate::clock::Timestamp;
use crate::ids::{LocalThreadId, LocalTurnId, UpstreamThreadId, UpstreamTurnId};
use crate::text;
use crate::ui::{ApprovalPolicy, SandboxMode};

verus! {

/// The state of a conversation.
#[derive(Clone, Copy, Debug, PartialEq, Eq, Structural)]
pub enum ThreadStatus {
    NotLoaded,
    Idle,
    Starting,
    Running,
    WaitingApproval,
    Interrupted,
    Error,
}

/// A conversation.
#[derive(Debug, PartialEq)]
pub struct ThreadRecord {
    pub id: LocalThreadId,
    pub upstream_thread_id: Option<UpstreamThreadId>,
    pub cwd: String,
    pub title: Option<String>,
    pub model: Option<String>,
    pub approval_policy: ApprovalPolicy,
    pub sandbox_mode: SandboxMode,
    pub status: ThreadStatus,
    pub created_at: Timestamp,
    pub updated_at: Timestamp,
    pub transcript_path: String,
    pub artifact_root: String,
}

/// The model of `ThreadRecord`.
#[verifier::ext_equal]
pub struct ThreadRecordView {
    pub id: Seq<char>,
    pub upstream_thread_id: Option<Seq<char>>,
    pub cwd: Seq<char>,
    pub title: Option<Seq<char>>,
    pub model: Option<Seq<char>>,
    pub approval_policy: ApprovalPolicy,
    pub sandbox_mode: SandboxMode,
    pub status: ThreadStatus,
    pub created_at: Timestamp,
    pub updated_at: Timestamp,
    pub transcript_path: Seq<char>,
    pub artifact_root: Seq<char>,
}

impl View for ThreadRecord {
    type V = ThreadRecordView;

    open spec fn view(&self) -> ThreadRecordView {
        ThreadRecordView {
            id: self.id@,
            upstream_thread_id: text::opt_view(self.upstream_thread_id),
            cwd: self.cwd@,
            title: text::opt_view(self.title),
            model: text::opt_view(self.model),
            approval_policy: self.approval_policy,
            sandbox_mode: self.sandbox_mode,
            status: self.status,
            created_at: self.created_at,
            updated_at: self.updated_at,
            transcript_path: self.transcript_path@,
            artifact_root: self.artifact_root@,
        }
    }
}

impl Clone for ThreadRecord {
    fn clone(&self) -> (copy: Self)
        ensures
            copy@ == self@,
    {
        ThreadRecord {
            id: self.id.clone(),
            upstream_thread_id: text::copy_maybe(&self.upstream_thread_id),
            cwd: self.cwd.clone(),
            title: text::copy_maybe(&self.title),
            model: text::copy_maybe(&self.model),
            approval_policy: self.approval_policy,
            sandbox_mode: self.sandbox_mode,
            status: self.status,
            created_at: self.created_at,
            updated_at: self.updated_at,
            transcript_path: self.transcript_path.clone(),
            artifact_root: self.artifact_root.clone(),
        }
    }
}

impl ThreadRecord {
    /// A conversation that is about to start, at a given time.
    pub fn starting_at(
        now: Timestamp,
        id: LocalThreadId,
        cwd: String,
        title: Option<String>,
        model: Option<String>,
        approval_policy: ApprovalPolicy,
        sandbox_mode: SandboxMode,
        transcript_path: String,
        artifact_root: String,
    ) -> (record: Self)
        ensures
            record@ == (ThreadRecordView {
                id: id@,
                upstream_thread_id: None,
                cwd: cwd@,
                title: text::opt_view(title),
                model: text::opt_view(model),
                approval_policy,
                sandbox_mode,
                status: ThreadStatus::Starting,
                created_at: now,
                updated_at: now,
                transcript_path: transcript_path@,
                artifact_root: artifact_root@,
            }),
    {
        ThreadRecord {
            id,
            upstream_thread_id: None,
            cwd,
            title,
            model,
            approval_policy,
            sandbox_mode,
            status: ThreadStatus::Starting,
            created_at: now,
            updated_at: now,
            transcript_path,
            artifact_root,
        }
    }

    /// A conversation that is about to start, now.
    pub fn new(
        id: LocalThreadId,
        cwd: String,
        title: Option<String>,
        model: Option<String>,
        approval_policy: ApprovalPolicy,
        sandbox_mode: SandboxMode,
        transcript_path: String,
        artifact_root: String,
    ) -> (record: Self)
        ensures
            record@.created_at.well_formed(),
            record@ == (ThreadRecordView {
                id: id@,
                upstream_thread_id: None,
                cwd: cwd@,
                title: text::opt_view(title),
                model: text::opt_view(model),
                approval_policy,
                sandbox_mode,
                status: ThreadStatus::Starting,
                created_at: record@.created_at,
                updated_at: record@.created_at,
                transcript_path: transcript_path@,
                artifact_root: artifact_root@,
            }),
    {
        ThreadRecord::starting_at(
            utc_now(),
            id,
            cwd,
            title,
            model,
            approval_policy,
            sandbox_mode,
            transcript_path,
            artifact_root,
        )
    }
}

/// The state of a turn.
#[derive(Clone, Copy, Debug, PartialEq, Eq, Structural)]
pub enum TurnStatus {
    Pending,
    Starting,
    Streaming,
    WaitingApproval,
    Completed,
    Interrupted,
    Failed,
}

/// One turn of a conversation.
#[derive(Debug, PartialEq)]
pub struct TurnRecord {
    pub id: LocalTurnId,
    pub local_thread_id: LocalThreadId,
    pub upstream_turn_id: Option<UpstreamTurnId>,
    pub status: TurnStatus,
    pub user_input_summary: String,
    pub started_at: Timestamp,
    pub finished_at: Option<Timestamp>,
}

/// The model of `TurnRecord`.
#[verifier::ext_equal]
pub struct TurnRecordView {
    pub id: Seq<char>,
    pub local_thread_id: Seq<char>,
    pub upstream_turn_id: Option<Seq<char>>,
    pub status: TurnStatus,
    pub user_input_summary: Seq<char>,
    pub started_at: Timestamp,
    pub finished_at: Option<Timestamp>,
}

impl View for TurnRecord {
    type V = TurnRecordView;

    open spec fn view(&self) -> TurnRecordView {
        TurnRecordView {
            id: self.id@,
            local_thread_id: self.local_thread_id@,
            upstream_turn_id: text::opt_view(self.upstream_turn_id),
            status: self.status,
            user_input_summary: self.user_input_summary@,
            started_at: self.started_at,
            finished_at: self.finished_at,
        }
    }
}

impl Clone for TurnRecord {
    fn clone(&self) -> (copy: Self)
        ensures
            copy@ == self@,
    {
        TurnRecord {
            id: self.id.clone(),
            local_thread_id: self.local_thread_id.clone(),
            upstream_turn_id: text::copy_maybe(&self.upstream_turn_id),
            status: self.status,
            user_input_summary: self.user_input_summary.clone(),
            started_at: self.started_at,
            finished_at: self.finished_at,
        }
    }
}

impl TurnRecord {
    /// A turn that is yet to start, from a given time on.
    pub fn pending_at(
        now: Timestamp,
        id: LocalTurnId,
        local_thread_id: LocalThreadId,
        user_input_summary: String,
    ) -> (record: Self)
        ensures
            record@ == (TurnRecordView {
                id: id@,
                local_thread_id: local_thread_id@,
                upstream_turn_id: None,
                status: TurnStatus::Pending,
                user_input_summary: user_input_summary@,
                started_at: now,
                finished_at: None,
            }),
    {
        TurnRecord {
            id,
            local_thread_id,
            upstream_turn_id: None,
            status: TurnStatus::Pending,
            user_input_summary,
            started_at: now,
            finished_at: None,
        }
    }

    /// A turn that is yet to start, from now on.
    pub fn new(id: LocalTurnId, local_thread_id: LocalThreadId, user_input_summary: String) -> (record:
        Self)
        ensures
            record@.started_at.well_formed(),
            record@ == (TurnRecordView {
                id: id@,
                local_thread_id: local_thread_id@,
                upstream_turn_id: None,
                status: TurnStatus::Pending,
                user_input_summary: user_input_summary@,
                started_at: record@.started_at,
                finished_at: None,
            }),
    {
        TurnRecord::pending_at(utc_now(), id, local_thread_id, user_input_summary)
    }
}

/// A request to start a conversation.
#[derive(Debug, PartialEq)]
pub struct StartThreadRequest {
    pub cwd: String,
    pub title: Option<String>,
    pub model: Option<String>,
    pub approval_policy: Option<ApprovalPolicy>,
    pub sandbox_mode: Option<SandboxMode>,
}

/// The model of `StartThreadRequest`.
#[verifier::ext_equal]
pub struct StartThreadRequestView {
    pub cwd: Seq<char>,
    pub title: Option<Seq<char>>,
    pub model: Option<Seq<char>>,
    pub approval_policy: Option<ApprovalPolicy>,
    pub sandbox_mode: Option<SandboxMode>,
}

impl View for StartThreadRequest {
    type V = StartThreadRequestView;

    open spec fn view(&self) -> StartThreadRequestView {
        StartThreadRequestView {
            cwd: self.cwd@,
            title: text::opt_view(self.title),
            model: text::opt_view(self.model),
            approval_policy: self.approval_policy,
            sandbox_mode: self.sandbox_mode,
        }
    }
}

impl Clone for StartThreadRequest {
    fn clone(&self) -> (copy: Self)
        ensures
            copy@ == self@,
    {
        StartThreadRequest {
            cwd: self.cwd.clone(),
            title: text::copy_maybe(&self.title),
            model: text::copy_maybe(&self.model),
            approval_policy: self.approval_policy,
            sandbox_mode: self.sandbox_mode,
        }
    }
}

/// A request to start a turn.
#[derive(Debug, PartialEq)]
pub struct StartTurnRequest {
    pub thread_id: LocalThreadId,
    pub user_input_summary: String,
}

/// The model of `StartTurnRequest`.
#[verifier::ext_equal]
pub struct StartTurnRequestView {
    pub thread_id: Seq<char>,
    pub user_input_summary: Seq<char>,
}

impl View for StartTurnRequest {
    type V = StartTurnRequestView;

    open spec fn view(&self) -> StartTurnRequestView {
        StartTurnRequestView {
            thread_id: self.thread_id@,
            user_input_summary: self.user_input_summary@,
        }
    }
}

impl Clone for StartTurnRequest {
    fn clone(&self) -> (copy: Self)
        ensures
            copy@ == self@,
    {
        StartTurnRequest {
            thread_id: self.thread_id.clone(),
            user_input_summary: self.user_input_summary.clone(),
        }
    }
}

/// Who wrote an event of a transcript.
#[derive(Clone, Copy, Debug, PartialEq, Eq, Structural)]
pub enum TranscriptEventSource {
    User,
    Wrapper,
    UpstreamCodex,
    ArtifactSystem,
}

/// One event of a transcript. `payload` is JSON text.
#[derive(Debug, PartialEq)]
pub struct TranscriptEvent {
    pub seq: u64,
    pub timestamp: Timestamp,
    pub thread_id: LocalThreadId,
    pub turn_id: Option<LocalTurnId>,
    pub source: TranscriptEventSource,
    pub payload: String,
}

/// The model of `TranscriptEvent`.
#[verifier::ext_equal]
pub struct TranscriptEventView {
    pub seq: u64,
    pub timestamp: Timestamp,
    pub thread_id: Seq<char>,
    pub turn_id: Option<Seq<char>>,
    pub source: TranscriptEventSource,
    pub payload: Seq<char>,
}

impl View for TranscriptEvent {
    type V = TranscriptEventView;

    open spec fn view(&self) -> TranscriptEventView {
        TranscriptEventView {
            seq: self.seq,
            timestamp: self.timestamp,
            thread_id: self.thread_id@,
            turn_id: text::opt_view(self.turn_id),
            source: self.source,
            payload: self.payload@,
        }
    }
}

impl Clone for TranscriptEvent {
    fn clone(&self) -> (copy: Self)
        ensures
            copy@ == self@,
    {
        TranscriptEvent {
            seq: self.seq,
            timestamp: self.timestamp,
            thread_id: self.thread_id.clone(),
            turn_id: text::copy_maybe(&self.turn_id),
            source: self.source,
            payload: self.payload.clone(),
        }
    }
}

} // verus!
