use ml_intern_tui::app::{
    classify_line, ApprovalResolutionOutcome, CommandRequest, LineInput, PromptNext, PromptStep,
    SkillResolution, TranscriptApp,
};
use ml_intern_tui::artifacts::{ArtifactKind, ArtifactManifest, ArtifactPreview};
use ml_intern_tui::client::{AppClient, ClientMessage, Reply, RequestId};
use ml_intern_tui::clock::utc_now;
use ml_intern_tui::ids::{ArtifactId, LocalThreadId, LocalTurnId};
use ml_intern_tui::protocol::{
    AnswerMap, ApprovalAnswer, ApprovalDecision, ApprovalRespondParams, ProjectableThreadItem,
    ProjectedFileChange, ServerNotification, UserInput,
};
use ml_intern_tui::session::{
    next_drain_action, restored_active_turn_id, DrainAction, DrainPoint,
};
use ml_intern_tui::skills::{SkillDescriptor, SkillScope};
use ml_intern_tui::threads::{ThreadRecord, ThreadStatus, TurnRecord, TurnStatus};
use ml_intern_tui::ui::{
    ApprovalKind, ApprovalPolicy, AssistantMessageCell, ConnectionState, HistoryCellModel,
    PendingApproval, SandboxMode, UserMessageCell,
};

fn thread(name: &str) -> LocalThreadId {
    LocalThreadId { text: name.to_owned() }
}

fn turn(name: &str) -> LocalTurnId {
    LocalTurnId { text: name.to_owned() }
}

fn tell(app: &mut TranscriptApp, notification: ServerNotification) {
    app.apply_notification(notification, Ok(Vec::new()))
        .unwrap_or_else(|error| panic!("apply notification: {error}"));
}

fn command_item(id: &str, command: &str, output: Option<&str>, status: &str) -> ProjectableThreadItem {
    ProjectableThreadItem::CommandExecution {
        id: id.to_owned(),
        command: command.to_owned(),
        aggregated_output: output.map(|text| text.to_owned()),
        status: Some(status.to_owned()),
    }
}

fn patch_item(status: &str) -> ProjectableThreadItem {
    ProjectableThreadItem::FileChange {
        changes: vec![ProjectedFileChange {
            path: "src/app.rs".to_owned(),
            kind: "update".to_owned(),
        }],
        status: Some(status.to_owned()),
    }
}

fn started(item: ProjectableThreadItem) -> ServerNotification {
    ServerNotification::ItemStarted {
        thread_id: thread("thread"),
        turn_id: turn("turn"),
        item: Some(item),
    }
}

fn completed(item: ProjectableThreadItem) -> ServerNotification {
    ServerNotification::ItemCompleted {
        thread_id: thread("thread"),
        turn_id: turn("turn"),
        item: Some(item),
    }
}

fn output_delta(delta: &str) -> ServerNotification {
    ServerNotification::CommandExecutionOutputDelta {
        thread_id: thread("thread"),
        turn_id: turn("turn"),
        item_id: "cmd-1".to_owned(),
        delta: delta.to_owned(),
    }
}

fn skill(name: &str, path: &str, scope: SkillScope) -> SkillDescriptor {
    SkillDescriptor {
        name: name.to_owned(),
        description: "Repo".to_owned(),
        short_description: None,
        path: path.to_owned(),
        scope,
        enabled: true,
    }
}

fn refusal(code: i64, message: &str) -> String {
    let mut client = AppClient::new();
    let number = client.begin_request();
    let reply = client.receive(
        number,
        ClientMessage::Error {
            id: RequestId::Integer(1),
            code,
            message: message.to_owned(),
        },
    );
    match reply {
        Reply::Failed(error) => error,
        other => panic!("expected a refusal, got {other:?}"),
    }
}

fn approval(id: &str) -> PendingApproval {
    PendingApproval {
        id: id.to_owned(),
        kind: ApprovalKind::CommandExecution,
        title: "Approve command".to_owned(),
        description: "run tests".to_owned(),
        raw_payload: "{}".to_owned(),
    }
}

fn thread_record(id: &str, title: &str) -> ThreadRecord {
    ThreadRecord::new(
        thread(id),
        "/tmp/project".to_owned(),
        Some(title.to_owned()),
        None,
        ApprovalPolicy::OnRequest,
        SandboxMode::WorkspaceWrite,
        "transcript.jsonl".to_owned(),
        "artifacts".to_owned(),
    )
}

#[test]
fn rendered_frame_is_disabled_by_default() {
    let app = TranscriptApp::new();

    assert!(app.rendered_frame().is_none());
}

#[test]
fn rendered_frame_includes_clear_sequence_when_enabled() {
    let mut app = TranscriptApp::new();
    app.interactive_rendering = true;
    app.state.transcript.history.push(HistoryCellModel::UserMessage(UserMessageCell {
        text: "hello".to_owned(),
    }));

    let frame = app
        .rendered_frame()
        .unwrap_or_else(|| panic!("expected interactive frame"));

    assert!(frame.starts_with("\u{1b}[2J\u{1b}[H"));
    assert!(frame.contains("you> hello"));
}

#[test]
fn toggle_yolo_mode_updates_runtime_defaults() {
    let mut app = TranscriptApp::new();
    app.state.runtime.approval_policy = Some(ApprovalPolicy::OnRequest);
    app.state.runtime.sandbox_mode = Some(SandboxMode::WorkspaceWrite);

    let asked = app.toggle_yolo_mode();
    assert_eq!(asked, (ApprovalPolicy::Never, SandboxMode::DangerFullAccess));
    app.set_mode(asked, (ApprovalPolicy::Never, SandboxMode::DangerFullAccess));

    assert_eq!(app.state.runtime.approval_policy, Some(ApprovalPolicy::Never));
    assert_eq!(app.state.runtime.sandbox_mode, Some(SandboxMode::DangerFullAccess));
    assert!(matches!(
        app.state.transcript.history.last(),
        Some(HistoryCellModel::Status(cell)) if cell.message.contains("Default mode set to yolo")
    ));
}

#[test]
fn toggling_twice_comes_back_to_the_safe_mode() {
    let mut app = TranscriptApp::new();
    let yolo = app.toggle_yolo_mode();
    app.set_mode(yolo, yolo);
    let back = app.toggle_yolo_mode();
    assert_eq!(back, (ApprovalPolicy::OnRequest, SandboxMode::WorkspaceWrite));
}

#[test]
fn mode_command_supports_readonly() {
    let mut app = TranscriptApp::new();

    let asked = app
        .set_mode_command("/mode readonly")
        .unwrap_or_else(|| panic!("set readonly mode"));
    app.set_mode(asked, (ApprovalPolicy::OnRequest, SandboxMode::ReadOnly));

    assert_eq!(app.state.runtime.approval_policy, Some(ApprovalPolicy::OnRequest));
    assert_eq!(app.state.runtime.sandbox_mode, Some(SandboxMode::ReadOnly));
}

#[test]
fn unknown_mode_is_warned_about() {
    let mut app = TranscriptApp::new();
    assert!(app.set_mode_command("/mode wild").is_none());
    assert!(matches!(
        app.state.transcript.history.last(),
        Some(HistoryCellModel::Warning(_))
    ));
}

#[test]
fn restored_active_turn_id_prefers_latest_live_turn() {
    let mut done = TurnRecord::new(turn("a"), thread("thread"), "completed".to_owned());
    done.status = TurnStatus::Completed;
    let mut waiting = TurnRecord::new(turn("b"), thread("thread"), "waiting".to_owned());
    waiting.status = TurnStatus::WaitingApproval;

    let restored = restored_active_turn_id(&[done, waiting.clone()]);

    assert_eq!(restored, Some(waiting.id));
}

#[test]
fn resolve_inline_skill_prefers_selected_skill_for_matching_token() {
    let mut app = TranscriptApp::new();
    let chosen = skill(
        "hf-dataset-audit",
        ".agents/skills/hf-dataset-audit/SKILL.md",
        SkillScope::Repo,
    );
    app.selected_skill = Some(chosen.clone());

    let resolved = app.resolve_inline_skill("$hf-dataset-audit inspect this dataset");

    assert_eq!(
        resolved,
        SkillResolution::Resolved(Some(chosen), "inspect this dataset".to_owned())
    );
}

#[test]
fn an_unselected_skill_is_looked_up() {
    let mut app = TranscriptApp::new();
    assert_eq!(
        app.resolve_inline_skill("$audit this one"),
        SkillResolution::NeedSkills {
            token: "audit".to_owned(),
            remainder: "this one".to_owned(),
        }
    );
    assert_eq!(
        app.resolve_inline_skill("plain words"),
        SkillResolution::Resolved(None, "plain words".to_owned())
    );
    let listed = vec![skill("audit", "skills/audit/SKILL.md", SkillScope::Bundled)];
    let found = app.resolve_listed_skill("$audit this one", "audit", "this one", &listed);
    assert_eq!(found, Some((Some(listed[0].clone()), "this one".to_owned())));
}

#[test]
fn item_notifications_project_command_patch_and_plan_cells() {
    let mut app = TranscriptApp::new();

    tell(&mut app, started(command_item("cmd-1", "cargo test", None, "inProgress")));
    tell(&mut app, completed(command_item("cmd-1", "cargo test", Some("ok"), "completed")));
    tell(&mut app, completed(patch_item("completed")));
    tell(
        &mut app,
        completed(ProjectableThreadItem::Plan {
            text: "1. Inspect logs\\n2. Fix parser".to_owned(),
        }),
    );

    assert!(matches!(
        &app.state.transcript.history[0],
        HistoryCellModel::ExecCommand(cell) if cell.command == "cargo test"
    ));
    assert!(matches!(
        &app.state.transcript.history[1],
        HistoryCellModel::ExecOutput(cell) if cell.output == "ok" && !cell.streaming
    ));
    assert!(matches!(
        &app.state.transcript.history[2],
        HistoryCellModel::PatchSummary(cell)
            if cell.summary.contains("Patch completed") && cell.summary.contains("src/app.rs (update)")
    ));
    assert!(matches!(
        &app.state.transcript.history[3],
        HistoryCellModel::PlanUpdate(cell) if cell.summary.contains("Inspect logs")
    ));
}

#[test]
fn command_execution_output_delta_appends_live_output_before_completion() {
    let mut app = TranscriptApp::new();

    tell(&mut app, started(command_item("cmd-1", "python long_job.py", None, "inProgress")));
    tell(&mut app, output_delta("epoch 1\n"));
    tell(&mut app, output_delta("epoch 2\n"));

    assert_eq!(app.state.transcript.history.len(), 2);
    assert!(matches!(
        &app.state.transcript.history[1],
        HistoryCellModel::ExecOutput(cell)
            if cell.command == "python long_job.py"
                && cell.output == "epoch 1\nepoch 2\n"
                && cell.streaming
    ));

    tell(
        &mut app,
        completed(command_item(
            "cmd-1",
            "python long_job.py",
            Some("epoch 1\nepoch 2\n"),
            "completed",
        )),
    );

    assert_eq!(app.state.transcript.history.len(), 2);
    assert!(matches!(
        &app.state.transcript.history[1],
        HistoryCellModel::ExecOutput(cell)
            if cell.output == "epoch 1\nepoch 2\n" && !cell.streaming
    ));
}

#[test]
fn item_started_file_change_projects_patch_before_completion() {
    let mut app = TranscriptApp::new();

    tell(&mut app, started(patch_item("inProgress")));

    assert!(matches!(
        app.state.transcript.history.last(),
        Some(HistoryCellModel::PatchSummary(cell))
            if cell.summary.contains("Patch inProgress")
                && cell.summary.contains("src/app.rs (update)")
    ));
}

#[test]
fn plan_updated_notification_pushes_plan_cell() {
    let mut app = TranscriptApp::new();

    tell(
        &mut app,
        ServerNotification::PlanUpdated {
            thread_id: thread("thread"),
            turn_id: turn("turn"),
            summary: "Refine the fix | [completed] Inspect logs; [in_progress] Patch parser"
                .to_owned(),
        },
    );

    assert!(matches!(
        app.state.transcript.history.last(),
        Some(HistoryCellModel::PlanUpdate(cell))
            if cell.summary.contains("Refine the fix")
                && cell.summary.contains("[in_progress] Patch parser")
    ));
}

#[test]
fn resumed_live_thread_continues_draining_notifications() {
    let mut completed_turn = TurnRecord::new(turn("turn"), thread("thread"), "resume".to_owned());
    completed_turn.status = TurnStatus::Completed;
    completed_turn.finished_at = Some(utc_now());
    let notifications = vec![
        ServerNotification::AgentMessageDelta {
            thread_id: thread("thread"),
            turn_id: completed_turn.id.clone(),
            item_id: "item-1".to_owned(),
            delta: " + tail".to_owned(),
        },
        ServerNotification::TurnCompleted {
            thread_id: thread("thread"),
            turn: completed_turn.clone(),
        },
    ];
    let mut app = TranscriptApp::new();
    app.state.active_thread_id = Some(thread("thread"));
    app.active_turn_id = Some(completed_turn.id.clone());
    app.state.connection = ConnectionState::Streaming;
    app.state.transcript.history.push(HistoryCellModel::AssistantMessage(AssistantMessageCell {
        text: "partial".to_owned(),
        streaming: false,
    }));

    assert!(app.follow_resumed_thread());
    let mut actions = Vec::new();
    for notification in notifications {
        let done = matches!(notification, ServerNotification::TurnCompleted { .. });
        tell(&mut app, notification);
        actions.push(next_drain_action(
            DrainPoint::Notified { completed: done },
            app.state.connection,
        ));
    }
    assert!(matches!(actions[0], DrainAction::Poll));
    assert!(matches!(actions[1], DrainAction::Flush));
    app.begin_flush();
    app.finish_drain();

    assert_eq!(app.state.connection, ConnectionState::Ready);
    assert!(app.active_turn_id.is_none());
    match &app.state.transcript.history[0] {
        HistoryCellModel::AssistantMessage(cell) => {
            assert_eq!(cell.text, "partial + tail");
            assert!(!cell.streaming);
        }
        other => panic!("expected assistant cell, got {other:?}"),
    }
    assert!(matches!(
        app.state.transcript.history.last(),
        Some(HistoryCellModel::AssistantMessage(_))
    ));
}

#[test]
fn a_thread_that_does_not_run_is_not_followed() {
    let mut app = TranscriptApp::new();
    app.state.connection = ConnectionState::Ready;
    assert!(!app.follow_resumed_thread());
}

#[test]
fn a_turn_is_followed_again_once_a_retried_approval_is_sent() {
    let mut app = TranscriptApp::new();
    app.state.connection = ConnectionState::Streaming;
    assert!(app.follows_after_retry(ApprovalResolutionOutcome::Resolved));
    assert!(!app.follows_after_retry(ApprovalResolutionOutcome::Deferred));
    assert!(!app.follows_after_retry(ApprovalResolutionOutcome::NoPending));
    app.state.connection = ConnectionState::Ready;
    assert!(!app.follows_after_retry(ApprovalResolutionOutcome::Resolved));
}

#[test]
fn every_question_answered_is_named_once() {
    let mut answers = AnswerMap::new();
    for key in ["b", "a", "b"] {
        answers.insert(key.to_owned(), ApprovalAnswer { answers: vec![key.to_owned()] });
    }
    let mut keys = answers.keys();
    keys.sort();
    assert_eq!(keys, vec!["a".to_owned(), "b".to_owned()]);
    assert_eq!(answers.len(), 2);
}

#[test]
fn draining_stops_on_a_deferred_answer_and_when_the_line_is_gone() {
    assert!(matches!(
        next_drain_action(
            DrainPoint::AnsweredWhileQuiet { outcome: ApprovalResolutionOutcome::Deferred },
            ConnectionState::WaitingApproval,
        ),
        DrainAction::Stop
    ));
    assert!(matches!(
        next_drain_action(DrainPoint::Quiet, ConnectionState::Disconnected),
        DrainAction::Stop
    ));
    assert!(matches!(
        next_drain_action(DrainPoint::Quiet, ConnectionState::WaitingApproval),
        DrainAction::ResolveApproval
    ));
    assert!(matches!(
        next_drain_action(DrainPoint::Quiet, ConnectionState::Streaming),
        DrainAction::Sleep
    ));
}

#[test]
fn turn_completed_notification_returns_connection_to_ready() {
    let mut completed_turn = TurnRecord::new(turn("turn"), thread("thread"), "done".to_owned());
    completed_turn.status = TurnStatus::Completed;
    completed_turn.finished_at = Some(utc_now());
    let mut app = TranscriptApp::new();
    app.state.active_thread_id = Some(thread("thread"));
    app.active_turn_id = Some(completed_turn.id.clone());
    app.state.connection = ConnectionState::Streaming;
    app.state.transcript.history.push(HistoryCellModel::AssistantMessage(AssistantMessageCell {
        text: "partial".to_owned(),
        streaming: true,
    }));

    tell(
        &mut app,
        ServerNotification::TurnCompleted { thread_id: thread("thread"), turn: completed_turn },
    );

    assert_eq!(app.state.connection, ConnectionState::Ready);
    assert!(app.active_turn_id.is_none());
    match &app.state.transcript.history[0] {
        HistoryCellModel::AssistantMessage(cell) => assert!(!cell.streaming),
        other => panic!("expected assistant cell, got {other:?}"),
    }
}

#[test]
fn artifact_updated_notification_pushes_inline_update_cell() {
    let artifact_id = ArtifactId { text: "artifact".to_owned() };
    let mut manifest = ArtifactManifest {
        id: artifact_id.clone(),
        version: 1,
        local_thread_id: thread("thread"),
        local_turn_id: turn("turn"),
        kind: ArtifactKind::JobSnapshot,
        title: "Job snapshot".to_owned(),
        created_at: utc_now(),
        updated_at: utc_now(),
        summary: "summary".to_owned(),
        tags: vec!["job".to_owned()],
        primary_path: "report.md".to_owned(),
        extra_paths: vec!["report.json".to_owned()],
        metadata: "{}".to_owned(),
    };
    let original_preview = ArtifactPreview::JobSnapshot {
        job_id: "job-123".to_owned(),
        status: "running".to_owned(),
        hardware: Some("a10g".to_owned()),
        dashboard_url: None,
    };
    let mut app = TranscriptApp::new();
    app.state.artifacts.manifests.push(manifest.clone());

    manifest.updated_at = utc_now();
    tell(
        &mut app,
        ServerNotification::ArtifactUpdated {
            manifest: manifest.clone(),
            preview: original_preview.clone(),
        },
    );

    assert_eq!(app.state.artifacts.manifests.len(), 1);
    assert_eq!(app.state.artifacts.manifests[0].id, artifact_id);
    assert!(matches!(
        app.state.transcript.history.last(),
        Some(HistoryCellModel::ArtifactUpdated(cell))
            if cell.manifest.id == artifact_id && cell.preview == original_preview
    ));
}

#[test]
fn submit_approval_response_failure_keeps_waiting_state_and_error_cell() {
    let pending = approval("approval-1");
    let mut app = TranscriptApp::new();
    app.state.connection = ConnectionState::WaitingApproval;
    app.state.approvals.pending = Some(pending.clone());

    let outcome = app.submit_approval_response(
        &pending,
        &ApprovalRespondParams {
            approval_id: pending.id.clone(),
            decision: ApprovalDecision::Approve,
            answers: None,
        },
        Err(refusal(-32002, "send failed")),
    );

    assert!(matches!(outcome, ApprovalResolutionOutcome::Deferred));
    assert_eq!(app.state.connection, ConnectionState::WaitingApproval);
    assert_eq!(
        app.state.approvals.pending.as_ref().map(|pending| pending.id.as_str()),
        Some("approval-1")
    );
    assert!(matches!(
        app.state.transcript.history.last(),
        Some(HistoryCellModel::Error(cell))
            if cell
                .message
                .contains("Failed to send approval approval-1: app-server error -32002: send failed. Use /approval to retry.")
    ));
}

#[test]
fn a_sent_answer_ends_the_approval() {
    let pending = approval("approval-9");
    let mut app = TranscriptApp::new();
    app.state.connection = ConnectionState::WaitingApproval;
    app.state.approvals.pending = Some(pending.clone());
    let outcome = app.submit_approval_response(
        &pending,
        &ApprovalRespondParams {
            approval_id: pending.id.clone(),
            decision: ApprovalDecision::Reject,
            answers: None,
        },
        Ok(()),
    );
    assert!(matches!(outcome, ApprovalResolutionOutcome::Resolved));
    assert!(app.state.approvals.pending.is_none());
    assert_eq!(app.state.connection, ConnectionState::Streaming);
    assert!(matches!(
        app.state.transcript.history.last(),
        Some(HistoryCellModel::Status(cell)) if cell.message == "Approval approval-9: rejected"
    ));
}

#[test]
fn send_prompt_requires_pending_approval_to_be_resolved_first() {
    let mut app = TranscriptApp::new();
    app.state.connection = ConnectionState::WaitingApproval;
    app.state.approvals.pending = Some(approval("approval-2"));

    assert_eq!(app.start_prompt("continue anyway"), PromptStep::Refused);

    assert!(matches!(
        app.state.transcript.history.last(),
        Some(HistoryCellModel::Warning(cell))
            if cell.message.contains("Resolve the pending approval first with /approval.")
    ));
}

#[test]
fn a_prompt_without_a_thread_starts_one_and_then_a_turn() {
    let mut app = TranscriptApp::new();
    app.state.connection = ConnectionState::Ready;
    let step = app.start_prompt("inspect the dataset");
    assert_eq!(
        step,
        PromptStep::Resolution(SkillResolution::Resolved(None, "inspect the dataset".to_owned()))
    );
    let next = app.accept_prompt("inspect the dataset", &None, "inspect the dataset");
    assert!(matches!(next, PromptNext::StartThread { .. }));
    app.set_active_thread(&thread("fresh"));
    let params = app
        .begin_turn(&None, "inspect the dataset")
        .unwrap_or_else(|| panic!("expected a turn"));
    assert_eq!(params.thread_id, thread("fresh"));
    assert_eq!(params.input, vec![UserInput::Text { text: "inspect the dataset".to_owned() }]);
    app.turn_started(&turn("turn-1"));
    assert_eq!(app.active_turn_id, Some(turn("turn-1")));
}

#[test]
fn request_interrupt_failure_keeps_live_turn_and_surfaces_error() {
    let mut app = TranscriptApp::new();
    app.state.active_thread_id = Some(thread("thread"));
    app.active_turn_id = Some(turn("turn"));
    app.state.connection = ConnectionState::Streaming;

    let (_, turn_id) = app
        .interrupt_target()
        .unwrap_or_else(|| panic!("expected a turn to interrupt"));
    app.request_interrupt(&turn_id, Err(refusal(-32003, "interrupt failed")));

    assert_eq!(app.active_turn_id, Some(turn("turn")));
    assert_eq!(app.state.connection, ConnectionState::Streaming);
    assert!(matches!(
        app.state.transcript.history.last(),
        Some(HistoryCellModel::Error(cell))
            if cell.message.contains("Failed to send interrupt for turn")
                && cell.message.contains("app-server error -32003: interrupt failed")
    ));
}

#[test]
fn nothing_to_interrupt_is_warned_about() {
    let mut app = TranscriptApp::new();
    assert!(app.interrupt_target().is_none());
    assert!(matches!(
        app.state.transcript.history.last(),
        Some(HistoryCellModel::Warning(cell)) if cell.message == "No active thread to interrupt."
    ));
    app.state.active_thread_id = Some(thread("thread"));
    assert!(app.interrupt_target().is_none());
    assert!(matches!(
        app.state.transcript.history.last(),
        Some(HistoryCellModel::Warning(cell)) if cell.message == "No active turn to interrupt."
    ));
}

#[test]
fn listed_threads_mark_the_active_one() {
    let mut app = TranscriptApp::new();
    app.state.active_thread_id = Some(thread("b"));
    app.refresh_threads(Ok(vec![thread_record("a", "A"), thread_record("b", "B")]))
        .unwrap_or_else(|error| panic!("refresh threads: {error}"));
    let marks: Vec<bool> = app.state.threads.iter().map(|item| item.selected).collect();
    assert_eq!(marks, vec![false, true]);
    app.set_active_thread(&thread("a"));
    let marks: Vec<bool> = app.state.threads.iter().map(|item| item.selected).collect();
    assert_eq!(marks, vec![true, false]);
    assert_eq!(app.refresh_threads(Err("gone".to_owned())), Err("gone".to_owned()));
}

#[test]
fn thread_status_decides_the_connection() {
    let mut app = TranscriptApp::new();
    app.sync_connection_from_thread_status(ThreadStatus::Running);
    assert_eq!(app.state.connection, ConnectionState::Streaming);
    app.sync_connection_from_thread_status(ThreadStatus::WaitingApproval);
    assert_eq!(app.state.connection, ConnectionState::Ready);
    app.state.approvals.pending = Some(approval("approval-7"));
    app.sync_connection_from_thread_status(ThreadStatus::WaitingApproval);
    assert_eq!(app.state.connection, ConnectionState::WaitingApproval);
    app.sync_connection_from_thread_status(ThreadStatus::Idle);
    assert_eq!(app.state.connection, ConnectionState::Ready);
}

#[test]
fn message_pieces_join_into_one_entry() {
    let mut app = TranscriptApp::new();
    for piece in ["one", " two", " three"] {
        tell(
            &mut app,
            ServerNotification::AgentMessageDelta {
                thread_id: thread("thread"),
                turn_id: turn("turn"),
                item_id: "item".to_owned(),
                delta: piece.to_owned(),
            },
        );
    }
    assert_eq!(
        app.state.transcript.history,
        vec![HistoryCellModel::AssistantMessage(AssistantMessageCell {
            text: "one two three".to_owned(),
            streaming: true,
        })]
    );
}

#[test]
fn lines_are_told_apart() {
    assert!(matches!(classify_line("   "), LineInput::Blank));
    assert!(matches!(classify_line("/quit"), LineInput::Quit));
    assert!(matches!(classify_line(" /threads "), LineInput::Command(text) if text == "/threads"));
    assert!(matches!(classify_line(" hello "), LineInput::Prompt(text) if text == "hello"));
}

#[test]
fn commands_ask_for_what_they_name() {
    let mut app = TranscriptApp::new();
    assert!(matches!(app.handle_command("/threads"), CommandRequest::PickThread));
    assert!(matches!(app.handle_command("/skills"), CommandRequest::PickSkill));
    assert!(matches!(app.handle_command("/what"), CommandRequest::Done));
    assert!(matches!(
        app.state.transcript.history.last(),
        Some(HistoryCellModel::Warning(cell)) if cell.message.contains("/what")
    ));
    assert!(matches!(app.handle_command("/clear"), CommandRequest::Done));
    assert!(app.state.transcript.history.is_empty());
}
