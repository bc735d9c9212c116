use ml_intern_tui::artifacts::{ArtifactKind, ArtifactManifest, ArtifactPreview};
use ml_intern_tui::app::TranscriptApp;
use ml_intern_tui::client::{AppClient, ClientMessage, Reply, RequestId};
use ml_intern_tui::clock::{utc_now, Timestamp};
use ml_intern_tui::ids::{ArtifactId, LocalThreadId, LocalTurnId};
use ml_intern_tui::protocol::{
    ArtifactNotification, DecodedPayload, ProjectableThreadItem, ProjectedFileChange,
    RestoredPlanStep, RestoredPlanStepStatus, RestoredPlanUpdatePayload,
};
use ml_intern_tui::restore::{
    compact_json, finalize_restored_transcript, is_shortenable, replay_transcript_from_raw,
    restore_artifact_event, restore_transcript_from_file, restore_upstream_event,
    restore_wrapper_event, transcript_lines, NumberedReplayLine, ReplayLine, TranscriptSource,
};
use ml_intern_tui::session::ThreadReadResult;
use ml_intern_tui::threads::{
    ThreadRecord, ThreadStatus, TranscriptEvent, TranscriptEventSource, TurnRecord,
};
use ml_intern_tui::transcript::{append_command_output_delta, finalize_streaming_cells};
use ml_intern_tui::ui::{
    AppState, ApprovalPolicy, ConnectionState, HistoryCellModel, SandboxMode, UserMessageCell,
};
use serde_json::Value;

fn thread(name: &str) -> LocalThreadId {
    LocalThreadId { text: name.to_owned() }
}

fn turn(name: &str) -> LocalTurnId {
    LocalTurnId { text: name.to_owned() }
}

fn text_in(value: &Value, key: &str) -> Option<String> {
    value.get(key).and_then(|found| found.as_str()).map(|found| found.to_owned())
}

fn decode_item(value: &Value) -> Option<ProjectableThreadItem> {
    match value.get("type")?.as_str()? {
        "commandExecution" => Some(ProjectableThreadItem::CommandExecution {
            id: text_in(value, "id")?,
            command: text_in(value, "command")?,
            aggregated_output: text_in(value, "aggregatedOutput"),
            status: text_in(value, "status"),
        }),
        "fileChange" => {
            let mut changes = Vec::new();
            for change in value.get("changes")?.as_array()? {
                changes.push(ProjectedFileChange {
                    path: text_in(change, "path")?,
                    kind: text_in(change, "kind")?,
                });
            }
            Some(ProjectableThreadItem::FileChange { changes, status: text_in(value, "status") })
        }
        "plan" => Some(ProjectableThreadItem::Plan { text: text_in(value, "text")? }),
        _ => None,
    }
}

fn decode_plan(value: &Value) -> Option<RestoredPlanUpdatePayload> {
    let mut plan = Vec::new();
    for step in value.get("plan")?.as_array()? {
        let status = match step.get("status")?.as_str()? {
            "pending" => RestoredPlanStepStatus::Pending,
            "inProgress" => RestoredPlanStepStatus::InProgress,
            "completed" => RestoredPlanStepStatus::Completed,
            _ => return None,
        };
        plan.push(RestoredPlanStep { step: text_in(step, "step")?, status });
    }
    Some(RestoredPlanUpdatePayload { explanation: text_in(value, "explanation"), plan })
}

fn decode(value: &Value) -> DecodedPayload {
    DecodedPayload {
        input: value
            .get("input")
            .and_then(|input| input.get(0))
            .and_then(|first| text_in(first, "text")),
        plan: decode_plan(value),
        item: value.get("item").and_then(decode_item),
        approval: None,
        warning: text_in(value, "message"),
        artifact: None,
    }
}

fn event(seq: u64, source: TranscriptEventSource, payload: &str) -> (u64, TranscriptEventSource, String) {
    (seq, source, payload.to_owned())
}

fn replay_line(seq: u64, source: TranscriptEventSource, payload: &str) -> ReplayLine {
    let value: Value = serde_json::from_str(payload)
        .unwrap_or_else(|error| panic!("decode payload: {error}"));
    ReplayLine::Event {
        event: TranscriptEvent {
            seq,
            timestamp: utc_now(),
            thread_id: thread("thread"),
            turn_id: Some(turn("turn")),
            source,
            payload: value.to_string(),
        },
        decoded: decode(&value),
    }
}

fn replay(state: &mut AppState, events: Vec<(u64, TranscriptEventSource, String)>) {
    let mut lines = Vec::new();
    for (i, (seq, source, payload)) in events.into_iter().enumerate() {
        lines.push(NumberedReplayLine { number: i + 1, line: replay_line(seq, source, &payload) });
    }
    assert_eq!(replay_transcript_from_raw(state, "transcript.jsonl", &lines), None);
}

fn manifest(id: &str, title: &str) -> ArtifactManifest {
    ArtifactManifest {
        id: ArtifactId { text: id.to_owned() },
        version: 1,
        local_thread_id: thread("thread"),
        local_turn_id: turn("turn"),
        kind: ArtifactKind::JobSnapshot,
        title: title.to_owned(),
        created_at: utc_now(),
        updated_at: utc_now(),
        summary: "summary".to_owned(),
        tags: vec!["job".to_owned()],
        primary_path: "report.md".to_owned(),
        extra_paths: vec!["report.json".to_owned()],
        metadata: "{}".to_owned(),
    }
}

fn nothing_decoded() -> DecodedPayload {
    DecodedPayload {
        input: None,
        plan: None,
        item: None,
        approval: None,
        warning: None,
        artifact: None,
    }
}

#[test]
fn replay_transcript_from_raw_projects_wrapped_item_events() {
    let mut state = AppState::default();
    replay(
        &mut state,
        vec![
            event(
                1,
                TranscriptEventSource::UpstreamCodex,
                r#"{"event":"item_started","item":{"type":"commandExecution","id":"cmd-1","command":"cargo test","status":"inProgress"}}"#,
            ),
            event(
                2,
                TranscriptEventSource::UpstreamCodex,
                r#"{"event":"command_execution_output_delta","item_id":"cmd-1","delta":"ok"}"#,
            ),
            event(
                3,
                TranscriptEventSource::UpstreamCodex,
                r#"{"event":"item_completed","item":{"type":"commandExecution","id":"cmd-1","command":"cargo test","status":"completed","aggregatedOutput":"ok"}}"#,
            ),
            event(
                4,
                TranscriptEventSource::UpstreamCodex,
                r#"{"event":"item_completed","item":{"type":"fileChange","id":"patch-1","status":"completed","changes":[{"path":"src/app.rs","kind":"update"}]}}"#,
            ),
        ],
    );

    assert!(matches!(
        &state.transcript.history[0],
        HistoryCellModel::ExecCommand(cell) if cell.command == "cargo test"
    ));
    assert!(matches!(
        &state.transcript.history[1],
        HistoryCellModel::ExecOutput(cell) if cell.output == "ok" && !cell.streaming
    ));
    assert!(matches!(
        &state.transcript.history[2],
        HistoryCellModel::PatchSummary(cell) if cell.summary.contains("src/app.rs (update)")
    ));
}

#[test]
fn replay_transcript_from_raw_merges_command_output_delta_into_long_running_command() {
    let mut state = AppState::default();
    replay(
        &mut state,
        vec![
            event(
                1,
                TranscriptEventSource::UpstreamCodex,
                r#"{"event":"item_started","item":{"type":"commandExecution","id":"cmd-1","command":"python long_job.py","status":"inProgress"}}"#,
            ),
            event(
                2,
                TranscriptEventSource::UpstreamCodex,
                r#"{"event":"command_execution_output_delta","item_id":"cmd-1","delta":"epoch 1\n"}"#,
            ),
            event(
                3,
                TranscriptEventSource::UpstreamCodex,
                r#"{"event":"command_execution_output_delta","item_id":"cmd-1","delta":"epoch 2\n"}"#,
            ),
            event(
                4,
                TranscriptEventSource::UpstreamCodex,
                r#"{"event":"item_completed","item":{"type":"commandExecution","id":"cmd-1","command":"python long_job.py","status":"completed","aggregatedOutput":"epoch 1\nepoch 2\n"}}"#,
            ),
        ],
    );

    assert_eq!(state.transcript.history.len(), 2);
    assert!(matches!(
        &state.transcript.history[1],
        HistoryCellModel::ExecOutput(cell)
            if cell.command == "python long_job.py"
                && cell.output == "epoch 1\nepoch 2\n"
                && !cell.streaming
    ));
}

#[test]
fn replay_transcript_from_raw_projects_file_change_start_marker() {
    let mut state = AppState::default();
    replay(
        &mut state,
        vec![event(
            1,
            TranscriptEventSource::UpstreamCodex,
            r#"{"event":"item_started","item":{"type":"fileChange","id":"patch-1","status":"inProgress","changes":[{"path":"src/app.rs","kind":"update"}]}}"#,
        )],
    );

    assert!(matches!(
        state.transcript.history.last(),
        Some(HistoryCellModel::PatchSummary(cell))
            if cell.summary.contains("Patch inProgress")
                && cell.summary.contains("src/app.rs (update)")
    ));
}

#[test]
fn replay_transcript_from_raw_restores_plan_updated_marker() {
    let mut state = AppState::default();
    replay(
        &mut state,
        vec![event(
            1,
            TranscriptEventSource::UpstreamCodex,
            r#"{"event":"plan_updated","explanation":"Refine the fix","plan":[{"step":"Inspect logs","status":"completed"},{"step":"Patch parser","status":"inProgress"}]}"#,
        )],
    );

    assert!(matches!(
        state.transcript.history.last(),
        Some(HistoryCellModel::PlanUpdate(cell))
            if cell.summary.contains("Refine the fix")
                && cell.summary.contains("[completed] Inspect logs")
                && cell.summary.contains("[in_progress] Patch parser")
    ));
}

#[test]
fn replay_transcript_from_raw_skips_corrupt_lines_and_keeps_valid_history() {
    let user = r#"{"input":[{"type":"text","text":"inspect dataset"}]}"#;
    let assistant = r#"{"delta":"done"}"#;
    let raw = format!("{user}\n{{ not valid json }}\n{assistant}\n");
    let mut lines = Vec::new();
    for line in transcript_lines(&raw) {
        let source = if line.number == 1 {
            TranscriptEventSource::User
        } else {
            TranscriptEventSource::UpstreamCodex
        };
        let read = match serde_json::from_str::<Value>(&line.text) {
            Ok(_) => replay_line(line.number as u64, source, &line.text),
            Err(error) => ReplayLine::Corrupt { error: error.to_string() },
        };
        lines.push(NumberedReplayLine { number: line.number, line: read });
    }
    let mut state = AppState::default();

    assert_eq!(replay_transcript_from_raw(&mut state, "/tmp/transcript.jsonl", &lines), None);
    finalize_restored_transcript(&mut state);

    assert!(matches!(
        state.transcript.history.as_slice(),
        [
            HistoryCellModel::UserMessage(UserMessageCell { text }),
            HistoryCellModel::Warning(_),
            HistoryCellModel::AssistantMessage(_)
        ] if text == "inspect dataset"
    ));
    match &state.transcript.history[1] {
        HistoryCellModel::Warning(cell) => {
            assert!(cell.message.contains("Skipped corrupt transcript line 2"));
        }
        other => panic!("expected warning cell, got {other:?}"),
    }
    match &state.transcript.history[2] {
        HistoryCellModel::AssistantMessage(cell) => {
            assert_eq!(cell.text, "done");
            assert!(!cell.streaming);
        }
        other => panic!("expected assistant cell, got {other:?}"),
    }
}

#[test]
fn resume_thread_into_view_falls_back_to_local_snapshot_when_resume_fails() {
    let mut record = ThreadRecord::new(
        thread("resumed"),
        "/tmp/root".to_owned(),
        Some("resume fallback".to_owned()),
        None,
        ApprovalPolicy::OnRequest,
        SandboxMode::WorkspaceWrite,
        "transcript.jsonl".to_owned(),
        "artifacts".to_owned(),
    );
    record.status = ThreadStatus::Running;
    let details = ThreadReadResult {
        thread: record.clone(),
        turns: vec![TurnRecord::new(turn("turn"), record.id.clone(), "inspect".to_owned())],
    };
    let source = TranscriptSource::Read {
        lines: vec![NumberedReplayLine {
            number: 1,
            line: replay_line(
                1,
                TranscriptEventSource::User,
                r#"{"input":[{"type":"text","text":"inspect local thread"}]}"#,
            ),
        }],
    };
    let mut client = AppClient::new();
    let number = client.begin_request();
    let error = match client.receive(
        number,
        ClientMessage::Error {
            id: RequestId::Integer(1),
            code: -32001,
            message: "resume boom".to_owned(),
        },
    ) {
        Reply::Failed(error) => error,
        other => panic!("expected a refusal, got {other:?}"),
    };
    let mut app = TranscriptApp::new();

    app.set_active_thread(&record.id);
    assert_eq!(app.resume_failed(&error, &details, &source), None);

    assert_eq!(app.state.active_thread_id, Some(record.id));
    assert_eq!(app.state.connection, ConnectionState::Ready);
    assert!(app.active_turn_id.is_none());
    assert!(app.state.approvals.pending.is_none());
    assert!(matches!(
        app.state.transcript.history.first(),
        Some(HistoryCellModel::UserMessage(UserMessageCell { text }))
            if text == "inspect local thread"
    ));
    assert!(matches!(
        app.state.transcript.history.last(),
        Some(HistoryCellModel::Warning(cell))
            if cell
                .message
                .contains("Resume failed: app-server error -32001: resume boom. Loaded local transcript only.")
    ));
}

#[test]
fn a_resumed_thread_that_runs_is_streaming() {
    let mut record = ThreadRecord::new(
        thread("live"),
        "/tmp/root".to_owned(),
        None,
        None,
        ApprovalPolicy::OnRequest,
        SandboxMode::WorkspaceWrite,
        "transcript.jsonl".to_owned(),
        "artifacts".to_owned(),
    );
    record.status = ThreadStatus::Running;
    let mut live = TurnRecord::new(turn("live-turn"), record.id.clone(), "go on".to_owned());
    live.status = ml_intern_tui::threads::TurnStatus::Streaming;
    let details = ThreadReadResult { thread: record.clone(), turns: vec![live] };
    let mut app = TranscriptApp::new();
    assert_eq!(app.resume_succeeded(&record.id, &details, &TranscriptSource::Missing), None);
    assert_eq!(app.state.connection, ConnectionState::Streaming);
    assert_eq!(app.active_turn_id, Some(turn("live-turn")));
}

#[test]
fn replay_artifact_event_restores_update_as_artifact_cell() {
    let shown = manifest("artifact", "Job snapshot");
    let decoded = DecodedPayload {
        artifact: Some(ArtifactNotification {
            manifest: shown,
            preview: ArtifactPreview::JobSnapshot {
                job_id: "job-123".to_owned(),
                status: "running".to_owned(),
                hardware: Some("a10g".to_owned()),
                dashboard_url: Some("https://hf.co/jobs/job-123".to_owned()),
            },
        }),
        ..nothing_decoded()
    };
    let mut state = AppState::default();

    restore_artifact_event(&mut state, "{}", &decoded);
    restore_artifact_event(&mut state, "{}", &decoded);

    assert!(matches!(
        state.transcript.history.first(),
        Some(HistoryCellModel::ArtifactCreated(_))
    ));
    assert!(matches!(
        state.transcript.history.last(),
        Some(HistoryCellModel::ArtifactUpdated(cell)) if cell.manifest.id.text == "artifact"
    ));
    assert_eq!(state.artifacts.manifests.len(), 1);
}

#[test]
fn json_members_of_upstream_events_are_looked_up() {
    let mut state = AppState::default();
    assert!(restore_upstream_event(
        &mut state,
        r#"{"error":{"message":"no more tokens"}}"#,
        &nothing_decoded(),
    ));
    assert!(restore_upstream_event(
        &mut state,
        r#"{"turn":{"status":"failed"}}"#,
        &nothing_decoded(),
    ));
    assert!(restore_upstream_event(&mut state, r#"{"delta":"said"}"#, &nothing_decoded()));
    assert!(restore_upstream_event(&mut state, r#"{"delta":5}"#, &nothing_decoded()));
    let shown: Vec<String> = state
        .transcript
        .history
        .iter()
        .map(|cell| match cell {
            HistoryCellModel::Error(cell) => format!("error {}", cell.message),
            HistoryCellModel::Status(cell) => format!("status {}", cell.message),
            HistoryCellModel::AssistantMessage(cell) => format!("said {}", cell.text),
            other => panic!("unexpected cell {other:?}"),
        })
        .collect();
    assert_eq!(
        shown,
        vec![
            "error no more tokens".to_owned(),
            "status Turn completed with status failed".to_owned(),
            "said said".to_owned(),
            "status restored upstream event: {\"delta\":5}".to_owned(),
        ]
    );
}

#[test]
fn json_members_of_wrapper_events_are_looked_up() {
    let mut state = AppState::default();
    assert!(restore_wrapper_event(
        &mut state,
        r#"{"approval_id":"a-1","resolved":true}"#,
        &nothing_decoded(),
    ));
    assert!(restore_wrapper_event(
        &mut state,
        r#"{"approval_id":"a-1","decision":"approve"}"#,
        &nothing_decoded(),
    ));
    assert!(restore_wrapper_event(
        &mut state,
        r#"{"event":"interrupt_requested"}"#,
        &nothing_decoded(),
    ));
    assert!(restore_wrapper_event(
        &mut state,
        r#"{"status":"idle","transcript_path":"t","artifact_root":"a"}"#,
        &nothing_decoded(),
    ));
    assert!(restore_wrapper_event(
        &mut state,
        r#"{"approval_id":"a-1","resolved":false}"#,
        &nothing_decoded(),
    ));
    let shown: Vec<String> = state
        .transcript
        .history
        .iter()
        .map(|cell| match cell {
            HistoryCellModel::Status(cell) => cell.message.clone(),
            other => panic!("unexpected cell {other:?}"),
        })
        .collect();
    assert_eq!(
        shown,
        vec![
            "restored approval a-1 resolved".to_owned(),
            "restored approval a-1: approve".to_owned(),
            "Interrupt requested.".to_owned(),
            "Thread status: idle".to_owned(),
            "restored wrapper event: {\"approval_id\":\"a-1\",\"resolved\":false}".to_owned(),
        ]
    );
}

#[test]
fn long_json_is_cut_where_a_character_ends() {
    let short = "x".repeat(120);
    assert!(is_shortenable(&short));
    assert_eq!(compact_json(&short), short);
    let long = "y".repeat(121);
    assert!(is_shortenable(&long));
    assert_eq!(compact_json(&long), format!("{}...", "y".repeat(120)));
    let torn = format!("{}é{}", "z".repeat(119), "z".repeat(10));
    assert!(!is_shortenable(&torn));
}

#[test]
fn a_transcript_that_is_not_there_leaves_an_empty_one() {
    let mut state = AppState::default();
    state.transcript.history.push(HistoryCellModel::UserMessage(UserMessageCell {
        text: "old".to_owned(),
    }));
    assert_eq!(
        restore_transcript_from_file(&mut state, "gone.jsonl", &TranscriptSource::Missing),
        None
    );
    assert!(state.transcript.history.is_empty());
    assert_eq!(
        restore_transcript_from_file(
            &mut state,
            "odd.jsonl",
            &TranscriptSource::Unreadable { error: "denied".to_owned() },
        ),
        None
    );
    assert!(matches!(
        state.transcript.history.last(),
        Some(HistoryCellModel::Warning(cell)) if cell.message.contains("denied")
    ));
}

#[test]
fn blank_lines_of_a_transcript_are_counted_but_not_read() {
    let lines = transcript_lines("{}\n\n  \n{}\n");
    let numbers: Vec<usize> = lines.iter().map(|line| line.number).collect();
    assert_eq!(numbers, vec![1, 4]);
}

#[test]
fn the_clock_gives_a_time_after_the_year_2020() {
    let now: Timestamp = utc_now();
    assert!(now.seconds > 1_577_836_800);
    assert!(now.nanos < 2_000_000_000);
}

#[test]
fn output_is_closed_until_more_of_it_comes() {
    let mut state = AppState::default();
    append_command_output_delta(&mut state, "cmd-1", "one\n");
    finalize_streaming_cells(&mut state);
    let once = state.transcript.history.clone();
    finalize_streaming_cells(&mut state);
    assert_eq!(state.transcript.history, once);
    assert!(matches!(
        &once[0],
        HistoryCellModel::ExecOutput(cell) if cell.output == "one\n" && !cell.streaming
    ));
    append_command_output_delta(&mut state, "cmd-1", "two\n");
    assert!(matches!(
        &state.transcript.history[0],
        HistoryCellModel::ExecOutput(cell) if cell.output == "one\ntwo\n" && cell.streaming
    ));
}

#[test]
fn a_replay_in_two_parts_is_a_replay_of_the_whole() {
    let line = |number: usize, payload: &str| NumberedReplayLine {
        number,
        line: replay_line(number as u64, TranscriptEventSource::UpstreamCodex, payload),
    };
    let first = vec![line(1, r#"{"delta":"one"}"#)];
    let second = vec![line(2, r#"{"delta":" two"}"#), line(3, r#"{"turn":{"status":"done"}}"#)];
    let mut whole = first.clone();
    whole.extend(second.clone());
    let mut in_parts = AppState::default();
    assert_eq!(replay_transcript_from_raw(&mut in_parts, "t", &first), None);
    assert_eq!(replay_transcript_from_raw(&mut in_parts, "t", &second), None);
    let mut at_once = AppState::default();
    assert_eq!(replay_transcript_from_raw(&mut at_once, "t", &whole), None);
    assert_eq!(in_parts, at_once);
}

#[test]
fn a_line_that_cannot_be_cut_stops_the_replay() {
    let payload = format!("{{\"a\":\"{}é{}\"}}", "z".repeat(113), "z".repeat(20));
    assert!(!is_shortenable(&payload));
    let lines = vec![
        NumberedReplayLine {
            number: 1,
            line: replay_line(1, TranscriptEventSource::UpstreamCodex, r#"{"delta":"one"}"#),
        },
        NumberedReplayLine {
            number: 2,
            line: replay_line(2, TranscriptEventSource::UpstreamCodex, &payload),
        },
    ];
    let mut state = AppState::default();
    assert_eq!(replay_transcript_from_raw(&mut state, "t", &lines), Some(2));
    assert_eq!(state.transcript.history.len(), 1);
}
