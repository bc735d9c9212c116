use ml_intern_tui::app::TranscriptApp;
use ml_intern_tui::artifacts::{
    ArtifactFilePayload, ArtifactKind, ArtifactManifest, ArtifactPreview, ArtifactReadBundle,
};
use ml_intern_tui::clock::utc_now;
use ml_intern_tui::fullscreen::handle::{FullscreenAction, LoopStep};
use ml_intern_tui::fullscreen::keys::{map_key_event, KeyEvent};
use ml_intern_tui::fullscreen::line::{
    composer_with_cursor, delete_composer_backward, delete_composer_forward, insert_composer_char,
    masked_text_with_cursor, move_composer_cursor_left,
};
use ml_intern_tui::fullscreen::pickers::{handle_artifact_viewer_key, handle_skill_picker_key};
use ml_intern_tui::fullscreen::state::{
    build_approval_overlay, latest_status_toast, ready_only_action_warning, ApprovalOverlayState,
    ArtifactViewerState, FullscreenApp, OverlayState, RedrawRequest, SkillPickerState,
    TerminalSize, ToastLevel,
};
use ml_intern_tui::ids::{ArtifactId, LocalThreadId, LocalTurnId};
use ml_intern_tui::keys::{bare, KeyCode, KeyPress};
use ml_intern_tui::protocol::{ApprovalDecision, ApprovalQuestion, ApprovalQuestionOption};
use ml_intern_tui::skills::{SkillDescriptor, SkillScope};
use ml_intern_tui::ui::{
    AppState, ApprovalCell, ApprovalKind, ArtifactEventCell, ConnectionState, HistoryCellModel,
    PendingApproval, WarningCell,
};
use ml_intern_tui::wrapping::{wrap_lines, wrap_text};

fn approval(id: &str, kind: ApprovalKind) -> PendingApproval {
    PendingApproval {
        id: id.to_owned(),
        kind,
        title: "Need more detail".to_owned(),
        description: "Collect context".to_owned(),
        raw_payload: "{}".to_owned(),
    }
}

fn option(label: &str, description: &str) -> ApprovalQuestionOption {
    ApprovalQuestionOption { label: label.to_owned(), description: description.to_owned() }
}

fn priority() -> ApprovalQuestion {
    ApprovalQuestion {
        id: "priority".to_owned(),
        header: "Priority".to_owned(),
        question: "Choose one".to_owned(),
        is_other: false,
        is_secret: false,
        options: Some(vec![option("low", "Later"), option("high", "Now")]),
    }
}

fn manifest() -> ArtifactManifest {
    ArtifactManifest {
        id: ArtifactId { text: "artifact".to_owned() },
        version: 1,
        local_thread_id: LocalThreadId { text: "thread".to_owned() },
        local_turn_id: LocalTurnId { text: "turn".to_owned() },
        kind: ArtifactKind::DatasetAudit,
        title: "artifact".to_owned(),
        created_at: utc_now(),
        updated_at: utc_now(),
        summary: "summary".to_owned(),
        tags: Vec::new(),
        primary_path: "report.md".to_owned(),
        extra_paths: Vec::new(),
        metadata: "{}".to_owned(),
    }
}

fn skill(name: &str) -> SkillDescriptor {
    SkillDescriptor {
        name: name.to_owned(),
        description: "Inspect".to_owned(),
        short_description: None,
        path: "skills/audit".to_owned(),
        scope: SkillScope::Bundled,
        enabled: true,
    }
}

fn screen() -> FullscreenApp {
    let mut core = TranscriptApp::new();
    core.state.connection = ConnectionState::Ready;
    FullscreenApp::new(core, TerminalSize { width: 80, height: 24 })
}

fn press_all(app: &mut FullscreenApp, words: &str) {
    for ch in words.chars() {
        assert_eq!(app.handle_key_event(KeyEvent::Char(ch)), FullscreenAction::Idle);
    }
}

#[test]
fn wrap_text_preserves_paragraphs() {
    let wrapped = wrap_text("alpha beta gamma", 8);
    assert_eq!(wrapped, vec!["alpha".to_owned(), "beta".to_owned(), "gamma".to_owned()]);
}

#[test]
fn wrapping_breaks_long_words_and_keeps_blank_lines() {
    assert_eq!(wrap_text("abcdefgh", 3), vec!["abc", "def", "gh"]);
    assert_eq!(wrap_text("a b", 3), vec!["a b"]);
    assert_eq!(
        wrap_lines(&vec!["one two".to_owned(), String::new()], 4),
        vec!["one", "two", ""]
    );
    assert_eq!(wrap_text("你好 你好", 4), vec!["你好", "你好"]);
}

#[test]
fn composer_with_cursor_marks_insertion_point() {
    assert_eq!(composer_with_cursor("hello", 2), "he|llo");
    assert_eq!(composer_with_cursor("", 0), "|");
}

#[test]
fn masked_text_with_cursor_hides_secret_contents() {
    assert_eq!(masked_text_with_cursor("secret", 3), "***|***");
    assert_eq!(masked_text_with_cursor("你好", "你".len()), "*|*");
}

#[test]
fn ready_only_action_warning_allows_ready_state() {
    assert_eq!(
        ready_only_action_warning(&ConnectionState::Ready, false, "running /threads"),
        None
    );
}

#[test]
fn ready_only_action_warning_requires_interrupt_while_streaming() {
    assert_eq!(
        ready_only_action_warning(&ConnectionState::Streaming, false, "running /threads"),
        Some("Interrupt the active turn before running /threads.".to_owned())
    );
}

#[test]
fn ready_only_action_warning_prefers_pending_approval_hint() {
    assert_eq!(
        ready_only_action_warning(
            &ConnectionState::WaitingApproval,
            true,
            "opening the skill picker"
        ),
        Some("Resolve the pending approval first with /approval.".to_owned())
    );
}

#[test]
fn map_key_event_preserves_navigation_and_ctrl_shortcuts() {
    let cases = [
        (bare(KeyCode::Char('你')), Some(KeyEvent::Char('你'))),
        (KeyPress { shift: true, ..bare(KeyCode::Char('C')) }, Some(KeyEvent::Char('C'))),
        (KeyPress { control: true, ..bare(KeyCode::Char('c')) }, Some(KeyEvent::CtrlC)),
        (KeyPress { control: true, ..bare(KeyCode::Char('l')) }, Some(KeyEvent::CtrlL)),
        (bare(KeyCode::Delete), Some(KeyEvent::Delete)),
        (bare(KeyCode::PageDown), Some(KeyEvent::PageDown)),
        (bare(KeyCode::Home), Some(KeyEvent::Home)),
    ];

    for (event, expected) in cases {
        assert_eq!(map_key_event(event), expected);
    }
}

#[test]
fn keys_that_are_let_go_mean_nothing() {
    assert_eq!(map_key_event(KeyPress { released: true, ..bare(KeyCode::Enter) }), None);
    assert_eq!(map_key_event(KeyPress { alt: true, ..bare(KeyCode::Char('x')) }), None);
}

#[test]
fn control_characters_are_those_of_unicode() {
    for code in 0..0x11_0000_u32 {
        if let Some(ch) = char::from_u32(code) {
            let meant = map_key_event(bare(KeyCode::Char(ch)));
            assert_eq!(meant.is_none(), ch.is_control(), "{ch:?}");
        }
    }
}

#[test]
fn composer_editing_respects_utf8_boundaries() {
    let mut state = AppState::default();
    state.composer.buffer = "你a好".to_owned();
    state.composer.cursor = state.composer.buffer.len();

    move_composer_cursor_left(&mut state);
    assert_eq!(composer_with_cursor(&state.composer.buffer, state.composer.cursor), "你a|好");

    move_composer_cursor_left(&mut state);
    insert_composer_char(&mut state, '🙂');
    assert_eq!(state.composer.buffer, "你🙂a好");
    assert_eq!(composer_with_cursor(&state.composer.buffer, state.composer.cursor), "你🙂|a好");

    delete_composer_backward(&mut state);
    assert_eq!(state.composer.buffer, "你a好");
    assert_eq!(composer_with_cursor(&state.composer.buffer, state.composer.cursor), "你|a好");

    delete_composer_forward(&mut state);
    assert_eq!(state.composer.buffer, "你好");
    assert_eq!(composer_with_cursor(&state.composer.buffer, state.composer.cursor), "你|好");
}

#[test]
fn build_approval_overlay_decodes_request_user_input_questions() {
    let pending = approval("approval-1", ApprovalKind::RequestUserInput);

    let overlay = build_approval_overlay(&pending, &Some(vec![priority()]))
        .unwrap_or_else(|| panic!("build approval overlay"));

    match overlay {
        ApprovalOverlayState::Questionnaire { questions, .. } => {
            assert_eq!(questions.len(), 1);
            assert_eq!(questions[0].header, "Priority");
        }
        other => panic!("expected questionnaire overlay, got {other:?}"),
    }
}

#[test]
fn questions_that_cannot_be_read_build_nothing() {
    let pending = approval("approval-1", ApprovalKind::RequestUserInput);
    assert_eq!(build_approval_overlay(&pending, &None), None);
    let command = approval("approval-1", ApprovalKind::CommandExecution);
    assert!(matches!(
        build_approval_overlay(&command, &None),
        Some(ApprovalOverlayState::Decision { .. })
    ));
}

#[test]
fn latest_status_toast_prefers_most_recent_warning_or_error() {
    let mut state = AppState::default();
    state.transcript.history.push(HistoryCellModel::ArtifactCreated(ArtifactEventCell {
        manifest: manifest(),
        preview: ArtifactPreview::Generic { headline: "headline".to_owned() },
    }));
    state.transcript.history.push(HistoryCellModel::ApprovalRequest(ApprovalCell {
        approval: approval("approval-2", ApprovalKind::CommandExecution),
    }));
    state.transcript.history.push(HistoryCellModel::Warning(WarningCell {
        message: "Heads up".to_owned(),
    }));

    let toast = latest_status_toast(&state).unwrap_or_else(|| panic!("missing toast"));
    assert_eq!(toast.level, ToastLevel::Warning);
    assert_eq!(toast.text, "Heads up");
}

#[test]
fn typed_words_are_sent_as_a_prompt() {
    let mut app = screen();
    press_all(&mut app, "hello");
    assert_eq!(app.core.state.composer.buffer, "hello");
    assert_eq!(
        app.handle_key_event(KeyEvent::Enter),
        FullscreenAction::StartPrompt { prompt: "hello".to_owned() }
    );
}

#[test]
fn commands_are_run_from_the_composer() {
    let mut app = screen();
    press_all(&mut app, "/threads");
    assert_eq!(app.handle_key_event(KeyEvent::Enter), FullscreenAction::ListThreads);
    let mut app = screen();
    press_all(&mut app, "/skills");
    assert_eq!(app.handle_key_event(KeyEvent::Enter), FullscreenAction::ListSkills);
    let mut app = screen();
    press_all(&mut app, "/quit");
    assert_eq!(app.handle_key_event(KeyEvent::Enter), FullscreenAction::Idle);
    assert!(app.should_quit);
}

#[test]
fn a_running_turn_is_interrupted_before_anything_quits() {
    let mut app = screen();
    app.core.state.connection = ConnectionState::Streaming;
    assert_eq!(app.handle_key_event(KeyEvent::CtrlC), FullscreenAction::Interrupt);
    assert!(!app.should_quit);
    app.core.state.connection = ConnectionState::Ready;
    assert_eq!(app.handle_key_event(KeyEvent::CtrlC), FullscreenAction::Idle);
    assert!(app.should_quit);
}

#[test]
fn a_skill_is_chosen_in_the_picker() {
    let mut app = screen();
    let skill = skill("audit");
    app.open_skill_picker(vec![skill.clone()]);
    assert!(matches!(app.ui.overlay_stack.last(), Some(OverlayState::Skills(_))));
    assert_eq!(app.handle_key_event(KeyEvent::Enter), FullscreenAction::Idle);
    assert_eq!(app.core.selected_skill, Some(skill));
    assert!(app.ui.overlay_stack.is_empty());
}

#[test]
fn escape_closes_the_window_on_top() {
    let mut app = screen();
    app.push_help_overlay();
    assert_eq!(app.ui.overlay_stack.len(), 1);
    assert_eq!(app.handle_key_event(KeyEvent::Esc), FullscreenAction::Idle);
    assert!(app.ui.overlay_stack.is_empty());
}

#[test]
fn the_pending_approval_is_answered_from_its_window() {
    let mut app = screen();
    let pending = approval("approval-5", ApprovalKind::CommandExecution);
    app.core.state.connection = ConnectionState::WaitingApproval;
    app.core.state.approvals.pending = Some(pending.clone());
    assert!(app.sync_overlays_with_state(&None));
    assert!(matches!(app.ui.overlay_stack.last(), Some(OverlayState::Approval(_))));
    assert_eq!(app.handle_key_event(KeyEvent::Char('r')), FullscreenAction::Idle);
    match app.handle_key_event(KeyEvent::Enter) {
        FullscreenAction::AnswerApproval { approval, request, .. } => {
            assert_eq!(approval, pending);
            assert_eq!(request.approval_id, "approval-5");
            assert_eq!(request.decision, ApprovalDecision::Reject);
        }
        other => panic!("expected an answer, got {other:?}"),
    }
}

#[test]
fn questions_are_answered_one_by_one() {
    let mut app = screen();
    let pending = approval("approval-6", ApprovalKind::RequestUserInput);
    app.core.state.connection = ConnectionState::WaitingApproval;
    app.core.state.approvals.pending = Some(pending);
    let mut notes = priority();
    notes.id = "notes".to_owned();
    notes.options = None;
    assert!(app.sync_overlays_with_state(&Some(vec![priority(), notes])));
    assert_eq!(app.handle_key_event(KeyEvent::Down), FullscreenAction::Idle);
    assert_eq!(app.handle_key_event(KeyEvent::Enter), FullscreenAction::Idle);
    press_all(&mut app, "soon");
    match app.handle_key_event(KeyEvent::Enter) {
        FullscreenAction::AnswerApproval { request, .. } => {
            assert_eq!(request.decision, ApprovalDecision::Approve);
            let answers = request.answers.unwrap_or_else(|| panic!("answers"));
            assert_eq!(answers.len(), 2);
            assert_eq!(
                answers.get("priority").map(|answer| answer.answers),
                Some(vec!["high".to_owned()])
            );
            assert_eq!(
                answers.get("notes").map(|answer| answer.answers),
                Some(vec!["soon".to_owned()])
            );
        }
        other => panic!("expected an answer, got {other:?}"),
    }
}

#[test]
fn the_loop_draws_before_it_waits() {
    let mut app = screen();
    assert!(app.settle(&None, RedrawRequest::Initial));
    assert_eq!(app.next_step(false, false), LoopStep::Draw(RedrawRequest::Initial));
    assert_eq!(app.next_step(true, false), LoopStep::TakeNotification);
    assert_eq!(app.take_redraw(), Some(RedrawRequest::Initial));
    assert_eq!(app.next_step(false, true), LoopStep::Tick);
    assert_eq!(app.next_step(false, false), LoopStep::AwaitKey);
    app.handle_resize(100, 30);
    assert_eq!(app.ui.size, TerminalSize { width: 100, height: 30 });
    assert_eq!(app.next_step(false, false), LoopStep::Draw(RedrawRequest::Resized));
}

#[test]
fn prompts_wait_until_the_client_is_ready() {
    let mut app = screen();
    press_all(&mut app, "hello");
    app.core.state.connection = ConnectionState::Streaming;
    assert_eq!(app.handle_key_event(KeyEvent::Enter), FullscreenAction::Idle);
    assert_eq!(app.core.state.composer.buffer, "hello");
    assert!(matches!(
        app.core.state.transcript.history.last(),
        Some(HistoryCellModel::Warning(cell))
            if cell.message == "Wait for the current turn to finish or interrupt it first."
    ));
}

#[test]
fn the_selection_of_a_picker_stays_in_its_list() {
    let mut state = SkillPickerState {
        filter: String::new(),
        selected: 0,
        skills: vec![skill("one"), skill("two")],
    };
    for key in [KeyEvent::Down, KeyEvent::PageDown, KeyEvent::Down] {
        handle_skill_picker_key(&mut state, key);
        assert_eq!(state.selected, 1);
    }
    handle_skill_picker_key(&mut state, KeyEvent::Char('t'));
    handle_skill_picker_key(&mut state, KeyEvent::Char('w'));
    assert_eq!(state.selected, 0);
    let (_, picked) = handle_skill_picker_key(&mut state, KeyEvent::Enter);
    assert_eq!(picked.map(|skill| skill.name), Some("two".to_owned()));
}

#[test]
fn the_viewer_keeps_to_the_files_that_there_are() {
    let file = ArtifactFilePayload {
        path: "report.md".to_owned(),
        media_type: "text/markdown".to_owned(),
        text: Some("# report".to_owned()),
        base64: None,
        read_error: None,
    };
    let mut viewer = ArtifactViewerState::new(ArtifactReadBundle {
        manifest: manifest(),
        files: vec![file.clone(), file],
    });
    for key in [KeyEvent::Right, KeyEvent::Right, KeyEvent::Down] {
        assert!(handle_artifact_viewer_key(&mut viewer, key));
        assert!(viewer.selected_file < 2);
    }
    assert_eq!((viewer.selected_file, viewer.scroll), (1, 1));
    assert!(handle_artifact_viewer_key(&mut viewer, KeyEvent::Left));
    assert_eq!((viewer.selected_file, viewer.scroll), (0, 0));
    assert!(!handle_artifact_viewer_key(&mut viewer, KeyEvent::Esc));
}
