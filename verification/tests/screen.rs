use ml_intern_tui::artifacts::{ArtifactFilePayload, ArtifactKind, ArtifactManifest, ArtifactReadBundle};
use ml_intern_tui::clock::{utc_now, Timestamp};
use ml_intern_tui::draw::{centered_rect, Area, DrawItem};
use ml_intern_tui::fullscreen::content::{
    list_rows, render_artifact_file_content, updated_text, visible_transcript_lines,
};
use ml_intern_tui::fullscreen::screen::render_screen;
use ml_intern_tui::fullscreen::state::{
    ApprovalChoice, ApprovalOverlayState, ArtifactViewerState, FullscreenUiState, OverlayState,
    QuestionFocus, StatusToast, TerminalSize, ToastLevel,
};
use ml_intern_tui::ids::{ArtifactId, LocalThreadId, LocalTurnId};
use ml_intern_tui::protocol::{AnswerMap, ApprovalQuestion};
use ml_intern_tui::skills::SkillDescriptor;
use ml_intern_tui::styled::StyledLine;
use ml_intern_tui::threads::ThreadRecord;
use ml_intern_tui::ui::{
    AppState, ApprovalKind, ApprovalPolicy, AssistantMessageCell, ComposerState, ConnectionState,
    HistoryCellModel, PendingApproval, RuntimeBannerState, SandboxMode, ThreadListItem,
    TranscriptState, UserMessageCell,
};
use ratatui::backend::TestBackend;
use ratatui::buffer::Buffer;
use ratatui::layout::Rect;
use ratatui::text::{Line, Span};
use ratatui::widgets::{Block, Borders, Clear, Paragraph, Wrap};
use ratatui::{Frame, Terminal};

fn sample_state() -> AppState {
    AppState {
        connection: ConnectionState::Ready,
        runtime: RuntimeBannerState {
            cwd: Some("/tmp/project".to_owned()),
            codex_version: Some("0.120.0".to_owned()),
            approval_policy: Some(ApprovalPolicy::OnRequest),
            sandbox_mode: Some(SandboxMode::WorkspaceWrite),
        },
        composer: ComposerState {
            buffer: "inspect dataset".to_owned(),
            cursor: "inspect dataset".len(),
            skill_query: None,
        },
        transcript: TranscriptState {
            history: vec![
                HistoryCellModel::UserMessage(UserMessageCell { text: "hello".to_owned() }),
                HistoryCellModel::AssistantMessage(AssistantMessageCell {
                    text: "world".to_owned(),
                    streaming: false,
                }),
            ],
        },
        ..AppState::default()
    }
}

fn ui(width: usize, height: usize) -> FullscreenUiState {
    FullscreenUiState {
        overlay_stack: Vec::new(),
        transcript_scroll: 0,
        status_toast: None,
        size: TerminalSize { width, height },
    }
}

fn rect(area: &Area) -> Rect {
    Rect { x: area.x, y: area.y, width: area.width, height: area.height }
}

fn line(styled: &StyledLine) -> Line<'static> {
    let spans: Vec<Span<'static>> =
        styled.spans.iter().map(|span| Span::raw(span.text.clone())).collect();
    Line::from(spans)
}

fn paint(frame: &mut Frame, item: &DrawItem) {
    match item {
        DrawItem::Clear { area } => frame.render_widget(Clear, rect(area)),
        DrawItem::Frame { area, title, .. } => frame.render_widget(
            Block::default().borders(Borders::ALL).title(line(title)),
            rect(area),
        ),
        DrawItem::Lines { area, lines, wrap } => {
            let lines: Vec<Line<'static>> = lines.iter().map(line).collect();
            let mut shown = Paragraph::new(lines);
            if *wrap {
                shown = shown.wrap(Wrap { trim: false });
            }
            frame.render_widget(shown, rect(area));
        }
        DrawItem::Prose { area, words } => frame.render_widget(
            Paragraph::new(words.clone()).wrap(Wrap { trim: false }),
            rect(area),
        ),
        DrawItem::Glyph { at, symbol, .. } => {
            frame.buffer_mut()[(at.x, at.y)].set_char(*symbol);
        }
    }
}

fn render_screen_snapshot(
    state: &AppState,
    selected_skill: Option<&SkillDescriptor>,
    ui: &FullscreenUiState,
) -> String {
    let (width, height) = (ui.size.width as u16, ui.size.height as u16);
    let items = render_screen(
        Area { x: 0, y: 0, width, height },
        state,
        &selected_skill.cloned(),
        ui,
    );
    let mut terminal = Terminal::new(TestBackend::new(width, height))
        .unwrap_or_else(|error| panic!("create test terminal: {error}"));
    terminal
        .draw(|frame| {
            for item in &items {
                paint(frame, item);
            }
        })
        .unwrap_or_else(|error| panic!("draw test frame: {error}"));
    buffer_to_string(terminal.backend().buffer())
}

fn buffer_to_string(buffer: &Buffer) -> String {
    let mut lines = Vec::with_capacity(buffer.area.height as usize);
    for y in 0..buffer.area.height {
        let mut line = String::new();
        for x in 0..buffer.area.width {
            line.push_str(buffer[(x, y)].symbol());
        }
        lines.push(line.trim_end().to_owned());
    }
    lines.join("\n")
}

fn manifest(title: &str) -> ArtifactManifest {
    ArtifactManifest {
        id: ArtifactId { text: "artifact".to_owned() },
        version: 1,
        local_thread_id: LocalThreadId { text: "thread".to_owned() },
        local_turn_id: LocalTurnId { text: "turn".to_owned() },
        kind: ArtifactKind::DatasetAudit,
        title: title.to_owned(),
        created_at: utc_now(),
        updated_at: utc_now(),
        summary: "summary".to_owned(),
        tags: Vec::new(),
        primary_path: "report.md".to_owned(),
        extra_paths: Vec::new(),
        metadata: "{}".to_owned(),
    }
}

fn approval(id: &str, kind: ApprovalKind, title: &str, description: &str) -> PendingApproval {
    PendingApproval {
        id: id.to_owned(),
        kind,
        title: title.to_owned(),
        description: description.to_owned(),
        raw_payload: "{}".to_owned(),
    }
}

#[test]
fn render_screen_includes_header_transcript_and_composer() {
    let rendered = render_screen_snapshot(&sample_state(), None, &ui(80, 24));

    assert!(rendered.contains("Session"));
    assert!(rendered.contains("Transcript"));
    assert!(rendered.contains("Composer"));
    assert!(rendered.contains("you> hello"));
    assert!(rendered.contains("assistant> world"));
    assert!(rendered.contains("inspect dataset|"));
}

#[test]
fn render_screen_handles_empty_artifact_viewer_payload() {
    let mut ui = ui(100, 28);
    ui.overlay_stack.push(OverlayState::ArtifactViewer(ArtifactViewerState::new(
        ArtifactReadBundle {
            manifest: manifest("empty artifact"),
            files: Vec::<ArtifactFilePayload>::new(),
        },
    )));

    let rendered = render_screen_snapshot(&sample_state(), None, &ui);

    assert!(rendered.contains("No readable files | Esc close"));
    assert!(rendered.contains("Selected artifact has no readable files."));
    assert!(!rendered.contains("File 1/0"));
}

#[test]
fn render_screen_masks_secret_request_user_input_answers() {
    let mut ui = ui(100, 28);
    ui.overlay_stack.push(OverlayState::Approval(ApprovalOverlayState::Questionnaire {
        approval: approval(
            "approval-secret",
            ApprovalKind::RequestUserInput,
            "Need secret",
            "Collect a token",
        ),
        questions: vec![ApprovalQuestion {
            id: "token".to_owned(),
            header: "Token".to_owned(),
            question: "Enter a secret token".to_owned(),
            is_other: true,
            is_secret: true,
            options: None,
        }],
        current: 0,
        option_selected: 0,
        focus: QuestionFocus::TextInput,
        input: "topsecret".to_owned(),
        answers: AnswerMap::new(),
    }));

    let rendered = render_screen_snapshot(&sample_state(), None, &ui);

    assert!(rendered.contains("Secret input is masked locally."));
    assert!(rendered.contains("Input*: *********|"));
    assert!(!rendered.contains("topsecret"));
}

#[test]
fn render_screen_keeps_status_toast_visible_over_overlay() {
    let mut ui = ui(40, 16);
    ui.status_toast = Some(StatusToast {
        level: ToastLevel::Error,
        text: "send failed".to_owned(),
    });
    ui.overlay_stack.push(OverlayState::Approval(ApprovalOverlayState::Decision {
        approval: approval("approval-1", ApprovalKind::CommandExecution, "Approve", "run tests"),
        choice: ApprovalChoice::Approve,
    }));

    let rendered = render_screen_snapshot(&sample_state(), None, &ui);

    assert!(rendered.contains("Approval"));
    assert!(rendered.contains("send failed"));
}

#[test]
fn render_screen_clamps_transcript_scroll_to_available_history() {
    let mut ui = ui(80, 24);
    ui.transcript_scroll = 99;

    let rendered = render_screen_snapshot(&sample_state(), None, &ui);

    assert!(rendered.contains("you> hello"));
    assert!(rendered.contains("assistant> world"));
    assert!(!rendered.contains(
        "+-Transcript---------------------------+\n|                                      |"
    ));
}

#[test]
fn the_sections_of_the_screen_lie_below_each_other() {
    let items = render_screen(
        Area { x: 0, y: 0, width: 80, height: 24 },
        &sample_state(),
        &None,
        &ui(80, 24),
    );
    let frames: Vec<Area> = items
        .iter()
        .filter_map(|item| match item {
            DrawItem::Frame { area, .. } => Some(*area),
            _ => None,
        })
        .collect();
    assert_eq!(frames.len(), 3);
    assert_eq!(frames[0].y, 0);
    assert_eq!(frames[1].y, frames[0].height);
    assert_eq!(frames[2].y, frames[1].y + frames[1].height);
    assert_eq!(frames[2].y + frames[2].height, 24);
    assert!(frames.iter().all(|area| area.x == 0 && area.width == 80));
}

#[test]
fn a_window_is_put_in_the_middle() {
    let whole = Area { x: 0, y: 0, width: 100, height: 40 };
    assert_eq!(centered_rect(whole, 60, 20), Area { x: 20, y: 10, width: 60, height: 20 });
}

#[test]
fn json_files_are_shown_with_indents() {
    let file = ArtifactFilePayload {
        path: "report.json".to_owned(),
        media_type: "application/json".to_owned(),
        text: Some("{\"b\":1,\"a\":[true]}".to_owned()),
        base64: None,
        read_error: None,
    };
    let lines = render_artifact_file_content(&file);
    assert!(lines.iter().any(|line| line == "  \"b\": 1" || line == "  \"b\": 1,"));
    assert!(lines.iter().any(|line| line == "    true"));
    let broken = ArtifactFilePayload { text: Some("{oops".to_owned()), ..file };
    assert!(render_artifact_file_content(&broken).iter().any(|line| line == "{oops"));
}

#[test]
fn times_are_written_in_utc() {
    let mut record = ThreadRecord::new(
        LocalThreadId { text: "thread".to_owned() },
        "/tmp".to_owned(),
        None,
        None,
        ApprovalPolicy::OnRequest,
        SandboxMode::WorkspaceWrite,
        "t".to_owned(),
        "a".to_owned(),
    );
    record.updated_at = Timestamp { seconds: 86_400, nanos: 0 };
    let threads = vec![ThreadListItem { thread: record, selected: false }];
    assert!(updated_text(&threads, 0).contains("1970-01-02 00:00:00 UTC"));
}

#[test]
fn the_selected_row_of_a_list_is_shown() {
    let items: Vec<String> = (0..20).map(|i| format!("item {i}")).collect();
    for selected in 0..20 {
        let rows = list_rows(&items, 5, selected);
        assert!(rows.len() <= 5);
        assert!(rows.iter().any(|row| row.ends_with(&format!("item {selected}"))));
    }
}

#[test]
fn the_transcript_is_scrolled_no_further_than_its_top() {
    let state = sample_state();
    let all = visible_transcript_lines(&state, 40, 100, 0);
    let top = visible_transcript_lines(&state, 40, 1, 500);
    assert_eq!(top.len(), 1);
    assert_eq!(top[0], all[0]);
}
