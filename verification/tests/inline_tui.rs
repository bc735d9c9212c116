use ml_intern_tui::app::TranscriptApp;
use ml_intern_tui::composer::{
    backspace, clear_to_line_end, clear_to_line_start, delete_forward, delete_word_backward,
    delete_word_forward, insert_str, move_left, move_line_end, move_line_home, move_right,
};
use ml_intern_tui::draw::Area;
use ml_intern_tui::edit::{
    is_word_char, next_line_cursor, next_word_boundary, prev_line_cursor, prev_word_boundary,
};
use ml_intern_tui::ids::LocalThreadId;
use ml_intern_tui::inline_tui::flush::FlushStep;
use ml_intern_tui::inline_tui::keys::InlineAction;
use ml_intern_tui::inline_tui::state::InlineApp;
use ml_intern_tui::keys::{bare, KeyCode, KeyPress};
use ml_intern_tui::overlay::Overlay;
use ml_intern_tui::protocol::{ApprovalDecision, ApprovalQuestion, ApprovalQuestionOption};
use ml_intern_tui::skills::{SkillDescriptor, SkillScope};
use ml_intern_tui::styled::{plain_text, raw_line, StyledLine};
use ml_intern_tui::ui::{
    ApprovalKind, AssistantMessageCell, ComposerState, ConnectionState, HistoryCellModel,
    PendingApproval, StatusCell,
};

fn inline() -> InlineApp {
    let mut core = TranscriptApp::new();
    core.state.connection = ConnectionState::Ready;
    InlineApp::new(core)
}

fn control(ch: char) -> KeyPress {
    KeyPress { control: true, ..bare(KeyCode::Char(ch)) }
}

fn press(app: &mut InlineApp, code: KeyCode) -> InlineAction {
    app.handle_key(bare(code), None)
}

fn typed(app: &mut InlineApp, words: &str) {
    for ch in words.chars() {
        assert_eq!(press(app, KeyCode::Char(ch)), InlineAction::Idle);
    }
}

fn composer(buffer: &str, cursor: usize) -> ComposerState {
    ComposerState { buffer: buffer.to_owned(), cursor, skill_query: None }
}

fn message(text: &str, streaming: bool) -> HistoryCellModel {
    HistoryCellModel::AssistantMessage(AssistantMessageCell { text: text.to_owned(), streaming })
}

fn status(text: &str) -> HistoryCellModel {
    HistoryCellModel::Status(StatusCell { message: text.to_owned() })
}

fn texts(lines: &[StyledLine]) -> Vec<String> {
    lines.iter().map(plain_text).collect()
}

fn approval(kind: ApprovalKind) -> PendingApproval {
    PendingApproval {
        id: "approval-1".to_owned(),
        kind,
        title: "Approve".to_owned(),
        description: "run tests".to_owned(),
        raw_payload: "{}".to_owned(),
    }
}

#[test]
fn typed_words_are_submitted() {
    let mut app = inline();
    typed(&mut app, "hello");
    assert_eq!(
        press(&mut app, KeyCode::Enter),
        InlineAction::StartPrompt { prompt: "hello".to_owned() }
    );
    assert_eq!(app.core.state.composer.buffer, "");
    assert_eq!(app.prompt_history, vec!["hello".to_owned()]);
}

#[test]
fn shift_enter_breaks_the_line() {
    let mut app = inline();
    typed(&mut app, "a");
    app.handle_key(KeyPress { shift: true, ..bare(KeyCode::Enter) }, None);
    typed(&mut app, "b");
    assert_eq!(app.core.state.composer.buffer, "a\nb");
}

#[test]
fn the_draft_comes_back_after_the_history() {
    let mut app = inline();
    app.push_history_entry("first");
    app.push_history_entry("second");
    app.push_history_entry(" second ");
    assert_eq!(app.prompt_history.len(), 2);
    typed(&mut app, "draft");
    press(&mut app, KeyCode::Up);
    assert_eq!(app.core.state.composer.buffer, "second");
    press(&mut app, KeyCode::Up);
    press(&mut app, KeyCode::Up);
    assert_eq!(app.core.state.composer.buffer, "first");
    press(&mut app, KeyCode::Down);
    press(&mut app, KeyCode::Down);
    assert_eq!(app.core.state.composer.buffer, "draft");
    assert_eq!(app.core.state.composer.cursor, 5);
    assert_eq!(app.history_cursor, None);
    assert_eq!(app.prompt_history, vec!["first".to_owned(), "second".to_owned()]);
    press(&mut app, KeyCode::Down);
    assert_eq!(app.core.state.composer.buffer, "draft");
}

#[test]
fn two_hundred_prompts_are_kept() {
    let mut app = inline();
    for i in 0..205 {
        app.push_history_entry(&format!("prompt {i}"));
    }
    assert_eq!(app.prompt_history.len(), 200);
    assert_eq!(app.prompt_history[0], "prompt 5");
}

#[test]
fn control_c_interrupts_a_turn_and_quits_otherwise() {
    let mut app = inline();
    app.core.state.connection = ConnectionState::Streaming;
    assert_eq!(app.handle_key(control('c'), None), InlineAction::Interrupt);
    assert_eq!(app.toast, Some("interrupt requested".to_owned()));
    assert!(!app.should_quit);
    app.core.state.connection = ConnectionState::Ready;
    app.handle_key(control('c'), None);
    assert!(app.should_quit);
}

#[test]
fn control_d_quits_only_an_empty_composer() {
    let mut app = inline();
    typed(&mut app, "x");
    app.handle_key(control('d'), None);
    assert!(!app.should_quit);
    press(&mut app, KeyCode::Backspace);
    app.handle_key(control('d'), None);
    assert!(app.should_quit);
}

#[test]
fn slash_commands_open_what_they_name() {
    let mut app = inline();
    typed(&mut app, "/skills");
    assert_eq!(press(&mut app, KeyCode::Enter), InlineAction::ListSkills);
    app.open_skill_picker(Vec::new());
    assert_eq!(app.toast, Some("no skills available".to_owned()));
    typed(&mut app, "/help");
    assert_eq!(press(&mut app, KeyCode::Enter), InlineAction::Idle);
    assert_eq!(app.overlay, Some(Overlay::Help));
    press(&mut app, KeyCode::Esc);
    assert_eq!(app.overlay, None);
    typed(&mut app, "/approval");
    press(&mut app, KeyCode::Enter);
    assert_eq!(app.toast, Some("no pending approval".to_owned()));
    typed(&mut app, "/quit");
    press(&mut app, KeyCode::Enter);
    assert!(app.should_quit);
}

#[test]
fn a_skill_is_picked_from_the_overlay() {
    let mut app = inline();
    let skill = SkillDescriptor {
        name: "audit".to_owned(),
        description: "Inspect".to_owned(),
        short_description: None,
        path: "skills/audit".to_owned(),
        scope: SkillScope::Bundled,
        enabled: true,
    };
    app.open_skill_picker(vec![skill.clone()]);
    typed(&mut app, "aud");
    press(&mut app, KeyCode::Enter);
    assert_eq!(app.core.selected_skill, Some(skill));
    assert!(app.toast.clone().is_some_and(|toast| toast.starts_with("selected skill: audit")));
}

#[test]
fn an_approval_opens_its_overlay_once() {
    let mut app = inline();
    app.core.state.approvals.pending = Some(approval(ApprovalKind::CommandExecution));
    app.auto_open_approval_overlay(None);
    assert!(matches!(app.overlay, Some(Overlay::ApprovalYesNo { .. })));
    press(&mut app, KeyCode::Esc);
    assert_eq!(app.overlay, None);
    app.auto_open_approval_overlay(None);
    assert_eq!(app.overlay, None);
    match app.handle_key(bare(KeyCode::Char('z')), None) {
        InlineAction::Idle => {}
        other => panic!("unexpected action {other:?}"),
    }
}

#[test]
fn an_approval_is_answered_with_y() {
    let mut app = inline();
    let pending = approval(ApprovalKind::CommandExecution);
    app.core.state.approvals.pending = Some(pending.clone());
    app.auto_open_approval_overlay(None);
    match press(&mut app, KeyCode::Char('y')) {
        InlineAction::AnswerApproval { approval, request } => {
            assert_eq!(approval, pending);
            assert_eq!(request.approval_id, "approval-1");
            assert_eq!(request.decision, ApprovalDecision::Approve);
        }
        other => panic!("expected an answer, got {other:?}"),
    }
}

#[test]
fn questions_are_answered_in_the_overlay() {
    let mut app = inline();
    app.core.state.approvals.pending = Some(approval(ApprovalKind::RequestUserInput));
    let question = ApprovalQuestion {
        id: "priority".to_owned(),
        header: "Priority".to_owned(),
        question: "Choose".to_owned(),
        is_other: false,
        is_secret: false,
        options: Some(vec![
            ApprovalQuestionOption { label: "low".to_owned(), description: "Later".to_owned() },
            ApprovalQuestionOption { label: "high".to_owned(), description: "Now".to_owned() },
        ]),
    };
    app.auto_open_approval_overlay(Some(vec![question]));
    press(&mut app, KeyCode::Down);
    match press(&mut app, KeyCode::Enter) {
        InlineAction::AnswerApproval { request, .. } => {
            let answers = request.answers.unwrap_or_else(|| panic!("answers"));
            assert_eq!(
                answers.get("priority").map(|answer| answer.answers),
                Some(vec!["high".to_owned()])
            );
        }
        other => panic!("expected an answer, got {other:?}"),
    }
}

#[test]
fn pasted_text_goes_into_the_composer() {
    let mut app = inline();
    app.handle_paste("two\nlines");
    assert_eq!(app.core.state.composer.buffer, "two\nlines");
    assert_eq!(app.core.state.composer.cursor, 9);
}

#[test]
fn entries_go_into_the_scrollback_in_order() {
    let mut app = inline();
    app.core.state.transcript.history = vec![status("one"), status("two")];
    assert_eq!(app.next_flush(0), FlushStep::Done);
    assert_eq!(app.next_flush(80), FlushStep::Cell { index: 0 });
    app.cell_flushed();
    assert_eq!(app.next_flush(80), FlushStep::Cell { index: 1 });
    app.cell_flushed();
    assert_eq!(app.next_flush(80), FlushStep::Done);
}

#[test]
fn a_growing_message_goes_in_line_by_line() {
    let mut app = inline();
    app.core.state.transcript.history = vec![message("one\n", true)];
    assert_eq!(
        app.next_flush(80),
        FlushStep::Stream { source: None, finished: false }
    );
    assert!(app.drain_stream(&Vec::new(), false).is_empty());
    app.core.state.transcript.history = vec![message("one\n\ntwo", true)];
    assert_eq!(
        app.next_flush(80),
        FlushStep::Stream { source: Some("one\n\n".to_owned()), finished: false }
    );
    assert_eq!(texts(&app.drain_stream(&vec![raw_line("one")], false)), vec!["• one"]);
    app.core.state.transcript.history = vec![message("one\n\ntwo\n\n", true)];
    assert_eq!(
        app.next_flush(80),
        FlushStep::Stream { source: Some("one\n\ntwo\n\n".to_owned()), finished: false }
    );
    let rendered = vec![raw_line("one"), raw_line(""), raw_line("two")];
    assert_eq!(texts(&app.drain_stream(&rendered, false)), vec!["  ", "  two"]);
    app.core.state.transcript.history = vec![message("one\n\ntwo\n\nthree", false)];
    assert_eq!(
        app.next_flush(80),
        FlushStep::Stream { source: Some("one\n\ntwo\n\nthree\n".to_owned()), finished: true }
    );
    let rendered =
        vec![raw_line("one"), raw_line(""), raw_line("two"), raw_line(""), raw_line("three")];
    assert_eq!(texts(&app.drain_stream(&rendered, true)), vec!["  ", "  three"]);
    assert_eq!(app.rendered_cells, 1);
    assert_eq!(app.next_flush(80), FlushStep::Done);
}

#[test]
fn a_message_ends_when_another_entry_comes() {
    let mut app = inline();
    app.core.state.transcript.history = vec![message("one", true)];
    assert_eq!(app.next_flush(80), FlushStep::Stream { source: None, finished: false });
    assert!(app.drain_stream(&Vec::new(), false).is_empty());
    app.core.state.transcript.history = vec![message("one", true), status("two")];
    assert_eq!(app.next_flush(80), FlushStep::EndStream { rest: "one\n".to_owned() });
    assert_eq!(texts(&app.end_stream(&vec![raw_line("one")])), vec!["• one"]);
    assert_eq!(app.next_flush(80), FlushStep::Cell { index: 1 });
}

#[test]
fn the_clock_runs_while_a_turn_does() {
    let mut app = inline();
    app.core.state.connection = ConnectionState::Streaming;
    app.update_task_clock(100);
    app.core.state.connection = ConnectionState::WaitingApproval;
    app.update_task_clock(130);
    assert_eq!(app.bottom_pane_props(140).task_seconds, Some(40));
    app.core.state.connection = ConnectionState::Ready;
    app.update_task_clock(150);
    assert_eq!(app.bottom_pane_props(160).task_seconds, None);
}

#[test]
fn the_viewport_lies_at_the_bottom() {
    let mut app = inline();
    assert_eq!(app.viewport(0, 0, 24), None);
    let pane = app.viewport(0, 80, 24).unwrap_or_else(|| panic!("viewport"));
    assert_eq!(pane.y + pane.height, 24);
    app.overlay = Some(Overlay::Help);
    assert_eq!(app.viewport(0, 80, 50), Some(Area { x: 0, y: 26, width: 80, height: 24 }));
}

#[test]
fn a_resumed_thread_is_shown_from_its_start() {
    let mut app = inline();
    app.rendered_cells = 7;
    app.thread_resumed(Ok(()));
    assert_eq!(app.rendered_cells, 0);
    app.thread_resumed(Err("boom".to_owned()));
    assert_eq!(app.toast, Some("resume failed: boom".to_owned()));
    let thread_id = LocalThreadId { text: "thread".to_owned() };
    assert_eq!(thread_id.text, "thread");
}

#[test]
fn typing_is_undone_by_backspace_and_deleting_by_typing() {
    let mut line = composer("你好", 3);
    insert_str(&mut line, "é");
    assert_eq!((line.buffer.as_str(), line.cursor), ("你é好", 5));
    backspace(&mut line);
    assert_eq!((line.buffer.as_str(), line.cursor), ("你好", 3));
    delete_forward(&mut line);
    assert_eq!(line.buffer, "你");
    insert_str(&mut line, "好");
    assert_eq!(line.buffer, "你好");
    move_left(&mut line);
    assert_eq!(line.cursor, 3);
    move_right(&mut line);
    assert_eq!(line.cursor, 6);
}

#[test]
fn words_and_lines_are_cut_out_whole() {
    let mut line = composer("one two_x, three", 9);
    delete_word_backward(&mut line);
    assert_eq!((line.buffer.as_str(), line.cursor), ("one two_, three", 8));
    delete_word_backward(&mut line);
    assert_eq!((line.buffer.as_str(), line.cursor), ("one , three", 4));
    delete_word_forward(&mut line);
    assert_eq!(line.buffer, "one ");
    let mut lines = composer("ab\ncd\nef", 4);
    move_line_home(&mut lines);
    assert_eq!(lines.cursor, 3);
    move_line_end(&mut lines);
    assert_eq!(lines.cursor, 5);
    clear_to_line_start(&mut lines);
    assert_eq!((lines.buffer.as_str(), lines.cursor), ("ab\n\nef", 3));
    let mut rest = composer("ab\ncd", 1);
    clear_to_line_end(&mut rest);
    assert_eq!(rest.buffer, "a\ncd");
}

#[test]
fn letters_and_numbers_make_words() {
    for code in 0..128_u8 {
        let ch = code as char;
        let word = ch.is_ascii_alphanumeric();
        let buffer = format!("a{ch} ");
        assert_eq!(next_word_boundary(&buffer, 0), if word { 2 } else { 1 }, "{ch:?}");
        assert_eq!(is_word_char(ch), word, "{ch:?}");
    }
    assert_eq!(next_word_boundary("aé b", 0), 3);
    assert_eq!(next_word_boundary("aא b", 0), 3);
    assert_eq!(next_word_boundary("a× b", 0), 1);
    assert_eq!(next_word_boundary("a—b", 0), 1);
    assert_eq!(next_word_boundary("—🙂 ab, c", 0), 10);
    assert_eq!(prev_word_boundary("foo_bar", 7), 4);
    assert_eq!(prev_word_boundary("foo_bar", 4), 0);
    assert_eq!(prev_word_boundary("שלום🙂", 12), 0);
    assert_eq!(prev_word_boundary("one  two  ", 10), 5);
    assert_eq!(prev_word_boundary("你🙂a", 5), 0);
    assert_eq!(next_word_boundary("你🙂a", 1), 3);
    assert_eq!(prev_word_boundary(" ,", 2), 0);
    assert_eq!(next_word_boundary(" ,", 0), 2);
    for code in 0..256_u32 {
        let ch = char::from_u32(code).unwrap();
        assert_eq!(is_word_char(ch), ch.is_alphanumeric(), "{ch:?}");
    }
}

#[test]
fn the_cursor_keeps_its_column_between_lines() {
    assert_eq!(prev_line_cursor("abc\nd\nefg", 8), Some(5));
    assert_eq!(prev_line_cursor("abc", 2), None);
    assert_eq!(next_line_cursor("abc\nd", 2), Some(5));
    assert_eq!(next_line_cursor("abc", 2), None);
    assert_eq!(next_line_cursor("ab\n你好", 1), Some(6));
}
