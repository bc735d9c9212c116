use ml_intern_tui::bottom_pane::{
    composer_inner_rows, desired_height, hint_line, layout_buffer, render, status_line,
    BottomPaneProps,
};
use ml_intern_tui::draw::{Area, DrawItem};
use ml_intern_tui::keys::{bare, KeyCode};
use ml_intern_tui::overlay::{handle_key, help_lines, list_lines, render as render_overlay};
use ml_intern_tui::overlay::{Overlay, OverlayOutcome};
use ml_intern_tui::styled::{plain_text, raw_line};
use ml_intern_tui::text;
use ml_intern_tui::ui::{ApprovalKind, ConnectionState, PendingApproval};

fn props<'a>(buffer: &'a str, cursor: usize) -> BottomPaneProps<'a> {
    BottomPaneProps {
        connection: ConnectionState::Ready,
        approval_policy: None,
        sandbox_mode: None,
        selected_skill: None,
        composer_buffer: buffer,
        composer_cursor: cursor,
        pending_approval: None,
        task_seconds: None,
        queued_prompts: 0,
        toast: None,
        hint: None,
        completion: None,
    }
}

fn approval() -> PendingApproval {
    PendingApproval {
        id: "approval-1".to_owned(),
        kind: ApprovalKind::CommandExecution,
        title: "Approve".to_owned(),
        description: "run tests".to_owned(),
        raw_payload: "{}".to_owned(),
    }
}

#[test]
fn wide_characters_take_two_columns() {
    let laid = layout_buffer("你好你", 6, 4);
    assert_eq!(laid.rows, vec!["你好".to_owned(), "你".to_owned()]);
    let narrow = layout_buffer("abcd", 0, 4);
    assert_eq!(narrow.rows, vec!["abcd".to_owned()]);
    assert_eq!((narrow.row, narrow.column), (0, 0));
}

#[test]
fn marks_stay_with_their_letter() {
    let laid = layout_buffer("ae\u{301}b", 0, 2);
    assert_eq!(laid.rows, vec!["ae\u{301}".to_owned(), "b".to_owned()]);
}

#[test]
fn the_cursor_is_found_behind_what_is_typed() {
    let laid = layout_buffer("one\ntwo", 7, 10);
    assert_eq!(laid.rows, vec!["one".to_owned(), "two".to_owned()]);
    assert_eq!((laid.row, laid.column), (1, 3));
}

#[test]
fn the_rows_make_up_the_text() {
    let text = "one two\n\n你好e\u{301}🙂 three\n";
    for width in 0..9 {
        let laid = layout_buffer(text, 3, width);
        assert_eq!(laid.rows.concat(), text.replace('\n', ""));
    }
}

#[test]
fn the_composer_grows_with_its_text() {
    let one = composer_inner_rows("a", 10);
    let two = composer_inner_rows("a\nb", 10);
    assert_eq!(two, one + 1);
    assert_eq!(desired_height(&props("a", 0), 80), 5);
    assert_eq!(desired_height(&props("a\nb\nc", 0), 80), 6);
}

#[test]
fn the_pane_shows_the_cursor_inside_its_area() {
    let shown = props("hello", 5);
    let area = Area { x: 0, y: 10, width: 40, height: desired_height(&shown, 40) };
    let (items, layout) = render(area, &shown);
    let at = layout.cursor.unwrap_or_else(|| panic!("cursor"));
    assert!(at.x < 40 && at.y >= 10 && at.y < 10 + area.height);
    assert!(items.iter().any(|item| matches!(item, DrawItem::Frame { .. })));
    let (none, hidden) = render(Area { x: 0, y: 0, width: 0, height: 0 }, &shown);
    assert!(none.is_empty());
    assert_eq!(hidden.cursor, None);
}

#[test]
fn the_status_tells_what_goes_on() {
    let mut shown = props("", 0);
    shown.connection = ConnectionState::Streaming;
    shown.task_seconds = Some(65);
    let line = plain_text(&status_line(&shown));
    assert!(line.contains("65") || line.contains("1m"), "{line}");
    shown.toast = Some("saved");
    assert!(plain_text(&hint_line(&shown)).contains("saved"));
}

#[test]
fn escape_puts_an_approval_off() {
    let mut overlay = Overlay::for_pending_approval(approval(), None);
    assert_eq!(overlay.title(), "approval requested");
    assert_eq!(handle_key(&mut overlay, bare(KeyCode::Esc)), OverlayOutcome::CancelApproval);
    assert_eq!(handle_key(&mut overlay, bare(KeyCode::Char('q'))), OverlayOutcome::Keep);
    match handle_key(&mut overlay, bare(KeyCode::Char('n'))) {
        OverlayOutcome::SubmitApproval(request) => assert_eq!(request.approval_id, "approval-1"),
        other => panic!("expected an answer, got {other:?}"),
    }
}

#[test]
fn overlays_are_drawn_in_their_frame() {
    let area = Area { x: 0, y: 0, width: 60, height: 20 };
    let items = render_overlay(area, &Overlay::Help);
    assert!(items.iter().any(|item| matches!(item, DrawItem::Clear { .. })));
    assert!(items.iter().any(|item| matches!(item, DrawItem::Frame { .. })));
    assert!(!help_lines().is_empty());
    let rows: Vec<_> = (0..9).map(|i| raw_line(&format!("row {i}"))).collect();
    let shown = list_lines(&rows, 3, 8);
    assert_eq!(shown.len(), 3);
    assert!(plain_text(&shown[2]).contains("row 8"));
}

fn line_areas(items: &[DrawItem]) -> Vec<Area> {
    items
        .iter()
        .filter_map(|item| match item {
            DrawItem::Lines { area, .. } => Some(*area),
            _ => None,
        })
        .collect()
}

#[test]
fn the_query_of_a_list_gives_way_to_the_list() {
    let picker = Overlay::SkillPicker { skills: vec![], query: String::new(), cursor: 0 };
    for (height, query, list) in [(0, 0, 0), (1, 0, 1), (2, 1, 1), (3, 2, 1), (9, 2, 7)] {
        let area = Area { x: 1, y: 5, width: 30, height: height + 2 };
        let areas = line_areas(&render_overlay(area, &picker));
        assert_eq!(areas.len(), 2);
        assert_eq!(areas[0], Area { x: 2, y: 6, width: 28, height: query });
        assert_eq!(areas[1], Area { x: 2, y: 6 + query, width: 28, height: list });
    }
}

#[test]
fn a_pane_with_too_few_rows_keeps_its_parts_in_order() {
    let asked = approval();
    let mut shown = props("hello", 5);
    shown.connection = ConnectionState::Streaming;
    shown.pending_approval = Some(&asked);
    for height in 1..12 {
        let area = Area { x: 0, y: 7, width: 40, height };
        let (items, _layout) = render(area, &shown);
        let parts: Vec<Area> = items
            .iter()
            .filter_map(|item| match item {
                DrawItem::Lines { area, .. } | DrawItem::Frame { area, .. } => Some(*area),
                _ => None,
            })
            .collect();
        let mut next = 7;
        for part in parts {
            assert_eq!(part.y, next);
            next += part.height;
        }
        assert!(next <= 7 + height);
    }
}

#[test]
fn white_space_is_that_of_unicode() {
    for code in 0..0x11_0000_u32 {
        if let Some(ch) = char::from_u32(code) {
            let mut one = String::new();
            one.push(ch);
            assert_eq!(text::is_blank(&one), ch.is_whitespace(), "{ch:?}");
        }
    }
}

#[test]
fn texts_are_taken_apart_as_the_standard_library_does() {
    let samples = ["", " a ", "a\r\nb\n", "x\n\ny", "\u{3000}wide\u{2003}", "tab\there", "\r\n", "a\rb"];
    for sample in samples {
        assert_eq!(text::trim(sample), sample.trim());
        let lines: Vec<String> = sample.lines().map(|line| line.to_owned()).collect();
        assert_eq!(text::lines(sample), lines);
        let words: Vec<String> = sample.split_whitespace().map(|word| word.to_owned()).collect();
        assert_eq!(text::words(sample), words);
        assert_eq!(text::to_lower(sample), sample.to_ascii_lowercase());
        let pieces: Vec<String> = sample.split('\n').map(|piece| piece.to_owned()).collect();
        assert_eq!(text::split_on(sample, '\n'), pieces);
    }
    for sample in ["0", "007", "+5", "-5", "", "+", "1_0", "18446744073709551615", "18446744073709551616"] {
        assert_eq!(text::parse_number(sample), sample.parse::<usize>().ok(), "{sample}");
    }
    assert_eq!(text::number(18_446_744_073_709_551_615), "18446744073709551615");
}
