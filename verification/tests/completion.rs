use ml_intern_tui::completion::{
    desired_height, evaluate, popup_lines, slash_commands, visible_window, wrap, AcceptOutcome,
    CompletionKind,
};
use ml_intern_tui::skills::{SkillDescriptor, SkillScope};
use ml_intern_tui::styled::plain_text;

fn skill(name: &str, description: &str) -> SkillDescriptor {
    SkillDescriptor {
        name: name.to_string(),
        description: description.to_string(),
        short_description: None,
        path: "/tmp/test".to_string(),
        scope: SkillScope::Repo,
        enabled: true,
    }
}

#[test]
fn command_popup_opens_on_slash() {
    let popup = evaluate("/", 1, None, None).expect("popup");
    assert!(matches!(popup.kind, CompletionKind::Commands(_)));
    assert_eq!(popup.query, "");
    assert_eq!(popup.filtered.len(), slash_commands().len());
}

#[test]
fn command_popup_filters_by_prefix() {
    let popup = evaluate("/sk", 3, None, None).expect("popup");
    let commands = slash_commands();
    let names: Vec<&str> = popup.filtered.iter().map(|i| commands[*i].name).collect();
    assert_eq!(names, vec!["/skills"]);
}

#[test]
fn command_popup_closes_after_space() {
    let popup = evaluate("/skills ", 8, None, None);
    assert!(popup.is_none());
}

#[test]
fn skill_popup_opens_on_dollar_when_cache_present() {
    let skills = vec![skill("rewrite", "refactor code"), skill("test", "run tests")];
    let popup = evaluate("$", 1, Some(&skills), None).expect("popup");
    assert!(matches!(popup.kind, CompletionKind::Skills(_)));
    assert_eq!(popup.filtered.len(), 2);
}

#[test]
fn skill_popup_prefix_wins_over_substring() {
    let skills = vec![skill("archive", "something with t in desc"), skill("test", "run tests")];
    let popup = evaluate("$te", 3, Some(&skills), None).expect("popup");
    assert_eq!(popup.filtered[0], 1);
}

#[test]
fn completion_closes_outside_first_token() {
    assert!(evaluate("hello /help", 11, None, None).is_none());
}

#[test]
fn cursor_before_trigger_is_noop() {
    assert!(evaluate("/help", 0, None, None).is_none());
}

#[test]
fn skill_accept_replaces_token() {
    let skills = vec![skill("rewrite", "refactor code")];
    let popup = evaluate("$rew", 4, Some(&skills), None).expect("popup");
    let outcome = popup.accept().expect("accept");
    match outcome {
        AcceptOutcome::Replace { replacement, cursor_offset } => {
            assert_eq!(replacement, "$rewrite ");
            assert_eq!(cursor_offset, replacement.len());
        }
        AcceptOutcome::Submit(_) => panic!("skills should not Submit"),
    }
}

#[test]
fn command_accept_submits() {
    let popup = evaluate("/hel", 4, None, None).expect("popup");
    match popup.accept().expect("accept") {
        AcceptOutcome::Submit(cmd) => assert_eq!(cmd, "/help"),
        AcceptOutcome::Replace { .. } => panic!("commands should Submit"),
    }
}

#[test]
fn skill_popup_needs_the_skills() {
    assert!(evaluate("$", 1, None, None).is_none());
}

#[test]
fn nothing_is_accepted_where_nothing_matches() {
    let popup = evaluate("/zzz", 4, None, None).expect("popup");
    assert!(popup.is_empty());
    assert!(popup.accept().is_none());
}

#[test]
fn the_selection_goes_round() {
    let mut popup = evaluate("/", 1, None, None).expect("popup");
    let count = popup.filtered.len();
    popup.move_cursor(-1);
    assert_eq!(popup.cursor, count - 1);
    popup.move_cursor(1);
    assert_eq!(popup.cursor, 0);
    assert_eq!(wrap(2, 5, 4), 3);
    assert_eq!(wrap(0, -5, 4), 3);
}

#[test]
fn the_selected_row_is_in_view() {
    assert_eq!(visible_window(10, 4, 0), (0, 4));
    let (from, to) = visible_window(10, 4, 9);
    assert_eq!((from, to), (6, 10));
    assert_eq!(visible_window(3, 4, 2), (0, 3));
}

#[test]
fn the_popup_lists_what_matches() {
    let popup = evaluate("/sk", 3, None, None).expect("popup");
    assert_eq!(desired_height(&popup), 3);
    let shown: Vec<String> = popup_lines(&popup, 5).iter().map(plain_text).collect();
    assert!(shown[0].contains("/skills"));
}
