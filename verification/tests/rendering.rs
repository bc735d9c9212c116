use ml_intern_tui::artifacts::{ArtifactKind, ArtifactManifest, ArtifactPreview};
use ml_intern_tui::clock::{utc_now, Timestamp};
use ml_intern_tui::diff_view::{count_changes, looks_like_unified_diff, render_unified_diff};
use ml_intern_tui::exec_render::{
    command_preview, ellipsis_line, output_body_lines, prefix_output_line, render_finalized,
    render_running,
};
use ml_intern_tui::history_cell::{markdown_of, render_cell};
use ml_intern_tui::human_time::human_time_ago;
use ml_intern_tui::ids::{ArtifactId, LocalThreadId, LocalTurnId};
use ml_intern_tui::markdown_stream::{
    append_markdown, committable_prefix, starts_new_markdown_block, MarkdownStreamCollector,
};
use ml_intern_tui::paths::{join, same_path};
use ml_intern_tui::render::highlight::{exceeds_highlight_limits, highlight_bash_to_lines};
use ml_intern_tui::renderer::{render_app, render_history_cell};
use ml_intern_tui::startup_banner::{
    build_startup_banner_lines, char_widths, fit_cwd, gradient_spans, large_logo_rows, pick_art,
    row_columns, shorten_home, small_logo_rows, LogoBands,
};
use ml_intern_tui::styled::{plain_text, raw_line, StyledLine, Tint};
use ml_intern_tui::ui::{
    AppState, ApprovalPolicy, ArtifactEventCell, AssistantMessageCell, ExecOutputCell,
    HistoryCellModel, RuntimeBannerState, SandboxMode, StatusCell, TranscriptState,
    UserMessageCell,
};

fn texts(lines: &[StyledLine]) -> Vec<String> {
    lines.iter().map(plain_text).collect()
}

fn manifest(title: &str) -> ArtifactManifest {
    ArtifactManifest {
        id: ArtifactId { text: "artifact-id".to_owned() },
        version: 1,
        local_thread_id: LocalThreadId { text: "thread-id".to_owned() },
        local_turn_id: LocalTurnId { text: "turn-id".to_owned() },
        kind: ArtifactKind::DatasetAudit,
        title: title.to_owned(),
        created_at: utc_now(),
        updated_at: utc_now(),
        summary: "summary".to_owned(),
        tags: vec![],
        primary_path: "report.md".to_owned(),
        extra_paths: vec!["report.json".to_owned()],
        metadata: "{}".to_owned(),
    }
}

fn logo_bands() -> LogoBands {
    let halves = |row: &String| -> Vec<usize> {
        let count = row.chars().count();
        (0..count).map(|i| if i < count / 2 { 0 } else { 2 }).collect()
    };
    LogoBands {
        large: large_logo_rows().iter().map(halves).collect(),
        small: small_logo_rows().iter().map(halves).collect(),
    }
}

fn banner(width: u16, model_label: Option<&str>) -> Vec<StyledLine> {
    build_startup_banner_lines(&logo_bands(), width, "0.1.0", "/tmp", None, model_label)
}

#[test]
fn detects_unified_diff() {
    let diff = "diff --git a/foo b/foo\n--- a/foo\n+++ b/foo\n@@ -1,2 +1,2 @@\n a\n-b\n+c\n";
    assert!(looks_like_unified_diff(diff));
}

#[test]
fn rejects_plain_text() {
    assert!(!looks_like_unified_diff("just a sentence"));
}

#[test]
fn render_counts_plus_minus() {
    let diff = "@@ -1,2 +1,2 @@\n-one\n+two\n";
    let lines = render_unified_diff(diff);
    let header = plain_text(&lines[0]);
    assert!(header.contains("+1"));
    assert!(header.contains("-1"));
}

#[test]
fn render_styles_added_and_removed_lines() {
    let diff = "@@ -1 +1 @@\n-foo\n+bar\n";
    let lines = render_unified_diff(diff);
    let plus = lines.iter().find(|l| l.spans.iter().any(|s| s.text.contains("bar")));
    let minus = lines.iter().find(|l| l.spans.iter().any(|s| s.text.contains("foo")));
    assert!(plus.is_some());
    assert!(minus.is_some());
}

#[test]
fn the_names_of_the_files_are_no_changes() {
    let diff = "--- a/foo\n+++ b/foo\n@@ -1 +1,2 @@\n-b\n+c\n+d\n";
    assert_eq!(count_changes(diff), (2, 1));
}

#[test]
fn short_output_is_not_folded() {
    let out = texts(&render_finalized("echo hello", "hello\n"));
    assert!(out.iter().any(|t| t.contains("hello")));
    assert!(out.iter().all(|t| !t.contains("…")));
}

#[test]
fn long_output_is_folded_head_and_tail() {
    let mut body = String::new();
    for i in 0..50 {
        body.push_str(&format!("line{i}\n"));
    }
    let out = texts(&render_finalized("seq 50", &body));
    assert!(out.iter().any(|t| t.contains("line0")));
    assert!(out.iter().any(|t| t.contains("line4")));
    assert!(out.iter().any(|t| t.contains("… +40 lines")));
    assert!(out.iter().any(|t| t.contains("line49")));
}

#[test]
fn multiline_command_shows_continuation() {
    let out = texts(&render_finalized("set -e\npython -u run.py\necho done", "ok\n"));
    assert!(out.iter().any(|t| t.contains("│ set -e")));
    assert!(out.iter().any(|t| t.contains("│ python -u run.py")));
    assert!(out.iter().any(|t| t.contains("… +1 more command line")));
}

#[test]
fn command_preview_truncates_width() {
    let long = "a".repeat(200);
    let out = render_running(&long);
    let header = plain_text(&out[0]);
    assert!(header.contains("…"));
}

#[test]
fn wide_characters_count_double_in_a_preview() {
    let preview = command_preview("你好你好", 5);
    assert_eq!(preview, "你好…");
    assert_eq!(command_preview("abcd", 5), "abcd");
}

#[test]
fn empty_output_produces_no_body() {
    let out = render_finalized("true", "");
    let has_tee = out.iter().any(|l| plain_text(l).contains("└"));
    assert!(!has_tee, "empty output should not emit a body prefix");
}

#[test]
fn prefix_output_line_uses_tee_for_first_only() {
    let a = prefix_output_line("hello", true);
    let b = prefix_output_line("world", false);
    assert!(plain_text(&a).starts_with("  └ "));
    assert!(plain_text(&b).starts_with("    "));
    assert!(!plain_text(&b).contains("└"));
}

#[test]
fn ellipsis_formats_singular_and_plural() {
    assert_eq!(plain_text(&ellipsis_line(1)), "    … +1 line");
    assert_eq!(plain_text(&ellipsis_line(42)), "    … +42 lines");
}

#[test]
fn folding_keeps_as_many_lines_at_both_ends() {
    let body: Vec<String> = (0..7).map(|i| format!("line{i}")).collect();
    let shown = texts(&output_body_lines(&body.join("\n"), 2));
    assert_eq!(shown.len(), 5);
    assert!(shown[1].ends_with("line1"));
    assert!(shown[2].contains("+3 lines"));
    assert!(shown[3].ends_with("line5"));
}

#[test]
fn commit_complete_lines_waits_for_soft_break_list_item_to_finish() {
    let mut collector = MarkdownStreamCollector::new(Some(80), "/tmp");

    collector.push_delta("- memory\n");
    assert_eq!(collector.committable_source(), None);
    assert!(collector.commit_complete_lines(&Vec::new()).is_empty());

    collector.push_delta("schema\n\n");
    assert_eq!(collector.committable_source(), Some("- memory\nschema\n\n".to_owned()));
    let rendered = vec![raw_line("- memory schema")];
    assert_eq!(
        texts(&collector.commit_complete_lines(&rendered)),
        vec!["- memory schema".to_string()]
    );
}

#[test]
fn commit_complete_lines_keeps_cjk_soft_breaks_in_same_list_item() {
    let mut collector = MarkdownStreamCollector::new(Some(80), "/tmp");

    collector.push_delta("- 得\n");
    assert_eq!(collector.committable_source(), None);
    assert!(collector.commit_complete_lines(&Vec::new()).is_empty());

    collector.push_delta("动\n\n");
    assert_eq!(collector.committable_source(), Some("- 得\n动\n\n".to_owned()));
    let rendered = vec![raw_line("- 得 动")];
    assert_eq!(
        texts(&collector.commit_complete_lines(&rendered)),
        vec!["- 得 动".to_string()]
    );
}

#[test]
fn commit_complete_lines_flushes_when_next_markdown_block_starts() {
    let mut collector = MarkdownStreamCollector::new(Some(80), "/tmp");

    collector.push_delta("- first item\n");
    assert_eq!(collector.committable_source(), None);
    assert!(collector.commit_complete_lines(&Vec::new()).is_empty());

    collector.push_delta("- second item\n");
    assert_eq!(collector.committable_source(), Some("- first item\n".to_owned()));
    let rendered = vec![raw_line("- first item")];
    assert_eq!(
        texts(&collector.commit_complete_lines(&rendered)),
        vec!["- first item".to_string()]
    );
}

#[test]
fn committed_lines_are_not_handed_on_twice() {
    let mut collector = MarkdownStreamCollector::new(None, "/tmp");
    collector.push_delta("one\n\n");
    let first = vec![raw_line("one")];
    assert_eq!(texts(&collector.commit_complete_lines(&first)), vec!["one".to_string()]);
    collector.push_delta("two");
    assert_eq!(collector.final_source(), "one\n\ntwo\n");
    let whole = vec![raw_line("one"), raw_line(""), raw_line("two")];
    assert_eq!(
        texts(&collector.finalize_and_drain(&whole)),
        vec!["".to_string(), "two".to_string()]
    );
    assert_eq!(collector.final_source(), "\n");
}

#[test]
fn fenced_code_is_committed_when_it_is_closed() {
    assert_eq!(committable_prefix("```rust\nlet x = 1;\n\n"), None);
    assert_eq!(
        committable_prefix("```rust\nlet x = 1;\n```\n"),
        Some("```rust\nlet x = 1;\n```\n".to_owned())
    );
    assert_eq!(committable_prefix("one\n\ntwo"), Some("one\n\n".to_owned()));
    assert_eq!(committable_prefix("- one\n- two"), Some("- one\n".to_owned()));
    assert_eq!(committable_prefix("one\ntwo"), None);
    assert_eq!(committable_prefix("one"), None);
    assert!(starts_new_markdown_block("# title"));
    assert!(starts_new_markdown_block("12. item"));
    assert!(!starts_new_markdown_block("words"));
    let mut lines = vec![raw_line("above")];
    append_markdown(&vec![raw_line("below")], &mut lines);
    assert_eq!(texts(&lines), vec!["above".to_string(), "below".to_string()]);
}

#[test]
fn render_app_includes_runtime_banner() {
    let state = AppState {
        runtime: RuntimeBannerState {
            cwd: Some("/tmp/project".to_owned()),
            codex_version: Some("0.120.0".to_owned()),
            approval_policy: Some(ApprovalPolicy::OnRequest),
            sandbox_mode: Some(SandboxMode::WorkspaceWrite),
        },
        ..AppState::default()
    };

    let rendered = render_app(&state, Some("hf-dataset-audit"));

    assert!(rendered.contains("cwd: /tmp/project"));
    assert!(rendered.contains("codex: 0.120.0"));
    assert!(rendered.contains("approval: OnRequest"));
    assert!(rendered.contains("sandbox: WorkspaceWrite"));
}

#[test]
fn render_app_formats_structured_artifact_summaries() {
    let state = AppState {
        transcript: TranscriptState {
            history: vec![
                HistoryCellModel::ArtifactCreated(ArtifactEventCell {
                    manifest: manifest("Dataset audit for demo"),
                    preview: ArtifactPreview::DatasetAudit {
                        dataset: "demo/corpus".to_owned(),
                        split_count: 2,
                        issue_count: 1,
                    },
                }),
                HistoryCellModel::ArtifactCreated(ArtifactEventCell {
                    manifest: manifest("Paper report for diffusion"),
                    preview: ArtifactPreview::PaperReport {
                        query: "diffusion for tabular data".to_owned(),
                        paper_count: 4,
                        headline: "Start with the survey".to_owned(),
                    },
                }),
                HistoryCellModel::ArtifactCreated(ArtifactEventCell {
                    manifest: manifest("Job snapshot for job-123"),
                    preview: ArtifactPreview::JobSnapshot {
                        job_id: "job-123".to_owned(),
                        status: "running".to_owned(),
                        hardware: Some("a10g".to_owned()),
                        dashboard_url: Some("https://hf.co/jobs/job-123".to_owned()),
                    },
                }),
            ],
        },
        ..AppState::default()
    };

    let rendered = render_app(&state, None);

    assert!(rendered.contains(
        "artifact+ Dataset audit for demo | dataset=demo/corpus | splits=2 | issues=1"
    ));
    assert!(rendered.contains("artifact+ Paper report for diffusion | query=diffusion for tabular data | papers=4 | recipe=Start with the survey"));
    assert!(!rendered.contains("artifact+ | job=job-123"));
    assert!(rendered.contains("artifact+ Job snapshot for job-123 | job=job-123 | status=running | hardware=a10g | url=https://hf.co/jobs/job-123"));
    assert!(rendered.contains(".ml-intern/threads/"));
}

#[test]
fn render_app_distinguishes_artifact_updates() {
    let state = AppState {
        transcript: TranscriptState {
            history: vec![HistoryCellModel::ArtifactUpdated(ArtifactEventCell {
                manifest: manifest("Job snapshot for job-123"),
                preview: ArtifactPreview::JobSnapshot {
                    job_id: "job-123".to_owned(),
                    status: "completed".to_owned(),
                    hardware: None,
                    dashboard_url: Some("https://hf.co/jobs/job-123".to_owned()),
                },
            })],
        },
        ..AppState::default()
    };

    let rendered = render_app(&state, None);

    assert!(
        rendered.contains("artifact~ Job snapshot for job-123 | job=job-123 | status=completed")
    );
    assert!(rendered.contains("url=https://hf.co/jobs/job-123"));
    assert!(rendered.contains(".ml-intern/threads/"));
}

#[test]
fn render_app_marks_live_command_output_with_exec_tilde() {
    let state = AppState {
        transcript: TranscriptState {
            history: vec![HistoryCellModel::ExecOutput(ExecOutputCell {
                item_id: "cmd-1".to_owned(),
                command: "python long_job.py".to_owned(),
                output: "epoch 1\n".to_owned(),
                streaming: true,
            })],
        },
        ..AppState::default()
    };

    let rendered = render_app(&state, None);

    assert!(rendered.contains("exec~ python long_job.py => epoch 1"));
}

#[test]
fn an_empty_transcript_says_so() {
    assert!(render_app(&AppState::default(), None).contains("(empty)"));
    assert_eq!(
        render_history_cell(&HistoryCellModel::UserMessage(UserMessageCell {
            text: "hi".to_owned(),
        })),
        "you> hi"
    );
}

#[test]
fn full_banner_used_for_wide_terminal() {
    let lines = banner(120, None);
    assert_eq!(lines.len(), 9);
}

#[test]
fn compact_banner_used_for_narrow_terminal() {
    let lines = banner(40, None);
    assert_eq!(lines.len(), 6);
}

#[test]
fn tiny_terminal_yields_only_metadata() {
    let lines = banner(20, None);
    assert_eq!(lines.len(), 2);
}

#[test]
fn model_label_rendered_when_present() {
    let lines = banner(120, Some("codex 0.120.0"));
    let text = plain_text(&lines[lines.len() - 2]);
    assert!(text.contains("codex 0.120.0"));
}

#[test]
fn a_long_directory_keeps_its_end() {
    assert_eq!(shorten_home("/home/me/work", Some("/home/me")), "~/work");
    assert_eq!(shorten_home("/home/you/work", Some("/home/me")), "/home/you/work");
    let cut = fit_cwd("/very/long/path/to/work", 23, 10);
    assert!(cut.ends_with("to/work"));
    assert!(cut.starts_with('…'));
    assert_eq!(cut.chars().count(), 10);
}

#[test]
fn times_are_told_in_words() {
    let now = Timestamp { seconds: 1_000_000, nanos: 0 };
    let ago = |seconds: i64| {
        human_time_ago(Timestamp { seconds: 1_000_000 - seconds, nanos: 0 }, now)
    };
    assert_eq!(ago(0), "0 seconds ago");
    assert_eq!(ago(-50), "0 seconds ago");
    assert_eq!(ago(1), "1 second ago");
    assert_eq!(ago(90), "1 minute ago");
    assert_eq!(ago(7200), "2 hours ago");
    assert_eq!(ago(3 * 86_400), "3 days ago");
    let later = Timestamp { seconds: 1_000_059, nanos: 1 };
    assert_eq!(
        human_time_ago(Timestamp { seconds: 1_000_000, nanos: 2 }, later),
        "58 seconds ago"
    );
}

#[test]
fn entries_end_in_a_blank_line() {
    let cell = HistoryCellModel::Status(StatusCell { message: "done".to_owned() });
    let lines = texts(&render_cell(&cell, &vec![raw_line("done")]));
    assert_eq!(lines.last().map(|line| line.trim().to_owned()), Some(String::new()));
    assert_eq!(lines[0], "· done");
}

#[test]
fn the_markdown_of_a_message_is_asked_for() {
    let cell = HistoryCellModel::AssistantMessage(AssistantMessageCell {
        text: "# hi".to_owned(),
        streaming: false,
    });
    let (source, width) = markdown_of(&cell, Some(80)).unwrap_or_else(|| panic!("markdown"));
    assert_eq!(source, "# hi");
    assert_eq!(width, 78);
    let shown = texts(&render_cell(&cell, &vec![raw_line("hi")]));
    assert_eq!(shown[0], "• hi");
    let output = HistoryCellModel::ExecOutput(ExecOutputCell {
        item_id: "cmd-1".to_owned(),
        command: "true".to_owned(),
        output: "done".to_owned(),
        streaming: false,
    });
    assert!(markdown_of(&output, Some(80)).is_none());
}

#[test]
fn paths_are_joined_and_told_apart_part_by_part() {
    assert_eq!(join("a/b", "c"), "a/b/c");
    assert_eq!(join("a/b", "/c"), "/c");
    assert!(same_path("a//b/", "a/b"));
    assert!(!same_path("/a/b", "a/b"));
}

#[test]
fn highlighting_splits_lines() {
    assert!(!exceeds_highlight_limits(10, 10));
    assert!(exceeds_highlight_limits(usize::MAX, 1));
    assert_eq!(texts(&highlight_bash_to_lines("a\nb")), vec!["a".to_string(), "b".to_string()]);
}

#[test]
fn the_banner_shows_the_logo_for_its_width_in_colours() {
    for (width, rows) in [(120, 6), (72, 6), (71, 3), (40, 3), (20, 0)] {
        let art = pick_art(width);
        assert_eq!(art.len(), rows);
        let lines = banner(width, None);
        assert_eq!(texts(&lines[..rows]), art);
        for line in &lines[..rows] {
            assert_eq!(line.spans.len(), 2);
            assert_eq!(line.spans[0].style.fg, Some(Tint::Cyan));
            assert_eq!(line.spans[1].style.fg, Some(Tint::White));
        }
        assert_eq!(plain_text(&lines[lines.len() - 2]), "v0.1.0  ·  cwd /tmp");
    }
}

#[test]
fn bands_of_the_same_colour_share_a_span() {
    let spans = gradient_spans("abcdef", &vec![0, 0, 1, 1, 2, 9]);
    let texts: Vec<&str> = spans.iter().map(|span| span.text.as_str()).collect();
    assert_eq!(texts, vec!["ab", "cd", "ef"]);
    assert_eq!(spans[1].style.fg, Some(Tint::LightCyan));
    assert_eq!(row_columns("你a"), 3);
    assert_eq!(char_widths("你a"), vec![2, 1]);
    let nothing = gradient_spans("", &Vec::new());
    assert_eq!(nothing.len(), 1);
    assert_eq!(nothing[0].style.fg, None);
}

#[test]
fn what_was_committed_stays_committed() {
    let text = "# one\n\n- a\n- b\n\n```sh\nls\n```\n1. last\nwords";
    let mut before = String::new();
    for (end, ch) in text.char_indices() {
        let now = committable_prefix(&text[..end + ch.len_utf8()]).unwrap_or_default();
        assert!(now.starts_with(&before), "{before:?} {now:?}");
        before = now;
    }
    assert_eq!(before, "# one\n\n- a\n- b\n\n```sh\nls\n```\n");
}
