use ml_intern_tui::app::TranscriptApp;
use ml_intern_tui::artifacts::{
    ArtifactFilePayload, ArtifactKind, ArtifactManifest, ArtifactReadBundle,
};
use ml_intern_tui::clock::utc_now;
use ml_intern_tui::ids::{ArtifactId, LocalThreadId, LocalTurnId};
use ml_intern_tui::picker::{
    filter_artifacts, filter_skills, filter_threads, is_skill_token_cuttable, match_skill_token,
    normalize_picker_query, parse_choice, parse_file_choice, parse_leading_skill_token,
    parse_picker_filter, preferred_artifact_file_index, Choice, PickerFilter, SkillTokenMatch,
};
use ml_intern_tui::session::{
    artifact_file_heading, artifact_file_menu, artifact_menu, pick_artifact, print_artifact_file,
    skill_menu, thread_menu, ChoiceError,
};
use ml_intern_tui::skills::{SkillDescriptor, SkillScope};
use ml_intern_tui::threads::{ThreadRecord, ThreadStatus};
use ml_intern_tui::ui::{ApprovalPolicy, HistoryCellModel, SandboxMode, ThreadListItem};

fn skill(name: &str, description: &str, path: &str, scope: SkillScope) -> SkillDescriptor {
    SkillDescriptor {
        name: name.to_owned(),
        description: description.to_owned(),
        short_description: None,
        path: path.to_owned(),
        scope,
        enabled: true,
    }
}

fn thread(id: &str, title: &str, status: ThreadStatus) -> ThreadListItem {
    let mut record = ThreadRecord::new(
        LocalThreadId { text: id.to_owned() },
        "/tmp/project".to_owned(),
        Some(title.to_owned()),
        None,
        ApprovalPolicy::OnRequest,
        SandboxMode::WorkspaceWrite,
        ".ml-intern/threads/thread/transcript.jsonl".to_owned(),
        ".ml-intern/threads/thread/artifacts".to_owned(),
    );
    record.status = status;
    ThreadListItem { thread: record, selected: false }
}

fn artifact(kind: ArtifactKind, title: &str, summary: &str, tags: &[&str]) -> ArtifactManifest {
    ArtifactManifest {
        id: ArtifactId { text: title.to_owned() },
        version: 1,
        local_thread_id: LocalThreadId { text: "thread".to_owned() },
        local_turn_id: LocalTurnId { text: "turn".to_owned() },
        kind,
        title: title.to_owned(),
        created_at: utc_now(),
        updated_at: utc_now(),
        summary: summary.to_owned(),
        tags: tags.iter().map(|tag| (*tag).to_owned()).collect(),
        primary_path: "report.md".to_owned(),
        extra_paths: vec![],
        metadata: "{}".to_owned(),
    }
}

fn file(path: &str, media_type: &str, text: Option<&str>) -> ArtifactFilePayload {
    ArtifactFilePayload {
        path: path.to_owned(),
        media_type: media_type.to_owned(),
        text: text.map(|text| text.to_owned()),
        base64: None,
        read_error: None,
    }
}

fn bundle() -> ArtifactReadBundle {
    ArtifactReadBundle {
        manifest: artifact(ArtifactKind::GenericMarkdown, "artifact", "summary", &[]),
        files: vec![
            file("report.json", "application/json", Some("{}")),
            file("report.md", "text/markdown", Some("# report")),
        ],
    }
}

#[test]
fn parse_leading_skill_token_extracts_skill_and_remainder() {
    let parsed = parse_leading_skill_token("$hf-dataset-audit inspect this dataset")
        .unwrap_or_else(|| panic!("expected parsed skill token"));
    assert_eq!(parsed.0, "hf-dataset-audit");
    assert_eq!(parsed.1, "inspect this dataset");
}

#[test]
fn parse_leading_skill_token_ignores_plain_text() {
    assert!(parse_leading_skill_token("inspect this dataset").is_none());
    assert!(parse_leading_skill_token("$").is_none());
}

#[test]
fn a_skill_name_ends_where_a_space_does() {
    assert!(is_skill_token_cuttable("$audit  two  words "));
    assert_eq!(
        parse_leading_skill_token("  $audit  two  words "),
        Some(("audit".to_owned(), "two  words ".to_owned()))
    );
    assert_eq!(parse_leading_skill_token("$audit"), Some(("audit".to_owned(), String::new())));
}

#[test]
fn match_skill_token_reports_ambiguous_duplicates() {
    let skills = vec![
        skill(
            "hf-dataset-audit",
            "Repo",
            ".agents/skills/hf-dataset-audit/SKILL.md",
            SkillScope::Repo,
        ),
        skill(
            "hf-dataset-audit",
            "Bundled",
            "skills/system/hf-dataset-audit/SKILL.md",
            SkillScope::Bundled,
        ),
    ];

    let matched = match_skill_token("hf-dataset-audit", &skills);

    assert!(matches!(matched, SkillTokenMatch::Ambiguous(found) if found.len() == 2));
}

#[test]
fn match_skill_token_returns_unique_skill() {
    let only = skill(
        "hf-jobs-operator",
        "Jobs",
        "skills/system/hf-jobs-operator/SKILL.md",
        SkillScope::Bundled,
    );

    let matched = match_skill_token("hf-jobs-operator", std::slice::from_ref(&only));

    assert!(matches!(matched, SkillTokenMatch::Unique(found) if found == only));
}

#[test]
fn match_skill_token_misses_other_names() {
    let only = skill("audit", "Jobs", "skills/audit/SKILL.md", SkillScope::Bundled);
    assert!(matches!(
        match_skill_token("operator", std::slice::from_ref(&only)),
        SkillTokenMatch::Missing
    ));
}

#[test]
fn filter_skills_matches_name_scope_and_path_case_insensitively() {
    let skills = vec![
        skill(
            "hf-dataset-audit",
            "Inspect datasets",
            "skills/system/hf-dataset-audit/SKILL.md",
            SkillScope::Bundled,
        ),
        skill(
            "paper-review",
            "Summarize papers",
            ".agents/skills/paper-review/SKILL.md",
            SkillScope::Repo,
        ),
    ];

    let filtered = filter_skills(&skills, Some("SYSTEM/HF-DATASET"));

    assert_eq!(filtered.len(), 1);
    assert_eq!(filtered[0].name, "hf-dataset-audit");
}

#[test]
fn filter_threads_matches_title_and_status_case_insensitively() {
    let items = vec![
        thread("a", "Dataset triage", ThreadStatus::Running),
        thread("b", "Paper notes", ThreadStatus::Idle),
    ];

    let filtered = filter_threads(&items, Some("RUNNING"));

    assert_eq!(filtered.len(), 1);
    assert_eq!(filtered[0].thread.title.as_deref(), Some("Dataset triage"));
}

#[test]
fn filter_artifacts_matches_kind_tag_and_title() {
    let artifacts = vec![
        artifact(ArtifactKind::JobSnapshot, "Nightly job", "nightly status", &["hf", "gpu"]),
        artifact(ArtifactKind::PaperReport, "Survey notes", "paper shortlist", &["research"]),
    ];

    let filtered = filter_artifacts(&artifacts, Some("GPU"));

    assert_eq!(filtered.len(), 1);
    assert_eq!(filtered[0].title, "Nightly job");
}

#[test]
fn a_blank_query_leaves_everything() {
    let items = vec![
        thread("a", "Dataset triage", ThreadStatus::Running),
        thread("b", "Paper notes", ThreadStatus::Idle),
    ];
    assert_eq!(filter_threads(&items, None).len(), 2);
    assert_eq!(filter_threads(&items, Some("  ")).len(), 2);
    assert_eq!(normalize_picker_query(Some("  ")), None);
    assert_eq!(normalize_picker_query(Some(" GPU ")), Some("gpu".to_owned()));
}

#[test]
fn preferred_artifact_file_index_prefers_primary_path() {
    let selected = preferred_artifact_file_index(&bundle());

    assert_eq!(selected, 1);
}

#[test]
fn preferred_artifact_file_index_falls_back_to_the_first_file() {
    let mut other = bundle();
    other.manifest.primary_path = "gone.md".to_owned();
    assert_eq!(preferred_artifact_file_index(&other), 0);
}

#[test]
fn filters_and_choices_are_read_from_lines() {
    assert!(matches!(parse_picker_filter(""), PickerFilter::All));
    assert!(matches!(parse_picker_filter(" gpu "), PickerFilter::Query(query) if query == "gpu"));
    assert!(matches!(parse_choice("", 3), Choice::Cancelled));
    assert!(matches!(parse_choice(" 2 ", 3), Choice::Chosen(1)));
    assert!(matches!(parse_choice("+3", 3), Choice::Chosen(2)));
    assert!(matches!(parse_choice("0", 3), Choice::Chosen(0)));
    assert!(matches!(parse_choice("4", 3), Choice::OutOfRange));
    assert!(matches!(parse_choice("two", 3), Choice::NotANumber));
    assert!(matches!(
        parse_choice("99999999999999999999999999", 3),
        Choice::NotANumber
    ));
    assert!(matches!(parse_file_choice("2", 2), Choice::Chosen(1)));
}

#[test]
fn menus_number_their_lines_from_one() {
    let threads = vec![
        thread("a", "Dataset triage", ThreadStatus::Running),
        thread("b", "Paper notes", ThreadStatus::Idle),
    ];
    assert_eq!(
        thread_menu(&threads, &Some("paper".to_owned())),
        vec!["  1. Paper notes (Idle)".to_owned()]
    );
    let skills = vec![skill("audit", "Inspect datasets", "skills/audit", SkillScope::Bundled)];
    let lines = skill_menu(&skills, &None);
    assert_eq!(lines.len(), 2);
    assert!(lines[0].starts_with("  1. audit"));
    assert_eq!(lines[1], "     Inspect datasets");
    let artifacts = vec![artifact(ArtifactKind::JobSnapshot, "Nightly job", "s", &["hf"])];
    assert!(artifact_menu(&artifacts, &None)[0].starts_with("  1. Nightly job"));
}

#[test]
fn a_thread_is_picked_by_its_number() {
    let mut app = TranscriptApp::new();
    app.state.threads = vec![
        thread("a", "Dataset triage", ThreadStatus::Running),
        thread("b", "Paper notes", ThreadStatus::Idle),
    ];
    assert!(app.offers_threads(&None));
    assert_eq!(
        app.pick_thread(&Some("paper".to_owned()), "1"),
        Ok(Some(LocalThreadId { text: "b".to_owned() }))
    );
    assert_eq!(app.pick_thread(&None, ""), Ok(None));
    assert_eq!(app.pick_thread(&None, "x"), Err(ChoiceError::NotANumber));
    assert_eq!(app.pick_thread(&None, "3"), Err(ChoiceError::OutOfRange));
    assert!(!app.offers_threads(&Some("nothing like it".to_owned())));
    assert!(matches!(
        app.state.transcript.history.last(),
        Some(HistoryCellModel::Warning(cell))
            if cell.message == "No threads matched `nothing like it`."
    ));
}

#[test]
fn a_skill_is_picked_by_its_number() {
    let mut app = TranscriptApp::new();
    let skills = vec![skill("audit", "Inspect datasets", "skills/audit", SkillScope::Bundled)];
    assert!(app.offers_skills(&skills, &None));
    assert_eq!(app.pick_skill(&skills, &None, "1"), Ok(()));
    assert_eq!(app.selected_skill.map(|chosen| chosen.name), Some("audit".to_owned()));
}

#[test]
fn an_artifact_is_picked_and_its_files_are_shown() {
    let artifacts = vec![artifact(ArtifactKind::JobSnapshot, "Nightly job", "s", &["hf"])];
    let picked = pick_artifact(&artifacts, &None, "1")
        .unwrap_or_else(|error| panic!("pick an artifact: {error:?}"))
        .unwrap_or_else(|| panic!("expected an artifact"));
    assert_eq!(picked.title, "Nightly job");
    assert_eq!(pick_artifact(&artifacts, &None, "2"), Err(ChoiceError::OutOfRange));
    let shown = bundle();
    assert!(artifact_file_heading(&shown, 1).contains("report.md"));
    assert_eq!(artifact_file_menu(&shown, 1).len(), 2);
    assert_eq!(print_artifact_file(&shown.files[1]), "# report");
    let mut app = TranscriptApp::new();
    assert!(app.offers_files(&shown));
    let empty = ArtifactReadBundle { files: Vec::new(), ..shown };
    assert!(!app.offers_files(&empty));
}
