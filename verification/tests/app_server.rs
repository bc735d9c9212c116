use ml_intern_tui::client::{
    decode_notification, interrupt_key, is_known_method, read_line, AppClient, ClientMessage, Exit,
    InterruptKey, Reply, RequestId, ServerLine,
};
use ml_intern_tui::ids::{LocalThreadId, LocalTurnId};
use ml_intern_tui::prompts::{
    answer_questions, answer_yes_no, approval_heading, collect_approval_response,
    collect_request_user_input_response_with, complaint, parse_yes_no, question_lines,
    read_answer, AnswerSheet, Asking, LineAnswer, Outcome,
};
use ml_intern_tui::protocol::{
    ApprovalDecision, ApprovalQuestion, ApprovalQuestionOption, ServerNotification,
};
use ml_intern_tui::ui::{ApprovalKind, PendingApproval};

fn option(label: &str, description: &str) -> ApprovalQuestionOption {
    ApprovalQuestionOption { label: label.to_owned(), description: description.to_owned() }
}

fn priority(options: Vec<ApprovalQuestionOption>) -> ApprovalQuestion {
    ApprovalQuestion {
        id: "priority".to_owned(),
        header: "Priority".to_owned(),
        question: "Choose a priority".to_owned(),
        is_other: false,
        is_secret: false,
        options: Some(options),
    }
}

fn warning(message: &str) -> ServerNotification {
    ServerNotification::Warning { message: message.to_owned() }
}

fn approval(kind: ApprovalKind) -> PendingApproval {
    PendingApproval {
        id: "approval-3".to_owned(),
        kind,
        title: "Need more detail".to_owned(),
        description: "Collect dataset context".to_owned(),
        raw_payload: "{}".to_owned(),
    }
}

#[test]
fn decode_notification_accepts_plan_updates() {
    let decoded = decode_notification(
        "turn/plan/updated",
        Some(ServerNotification::PlanUpdated {
            thread_id: LocalThreadId { text: "thread".to_owned() },
            turn_id: LocalTurnId { text: "turn".to_owned() },
            summary: "Inspect logs | [in_progress] Patch parser".to_owned(),
        }),
    )
    .unwrap_or_else(|error| panic!("decode turn/plan/updated: {error}"));

    assert!(matches!(
        decoded,
        Some(ServerNotification::PlanUpdated { summary, .. })
            if summary.contains("[in_progress] Patch parser")
    ));
}

#[test]
fn notifications_that_are_not_known_or_cannot_be_read_are_told_apart() {
    assert_eq!(decode_notification("turn/dreamt", Some(warning("x"))), Ok(None));
    assert_eq!(
        decode_notification("warning", None),
        Err("failed to decode server notification".to_owned())
    );
    assert!(is_known_method("item/agentMessage/delta"));
    assert!(!is_known_method("item/agentMessage"));
}

#[test]
fn collect_request_user_input_response_with_supports_option_selection_and_other_text() {
    let mut notes = priority(vec![option("sync", "Sync first"), option("skip", "Skip for now")]);
    notes.id = "notes".to_owned();
    notes.is_other = true;
    let questions = vec![
        priority(vec![option("low", "Background work"), option("high", "Needs action")]),
        notes,
    ];

    let outcome = collect_request_user_input_response_with(
        &questions,
        &vec!["2".to_owned(), "ship today".to_owned()],
    );

    let (decision, collected) = match outcome {
        Outcome::Decided { decision, answers } => (decision, answers),
        other => panic!("expected a decision, got {other:?}"),
    };
    assert_eq!(decision, ApprovalDecision::Approve);
    let collected = collected.unwrap_or_else(|| panic!("missing collected answers"));
    assert_eq!(
        collected.get("priority").map(|answer| answer.answers.clone()),
        Some(vec!["high".to_owned()])
    );
    assert_eq!(
        collected.get("notes").map(|answer| answer.answers.clone()),
        Some(vec!["ship today".to_owned()])
    );
}

#[test]
fn collect_request_user_input_response_with_blank_answer_rejects() {
    let questions = vec![priority(vec![option("low", "Background work")])];

    let outcome = collect_request_user_input_response_with(&questions, &vec![String::new()]);

    let (decision, collected) = match outcome {
        Outcome::Decided { decision, answers } => (decision, answers),
        other => panic!("expected a decision, got {other:?}"),
    };
    assert_eq!(decision, ApprovalDecision::Reject);
    assert!(collected.is_none());
}

#[test]
fn lines_that_do_not_answer_are_asked_for_again() {
    let questions = vec![priority(vec![option("low", "Background work")])];
    let mut sheet = AnswerSheet::new(&questions);
    assert_eq!(sheet.question(), Some(questions[0].clone()));
    let (answer, outcome) = sheet.take_line("7");
    assert_eq!(complaint(&answer), Some("Selection out of range."));
    assert_eq!(outcome, Outcome::Waiting);
    let (answer, outcome) = sheet.take_line("later");
    assert_eq!(answer, LineAnswer::NotAnOption);
    assert_eq!(complaint(&answer), Some("Enter one of the listed option numbers."));
    assert_eq!(outcome, Outcome::Waiting);
    let (answer, outcome) = sheet.take_line("0");
    assert_eq!(answer, LineAnswer::Given("low".to_owned()));
    assert_eq!(complaint(&answer), None);
    assert!(matches!(outcome, Outcome::Decided { decision: ApprovalDecision::Approve, .. }));
    assert_eq!(sheet.question(), None);
    assert_eq!(
        collect_request_user_input_response_with(&questions, &vec!["9".to_owned()]),
        Outcome::Waiting
    );
    assert_eq!(
        collect_request_user_input_response_with(&Vec::new(), &Vec::new()),
        Outcome::Decided { decision: ApprovalDecision::Reject, answers: None }
    );
}

#[test]
fn a_question_without_options_takes_any_text() {
    let mut question = priority(Vec::new());
    question.options = None;
    assert_eq!(read_answer(&question, "12"), LineAnswer::Given("12".to_owned()));
    assert_eq!(read_answer(&question, ""), LineAnswer::Cancel);
}

#[test]
fn questions_are_printed_with_their_options() {
    let mut question = priority(vec![option("low", "Background work")]);
    question.is_other = true;
    question.is_secret = true;
    assert_eq!(
        question_lines(&question),
        vec![
            "\nPriority: Choose a priority".to_owned(),
            "(secret input; terminal echo is still enabled in this minimal client)".to_owned(),
            "  1. low - Background work".to_owned(),
            "  or enter free-form text".to_owned(),
        ]
    );
    assert_eq!(
        approval_heading(&approval(ApprovalKind::CommandExecution)),
        vec![
            "\nApproval requested: Need more detail".to_owned(),
            "Collect dataset context".to_owned(),
        ]
    );
}

#[test]
fn approvals_are_answered_yes_or_no() {
    for (line, said) in [
        ("y", Some(true)),
        (" YES ", Some(true)),
        ("", Some(false)),
        ("No", Some(false)),
        ("perhaps", None),
    ] {
        assert_eq!(parse_yes_no(line), said, "{line}");
    }
    let command = approval(ApprovalKind::CommandExecution);
    assert_eq!(collect_approval_response(&command, &None), Asking::YesNo);
    assert_eq!(answer_yes_no(&command, true).decision, ApprovalDecision::Approve);
    let asked = approval(ApprovalKind::RequestUserInput);
    assert_eq!(collect_approval_response(&asked, &None), Asking::Unreadable);
    assert_eq!(collect_approval_response(&asked, &Some(Vec::new())), Asking::Questions);
    assert_eq!(answer_questions(&asked, &Outcome::Waiting), None);
}

#[test]
fn replies_find_their_request_and_notifications_wait() {
    let mut client = AppClient::new();
    assert_eq!(client.begin_request(), 1);
    assert_eq!(client.begin_request(), 2);
    assert_eq!(
        client.receive(2, ClientMessage::Notification(warning("first"))),
        Reply::Waiting
    );
    assert_eq!(
        client.receive(
            2,
            ClientMessage::Response { id: RequestId::Integer(1), result: "late".to_owned() },
        ),
        Reply::Waiting
    );
    assert_eq!(
        client.receive(2, ClientMessage::Notification(warning("second"))),
        Reply::Waiting
    );
    assert_eq!(
        client.receive(
            2,
            ClientMessage::Response {
                id: RequestId::Text("2".to_owned()),
                result: "other".to_owned(),
            },
        ),
        Reply::Waiting
    );
    assert_eq!(
        client.receive(
            2,
            ClientMessage::Response { id: RequestId::Integer(2), result: "{}".to_owned() },
        ),
        Reply::Result("{}".to_owned())
    );
    assert_eq!(client.next_waiting(), Some(warning("first")));
    assert_eq!(client.recv_notification(None), Some(warning("second")));
    assert_eq!(client.next_waiting(), None);
    assert_eq!(
        client.recv_notification(Some(ClientMessage::Notification(warning("third")))),
        Some(warning("third"))
    );
    assert_eq!(client.recv_notification(Some(ClientMessage::Ignored)), None);
}

#[test]
fn refusals_tell_their_code() {
    let mut client = AppClient::new();
    let reply = client.receive(
        1,
        ClientMessage::Error {
            id: RequestId::Integer(1),
            code: i64::MIN,
            message: "no".to_owned(),
        },
    );
    assert_eq!(
        reply,
        Reply::Failed("app-server error -9223372036854775808: no".to_owned())
    );
}

#[test]
fn a_server_that_is_gone_leaves_its_last_words() {
    let mut client = AppClient::new();
    client.log_line("  starting  ");
    client.log_line("   ");
    client.log_line("out of memory");
    assert_eq!(client.stderr_snapshot(), "starting\nout of memory");
    assert_eq!(
        client.app_server_closed_error(&Exit::Ended { status: "exit status: 1".to_owned() }),
        "app-server closed unexpectedly (status exit status: 1): starting\nout of memory"
    );
    assert_eq!(
        AppClient::new().app_server_closed_error(&Exit::Running),
        "app-server closed unexpectedly"
    );
    assert_eq!(
        AppClient::new().app_server_closed_error(&Exit::Unknown { error: "no child".to_owned() }),
        "app-server closed unexpectedly (failed to inspect exit status: no child)"
    );
}

#[test]
fn lines_of_the_server_become_messages() {
    assert_eq!(read_line("   ", ServerLine::Broken), None);
    assert_eq!(read_line("{", ServerLine::Broken), Some(ClientMessage::Ignored));
    assert_eq!(read_line("{}", ServerLine::Request), Some(ClientMessage::Ignored));
    assert_eq!(
        read_line(
            "{}",
            ServerLine::Notification { method: "warning".to_owned(), said: Some(warning("w")) },
        ),
        Some(ClientMessage::Notification(warning("w")))
    );
    assert_eq!(
        read_line(
            "{}",
            ServerLine::Notification { method: "dream".to_owned(), said: Some(warning("w")) },
        ),
        Some(ClientMessage::Ignored)
    );
}

#[test]
fn escape_and_control_c_interrupt() {
    assert_eq!(interrupt_key(27), Some(InterruptKey::Escape));
    assert_eq!(interrupt_key(3), Some(InterruptKey::CtrlC));
    assert_eq!(interrupt_key(b'x'), None);
}
