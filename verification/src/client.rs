//! The client's end of the line to the app server: requests and their replies, notifications, and
//! what the server wrote to its error stream.
use vstd::prelude::*;

use crate::protocol::{ServerNotification, ServerNotificationView};
use crate::text;

verus! {

broadcast use text::group_views;

/// What a request is known by.
#[derive(Debug, PartialEq)]
pub enum RequestId {
    Integer(i64),
    Text(String),
}

/// The model of `RequestId`.
#[verifier::ext_equal]
pub enum RequestIdView {
    Integer(i64),
    Text(Seq<char>),
}

impl View for RequestId {
    type V = RequestIdView;

    open spec fn view(&self) -> RequestIdView {
        match *self {
            RequestId::Integer(inner) => RequestIdView::Integer(inner),
            RequestId::Text(inner) => RequestIdView::Text(inner@),
        }
    }
}

impl Clone for RequestId {
    fn clone(&self) -> (copy: Self)
        ensures
            copy@ == self@,
    {
        match self {
            RequestId::Integer(inner) => RequestId::Integer(*inner),
            RequestId::Text(inner) => RequestId::Text(inner.clone()),
        }
    }
}

/// A message of the server. `result` is JSON text. A message that means nothing to the client is
/// ignored.
#[derive(Debug, PartialEq)]
pub enum ClientMessage {
    Response { id: RequestId, result: String },
    Error { id: RequestId, code: i64, message: String },
    Notification(ServerNotification),
    Ignored,
}

/// The model of `ClientMessage`.
#[verifier::ext_equal]
pub enum ClientMessageView {
    Response { id: RequestIdView, result: Seq<char> },
    Error { id: RequestIdView, code: i64, message: Seq<char> },
    Notification(ServerNotificationView),
    Ignored,
}

impl View for ClientMessage {
    type V = ClientMessageView;

    open spec fn view(&self) -> ClientMessageView {
        match *self {
            ClientMessage::Response { id, result } => ClientMessageView::Response {
                id: id@,
                result: result@,
            },
            ClientMessage::Error { id, code, message } => ClientMessageView::Error {
                id: id@,
                code,
                message: message@,
            },
            ClientMessage::Notification(inner) => ClientMessageView::Notification(inner@),
            ClientMessage::Ignored => ClientMessageView::Ignored,
        }
    }
}

impl Clone for ClientMessage {
    fn clone(&self) -> (copy: Self)
        ensures
            copy@ == self@,
    {
        match self {
            ClientMessage::Response { id, result } => ClientMessage::Response {
                id: id.clone(),
                result: result.clone(),
            },
            ClientMessage::Error { id, code, message } => ClientMessage::Error {
                id: id.clone(),
                code: *code,
                message: message.clone(),
            },
            ClientMessage::Notification(inner) => ClientMessage::Notification(inner.clone()),
            ClientMessage::Ignored => ClientMessage::Ignored,
        }
    }
}

/// A line of the server as it was read: it is no message, a reply, a refusal, a notification with
/// what it says if that could be read, or a request.
#[derive(Debug, PartialEq)]
pub enum ServerLine {
    Broken,
    Response { id: RequestId, result: String },
    Error { id: RequestId, code: i64, message: String },
    Notification { method: String, said: Option<ServerNotification> },
    Request,
}

/// The model of `ServerLine`.
#[verifier::ext_equal]
pub enum ServerLineView {
    Broken,
    Response { id: RequestIdView, result: Seq<char> },
    Error { id: RequestIdView, code: i64, message: Seq<char> },
    Notification { method: Seq<char>, said: Option<ServerNotificationView> },
    Request,
}

impl View for ServerLine {
    type V = ServerLineView;

    open spec fn view(&self) -> ServerLineView {
        match *self {
            ServerLine::Broken => ServerLineView::Broken,
            ServerLine::Response { id, result } => ServerLineView::Response {
                id: id@,
                result: result@,
            },
            ServerLine::Error { id, code, message } => ServerLineView::Error {
                id: id@,
                code,
                message: message@,
            },
            ServerLine::Notification { method, said } => ServerLineView::Notification {
                method: method@,
                said: text::opt_view(said),
            },
            ServerLine::Request => ServerLineView::Request,
        }
    }
}

impl Clone for ServerLine {
    fn clone(&self) -> (copy: Self)
        ensures
            copy@ == self@,
    {
        match self {
            ServerLine::Broken => ServerLine::Broken,
            ServerLine::Response { id, result } => ServerLine::Response {
                id: id.clone(),
                result: result.clone(),
            },
            ServerLine::Error { id, code, message } => ServerLine::Error {
                id: id.clone(),
                code: *code,
                message: message.clone(),
            },
            ServerLine::Notification { method, said } => ServerLine::Notification {
                method: method.clone(),
                said: text::copy_maybe(said),
            },
            ServerLine::Request => ServerLine::Request,
        }
    }
}

/// What a message is to a request that waits: nothing, its result, or its refusal.
#[derive(Debug, PartialEq)]
pub enum Reply {
    Waiting,
    Result(String),
    Failed(String),
}

/// The model of `Reply`.
#[verifier::ext_equal]
pub enum ReplyView {
    Waiting,
    Result(Seq<char>),
    Failed(Seq<char>),
}

impl View for Reply {
    type V = ReplyView;

    open spec fn view(&self) -> ReplyView {
        match *self {
            Reply::Waiting => ReplyView::Waiting,
            Reply::Result(inner) => ReplyView::Result(inner@),
            Reply::Failed(inner) => ReplyView::Failed(inner@),
        }
    }
}

impl Clone for Reply {
    fn clone(&self) -> (copy: Self)
        ensures
            copy@ == self@,
    {
        match self {
            Reply::Waiting => Reply::Waiting,
            Reply::Result(inner) => Reply::Result(inner.clone()),
            Reply::Failed(inner) => Reply::Failed(inner.clone()),
        }
    }
}

/// What is known of the end of the server: it runs, it has ended, or it could not be looked at.
#[derive(Debug, PartialEq)]
pub enum Exit {
    Running,
    Ended { status: String },
    Unknown { error: String },
}

/// The model of `Exit`.
#[verifier::ext_equal]
pub enum ExitView {
    Running,
    Ended { status: Seq<char> },
    Unknown { error: Seq<char> },
}

impl View for Exit {
    type V = ExitView;

    open spec fn view(&self) -> ExitView {
        match *self {
            Exit::Running => ExitView::Running,
            Exit::Ended { status } => ExitView::Ended { status: status@ },
            Exit::Unknown { error } => ExitView::Unknown { error: error@ },
        }
    }
}

impl Clone for Exit {
    fn clone(&self) -> (copy: Self)
        ensures
            copy@ == self@,
    {
        match self {
            Exit::Running => Exit::Running,
            Exit::Ended { status } => Exit::Ended { status: status.clone() },
            Exit::Unknown { error } => Exit::Unknown { error: error.clone() },
        }
    }
}

/// The client's end of the line: the number of the last request, the notifications that came while
/// a reply was waited for, and what the server wrote to its error stream.
#[derive(Debug, PartialEq)]
pub struct AppClient {
    pub last_request: i64,
    pub waiting: Vec<ServerNotification>,
    pub stderr_log: String,
}

/// The model of `AppClient`.
#[verifier::ext_equal]
pub struct AppClientView {
    pub last_request: i64,
    pub waiting: Seq<ServerNotificationView>,
    pub stderr_log: Seq<char>,
}

impl View for AppClient {
    type V = AppClientView;

    open spec fn view(&self) -> AppClientView {
        AppClientView {
            last_request: self.last_request,
            waiting: text::views(self.waiting@),
            stderr_log: self.stderr_log@,
        }
    }
}

impl Clone for AppClient {
    fn clone(&self) -> (copy: Self)
        ensures
            copy@ == self@,
    {
        AppClient {
            last_request: self.last_request,
            waiting: text::copy_all(&self.waiting),
            stderr_log: self.stderr_log.clone(),
        }
    }
}

/// A key that interrupts a turn.
#[derive(Clone, Copy, Debug, PartialEq, Eq, Structural)]
pub enum InterruptKey {
    Escape,
    CtrlC,
}

/// Whether the client takes notifications of a method.
pub open spec fn known_method(method: Seq<char>) -> bool {
    ||| method == "thread/started"@
    ||| method == "thread/statusChanged"@
    ||| method == "turn/started"@
    ||| method == "turn/completed"@
    ||| method == "turn/plan/updated"@
    ||| method == "item/started"@
    ||| method == "item/completed"@
    ||| method == "item/agentMessage/delta"@
    ||| method == "item/commandExecution/outputDelta"@
    ||| method == "runtime/statusChanged"@
    ||| method == "skills/changed"@
    ||| method == "artifact/created"@
    ||| method == "artifact/updated"@
    ||| method == "approval/requested"@
    ||| method == "warning"@
    ||| method == "error"@
}

/// Whether the client takes notifications of a method.
pub fn is_known_method(method: &str) -> (known: bool)
    ensures
        known == known_method(method@),
{
    text::same_text(method, "thread/started") || text::same_text(method, "thread/statusChanged")
        || text::same_text(method, "turn/started") || text::same_text(method, "turn/completed")
        || text::same_text(method, "turn/plan/updated") || text::same_text(method, "item/started")
        || text::same_text(method, "item/completed") || text::same_text(
        method,
        "item/agentMessage/delta",
    ) || text::same_text(method, "item/commandExecution/outputDelta") || text::same_text(
        method,
        "runtime/statusChanged",
    ) || text::same_text(method, "skills/changed") || text::same_text(method, "artifact/created")
        || text::same_text(method, "artifact/updated") || text::same_text(
        method,
        "approval/requested",
    ) || text::same_text(method, "warning") || text::same_text(method, "error")
}

/// What a notification comes to: nothing for a method that the client does not take, an error where
/// it could not be read, and otherwise what it says.
pub fn decode_notification(method: &str, said: Option<ServerNotification>) -> (taken: Result<
    Option<ServerNotification>,
    String,
>)
    ensures
        match taken {
            Ok(Some(notification)) => known_method(method@) && text::opt_view(said) == Some(
                notification@,
            ),
            Ok(None) => !known_method(method@),
            Err(error) => known_method(method@) && said is None && error@
                == "failed to decode server notification"@,
        },
{
    if !is_known_method(method) {
        return Ok(None);
    }
    match said {
        Some(notification) => Ok(Some(notification)),
        None => Err("failed to decode server notification".to_string()),
    }
}

/// The message that a line of the server is: nothing where the line is blank.
pub open spec fn message_of(line: Seq<char>, read: ServerLineView) -> Option<ClientMessageView> {
    if text::blank(line) {
        None
    } else {
        Some(
            match read {
                ServerLineView::Response { id, result } => ClientMessageView::Response {
                    id,
                    result,
                },
                ServerLineView::Error { id, code, message } => ClientMessageView::Error {
                    id,
                    code,
                    message,
                },
                ServerLineView::Notification { method, said } => if known_method(method) {
                    match said {
                        Some(notification) => ClientMessageView::Notification(notification),
                        None => ClientMessageView::Ignored,
                    }
                } else {
                    ClientMessageView::Ignored
                },
                ServerLineView::Broken => ClientMessageView::Ignored,
                ServerLineView::Request => ClientMessageView::Ignored,
            },
        )
    }
}

/// The message that a line of the server is. `read` is what the line was read as.
pub fn read_line(line: &str, read: ServerLine) -> (message: Option<ClientMessage>)
    ensures
        text::opt_view(message) == message_of(line@, read@),
{
    if text::is_blank(line) {
        return None;
    }
    match read {
        ServerLine::Response { id, result } => Some(ClientMessage::Response { id, result }),
        ServerLine::Error { id, code, message } => Some(
            ClientMessage::Error { id, code, message },
        ),
        ServerLine::Notification { method, said } => match decode_notification(
            method.as_str(),
            said,
        ) {
            Ok(Some(notification)) => Some(ClientMessage::Notification(notification)),
            Ok(None) => Some(ClientMessage::Ignored),
            Err(_) => Some(ClientMessage::Ignored),
        },
        ServerLine::Broken => Some(ClientMessage::Ignored),
        ServerLine::Request => Some(ClientMessage::Ignored),
    }
}

/// A whole number in decimal notation.
pub open spec fn signed_decimal(n: i64) -> Seq<char> {
    if n < 0 {
        "-"@ + text::decimal((-n) as nat)
    } else {
        text::decimal(n as nat)
    }
}

fn signed(n: i64) -> (out: String)
    ensures
        out@ == signed_decimal(n),
{
    if n < 0 {
        let size: u64 = (-(n + 1)) as u64 + 1;
        let digits: String = text::number(size);
        text::glue("-", digits.as_str())
    } else {
        text::number(n as u64)
    }
}

/// What a refusal is told as.
pub open spec fn refusal(code: i64, message: Seq<char>) -> Seq<char> {
    "app-server error "@ + signed_decimal(code) + ": "@ + message
}

/// What a message is to a request that waits: only a reply with its number counts.
pub open spec fn reply_to(number: i64, message: ClientMessageView) -> ReplyView {
    match message {
        ClientMessageView::Response { id, result } => if id == RequestIdView::Integer(number) {
            ReplyView::Result(result)
        } else {
            ReplyView::Waiting
        },
        ClientMessageView::Error { id, code, message } => if id == RequestIdView::Integer(number) {
            ReplyView::Failed(refusal(code, message))
        } else {
            ReplyView::Waiting
        },
        _ => ReplyView::Waiting,
    }
}

/// The client after a message that came while a reply was waited for: a notification is kept.
pub open spec fn after_message(client: AppClientView, message: ClientMessageView) -> AppClientView {
    match message {
        ClientMessageView::Notification(notification) => AppClientView {
            waiting: client.waiting.push(notification),
            ..client
        },
        _ => client,
    }
}

/// The client after messages.
pub open spec fn after_messages(client: AppClientView, messages: Seq<ClientMessageView>) -> AppClientView
    decreases messages.len(),
{
    if messages.len() == 0 {
        client
    } else {
        after_message(after_messages(client, messages.drop_last()), messages.last())
    }
}

/// The notifications among messages.
pub open spec fn notifications_in(messages: Seq<ClientMessageView>) -> Seq<ServerNotificationView>
    decreases messages.len(),
{
    if messages.len() == 0 {
        Seq::empty()
    } else {
        match messages.last() {
            ClientMessageView::Notification(notification) => notifications_in(
                messages.drop_last(),
            ).push(notification),
            _ => notifications_in(messages.drop_last()),
        }
    }
}

/// The end of the error that the server is gone.
pub open spec fn exit_part(exit: ExitView) -> Seq<char> {
    match exit {
        ExitView::Running => Seq::empty(),
        ExitView::Ended { status } => " (status "@ + status + ")"@,
        ExitView::Unknown { error } => " (failed to inspect exit status: "@ + error + ")"@,
    }
}

/// The error that the server is gone.
pub open spec fn closed_error(log: Seq<char>, exit: ExitView) -> Seq<char> {
    let stderr = text::trim_of(log);
    "app-server closed unexpectedly"@ + exit_part(exit) + (if stderr.len() == 0 {
        Seq::empty()
    } else {
        ": "@ + stderr
    })
}

/// What was written to the error stream after one more line: lines that show nothing are left out.
pub open spec fn logged(log: Seq<char>, line: Seq<char>) -> Seq<char> {
    let words = text::trim_of(line);
    if words.len() == 0 {
        log
    } else if log.len() == 0 {
        words
    } else {
        log + "\n"@ + words
    }
}

impl AppClient {
    /// A line on which nothing was said.
    pub fn new() -> (client: Self)
        ensures
            client@ == (AppClientView {
                last_request: 0,
                waiting: Seq::empty(),
                stderr_log: Seq::empty(),
            }),
    {
        let client = AppClient { last_request: 0, waiting: Vec::new(), stderr_log: String::new() };
        assert(client@.waiting =~= Seq::empty());
        assert(client@.stderr_log =~= Seq::empty());
        client
    }

    /// The number of a new request.
    pub fn begin_request(&mut self) -> (number: i64)
        requires
            old(self)@.last_request < i64::MAX,
        ensures
            number == old(self)@.last_request + 1,
            final(self)@ == (AppClientView { last_request: number, ..old(self)@ }),
    {
        self.last_request = self.last_request + 1;
        self.last_request
    }

    /// Takes in a message while a request waits for its reply.
    pub fn receive(&mut self, number: i64, message: ClientMessage) -> (reply: Reply)
        ensures
            reply@ == reply_to(number, message@),
            final(self)@ == after_message(old(self)@, message@),
    {
        match message {
            ClientMessage::Response { id, result } => match id {
                RequestId::Integer(n) => if n == number {
                    Reply::Result(result)
                } else {
                    Reply::Waiting
                },
                RequestId::Text(_) => Reply::Waiting,
            },
            ClientMessage::Error { id, code, message } => match id {
                RequestId::Integer(n) => if n == number {
                    let code: String = signed(code);
                    Reply::Failed(
                        text::glue4("app-server error ", code.as_str(), ": ", message.as_str()),
                    )
                } else {
                    Reply::Waiting
                },
                RequestId::Text(_) => Reply::Waiting,
            },
            ClientMessage::Notification(notification) => {
                let ghost before = self.waiting@;
                self.waiting.push(notification);
                proof {
                    text::lemma_views_push(before, notification);
                }
                Reply::Waiting
            },
            ClientMessage::Ignored => Reply::Waiting,
        }
    }

    /// The oldest notification that was kept, if there is any.
    pub fn next_waiting(&mut self) -> (notification: Option<ServerNotification>)
        ensures
            text::opt_view(notification) == if old(self)@.waiting.len() == 0 {
                None
            } else {
                Some(old(self)@.waiting[0])
            },
            final(self)@ == (AppClientView {
                waiting: if old(self)@.waiting.len() == 0 {
                    Seq::empty()
                } else {
                    old(self)@.waiting.skip(1)
                },
                ..old(self)@
            }),
    {
        if self.waiting.len() == 0 {
            assert(self@.waiting =~= Seq::empty());
            return None;
        }
        let first: ServerNotification = self.waiting.remove(0);
        assert(self@.waiting =~= old(self)@.waiting.skip(1));
        Some(first)
    }

    /// The next notification: the oldest that was kept, or else the one that has just come in.
    /// `message` is what has come in, which is looked for only where nothing was kept. A reply that
    /// nobody waits for is dropped.
    pub fn recv_notification(&mut self, message: Option<ClientMessage>) -> (notification: Option<
        ServerNotification,
    >)
        requires
            old(self)@.waiting.len() > 0 ==> message is None,
        ensures
            text::opt_view(notification) == if old(self)@.waiting.len() > 0 {
                Some(old(self)@.waiting[0])
            } else {
                match text::opt_view(message) {
                    Some(ClientMessageView::Notification(notification)) => Some(notification),
                    _ => None,
                }
            },
            final(self)@ == (AppClientView {
                waiting: if old(self)@.waiting.len() == 0 {
                    Seq::empty()
                } else {
                    old(self)@.waiting.skip(1)
                },
                ..old(self)@
            }),
    {
        let kept: Option<ServerNotification> = self.next_waiting();
        if kept.is_some() {
            return kept;
        }
        match message {
            Some(ClientMessage::Notification(notification)) => Some(notification),
            _ => None,
        }
    }

    /// Takes in a line of the server's error stream.
    pub fn log_line(&mut self, line: &str)
        ensures
            final(self)@ == (AppClientView {
                stderr_log: logged(old(self)@.stderr_log, line@),
                ..old(self)@
            }),
    {
        let words: String = text::trim(line);
        if text::is_empty(words.as_str()) {
            return ;
        }
        if !text::is_empty(self.stderr_log.as_str()) {
            self.stderr_log.append("\n");
        }
        self.stderr_log.append(words.as_str());
        assert(self.stderr_log@ =~= logged(old(self)@.stderr_log, line@));
    }

    /// What the server wrote to its error stream.
    pub fn stderr_snapshot(&self) -> (log: String)
        ensures
            log@ == text::trim_of(self@.stderr_log),
    {
        text::trim(self.stderr_log.as_str())
    }

    /// The error that the server is gone.
    pub fn app_server_closed_error(&self, exit: &Exit) -> (error: String)
        ensures
            error@ == closed_error(self@.stderr_log, exit@),
    {
        let mut error: String = "app-server closed unexpectedly".to_string();
        match exit {
            Exit::Running => {},
            Exit::Ended { status } => {
                let part: String = text::glue3(" (status ", status.as_str(), ")");
                error.append(part.as_str());
            },
            Exit::Unknown { error: cause } => {
                let part: String = text::glue3(
                    " (failed to inspect exit status: ",
                    cause.as_str(),
                    ")",
                );
                error.append(part.as_str());
            },
        }
        assert(error@ =~= "app-server closed unexpectedly"@ + exit_part(exit@));
        let stderr: String = self.stderr_snapshot();
        if !text::is_empty(stderr.as_str()) {
            error.append(": ");
            error.append(stderr.as_str());
        }
        assert(error@ =~= closed_error(self@.stderr_log, exit@));
        error
    }
}

/// The key that a byte of the terminal stands for, if it interrupts.
pub fn interrupt_key(byte: u8) -> (key: Option<InterruptKey>)
    ensures
        key == match byte {
            27u8 => Some(InterruptKey::Escape),
            3u8 => Some(InterruptKey::CtrlC),
            _ => None,
        },
{
    match byte {
        27 => Some(InterruptKey::Escape),
        3 => Some(InterruptKey::CtrlC),
        _ => None,
    }
}

/// Notifications that come while a reply is waited for are kept, all of them and in the order in
/// which they came.
pub proof fn law_notifications_keep_their_order(
    client: AppClientView,
    messages: Seq<ClientMessageView>,
)
    ensures
        after_messages(client, messages).waiting == client.waiting + notifications_in(messages),
    decreases messages.len(),
{
    if messages.len() > 0 {
        law_notifications_keep_their_order(client, messages.drop_last());
        assert(after_messages(client, messages).waiting =~= client.waiting + notifications_in(
            messages,
        ));
    } else {
        assert(client.waiting + notifications_in(messages) =~= client.waiting);
    }
}

/// A reply is that of its own request: no message answers two requests.
pub proof fn law_a_reply_has_one_request(a: i64, b: i64, message: ClientMessageView)
    requires
        reply_to(a, message) !is Waiting,
        reply_to(b, message) !is Waiting,
    ensures
        a == b,
{
}

/// The method by which the server tells of a notification.
pub open spec fn method_of(n: ServerNotificationView) -> Seq<char> {
    match n {
        ServerNotificationView::ThreadStarted { .. } => "thread/started"@,
        ServerNotificationView::ThreadStatusChanged { .. } => "thread/statusChanged"@,
        ServerNotificationView::TurnStarted { .. } => "turn/started"@,
        ServerNotificationView::TurnCompleted { .. } => "turn/completed"@,
        ServerNotificationView::PlanUpdated { .. } => "turn/plan/updated"@,
        ServerNotificationView::ItemStarted { .. } => "item/started"@,
        ServerNotificationView::ItemCompleted { .. } => "item/completed"@,
        ServerNotificationView::AgentMessageDelta { .. } => "item/agentMessage/delta"@,
        ServerNotificationView::CommandExecutionOutputDelta { .. } => {
            "item/commandExecution/outputDelta"@
        },
        ServerNotificationView::ArtifactCreated { .. } => "artifact/created"@,
        ServerNotificationView::ArtifactUpdated { .. } => "artifact/updated"@,
        ServerNotificationView::RuntimeStatusChanged => "runtime/statusChanged"@,
        ServerNotificationView::SkillsChanged { .. } => "skills/changed"@,
        ServerNotificationView::ApprovalRequested { .. } => "approval/requested"@,
        ServerNotificationView::Warning { .. } => "warning"@,
        ServerNotificationView::Error { .. } => "error"@,
    }
}

/// Every notification that there is comes through as it is; what has another method, or cannot be read,
/// is left out, and so is a blank line.
pub proof fn law_every_notification_comes_through(
    line: Seq<char>,
    n: ServerNotificationView,
    method: Seq<char>,
)
    ensures
        !text::blank(line) ==> message_of(
            line,
            ServerLineView::Notification { method: method_of(n), said: Some(n) },
        ) == Some(ClientMessageView::Notification(n)),
        text::blank(line) ==> message_of(
            line,
            ServerLineView::Notification { method: method_of(n), said: Some(n) },
        ) is None,
        !text::blank(line) ==> message_of(
            line,
            ServerLineView::Notification { method, said: None },
        ) == Some(ClientMessageView::Ignored),
        !text::blank(line) ==> message_of(line, ServerLineView::Broken) == Some(
            ClientMessageView::Ignored,
        ),
{
}

/// The answer to a request is its own: a result comes back as it is, and an error with its number and
/// its words; what belongs to another request is waited past. None of this loses a notification.
pub proof fn law_a_reply_comes_back_as_it_is(
    client: AppClientView,
    line: Seq<char>,
    number: i64,
    other: i64,
    result: Seq<char>,
    code: i64,
    words: Seq<char>,
)
    requires
        !text::blank(line),
    ensures
        ({
            let id = RequestIdView::Integer(number);
            let granted = message_of(line, ServerLineView::Response { id, result });
            let refused = message_of(line, ServerLineView::Error { id, code, message: words });
            &&& granted is Some && refused is Some
            &&& reply_to(number, granted->0) == ReplyView::Result(result)
            &&& reply_to(number, refused->0) matches ReplyView::Failed(told) && text::contains_text(
                told,
                words,
            ) && (code >= 0 ==> text::contains_text(told, text::decimal(code as nat)))
            &&& other != number ==> reply_to(other, granted->0) is Waiting && reply_to(
                other,
                refused->0,
            ) is Waiting
            &&& after_message(client, granted->0) == client
            &&& after_message(client, refused->0) == client
        }),
{
    let none = Seq::<char>::empty();
    let head = "app-server error "@ + signed_decimal(code) + ": "@;
    assert(refusal(code, words) =~= head + words + none);
    text::lemma_contains_inside(head, words, none);
    if code >= 0 {
        let n = text::decimal(code as nat);
        assert(refusal(code, words) =~= "app-server error "@ + n + (": "@ + words));
        text::lemma_contains_inside("app-server error "@, n, ": "@ + words);
    }
}

/// A notification that comes meanwhile answers no request, and waits behind those that wait.
pub proof fn law_a_notification_waits_its_turn(
    client: AppClientView,
    number: i64,
    n: ServerNotificationView,
)
    ensures
        reply_to(number, ClientMessageView::Notification(n)) is Waiting,
        after_message(client, ClientMessageView::Notification(n)).waiting == client.waiting.push(n),
        after_message(client, ClientMessageView::Notification(n)).last_request
            == client.last_request,
        after_message(client, ClientMessageView::Ignored) == client,
{
}

/// What is told of a server that is gone holds its last words, and how it ended.
pub proof fn law_a_gone_server_leaves_its_last_words(log: Seq<char>, status: Seq<char>)
    ensures
        text::contains_text(closed_error(log, ExitView::Running), text::trim_of(log)),
        text::contains_text(closed_error(log, ExitView::Ended { status }), status),
        text::contains_text(closed_error(log, ExitView::Unknown { error: status }), status),
        text::begins(closed_error(log, ExitView::Running), "app-server closed unexpectedly"@),
{
    let none = Seq::<char>::empty();
    let head = "app-server closed unexpectedly"@;
    let words = text::trim_of(log);
    let tail = if words.len() == 0 {
        none
    } else {
        ": "@ + words
    };
    if words.len() == 0 {
        assert(closed_error(log, ExitView::Running) =~= head + words + none);
        text::lemma_contains_inside(head, words, none);
    } else {
        assert(closed_error(log, ExitView::Running) =~= (head + ": "@) + words + none);
        text::lemma_contains_inside(head + ": "@, words, none);
    }
    assert(closed_error(log, ExitView::Running).take(head.len() as int) =~= head);
    let ended = closed_error(log, ExitView::Ended { status });
    assert(ended =~= (head + " (status "@) + status + (")"@ + tail));
    text::lemma_contains_inside(head + " (status "@, status, ")"@ + tail);
    let unknown = closed_error(log, ExitView::Unknown { error: status });
    let mid = " (failed to inspect exit status: "@;
    assert(unknown =~= (head + mid) + status + (")"@ + tail));
    text::lemma_contains_inside(head + mid, status, ")"@ + tail);
}

/// What the server complains of is kept, line behind line; blank lines are left out.
pub proof fn law_complaints_are_kept(log: Seq<char>, line: Seq<char>)
    ensures
        text::begins(logged(log, line), log),
        text::blank(line) ==> logged(log, line) == log,
        text::contains_text(logged(log, line), text::trim_of(line)),
{
    text::lemma_trim_blank_iff(line);
    let none = Seq::<char>::empty();
    let words = text::trim_of(line);
    assert(logged(log, line).take(log.len() as int) =~= log);
    if words.len() == 0 {
        assert(log =~= log + words + none);
        text::lemma_contains_inside(log, words, none);
    } else if log.len() == 0 {
        assert(words =~= none + words + none);
        text::lemma_contains_inside(none, words, none);
    } else {
        assert(logged(log, line) =~= (log + "\n"@) + words + none);
        text::lemma_contains_inside(log + "\n"@, words, none);
    }
}

/// A notification of a sort that there is not is left out, whatever it says.
pub proof fn law_what_is_not_known_is_left_out(
    line: Seq<char>,
    n: ServerNotificationView,
    method: Seq<char>,
)
    requires
        !text::blank(line),
        method != "thread/started"@ && method != "thread/statusChanged"@,
        method != "turn/started"@ && method != "turn/completed"@ && method != "turn/plan/updated"@,
        method != "item/started"@ && method != "item/completed"@,
        method != "item/agentMessage/delta"@ && method != "item/commandExecution/outputDelta"@,
        method != "runtime/statusChanged"@ && method != "skills/changed"@,
        method != "artifact/created"@ && method != "artifact/updated"@,
        method != "approval/requested"@ && method != "warning"@ && method != "error"@,
    ensures
        message_of(line, ServerLineView::Notification { method, said: Some(n) }) == Some(
            ClientMessageView::Ignored,
        ),
{
}

/// The number of an error is told with its sign.
pub proof fn law_a_number_is_told_with_its_sign(n: i64)
    ensures
        n >= 0 ==> signed_decimal(n) == text::decimal(n as nat),
        n < 0 ==> signed_decimal(n)[0] == '-' && signed_decimal(n).skip(1) == text::decimal(
            (-n) as nat,
        ),
{
    reveal_strlit("-");
    if n < 0 {
        assert(signed_decimal(n).skip(1) =~= text::decimal((-n) as nat));
    }
}

} // verus!
