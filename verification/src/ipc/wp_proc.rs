//! The JSON protocol of the process that shows web wallpapers.
use vstd::prelude::*;
use vstd::string::*;
use vstd::utf8::*;
use crate::error::{ErrorKind, MirrorStarError};
use crate::ipc::client;
use crate::ipc::client::NamedPipeClient;
use crate::json;
use crate::text;
use crate::time::Delay;

verus! {

/// How long the answer to a play command is awaited, in milliseconds: the browser
/// component may have to be started first.
pub const PLAY_COMMAND_TIMEOUT_MS: u64 = 15000;

/// A command to the web wallpaper process.
#[derive(Clone, Debug)]
pub enum WpProcCommand {
    /// Show a source.
    Play {
        /// The number of the command.
        request_id: u64,
        /// What to show.
        source: String,
    },
    /// End the process.
    Terminate {
        /// The number of the command.
        request_id: u64,
    },
    /// Place the window.
    SetPosition {
        /// The number of the command.
        request_id: u64,
        /// The left edge.
        x: i32,
        /// The top edge.
        y: i32,
        /// The width.
        width: i32,
        /// The height.
        height: i32,
    },
    /// Go to a URL.
    Navigate {
        /// The number of the command.
        request_id: u64,
        /// Where to go.
        url: String,
    },
    /// Pause.
    Pause {
        /// The number of the command.
        request_id: u64,
    },
    /// Go on.
    Resume {
        /// The number of the command.
        request_id: u64,
    },
}

/// The number of a command.
pub open spec fn id_of(command: WpProcCommand) -> u64 {
    match command {
        WpProcCommand::Play { request_id, .. } => request_id,
        WpProcCommand::Terminate { request_id } => request_id,
        WpProcCommand::SetPosition { request_id, .. } => request_id,
        WpProcCommand::Navigate { request_id, .. } => request_id,
        WpProcCommand::Pause { request_id } => request_id,
        WpProcCommand::Resume { request_id } => request_id,
    }
}

/// What the JSON text of a command of this name and number begins with.
pub open spec fn json_head(name: Seq<char>, request_id: u64) -> Seq<char> {
    "{\"command\":\""@ + name + "\",\"request_id\":"@ + text::decimal(request_id as nat)
}

/// The JSON text of a command: an object with the command's name in snake case, its
/// number, then its other fields in order.
pub open spec fn command_json(command: WpProcCommand) -> Seq<char> {
    match command {
        WpProcCommand::Play { request_id, source } => json_head("play"@, request_id)
            + ",\"source\":"@ + json::quoted(source@) + "}"@,
        WpProcCommand::Terminate { request_id } => json_head("terminate"@, request_id) + "}"@,
        WpProcCommand::SetPosition { request_id, x, y, width, height } => json_head(
            "set_position"@,
            request_id,
        ) + ",\"x\":"@ + text::signed_decimal(x as int) + ",\"y\":"@ + text::signed_decimal(
            y as int,
        ) + ",\"width\":"@ + text::signed_decimal(width as int) + ",\"height\":"@
            + text::signed_decimal(height as int) + "}"@,
        WpProcCommand::Navigate { request_id, url } => json_head("navigate"@, request_id)
            + ",\"url\":"@ + json::quoted(url@) + "}"@,
        WpProcCommand::Pause { request_id } => json_head("pause"@, request_id) + "}"@,
        WpProcCommand::Resume { request_id } => json_head("resume"@, request_id) + "}"@,
    }
}

/// What the JSON text of a command begins with.
fn head_text(name: &str, request_id: u64) -> (r: String)
    ensures
        r@ == json_head(name@, request_id),
{
    let mut s = String::from_str("{\"command\":\"");
    s.append(name);
    s.append("\",\"request_id\":");
    s.append(text::decimal_text(request_id as u128).as_str());
    s
}

impl WpProcCommand {
    /// The number of the command.
    pub fn request_id(&self) -> (r: u64)
        ensures
            r == id_of(*self),
    {
        match self {
            WpProcCommand::Play { request_id, .. } => *request_id,
            WpProcCommand::Terminate { request_id } => *request_id,
            WpProcCommand::SetPosition { request_id, .. } => *request_id,
            WpProcCommand::Navigate { request_id, .. } => *request_id,
            WpProcCommand::Pause { request_id } => *request_id,
            WpProcCommand::Resume { request_id } => *request_id,
        }
    }

    /// The JSON text of the command.
    pub fn to_json(&self) -> (r: String)
        ensures
            r@ == command_json(*self),
    {
        match self {
            WpProcCommand::Play { request_id, source } => {
                let mut s = head_text("play", *request_id);
                s.append(",\"source\":");
                s.append(json::quote(source.as_str()).as_str());
                s.append("}");
                s
            },
            WpProcCommand::Terminate { request_id } => {
                let mut s = head_text("terminate", *request_id);
                s.append("}");
                s
            },
            WpProcCommand::SetPosition { request_id, x, y, width, height } => {
                let mut s = head_text("set_position", *request_id);
                s.append(",\"x\":");
                s.append(text::signed_decimal_text(*x as i64).as_str());
                s.append(",\"y\":");
                s.append(text::signed_decimal_text(*y as i64).as_str());
                s.append(",\"width\":");
                s.append(text::signed_decimal_text(*width as i64).as_str());
                s.append(",\"height\":");
                s.append(text::signed_decimal_text(*height as i64).as_str());
                s.append("}");
                s
            },
            WpProcCommand::Navigate { request_id, url } => {
                let mut s = head_text("navigate", *request_id);
                s.append(",\"url\":");
                s.append(json::quote(url.as_str()).as_str());
                s.append("}");
                s
            },
            WpProcCommand::Pause { request_id } => {
                let mut s = head_text("pause", *request_id);
                s.append("}");
                s
            },
            WpProcCommand::Resume { request_id } => {
                let mut s = head_text("resume", *request_id);
                s.append("}");
                s
            },
        }
    }
}

/// Whether a command succeeded.
#[derive(Clone, Copy, Debug, PartialEq, Eq, Structural)]
pub enum ResponseStatus {
    /// It did.
    Okay,
    /// It did not.
    Error,
}

/// The answer of the web wallpaper process to a command.
#[derive(Clone, Debug)]
pub struct WpProcResponse {
    /// The number of the command that is answered.
    pub request_id: u64,
    /// Whether the command succeeded.
    pub status: ResponseStatus,
    /// What went wrong.
    pub error: Option<String>,
}

/// A client that controls a web wallpaper process. Its commands come back as the bytes
/// to be written to the pipe.
pub struct WpProcIpcClient {
    inner: NamedPipeClient<WpProcCommand>,
}

/// A command that awaits its answer.
#[derive(Debug)]
pub struct PendingReply {
    /// The number of the command.
    pub request_id: u64,
    /// How long the answer is awaited.
    pub timeout: Delay,
}

/// The wait for the answer to a command, over any number of lines, until a deadline.
pub struct WpProcReplyWait {
    request_id: u64,
    deadline: u128,
}

impl PendingReply {
    /// Starts the wait at `now`, once the command was written.
    pub fn start(&self, now: u128) -> (r: WpProcReplyWait)
        requires
            now + self.timeout.nanos <= u128::MAX,
        ensures
            r.request_id() == self.request_id,
            r.deadline() == now + self.timeout.nanos,
    {
        WpProcReplyWait { request_id: self.request_id, deadline: now + self.timeout.nanos }
    }
}

impl WpProcReplyWait {
    /// The number of the command.
    pub closed spec fn request_id(self) -> u64 {
        self.request_id
    }

    /// When the wait is given up.
    pub closed spec fn deadline(self) -> int {
        self.deadline as int
    }

    /// The time that is left for the next line; a line that is awaited for no time at
    /// all is given up at once.
    pub fn remaining(&self, now: u128) -> (r: Delay)
        ensures
            r.nanos == if now < self.deadline() {
                self.deadline() - now
            } else {
                0
            },
    {
        Delay { nanos: crate::time::elapsed(self.deadline, now) }
    }

    /// Takes a line, read as an answer if it is one. Lines that are no answer and
    /// answers to other commands are skipped; the answer to this command is returned
    /// if it reports success, and turned into an error otherwise.
    pub fn on_response(&self, response: Option<WpProcResponse>) -> (r: Option<
        Result<WpProcResponse, MirrorStarError>,
    >)
        ensures
            match response {
                Some(a) => if a.request_id != self.request_id() {
                    r is None
                } else if a.status == ResponseStatus::Okay {
                    r matches Some(Ok(b)) && b == a
                } else {
                    r matches Some(Err(e)) && e@ == (
                        ErrorKind::IpcError,
                        "wp-proc 命令失败: "@ + match a.error {
                            Some(t) => t@,
                            None => "Error"@,
                        },
                    )
                },
                None => r is None,
            },
    {
        match response {
            None => None,
            Some(a) => {
                if a.request_id != self.request_id {
                    None
                } else if a.status == ResponseStatus::Okay {
                    Some(Ok(a))
                } else {
                    let detail = match a.error {
                        Some(t) => t,
                        None => String::from_str("Error"),
                    };
                    Some(
                        Err(
                            MirrorStarError::IpcError(
                                text::join2("wp-proc 命令失败: ", detail.as_str()),
                            ),
                        ),
                    )
                }
            },
        }
    }
}

/// The bytes of a command, sent over an open pipe, or the error for a missing
/// connection.
pub open spec fn is_command(
    r: Result<Vec<u8>, MirrorStarError>,
    connected: bool,
    command: WpProcCommand,
) -> bool {
    client::is_line(r, connected, command_json(command))
}

/// The bytes of the command that has this JSON text, and the wait for its answer.
pub open spec fn is_awaited(
    r: Result<(Vec<u8>, PendingReply), MirrorStarError>,
    connected: bool,
    json: Seq<char>,
    request_id: u64,
    timeout_nanos: int,
) -> bool {
    match r {
        Ok((bytes, pending)) => {
            &&& client::is_line(Ok(bytes), connected, json)
            &&& pending.request_id == request_id
            &&& pending.timeout.nanos == timeout_nanos
        },
        Err(e) => client::is_line(Err(e), connected, json),
    }
}

impl WpProcIpcClient {
    /// The full path of the pipe.
    pub closed spec fn path(self) -> Seq<char> {
        self.inner.path()
    }

    /// Whether the pipe is open.
    pub closed spec fn connected(self) -> bool {
        self.inner.connected()
    }

    /// The number that the next command gets.
    pub closed spec fn next_id(self) -> u64 {
        self.inner.next_id()
    }

    /// `after` is this client with one more number used up.
    pub open spec fn used_one(self, after: Self) -> bool {
        &&& after.path() == self.path()
        &&& after.connected() == self.connected()
        &&& after.next_id() == client::id_after(self.next_id())
    }

    /// A client of the pipe named `pipe_name`, not connected yet.
    pub fn new(pipe_name: &str) -> (r: Self)
        ensures
            r.path() == "\\\\.\\pipe\\"@ + pipe_name@,
            !r.connected(),
            r.next_id() == 1,
    {
        WpProcIpcClient { inner: NamedPipeClient::new(pipe_name) }
    }

    /// The attempts to open the pipe.
    pub fn connect(&self, retry_count: u32, retry_interval_ms: u64) -> (r: client::ConnectRetry)
        ensures
            r.path() == self.path(),
            r.attempts() == 0,
            r.retry_count() == retry_count,
            r.retry_interval_ms() == retry_interval_ms,
    {
        self.inner.connect(retry_count, retry_interval_ms)
    }

    /// Records that the pipe was opened.
    pub fn opened(&mut self)
        ensures
            final(self).connected(),
            final(self).path() == old(self).path(),
            final(self).next_id() == old(self).next_id(),
    {
        self.inner.opened();
    }

    /// Forgets the connection, if there is one.
    pub fn disconnect(&mut self)
        ensures
            !final(self).connected(),
            final(self).path() == old(self).path(),
            final(self).next_id() == old(self).next_id(),
    {
        self.inner.disconnect();
    }

    /// The full path of the pipe.
    pub fn pipe_path(&self) -> (r: &str)
        ensures
            r@ == self.path(),
    {
        self.inner.pipe_path()
    }

    /// The wait for the next line, for `timeout` at most.
    pub fn read_response_line_with_timeout(&self, now: u128, timeout: Delay) -> (r: Result<
        client::ResponseWait,
        MirrorStarError,
    >)
        requires
            now + timeout.nanos <= u128::MAX,
        ensures
            if self.connected() {
                r matches Ok(w) && w.deadline() == now + timeout.nanos
            } else {
                r matches Err(e) && e@ == (ErrorKind::IpcNotConnected, "IPC 未连接"@)
            },
    {
        self.inner.read_response_line_with_timeout(now, timeout)
    }

    /// The bytes of a command whose answer is awaited, and what to wait for.
    pub fn send_command(&self, command: &WpProcCommand) -> (r: Result<
        (Vec<u8>, PendingReply),
        MirrorStarError,
    >)
        ensures
            is_awaited(
                r,
                self.connected(),
                command_json(*command),
                id_of(*command),
                PLAY_COMMAND_TIMEOUT_MS * 1_000_000,
            ),
            r matches Ok((_, pending)) ==> pending.timeout.nanos == 15_000_000_000,
    {
        self.send_command_with_timeout(command, Delay::from_millis(PLAY_COMMAND_TIMEOUT_MS))
    }

    /// The bytes of a command whose answer is awaited for `timeout` in all, and what to
    /// wait for.
    pub fn send_command_with_timeout(&self, command: &WpProcCommand, timeout: Delay) -> (r: Result<
        (Vec<u8>, PendingReply),
        MirrorStarError,
    >)
        ensures
            is_awaited(
                r,
                self.connected(),
                command_json(*command),
                id_of(*command),
                timeout.nanos as int,
            ),
    {
        let request_id = command.request_id();
        match self.inner.send_line(command.to_json().as_str()) {
            Ok(bytes) => Ok((bytes, PendingReply { request_id, timeout })),
            Err(e) => Err(e),
        }
    }

    /// The bytes of a command whose answer is not awaited.
    pub fn send_command_no_wait(&self, command: &WpProcCommand) -> (r: Result<
        Vec<u8>,
        MirrorStarError,
    >)
        ensures
            is_command(r, self.connected(), *command),
    {
        self.inner.send_line(command.to_json().as_str())
    }

    /// The bytes that make the process show `source`, and the wait for its answer, which
    /// tells whether the browser component could be started.
    pub fn play(&mut self, source: &str) -> (r: Result<(Vec<u8>, PendingReply), MirrorStarError>)
        ensures
            old(self).used_one(*final(self)),
            is_awaited(
                r,
                old(self).connected(),
                json_head("play"@, old(self).next_id()) + ",\"source\":"@ + json::quoted(source@)
                    + "}"@,
                old(self).next_id(),
                PLAY_COMMAND_TIMEOUT_MS * 1_000_000,
            ),
            r matches Ok((_, pending)) ==> pending.timeout.nanos == 15_000_000_000,
    {
        let request_id = self.inner.next_request_id();
        self.send_command(&WpProcCommand::Play { request_id, source: String::from_str(source) })
    }

    /// The bytes that end the process.
    pub fn terminate(&mut self) -> (r: Result<Vec<u8>, MirrorStarError>)
        ensures
            old(self).used_one(*final(self)),
            is_command(
                r,
                old(self).connected(),
                (WpProcCommand::Terminate { request_id: old(self).next_id() }),
            ),
    {
        let request_id = self.inner.next_request_id();
        self.send_command_no_wait(&WpProcCommand::Terminate { request_id })
    }

    /// The bytes that place the window.
    pub fn set_position(&mut self, x: i32, y: i32, width: i32, height: i32) -> (r: Result<
        Vec<u8>,
        MirrorStarError,
    >)
        ensures
            old(self).used_one(*final(self)),
            is_command(
                r,
                old(self).connected(),
                (WpProcCommand::SetPosition {
                    request_id: old(self).next_id(),
                    x,
                    y,
                    width,
                    height,
                }),
            ),
    {
        let request_id = self.inner.next_request_id();
        self.send_command_no_wait(&WpProcCommand::SetPosition { request_id, x, y, width, height })
    }

    /// The bytes that make the process go to `url`.
    pub fn navigate(&mut self, url: &str) -> (r: Result<Vec<u8>, MirrorStarError>)
        ensures
            old(self).used_one(*final(self)),
            client::is_line(
                r,
                old(self).connected(),
                json_head("navigate"@, old(self).next_id()) + ",\"url\":"@ + json::quoted(url@)
                    + "}"@,
            ),
    {
        let request_id = self.inner.next_request_id();
        self.send_command_no_wait(&WpProcCommand::Navigate { request_id, url: String::from_str(url) })
    }

    /// The bytes that pause the wallpaper.
    pub fn pause(&mut self) -> (r: Result<Vec<u8>, MirrorStarError>)
        ensures
            old(self).used_one(*final(self)),
            is_command(
                r,
                old(self).connected(),
                (WpProcCommand::Pause { request_id: old(self).next_id() }),
            ),
    {
        let request_id = self.inner.next_request_id();
        self.send_command_no_wait(&WpProcCommand::Pause { request_id })
    }

    /// The bytes that let the wallpaper go on.
    pub fn resume(&mut self) -> (r: Result<Vec<u8>, MirrorStarError>)
        ensures
            old(self).used_one(*final(self)),
            is_command(
                r,
                old(self).connected(),
                (WpProcCommand::Resume { request_id: old(self).next_id() }),
            ),
    {
        let request_id = self.inner.next_request_id();
        self.send_command_no_wait(&WpProcCommand::Resume { request_id })
    }
}

/// The text holds no control character.
pub open spec fn printable(s: Seq<char>) -> bool {
    forall|i: int| 0 <= i < s.len() ==> (#[trigger] s[i]) as u32 >= 32
}

proof fn lemma_printable_concat(a: Seq<char>, b: Seq<char>)
    requires
        printable(a),
        printable(b),
    ensures
        printable(a + b),
{
    assert forall|i: int| 0 <= i < (a + b).len() implies (#[trigger] (a + b)[i]) as u32 >= 32 by {
        if i < a.len() {
            assert((a + b)[i] == a[i]);
        } else {
            assert((a + b)[i] == b[i - a.len()]);
        }
    }
}

proof fn lemma_printable_number(n: int)
    ensures
        printable(text::signed_decimal(n)),
        n >= 0 ==> printable(text::decimal(n as nat)),
{
    if n < 0 {
        text::law_decimal_digits((-n) as nat);
        lemma_printable_concat(seq!['-'], text::decimal((-n) as nat));
    } else {
        text::law_decimal_digits(n as nat);
    }
}

proof fn lemma_printable_head(name: Seq<char>, request_id: u64)
    requires
        printable(name),
    ensures
        printable(json_head(name, request_id)),
{
    reveal_strlit("{\"command\":\"");
    reveal_strlit("\",\"request_id\":");
    lemma_printable_number(request_id as int);
    lemma_printable_concat("{\"command\":\""@, name);
    lemma_printable_concat("{\"command\":\""@ + name, "\",\"request_id\":"@);
    lemma_printable_concat(
        "{\"command\":\""@ + name + "\",\"request_id\":"@,
        text::decimal(request_id as nat),
    );
}

/// Every command is a single line, whatever its texts hold.
pub proof fn law_command_single_line(command: WpProcCommand)
    ensures
        printable(command_json(command)),
        !command_json(command).contains('\n'),
{
    reveal_strlit("}");
    match command {
        WpProcCommand::Play { request_id, source } => {
            reveal_strlit("play");
            reveal_strlit(",\"source\":");
            lemma_printable_head("play"@, request_id);
            json::law_quoted_single_line(source@);
            let a = json_head("play"@, request_id);
            lemma_printable_concat(a, ",\"source\":"@);
            lemma_printable_concat(a + ",\"source\":"@, json::quoted(source@));
            lemma_printable_concat(a + ",\"source\":"@ + json::quoted(source@), "}"@);
        },
        WpProcCommand::Terminate { request_id } => {
            reveal_strlit("terminate");
            lemma_printable_head("terminate"@, request_id);
            lemma_printable_concat(json_head("terminate"@, request_id), "}"@);
        },
        WpProcCommand::SetPosition { request_id, x, y, width, height } => {
            reveal_strlit("set_position");
            reveal_strlit(",\"x\":");
            reveal_strlit(",\"y\":");
            reveal_strlit(",\"width\":");
            reveal_strlit(",\"height\":");
            lemma_printable_head("set_position"@, request_id);
            lemma_printable_number(x as int);
            lemma_printable_number(y as int);
            lemma_printable_number(width as int);
            lemma_printable_number(height as int);
            let a = json_head("set_position"@, request_id);
            let b = a + ",\"x\":"@ + text::signed_decimal(x as int);
            lemma_printable_concat(a, ",\"x\":"@);
            lemma_printable_concat(a + ",\"x\":"@, text::signed_decimal(x as int));
            let c = b + ",\"y\":"@ + text::signed_decimal(y as int);
            lemma_printable_concat(b, ",\"y\":"@);
            lemma_printable_concat(b + ",\"y\":"@, text::signed_decimal(y as int));
            let d = c + ",\"width\":"@ + text::signed_decimal(width as int);
            lemma_printable_concat(c, ",\"width\":"@);
            lemma_printable_concat(c + ",\"width\":"@, text::signed_decimal(width as int));
            let e = d + ",\"height\":"@ + text::signed_decimal(height as int);
            lemma_printable_concat(d, ",\"height\":"@);
            lemma_printable_concat(d + ",\"height\":"@, text::signed_decimal(height as int));
            lemma_printable_concat(e, "}"@);
        },
        WpProcCommand::Navigate { request_id, url } => {
            reveal_strlit("navigate");
            reveal_strlit(",\"url\":");
            lemma_printable_head("navigate"@, request_id);
            json::law_quoted_single_line(url@);
            let a = json_head("navigate"@, request_id);
            lemma_printable_concat(a, ",\"url\":"@);
            lemma_printable_concat(a + ",\"url\":"@, json::quoted(url@));
            lemma_printable_concat(a + ",\"url\":"@ + json::quoted(url@), "}"@);
        },
        WpProcCommand::Pause { request_id } => {
            reveal_strlit("pause");
            lemma_printable_head("pause"@, request_id);
            lemma_printable_concat(json_head("pause"@, request_id), "}"@);
        },
        WpProcCommand::Resume { request_id } => {
            reveal_strlit("resume");
            lemma_printable_head("resume"@, request_id);
            lemma_printable_concat(json_head("resume"@, request_id), "}"@);
        },
    }
}

/// Two commands ask for the same thing under the same number.
pub open spec fn same_command(a: WpProcCommand, b: WpProcCommand) -> bool {
    match (a, b) {
        (
            WpProcCommand::Play { request_id: i, source: s },
            WpProcCommand::Play { request_id: j, source: t },
        ) => i == j && s@ == t@,
        (
            WpProcCommand::Terminate { request_id: i },
            WpProcCommand::Terminate { request_id: j },
        ) => i == j,
        (
            WpProcCommand::SetPosition { request_id: i, x: xa, y: ya, width: wa, height: ha },
            WpProcCommand::SetPosition { request_id: j, x: xb, y: yb, width: wb, height: hb },
        ) => i == j && xa == xb && ya == yb && wa == wb && ha == hb,
        (
            WpProcCommand::Navigate { request_id: i, url: s },
            WpProcCommand::Navigate { request_id: j, url: t },
        ) => i == j && s@ == t@,
        (WpProcCommand::Pause { request_id: i }, WpProcCommand::Pause { request_id: j }) => i == j,
        (WpProcCommand::Resume { request_id: i }, WpProcCommand::Resume { request_id: j }) => i
            == j,
        _ => false,
    }
}

/// The name of a command in its JSON text.
pub open spec fn name_of(command: WpProcCommand) -> Seq<char> {
    match command {
        WpProcCommand::Play { .. } => "play"@,
        WpProcCommand::Terminate { .. } => "terminate"@,
        WpProcCommand::SetPosition { .. } => "set_position"@,
        WpProcCommand::Navigate { .. } => "navigate"@,
        WpProcCommand::Pause { .. } => "pause"@,
        WpProcCommand::Resume { .. } => "resume"@,
    }
}

/// What follows the number in the JSON text of a command.
spec fn tail_of(command: WpProcCommand) -> Seq<char> {
    match command {
        WpProcCommand::Play { source, .. } => ",\"source\":"@ + (json::quoted(source@) + "}"@),
        WpProcCommand::SetPosition { x, y, width, height, .. } => ",\"x\":"@ + (
        text::signed_decimal(x as int) + (",\"y\":"@ + (text::signed_decimal(y as int) + (
        ",\"width\":"@ + (text::signed_decimal(width as int) + (",\"height\":"@ + (
        text::signed_decimal(height as int) + "}"@))))))),
        WpProcCommand::Navigate { url, .. } => ",\"url\":"@ + (json::quoted(url@) + "}"@),
        _ => "}"@,
    }
}

proof fn lemma_command_parts(command: WpProcCommand)
    ensures
        command_json(command) == "{\"command\":\""@ + (name_of(command) + (
        "\",\"request_id\":"@ + (text::decimal(id_of(command) as nat) + tail_of(command)))),
        tail_of(command).len() > 0,
        !('0' <= tail_of(command)[0] <= '9'),
{
    reveal_strlit("}");
    reveal_strlit(",\"source\":");
    reveal_strlit(",\"url\":");
    reveal_strlit(",\"x\":");
    let h0 = "{\"command\":\""@;
    let h1 = name_of(command);
    let h2 = "\",\"request_id\":"@;
    let h3 = text::decimal(id_of(command) as nat);
    let head = h0 + h1 + h2 + h3;
    let tail = tail_of(command);
    let close = "}"@;
    lemma_regroup(h0 + h1 + h2, h3, tail);
    lemma_regroup(h0 + h1, h2, h3 + tail);
    lemma_regroup(h0, h1, h2 + (h3 + tail));
    match command {
        WpProcCommand::Play { source, .. } => {
            let label = ",\"source\":"@;
            lemma_regroup(head + label, json::quoted(source@), close);
            lemma_regroup(head, label, json::quoted(source@) + close);
        },
        WpProcCommand::Navigate { url, .. } => {
            let label = ",\"url\":"@;
            lemma_regroup(head + label, json::quoted(url@), close);
            lemma_regroup(head, label, json::quoted(url@) + close);
        },
        WpProcCommand::SetPosition { x, y, width, height, .. } => {
            let p4 = ",\"x\":"@;
            let p5 = text::signed_decimal(x as int);
            let p6 = ",\"y\":"@;
            let p7 = text::signed_decimal(y as int);
            let p8 = ",\"width\":"@;
            let p9 = text::signed_decimal(width as int);
            let p10 = ",\"height\":"@;
            let p11 = text::signed_decimal(height as int);
            let a = head + p4 + p5;
            let b = a + p6 + p7;
            let c = b + p8 + p9;
            lemma_regroup(c + p10, p11, close);
            lemma_regroup(c, p10, p11 + close);
            let t10 = p10 + (p11 + close);
            lemma_regroup(b + p8, p9, t10);
            lemma_regroup(b, p8, p9 + t10);
            let t8 = p8 + (p9 + t10);
            lemma_regroup(a + p6, p7, t8);
            lemma_regroup(a, p6, p7 + t8);
            let t6 = p6 + (p7 + t8);
            lemma_regroup(head + p4, p5, t6);
            lemma_regroup(head, p4, p5 + t6);
        },
        _ => {},
    }
}

proof fn lemma_regroup(a: Seq<char>, b: Seq<char>, c: Seq<char>)
    ensures
        (a + b) + c == a + (b + c),
{
    assert((a + b) + c =~= a + (b + c));
}

proof fn lemma_names_differ(a: WpProcCommand, b: WpProcCommand, x: Seq<char>, y: Seq<char>)
    requires
        "{\"command\":\""@ + (name_of(a) + x) == "{\"command\":\""@ + (name_of(b) + y),
    ensures
        name_of(a) == name_of(b),
        x == y,
        (a is Play && b is Play) || (a is Terminate && b is Terminate) || (a is SetPosition && b
            is SetPosition) || (a is Navigate && b is Navigate) || (a is Pause && b is Pause) || (a
            is Resume && b is Resume),
{
    reveal_strlit("{\"command\":\"");
    reveal_strlit("play");
    reveal_strlit("terminate");
    reveal_strlit("set_position");
    reveal_strlit("navigate");
    reveal_strlit("pause");
    reveal_strlit("resume");
    let h = "{\"command\":\""@;
    let s = h + (name_of(a) + x);
    let t = h + (name_of(b) + y);
    assert(s.skip(12) =~= name_of(a) + x);
    assert(t.skip(12) =~= name_of(b) + y);
    assert(s.skip(12)[0] == name_of(a)[0]);
    assert(t.skip(12)[0] == name_of(b)[0]);
    assert(s.skip(12)[1] == name_of(a)[1]);
    assert(t.skip(12)[1] == name_of(b)[1]);
    assert(name_of(a).len() == name_of(b).len());
    assert(x =~= s.skip(12).skip(name_of(a).len() as int));
    assert(y =~= t.skip(12).skip(name_of(b).len() as int));
}

proof fn lemma_field_ends(label: Seq<char>, m: int, n: int, x: Seq<char>, y: Seq<char>)
    requires
        label + (text::signed_decimal(m) + x) == label + (text::signed_decimal(n) + y),
        x.len() > 0 && !('0' <= x[0] <= '9'),
        y.len() > 0 && !('0' <= y[0] <= '9'),
    ensures
        m == n,
        x == y,
{
    let s = label + (text::signed_decimal(m) + x);
    let t = label + (text::signed_decimal(n) + y);
    assert(s.skip(label.len() as int) =~= text::signed_decimal(m) + x);
    assert(t.skip(label.len() as int) =~= text::signed_decimal(n) + y);
    text::law_signed_decimal_ends(m, n, x, y);
}

proof fn lemma_text_field_ends(label: Seq<char>, a: Seq<char>, b: Seq<char>)
    requires
        label + (json::quoted(a) + "}"@) == label + (json::quoted(b) + "}"@),
    ensures
        a == b,
{
    let s = label + (json::quoted(a) + "}"@);
    let t = label + (json::quoted(b) + "}"@);
    assert(s.skip(label.len() as int) =~= json::quoted(a) + "}"@);
    assert(t.skip(label.len() as int) =~= json::quoted(b) + "}"@);
    json::law_quoted_ends(a, b, "}"@, "}"@);
}

/// A command can be read back from its JSON text: two commands have the same text only if
/// they ask for the same thing, with the same number and the same values, whole and in
/// their places.
pub proof fn law_command_read_back(a: WpProcCommand, b: WpProcCommand)
    requires
        command_json(a) == command_json(b),
    ensures
        same_command(a, b),
{
    lemma_command_parts(a);
    lemma_command_parts(b);
    let label = "\",\"request_id\":"@;
    let x = text::decimal(id_of(a) as nat) + tail_of(a);
    let y = text::decimal(id_of(b) as nat) + tail_of(b);
    lemma_names_differ(a, b, label + x, label + y);
    assert((label + x).skip(label.len() as int) =~= x);
    assert((label + y).skip(label.len() as int) =~= y);
    text::law_decimal_ends(id_of(a) as nat, id_of(b) as nat, tail_of(a), tail_of(b));
    match (a, b) {
        (WpProcCommand::Play { source: s, .. }, WpProcCommand::Play { source: t, .. }) => {
            lemma_text_field_ends(",\"source\":"@, s@, t@);
        },
        (WpProcCommand::Navigate { url: s, .. }, WpProcCommand::Navigate { url: t, .. }) => {
            lemma_text_field_ends(",\"url\":"@, s@, t@);
        },
        (
            WpProcCommand::SetPosition { x: xa, y: ya, width: wa, height: ha, .. },
            WpProcCommand::SetPosition { x: xb, y: yb, width: wb, height: hb, .. },
        ) => {
            reveal_strlit("}");
            reveal_strlit(",\"y\":");
            reveal_strlit(",\"width\":");
            reveal_strlit(",\"height\":");
            let h_a = ",\"height\":"@ + (text::signed_decimal(ha as int) + "}"@);
            let h_b = ",\"height\":"@ + (text::signed_decimal(hb as int) + "}"@);
            let w_a = ",\"width\":"@ + (text::signed_decimal(wa as int) + h_a);
            let w_b = ",\"width\":"@ + (text::signed_decimal(wb as int) + h_b);
            let y_a = ",\"y\":"@ + (text::signed_decimal(ya as int) + w_a);
            let y_b = ",\"y\":"@ + (text::signed_decimal(yb as int) + w_b);
            lemma_field_ends(",\"x\":"@, xa as int, xb as int, y_a, y_b);
            lemma_field_ends(",\"y\":"@, ya as int, yb as int, w_a, w_b);
            lemma_field_ends(",\"width\":"@, wa as int, wb as int, h_a, h_b);
            lemma_field_ends(",\"height\":"@, ha as int, hb as int, "}"@, "}"@);
        },
        _ => {},
    }
}

/// A command whose answer is awaited is sent as one line, and what is awaited is the answer
/// with its number, for as long as was asked for. Without a connection nothing is awaited.
pub proof fn law_answer_awaited(
    r: Result<(Vec<u8>, PendingReply), MirrorStarError>,
    connected: bool,
    json: Seq<char>,
    request_id: u64,
    timeout_nanos: int,
)
    requires
        is_awaited(r, connected, json, request_id, timeout_nanos),
    ensures
        r is Ok <==> connected,
        r matches Ok((bytes, pending)) ==> {
            &&& bytes@.len() > 0 && bytes@.last() == 10
            &&& decode_utf8(bytes@.drop_last()) == json
            &&& pending.request_id == request_id
            &&& pending.timeout.nanos == timeout_nanos
        },
{
    match r {
        Ok((bytes, pending)) => {
            client::law_sent_line(Ok(bytes), connected, json);
        },
        Err(e) => {
            client::law_sent_line(Err(e), connected, json);
        },
    }
}

/// Each command takes the next number; the connection is the same afterwards.
pub proof fn law_number_used(before: WpProcIpcClient, after: WpProcIpcClient)
    requires
        before.used_one(after),
    ensures
        after.path() == before.path() && after.connected() == before.connected(),
        before.next_id() < u64::MAX ==> after.next_id() == before.next_id() + 1,
        before.next_id() == u64::MAX ==> after.next_id() == 0,
{
}

} // verus!
