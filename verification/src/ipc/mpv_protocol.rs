//! The JSON protocol of the mpv player, which shows video wallpapers.
use vstd::arithmetic::power2::*;
use vstd::prelude::*;
use vstd::string::*;
use crate::binary32;
use crate::binary32::Binary32;
use crate::error::{ErrorKind, MirrorStarError};
use crate::ipc::client;
use crate::ipc::client::NamedPipeClient;
use crate::json;
use crate::text;
use crate::time::Delay;

verus! {

/// How long the answer to a property query is awaited, in milliseconds.
pub const GET_PROPERTY_TIMEOUT_MS: u64 = 2000;

/// The answer of mpv to a command.
#[derive(Clone, Debug)]
pub struct MpvResponse {
    /// "success", or what went wrong.
    pub error: String,
    /// The JSON text of the data that came with the answer.
    pub data: Option<String>,
    /// The number of the command that is answered.
    pub request_id: Option<u64>,
}

/// Marks the pipe clients that speak to mpv.
pub struct MpvClient;

/// A client that controls an mpv player. Its commands come back as the bytes to be
/// written to the pipe.
pub struct MpvIpcClient {
    inner: NamedPipeClient<MpvClient>,
}

/// The JSON text of the command `words`, sent as number `request_id`.
pub open spec fn command_json(words: Seq<Seq<char>>, request_id: u64) -> Seq<char> {
    "{\"command\":"@ + json::quoted_array(words) + ",\"request_id\":"@ + text::decimal(
        request_id as nat,
    ) + "}"@
}

/// The bytes of the command `words`, sent as number `request_id` over an open pipe,
/// or the error for a missing connection.
pub open spec fn is_command(
    r: Result<Vec<u8>, MirrorStarError>,
    connected: bool,
    words: Seq<Seq<char>>,
    request_id: u64,
) -> bool {
    client::is_line(r, connected, command_json(words, request_id))
}

/// The JSON text of a command.
fn command_text(words: &Vec<String>, request_id: u64) -> (r: String)
    ensures
        r@ == command_json(json::texts_of(words@), request_id),
{
    let mut s = String::from_str("{\"command\":");
    s.append(json::quote_array(words).as_str());
    s.append(",\"request_id\":");
    s.append(text::decimal_text(request_id as u128).as_str());
    s.append("}");
    s
}

/// A command that awaits its answer.
#[derive(Debug)]
pub struct PendingReply {
    /// The number of the command.
    pub request_id: u64,
    /// How long the answer is awaited.
    pub timeout: Delay,
}

/// The wait for the answer to a command, over any number of lines, until a deadline.
pub struct MpvReplyWait {
    request_id: u64,
    deadline: u128,
}

impl PendingReply {
    /// Starts the wait at `now`, once the command was written.
    pub fn start(&self, now: u128) -> (r: MpvReplyWait)
        requires
            now + self.timeout.nanos <= u128::MAX,
        ensures
            r.request_id() == self.request_id,
            r.deadline() == now + self.timeout.nanos,
    {
        MpvReplyWait { request_id: self.request_id, deadline: now + self.timeout.nanos }
    }
}

impl MpvReplyWait {
    /// The number of the command.
    pub closed spec fn request_id(self) -> u64 {
        self.request_id
    }

    /// When the wait is given up.
    pub closed spec fn deadline(self) -> int {
        self.deadline as int
    }

    /// The time that is left for the next line; an error if there is none.
    pub fn remaining(&self, now: u128) -> (r: Result<Delay, MirrorStarError>)
        ensures
            if now < self.deadline() {
                r matches Ok(d) && d.nanos == self.deadline() - now
            } else {
                r matches Err(e) && e@ == (
                    ErrorKind::IpcTimeout,
                    "mpv 命令等待响应超时 (request_id="@ + text::decimal(self.request_id() as nat)
                        + ")"@,
                )
            },
    {
        if now < self.deadline {
            return Ok(Delay { nanos: self.deadline - now });
        }
        let mut m = String::from_str("mpv 命令等待响应超时 (request_id=");
        m.append(text::decimal_text(self.request_id as u128).as_str());
        m.append(")");
        Err(MirrorStarError::IpcTimeout(m))
    }

    /// Takes a line, read as an answer if it is one. Lines that are no answer and
    /// answers to other commands are skipped; the answer to this command is returned
    /// if it reports success, and turned into an error otherwise.
    pub fn on_response(&self, response: Option<MpvResponse>) -> (r: Option<
        Result<MpvResponse, MirrorStarError>,
    >)
        ensures
            match response {
                Some(a) => if a.request_id != Some(self.request_id()) {
                    r is None
                } else if a.error@ == "success"@ {
                    r matches Some(Ok(b)) && b == a
                } else {
                    r matches Some(Err(e)) && e@ == (
                        ErrorKind::IpcError,
                        "mpv 命令失败: "@ + a.error@,
                    )
                },
                None => r is None,
            },
    {
        match response {
            None => None,
            Some(a) => {
                match a.request_id {
                    None => None,
                    Some(id) => {
                        if id != self.request_id {
                            None
                        } else if text::same_text(a.error.as_str(), "success") {
                            Some(Ok(a))
                        } else {
                            Some(
                                Err(
                                    MirrorStarError::IpcError(
                                        text::join2("mpv 命令失败: ", a.error.as_str()),
                                    ),
                                ),
                            )
                        }
                    },
                }
            },
        }
    }
}

/// The JSON text of a property's value in the answer to a query: that of the data, or
/// `null` if none came.
pub fn property_value(response: MpvResponse) -> (r: String)
    ensures
        r@ == match response.data {
            Some(d) => d@,
            None => "null"@,
        },
{
    match response.data {
        Some(d) => d,
        None => String::from_str("null"),
    }
}

impl MpvIpcClient {
    /// The full path of the pipe.
    pub closed spec fn path(self) -> Seq<char> {
        self.inner.path()
    }

    /// Whether the pipe is open.
    pub closed spec fn connected(self) -> bool {
        self.inner.connected()
    }

    /// The number that the next command gets.
    pub closed spec fn next_id(self) -> u64 {
        self.inner.next_id()
    }

    /// `after` is this client with one more number used up.
    pub open spec fn used_one(self, after: Self) -> bool {
        &&& after.path() == self.path()
        &&& after.connected() == self.connected()
        &&& after.next_id() == client::id_after(self.next_id())
    }

    /// A client of the pipe named `pipe_name`, not connected yet.
    pub fn new(pipe_name: &str) -> (r: Self)
        ensures
            r.path() == "\\\\.\\pipe\\"@ + pipe_name@,
            !r.connected(),
            r.next_id() == 1,
    {
        MpvIpcClient { inner: NamedPipeClient::new(pipe_name) }
    }

    /// The attempts to open the pipe.
    pub fn connect(&self, retry_count: u32, retry_interval_ms: u64) -> (r: client::ConnectRetry)
        ensures
            r.path() == self.path(),
            r.attempts() == 0,
            r.retry_count() == retry_count,
            r.retry_interval_ms() == retry_interval_ms,
    {
        self.inner.connect(retry_count, retry_interval_ms)
    }

    /// Records that the pipe was opened.
    pub fn opened(&mut self)
        ensures
            final(self).connected(),
            final(self).path() == old(self).path(),
            final(self).next_id() == old(self).next_id(),
    {
        self.inner.opened();
    }

    /// Forgets the connection, if there is one.
    pub fn disconnect(&mut self)
        ensures
            !final(self).connected(),
            final(self).path() == old(self).path(),
            final(self).next_id() == old(self).next_id(),
    {
        self.inner.disconnect();
    }

    /// The full path of the pipe.
    pub fn pipe_path(&self) -> (r: &str)
        ensures
            r@ == self.path(),
    {
        self.inner.pipe_path()
    }

    /// The wait for the next line, for `timeout` at most.
    pub fn read_response_line_with_timeout(&self, now: u128, timeout: Delay) -> (r: Result<
        client::ResponseWait,
        MirrorStarError,
    >)
        requires
            now + timeout.nanos <= u128::MAX,
        ensures
            if self.connected() {
                r matches Ok(w) && w.deadline() == now + timeout.nanos
            } else {
                r matches Err(e) && e@ == (ErrorKind::IpcNotConnected, "IPC 未连接"@)
            },
    {
        self.inner.read_response_line_with_timeout(now, timeout)
    }

    /// The bytes of a command whose answer is awaited for `timeout` in all, and what to
    /// wait for.
    pub fn send_command_with_timeout(&mut self, command: &Vec<String>, timeout: Delay) -> (r: Result<
        (Vec<u8>, PendingReply),
        MirrorStarError,
    >)
        ensures
            old(self).used_one(*final(self)),
            match r {
                Ok((bytes, pending)) => {
                    &&& is_command(
                        Ok(bytes),
                        old(self).connected(),
                        json::texts_of(command@),
                        old(self).next_id(),
                    )
                    &&& pending.request_id == old(self).next_id()
                    &&& pending.timeout == timeout
                },
                Err(e) => is_command(
                    Err(e),
                    old(self).connected(),
                    json::texts_of(command@),
                    old(self).next_id(),
                ),
            },
    {
        let request_id = self.inner.next_request_id();
        let line = command_text(command, request_id);
        match self.inner.send_line(line.as_str()) {
            Ok(bytes) => Ok((bytes, PendingReply { request_id, timeout })),
            Err(e) => Err(e),
        }
    }

    /// The bytes of a command whose answer is not awaited.
    pub fn send_command_no_wait(&mut self, command: &Vec<String>) -> (r: Result<
        Vec<u8>,
        MirrorStarError,
    >)
        ensures
            old(self).used_one(*final(self)),
            is_command(r, old(self).connected(), json::texts_of(command@), old(self).next_id()),
    {
        let request_id = self.inner.next_request_id();
        let line = command_text(command, request_id);
        self.inner.send_line(line.as_str())
    }

    /// The bytes of the query for the property `name`, and what to wait for.
    pub fn get_property(&mut self, name: &str) -> (r: Result<
        (Vec<u8>, PendingReply),
        MirrorStarError,
    >)
        ensures
            old(self).used_one(*final(self)),
            match r {
                Ok((bytes, pending)) => {
                    &&& is_command(
                        Ok(bytes),
                        old(self).connected(),
                        seq!["get_property"@, name@],
                        old(self).next_id(),
                    )
                    &&& pending.request_id == old(self).next_id()
                    &&& pending.timeout.nanos == GET_PROPERTY_TIMEOUT_MS * 1_000_000
                    &&& pending.timeout.nanos == 2_000_000_000
                },
                Err(e) => is_command(
                    Err(e),
                    old(self).connected(),
                    seq!["get_property"@, name@],
                    old(self).next_id(),
                ),
            },
    {
        let mut words: Vec<String> = Vec::new();
        words.push(String::from_str("get_property"));
        words.push(String::from_str(name));
        assert(json::texts_of(words@) =~= seq!["get_property"@, name@]);
        self.send_command_with_timeout(&words, Delay::from_millis(GET_PROPERTY_TIMEOUT_MS))
    }

    /// The bytes that set the property `name` to `value`.
    pub fn set_property(&mut self, name: &str, value: &str) -> (r: Result<Vec<u8>, MirrorStarError>)
        ensures
            old(self).used_one(*final(self)),
            is_command(
                r,
                old(self).connected(),
                seq!["set_property"@, name@, value@],
                old(self).next_id(),
            ),
    {
        let mut words: Vec<String> = Vec::new();
        words.push(String::from_str("set_property"));
        words.push(String::from_str(name));
        words.push(String::from_str(value));
        assert(json::texts_of(words@) =~= seq!["set_property"@, name@, value@]);
        self.send_command_no_wait(&words)
    }

    /// The bytes that pause the video.
    pub fn pause(&mut self) -> (r: Result<Vec<u8>, MirrorStarError>)
        ensures
            old(self).used_one(*final(self)),
            is_command(
                r,
                old(self).connected(),
                seq!["set_property"@, "pause"@, "yes"@],
                old(self).next_id(),
            ),
    {
        self.set_property("pause", "yes")
    }

    /// The bytes that let the video go on.
    pub fn resume(&mut self) -> (r: Result<Vec<u8>, MirrorStarError>)
        ensures
            old(self).used_one(*final(self)),
            is_command(
                r,
                old(self).connected(),
                seq!["set_property"@, "pause"@, "no"@],
                old(self).next_id(),
            ),
    {
        self.set_property("pause", "no")
    }

    /// The bytes that set the volume, which `shown` writes out; an error, with nothing
    /// to send, unless the volume is a finite number from 0 to 100.
    pub fn set_volume(&mut self, volume: Binary32, shown: &str) -> (r: Result<
        Vec<u8>,
        MirrorStarError,
    >)
        ensures
            if volume_allowed(volume) {
                &&& old(self).used_one(*final(self))
                &&& is_command(
                    r,
                    old(self).connected(),
                    seq!["set_property"@, "volume"@, shown@],
                    old(self).next_id(),
                )
            } else {
                &&& *final(self) == *old(self)
                &&& r matches Err(e) && e@ == (
                    ErrorKind::InvalidArgument,
                    "volume 必须在 [0.0, 100.0] 范围内且为有限值，实际: "@ + shown@,
                )
            },
    {
        let low = Binary32 { bits: binary32::ZERO };
        let high = Binary32 { bits: binary32::HUNDRED };
        if !volume.is_finite() || !(low.is_at_most(volume) && volume.is_at_most(high)) {
            return Err(
                MirrorStarError::InvalidArgument {
                    reason: text::join2(
                        "volume 必须在 [0.0, 100.0] 范围内且为有限值，实际: ",
                        shown,
                    ),
                },
            );
        }
        self.set_property("volume", shown)
    }

    /// The bytes that turn the repetition of the file on or off.
    pub fn set_loop_file(&mut self, enabled: bool) -> (r: Result<Vec<u8>, MirrorStarError>)
        ensures
            old(self).used_one(*final(self)),
            is_command(
                r,
                old(self).connected(),
                seq![
                    "set_property"@,
                    "loop-file"@,
                    if enabled {
                        "yes"@
                    } else {
                        "no"@
                    },
                ],
                old(self).next_id(),
            ),
    {
        self.set_property(
            "loop-file",
            if enabled {
                "yes"
            } else {
                "no"
            },
        )
    }

    /// The bytes that load the file `path` in place of the current one.
    pub fn loadfile(&mut self, path: &str) -> (r: Result<Vec<u8>, MirrorStarError>)
        ensures
            old(self).used_one(*final(self)),
            is_command(
                r,
                old(self).connected(),
                seq!["loadfile"@, path@, "replace"@],
                old(self).next_id(),
            ),
    {
        let mut words: Vec<String> = Vec::new();
        words.push(String::from_str("loadfile"));
        words.push(String::from_str(path));
        words.push(String::from_str("replace"));
        assert(json::texts_of(words@) =~= seq!["loadfile"@, path@, "replace"@]);
        self.send_command_no_wait(&words)
    }

    /// The bytes that set the speed, which `shown` writes out; an error, with nothing to
    /// send, unless the speed is a finite number from 0.25 to 4.
    pub fn set_speed(&mut self, speed: Binary32, shown: &str) -> (r: Result<
        Vec<u8>,
        MirrorStarError,
    >)
        ensures
            if speed_allowed(speed) {
                &&& old(self).used_one(*final(self))
                &&& is_command(
                    r,
                    old(self).connected(),
                    seq!["set_property"@, "speed"@, shown@],
                    old(self).next_id(),
                )
            } else {
                &&& *final(self) == *old(self)
                &&& r matches Err(e) && e@ == (
                    ErrorKind::InvalidArgument,
                    "speed 必须在 [0.25, 4.0] 范围内且为有限值，实际: "@ + shown@,
                )
            },
    {
        let low = Binary32 { bits: binary32::QUARTER };
        let high = Binary32 { bits: binary32::FOUR };
        if !speed.is_finite() || !(low.is_at_most(speed) && speed.is_at_most(high)) {
            return Err(
                MirrorStarError::InvalidArgument {
                    reason: text::join2(
                        "speed 必须在 [0.25, 4.0] 范围内且为有限值，实际: ",
                        shown,
                    ),
                },
            );
        }
        self.set_property("speed", shown)
    }

    /// The bytes that ask mpv to quit.
    pub fn quit(&mut self) -> (r: Result<Vec<u8>, MirrorStarError>)
        ensures
            old(self).used_one(*final(self)),
            is_command(r, old(self).connected(), seq!["quit"@], old(self).next_id()),
    {
        let mut words: Vec<String> = Vec::new();
        words.push(String::from_str("quit"));
        assert(json::texts_of(words@) =~= seq!["quit"@]);
        self.send_command_no_wait(&words)
    }
}

/// The volumes that mpv accepts.
pub open spec fn volume_allowed(volume: Binary32) -> bool {
    &&& volume.finite()
    &&& (Binary32 { bits: binary32::ZERO }).at_most(volume)
    &&& volume.at_most(Binary32 { bits: binary32::HUNDRED })
}

/// The speeds that mpv accepts.
pub open spec fn speed_allowed(speed: Binary32) -> bool {
    &&& speed.finite()
    &&& (Binary32 { bits: binary32::QUARTER }).at_most(speed)
    &&& speed.at_most(Binary32 { bits: binary32::FOUR })
}

/// Every command is a single line, whatever its words hold.
pub proof fn law_command_single_line(words: Seq<Seq<char>>, request_id: u64)
    ensures
        !command_json(words, request_id).contains('\n'),
{
    let a = "{\"command\":"@;
    let b = json::quoted_array(words);
    let c = ",\"request_id\":"@;
    let d = text::decimal(request_id as nat);
    let e = "}"@;
    reveal_strlit("{\"command\":");
    reveal_strlit(",\"request_id\":");
    reveal_strlit("}");
    reveal_strlit("[");
    reveal_strlit("]");
    lemma_members_single_line(words);
    text::law_decimal_digits(request_id as nat);
    let whole = command_json(words, request_id);
    assert forall|i: int| 0 <= i < whole.len() implies whole[i] != '\n' by {
        let n1 = a.len();
        let n2 = n1 + b.len();
        let n3 = n2 + c.len();
        let n4 = n3 + d.len();
        if i < n1 {
            assert(whole[i] == a[i]);
        } else if i < n2 {
            assert(whole[i] == b[i - n1]);
            let m = json::quoted_members(words);
            if 1 <= i - n1 < 1 + m.len() {
                assert(b[i - n1] == m[i - n1 - 1]);
            }
        } else if i < n3 {
            assert(whole[i] == c[i - n2]);
        } else if i < n4 {
            assert(whole[i] == d[i - n3]);
        } else {
            assert(whole[i] == e[i - n4]);
        }
    }
}

proof fn lemma_members_single_line(words: Seq<Seq<char>>)
    ensures
        forall|i: int|
            0 <= i < json::quoted_members(words).len() ==> #[trigger] json::quoted_members(words)[i]
                != '\n',
    decreases words.len(),
{
    if words.len() == 1 {
        json::law_quoted_single_line(words[0]);
    } else if words.len() > 1 {
        lemma_members_single_line(words.drop_last());
        json::law_quoted_single_line(words.last());
        reveal_strlit(",");
        let a = json::quoted_members(words.drop_last());
        let q = json::quoted(words.last());
        assert forall|i: int| 0 <= i < json::quoted_members(words).len() implies
            #[trigger] json::quoted_members(words)[i] != '\n' by {
            if i < a.len() {
                assert(json::quoted_members(words)[i] == a[i]);
            } else if i > a.len() {
                assert(json::quoted_members(words)[i] == q[i - a.len() - 1]);
            }
        }
    }
}

/// A command tells its words and its number: two commands have the same JSON text only if
/// they have the same words, each whole and in order, and the same number.
pub proof fn law_command_tells_words(
    a: Seq<Seq<char>>,
    i: u64,
    b: Seq<Seq<char>>,
    j: u64,
)
    requires
        command_json(a, i) == command_json(b, j),
    ensures
        a == b,
        i == j,
{
    reveal_strlit("{\"command\":");
    reveal_strlit(",\"request_id\":");
    reveal_strlit("}");
    let head = "{\"command\":"@;
    let label = ",\"request_id\":"@;
    let x = label + (text::decimal(i as nat) + "}"@);
    let y = label + (text::decimal(j as nat) + "}"@);
    assert(command_json(a, i).skip(head.len() as int) =~= json::quoted_array(a) + x);
    assert(command_json(b, j).skip(head.len() as int) =~= json::quoted_array(b) + y);
    json::law_array_tells_members(a, b, x, y);
    assert(x.skip(label.len() as int) =~= text::decimal(i as nat) + "}"@);
    assert(y.skip(label.len() as int) =~= text::decimal(j as nat) + "}"@);
    text::law_decimal_ends(i as nat, j as nat, "}"@, "}"@);
}

/// A volume is allowed exactly from 0 to 100 and a speed exactly from a quarter to 4, as
/// numbers; what is infinite or no number never is.
pub proof fn law_allowed_numbers(value: Binary32)
    ensures
        value.bits as int / 0x80_0000 % 0x100 == 0xff ==> !volume_allowed(value) && !speed_allowed(
            value,
        ),
        value.bits as int / 0x80_0000 % 0x100 != 0xff ==> {
            &&& volume_allowed(value) <==> 0 <= value.scaled() <= 100 * pow2(149)
            &&& speed_allowed(value) <==> pow2(149) <= 4 * value.scaled() && value.scaled() <= 4
                * pow2(149)
        },
{
    binary32::law_named_numbers();
    if value.bits as int / 0x80_0000 % 0x100 != 0xff {
        binary32::law_order_is_numeric(Binary32 { bits: 0 }, value);
        binary32::law_order_is_numeric(value, Binary32 { bits: 0x42c8_0000 });
        binary32::law_order_is_numeric(Binary32 { bits: 0x3e80_0000 }, value);
        binary32::law_order_is_numeric(value, Binary32 { bits: 0x4080_0000 });
    } else {
        binary32::law_special_values(value, value);
    }
}

/// Each command takes the next number; the connection is the same afterwards.
pub proof fn law_number_used(before: MpvIpcClient, after: MpvIpcClient)
    requires
        before.used_one(after),
    ensures
        after.path() == before.path() && after.connected() == before.connected(),
        before.next_id() < u64::MAX ==> after.next_id() == before.next_id() + 1,
        before.next_id() == u64::MAX ==> after.next_id() == 0,
{
}

} // verus!
