//! The client's side of the socket: how a repo is addressed, what a reply means,
//! and how a daemon is started that is not there yet.

use vstd::prelude::*;
use vstd::string::*;
use vstd::utf8::*;

use crate::daemon::{log_path, socket_path, Product};
#[allow(unused_imports)]
use crate::daemon::state_file;
use crate::error::EngineError;
#[allow(unused_imports)]
use crate::error::ErrorKind;
use crate::paths::{join_path, parent_of};
#[allow(unused_imports)]
use crate::paths::{components, is_parent_dir, joined_path};
use crate::proto::ApiError;
use crate::text::lossy;
#[allow(unused_imports)]
use crate::text::{decimal, lossy_text};

verus! {

/// A byte that stands for itself in a path segment: a letter, a digit, `-`, `.`, `_`
/// or `~`.
pub open spec fn unreserved(b: u8) -> bool {
    ||| 65 <= b <= 90
    ||| 97 <= b <= 122
    ||| 48 <= b <= 57
    ||| b == 45
    ||| b == 46
    ||| b == 95
    ||| b == 126
}

/// The upper-case hexadecimal digit `d`.
pub open spec fn upper_hex_digit(d: int) -> char {
    if d < 10 {
        (('0' as int) + d) as char
    } else {
        (('A' as int) + d - 10) as char
    }
}

/// How a byte is written in a path segment.
pub open spec fn encoded_byte(b: u8) -> Seq<char> {
    if unreserved(b) {
        seq![b as char]
    } else {
        seq!['%', upper_hex_digit(b as int / 16), upper_hex_digit(b as int % 16)]
    }
}

/// How bytes are written in a path segment.
pub open spec fn encoded(bytes: Seq<u8>) -> Seq<char>
    decreases bytes.len(),
{
    if bytes.len() == 0 {
        Seq::empty()
    } else {
        encoded(bytes.drop_last()) + encoded_byte(bytes.last())
    }
}

fn upper_hex(d: u8) -> (r: char)
    requires
        d < 16,
    ensures
        r == upper_hex_digit(d as int),
{
    if d < 10 {
        (48 + d) as char
    } else {
        (55 + d) as char
    }
}

/// Percent-encodes one segment of a URI path, so that a path of the file system
/// survives as a single segment.
pub fn encode_segment(raw: &str) -> (r: String)
    ensures
        r@ == encoded(encode_utf8(raw@)),
{
    let bytes = raw.as_bytes();
    let mut out = String::new();
    assert(bytes@.take(0) =~= Seq::empty());
    for i in 0..bytes.len()
        invariant
            out@ == encoded(bytes@.take(i as int)),
    {
        let b: u8 = bytes[i];
        let ghost before = out@;
        assert(bytes@.take(i + 1).drop_last() =~= bytes@.take(i as int));
        if (65 <= b && b <= 90) || (97 <= b && b <= 122) || (48 <= b && b <= 57) || b == 45 || b
            == 46 || b == 95 || b == 126 {
            out.push(b as char);
            assert(out@ =~= before + encoded_byte(b));
        } else {
            out.push('%');
            out.push(upper_hex(b / 16));
            out.push(upper_hex(b % 16));
            assert(out@ =~= before + encoded_byte(b));
        }
    }
    assert(bytes@.take(bytes@.len() as int) =~= bytes@);
    out
}

pub(crate) proof fn first_byte_is_encoded_first(bytes: Seq<u8>)
    requires
        bytes.len() > 0,
    ensures
        encoded(bytes) == encoded_byte(bytes[0]) + encoded(bytes.drop_first()),
    decreases bytes.len(),
{
    if bytes.len() == 1 {
        assert(bytes.drop_last() =~= Seq::empty());
        assert(bytes.drop_first() =~= Seq::empty());
        assert(encoded(bytes) =~= encoded_byte(bytes[0]) + encoded(bytes.drop_first()));
    } else {
        first_byte_is_encoded_first(bytes.drop_last());
        assert(bytes.drop_last().drop_first() =~= bytes.drop_first().drop_last());
        assert(encoded(bytes) =~= encoded_byte(bytes[0]) + encoded(bytes.drop_first()));
    }
}

proof fn upper_hex_digits_differ(d: int, e: int)
    requires
        0 <= d < 16,
        0 <= e < 16,
        upper_hex_digit(d) == upper_hex_digit(e),
    ensures
        d == e,
{
    assert(upper_hex_digit(d) as int == if d < 10 {
        48 + d
    } else {
        55 + d
    });
    assert(upper_hex_digit(e) as int == if e < 10 {
        48 + e
    } else {
        55 + e
    });
}

proof fn bytes_are_written_apart(a: u8, b: u8, x: Seq<char>, y: Seq<char>)
    requires
        encoded_byte(a) + x == encoded_byte(b) + y,
    ensures
        a == b,
        x == y,
{
    let (l, r) = (encoded_byte(a) + x, encoded_byte(b) + y);
    assert(l[0] == encoded_byte(a)[0]);
    assert(r[0] == encoded_byte(b)[0]);
    if unreserved(a) && unreserved(b) {
        assert(a as char == b as char);
        assert((a as char) as u8 == a && (b as char) as u8 == b);
    } else if unreserved(a) {
        assert((a as char) as int == a as int);
        assert('%' as int == 37);
    } else if unreserved(b) {
        assert((b as char) as int == b as int);
        assert('%' as int == 37);
    } else {
        assert(l[1] == encoded_byte(a)[1]);
        assert(r[1] == encoded_byte(b)[1]);
        assert(l[2] == encoded_byte(a)[2]);
        assert(r[2] == encoded_byte(b)[2]);
        upper_hex_digits_differ(a as int / 16, b as int / 16);
        upper_hex_digits_differ(a as int % 16, b as int % 16);
    }
    assert(x =~= l.skip(encoded_byte(a).len() as int));
    assert(y =~= r.skip(encoded_byte(b).len() as int));
}

/// Two different byte sequences are written differently.
pub proof fn encoding_is_injective(a: Seq<u8>, b: Seq<u8>)
    requires
        encoded(a) == encoded(b),
    ensures
        a == b,
    decreases a.len(),
{
    if a.len() > 0 {
        first_byte_is_encoded_first(a);
        assert(encoded_byte(a[0]).len() >= 1);
    }
    if b.len() > 0 {
        first_byte_is_encoded_first(b);
        assert(encoded_byte(b[0]).len() >= 1);
    }
    if a.len() > 0 && b.len() > 0 {
        bytes_are_written_apart(a[0], b[0], encoded(a.drop_first()), encoded(b.drop_first()));
        encoding_is_injective(a.drop_first(), b.drop_first());
        assert(a =~= seq![a[0]] + a.drop_first());
        assert(b =~= seq![b[0]] + b.drop_first());
    } else {
        let nothing = Seq::<u8>::empty();
        assert(a.len() == 0 ==> a =~= nothing);
        assert(b.len() == 0 ==> b =~= nothing);
        assert(encoded(nothing).len() == 0);
        assert(a.len() > 0 ==> encoded(a).len() >= encoded_byte(a[0]).len());
        assert(b.len() > 0 ==> encoded(b).len() >= encoded_byte(b[0]).len());
        assert(a =~= b);
    }
}

/// Two different texts are never the same segment.
pub proof fn segments_tell_texts_apart(a: Seq<char>, b: Seq<char>)
    requires
        encoded(encode_utf8(a)) == encoded(encode_utf8(b)),
    ensures
        a == b,
{
    encoding_is_injective(encode_utf8(a), encode_utf8(b));
    encode_utf8_decode_utf8(a);
    encode_utf8_decode_utf8(b);
}

/// A segment is one segment: it holds only unreserved characters and `%`, and so
/// neither `/` nor `?` nor `#`.
pub proof fn segments_hold_no_separator(bytes: Seq<u8>, i: int)
    requires
        0 <= i < encoded(bytes).len(),
    ensures
        encoded(bytes)[i] == '%' || (exists|b: u8| unreserved(b) && encoded(bytes)[i] == #[trigger] (
        b as char)),
        encoded(bytes)[i] != '/',
        encoded(bytes)[i] != '?',
        encoded(bytes)[i] != '#',
    decreases bytes.len(),
{
    let front = encoded(bytes.drop_last());
    if i < front.len() {
        segments_hold_no_separator(bytes.drop_last(), i);
        assert(encoded(bytes)[i] == front[i]);
    } else {
        let b = bytes.last();
        let c = encoded(bytes)[i];
        assert(c == encoded_byte(b)[i - front.len()]);
        if unreserved(b) {
            assert(c == b as char);
            assert((b as char) as int == b as int);
        } else if i > front.len() {
            let d = if i - front.len() == 1 {
                b as int / 16
            } else {
                b as int % 16
            };
            assert(c == upper_hex_digit(d));
            let u = if d < 10 {
                (48 + d) as u8
            } else {
                (55 + d) as u8
            };
            assert(unreserved(u));
            assert(c == u as char);
            assert(c as int == u as int);
        }
    }
}

/// The repo as the client names it: by the current directory, which is `None` where
/// it is no text, and is then shown as well as can be.
pub fn cwd_repo_segment(cwd: Option<&str>, shown: &str) -> (r: Result<String, EngineError>)
    ensures
        match cwd {
            Some(dir) => r matches Ok(s) && s@ == encoded(encode_utf8(dir@)),
            None => r matches Err(e) && e@ == (
                ErrorKind::Internal,
                "current directory is not valid UTF-8: "@ + shown@,
            ),
        },
{
    match cwd {
        Some(dir) => Ok(encode_segment(dir)),
        None => Err(
            EngineError::Internal(
                "current directory is not valid UTF-8: ".to_string().concat(shown),
            ),
        ),
    }
}

/// How a status is shown: its number and its reason.
pub uninterp spec fn shown_status(status: u16) -> Seq<char>;

/// The `Display` of `hyper::StatusCode`, for the status of this number. The claim is
/// that what is shown is a function of the number alone, that it starts with the
/// number and a space, and that a number below 100 or above 999 is no status and
/// shows nothing; the reasons behind the number are left to hyper.
#[verifier::external_body]
pub(crate) fn status_text(status: u16) -> (r: String)
    ensures
        r@ == shown_status(status),
        100 <= status < 1000 ==> (decimal(status as nat) + " "@).is_prefix_of(r@),
        !(100 <= status < 1000) ==> r@.len() == 0,
{
    match hyper::StatusCode::from_u16(status) {
        Ok(code) => code.to_string(),
        Err(_) => String::new(),
    }
}

/// What is wrong with bytes as JSON, where something is.
pub uninterp spec fn json_fault(bytes: Seq<u8>) -> Option<Seq<char>>;

/// `serde_json::from_slice` into a `serde_json::Value`, and the `Display` of its error.
/// The claim is that whether the bytes are JSON, and what is said where they are not,
/// are functions of the bytes alone; the grammar and the words are left to serde_json.
#[verifier::external_body]
pub(crate) fn json_fault_of(bytes: &[u8]) -> (r: Option<String>)
    ensures
        match r {
            Some(said) => json_fault(bytes@) == Some(said@),
            None => json_fault(bytes@) is None,
        },
{
    match serde_json::from_slice::<serde_json::Value>(bytes) {
        Ok(_) => None,
        Err(err) => Some(err.to_string()),
    }
}

/// The daemon did what it was asked.
pub open spec fn success(status: u16) -> bool {
    200 <= status < 300
}

/// A failure that the daemon reported.
#[derive(Debug, Clone, PartialEq)]
pub struct ApiFailure {
    pub message: String,
    pub hint: Option<String>,
}

/// What a failed reply says: the error in its body, where it holds one, else its
/// status and the body as it is. `shown` is the status as it is shown.
pub open spec fn reports(
    f: ApiFailure,
    shown: Seq<char>,
    body: Seq<u8>,
    parsed: Option<ApiError>,
) -> bool {
    match parsed {
        Some(e) => f.message == e.message && f.hint == e.hint,
        None => f.message@ == "daemon returned "@ + shown + ": "@ + lossy_text(body)
            && f.hint is None,
    }
}

/// What a failed reply says, with its status as it is shown.
pub fn failure_of(shown: &str, body: &Vec<u8>, parsed: Option<ApiError>) -> (r: ApiFailure)
    ensures
        reports(r, shown@, body@, parsed),
{
    match parsed {
        Some(e) => ApiFailure { message: e.message, hint: e.hint },
        None => ApiFailure {
            message: "daemon returned ".to_string().concat(shown).concat(": ").concat(
                lossy(body.as_slice()).as_str(),
            ),
            hint: None,
        },
    }
}

/// What a failed reply says. `parsed` is the error in its body, where it holds one.
pub fn api_failure(status: u16, body: &Vec<u8>, parsed: Option<ApiError>) -> (r: ApiFailure)
    ensures
        reports(r, shown_status(status), body@, parsed),
{
    failure_of(status_text(status).as_str(), body, parsed)
}

/// Why a command of the client failed.
#[derive(Debug, Clone, PartialEq)]
pub enum ClientError {
    /// The daemon reported a failure.
    Api(ApiFailure),
    /// Anything else.
    Other(EngineError),
}

impl ClientError {
    /// The lines that a failure is shown in: the failure, and the hint where the
    /// daemon gave one.
    pub fn lines(&self) -> (r: Vec<String>)
        ensures
            match self {
                ClientError::Api(f) => {
                    &&& r@.len() == if f.hint is Some {
                        2int
                    } else {
                        1int
                    }
                    &&& r@[0]@ == "error: "@ + f.message@
                    &&& f.hint matches Some(hint) ==> r@[1]@ == hint@
                },
                ClientError::Other(e) => r@.len() == 1 && r@[0]@ == "error: "@ + e@.1,
            },
    {
        let mut lines: Vec<String> = Vec::new();
        match self {
            ClientError::Api(f) => {
                lines.push("error: ".to_string().concat(f.message.as_str()));
                if let Some(hint) = &f.hint {
                    lines.push(hint.clone());
                }
            },
            ClientError::Other(e) => {
                lines.push("error: ".to_string().concat(e.message()));
            },
        }
        lines
    }
}

/// A reply of the daemon, and what its body holds.
pub struct Reply {
    pub status: u16,
    pub body: Vec<u8>,
    /// The failure in the body, where it holds one.
    pub error: Option<ApiError>,
    /// What is wrong with the body as JSON, where something is.
    pub invalid: Option<String>,
}

/// The client of the daemon that keeps its state in a directory.
pub struct Client {
    pub product: Product,
    pub dir: String,
    pub socket: String,
}

impl Client {
    pub fn new(product: Product, dir: String) -> (r: Client)
        ensures
            r.product == product,
            r.dir == dir,
            r.socket@ == state_file(product, dir@, ".sock"@),
    {
        let socket = socket_path(product, dir.as_str());
        Client { product, dir, socket }
    }

    /// The way to a daemon that answers.
    pub fn connect(&self) -> (r: Connect)
        ensures
            r.product == self.product,
            r.dir == self.dir,
            r.phase == ConnectPhase::Start,
    {
        Connect { product: self.product, dir: self.dir.clone(), phase: ConnectPhase::Start }
    }

    /// The start of the daemon.
    pub fn spawn_daemon(&self) -> (r: SpawnDaemon)
        ensures
            r.product == self.product,
            r.dir == self.dir,
            r.phase == SpawnPhase::Start,
    {
        SpawnDaemon {
            product: self.product,
            dir: self.dir.clone(),
            phase: SpawnPhase::Start,
            binary: String::new(),
        }
    }

    /// Whether a reply to a question for its health says that the daemon is well.
    pub fn health(status: u16) -> (r: Result<(), EngineError>)
        ensures
            r is Ok <==> status == 200,
            r matches Err(e) ==> e@ == (
                ErrorKind::Internal,
                "health returned "@ + shown_status(status),
            ),
    {
        if status == 200 {
            Ok(())
        } else {
            Err(
                EngineError::Internal(
                    "health returned ".to_string().concat(status_text(status).as_str()),
                ),
            )
        }
    }

    /// A request that did not get through.
    pub fn unreachable(&self, e: EngineError) -> (r: EngineError)
        ensures
            r@ == (e@.0, "cannot reach daemon at "@ + self.socket@ + ": "@ + e@.1),
    {
        let outer = "cannot reach daemon at ".to_string().concat(self.socket.as_str());
        e.context(outer.as_str())
    }

    /// Whether a reply that should be JSON can be used: a success, with a body that
    /// is JSON by what was found of it.
    pub fn json(path: &str, reply: Reply) -> (r: Result<Vec<u8>, ClientError>)
        ensures
            match r {
                Ok(body) => success(reply.status) && reply.invalid is None && body == reply.body,
                Err(ClientError::Api(f)) => !success(reply.status) && reports(
                    f,
                    shown_status(reply.status),
                    reply.body@,
                    reply.error,
                ),
                Err(ClientError::Other(e)) => success(reply.status) && reply.invalid is Some && e@
                    == (
                    ErrorKind::Internal,
                    "daemon sent invalid JSON for "@ + path@ + ": "@ + reply.invalid->0@,
                ),
            },
    {
        if !(200 <= reply.status && reply.status < 300) {
            return Err(
                ClientError::Api(api_failure(reply.status, &reply.body, reply.error)),
            );
        }
        match reply.invalid {
            Some(said) => Err(
                ClientError::Other(
                    EngineError::Internal(
                        "daemon sent invalid JSON for ".to_string().concat(path).concat(
                            ": ",
                        ).concat(said.as_str()),
                    ),
                ),
            ),
            None => Ok(reply.body),
        }
    }

    /// The body of a reply that is a success, as it is.
    pub fn bytes(reply: Reply) -> (r: Result<Vec<u8>, ClientError>)
        ensures
            match r {
                Ok(body) => success(reply.status) && body == reply.body,
                Err(ClientError::Api(f)) => !success(reply.status) && reports(
                    f,
                    shown_status(reply.status),
                    reply.body@,
                    reply.error,
                ),
                Err(ClientError::Other(_)) => false,
            },
    {
        if 200 <= reply.status && reply.status < 300 {
            Ok(reply.body)
        } else {
            Err(ClientError::Api(api_failure(reply.status, &reply.body, reply.error)))
        }
    }
}

/// The body of a reply that should be JSON: a success, with a body that is JSON.
/// `error` is the failure in the body, where it holds one.
pub fn read_json(path: &str, status: u16, body: Vec<u8>, error: Option<ApiError>) -> (r: Result<
    Vec<u8>,
    ClientError,
>)
    ensures
        match r {
            Ok(read) => success(status) && json_fault(body@) is None && read == body,
            Err(ClientError::Api(f)) => !success(status) && reports(
                f,
                shown_status(status),
                body@,
                error,
            ),
            Err(ClientError::Other(e)) => success(status) && json_fault(body@) is Some && e@ == (
                ErrorKind::Internal,
                "daemon sent invalid JSON for "@ + path@ + ": "@ + json_fault(body@)->0,
            ),
        },
{
    let invalid = json_fault_of(body.as_slice());
    Client::json(path, Reply { status, body, error, invalid })
}

/// How long a daemon that was started has to answer.
pub const START_DEADLINE_MS: u64 = 5000;

/// How long the client waits between two looks.
pub const POLL_MS: u64 = 100;

/// What a connection waits for.
#[derive(Debug, Clone, Copy, PartialEq, Eq, Structural)]
pub enum ConnectPhase {
    Start,
    Probing,
    Spawning,
    Polling,
    Sleeping,
    Over,
}

/// The way to a daemon that answers: where none does, one is started, once.
pub struct Connect {
    pub product: Product,
    pub dir: String,
    pub phase: ConnectPhase,
}

/// What has to be done next to connect.
pub enum ConnectAction {
    /// Ask the daemon for its health; say how long ago the daemon was started.
    Probe,
    /// Start the daemon.
    Spawn,
    /// Wait this many milliseconds.
    Sleep(u64),
    Finish(Result<(), EngineError>),
}

/// What came of an action.
pub enum ConnectReply {
    Begin,
    Health { answered: bool, elapsed_ms: u64 },
    Spawned(Result<(), EngineError>),
    Slept,
}

pub open spec fn connect_fails(
    post: Connect,
    action: ConnectAction,
    why: (ErrorKind, Seq<char>),
) -> bool {
    &&& post.phase == ConnectPhase::Over
    &&& action matches ConnectAction::Finish(r)
    &&& r matches Err(e)
    &&& e@ == why
}

/// One step of connecting.
pub open spec fn connect_step(
    pre: Connect,
    reply: ConnectReply,
    post: Connect,
    action: ConnectAction,
) -> bool {
    let connected = post.phase == ConnectPhase::Over && (action matches ConnectAction::Finish(r)
        && r is Ok);
    &&& post.product == pre.product
    &&& post.dir == pre.dir
    &&& match (pre.phase, reply) {
        (ConnectPhase::Start, ConnectReply::Begin) => post.phase == ConnectPhase::Probing
            && action is Probe,
        (ConnectPhase::Probing, ConnectReply::Health { answered, elapsed_ms }) => if answered {
            connected
        } else {
            post.phase == ConnectPhase::Spawning && action is Spawn
        },
        (ConnectPhase::Spawning, ConnectReply::Spawned(r)) => match r {
            Err(e) => connect_fails(post, action, e@),
            Ok(_) => post.phase == ConnectPhase::Polling && action is Probe,
        },
        (ConnectPhase::Polling, ConnectReply::Health { answered, elapsed_ms }) => if answered {
            connected
        } else if elapsed_ms < START_DEADLINE_MS {
            post.phase == ConnectPhase::Sleeping && action == ConnectAction::Sleep(POLL_MS)
        } else {
            connect_fails(
                post,
                action,
                (
                    ErrorKind::Internal,
                    "daemon did not become healthy within 5s (log: "@ + state_file(
                        pre.product,
                        pre.dir@,
                        ".log"@,
                    ) + ")"@,
                ),
            )
        },
        (ConnectPhase::Sleeping, ConnectReply::Slept) => post.phase == ConnectPhase::Polling
            && action is Probe,
        _ => connect_fails(post, action, (ErrorKind::Internal, "unexpected reply"@)),
    }
}

impl Connect {
    fn end(&mut self, r: Result<(), EngineError>) -> (action: ConnectAction)
        ensures
            final(self).product == old(self).product,
            final(self).dir == old(self).dir,
            final(self).phase == ConnectPhase::Over,
            action == ConnectAction::Finish(r),
    {
        self.phase = ConnectPhase::Over;
        ConnectAction::Finish(r)
    }

    /// Takes the reply to the last action and says what has to be done next.
    pub fn step(&mut self, reply: ConnectReply) -> (action: ConnectAction)
        ensures
            connect_step(*old(self), reply, *final(self), action),
    {
        match (self.phase, reply) {
            (ConnectPhase::Start, ConnectReply::Begin) => {
                self.phase = ConnectPhase::Probing;
                ConnectAction::Probe
            },
            (ConnectPhase::Probing, ConnectReply::Health { answered, elapsed_ms }) => {
                if answered {
                    return self.end(Ok(()));
                }
                self.phase = ConnectPhase::Spawning;
                ConnectAction::Spawn
            },
            (ConnectPhase::Spawning, ConnectReply::Spawned(r)) => match r {
                Err(e) => self.end(Err(e)),
                Ok(_) => {
                    self.phase = ConnectPhase::Polling;
                    ConnectAction::Probe
                },
            },
            (ConnectPhase::Polling, ConnectReply::Health { answered, elapsed_ms }) => {
                if answered {
                    return self.end(Ok(()));
                }
                if elapsed_ms < START_DEADLINE_MS {
                    self.phase = ConnectPhase::Sleeping;
                    return ConnectAction::Sleep(POLL_MS);
                }
                let message = "daemon did not become healthy within 5s (log: ".to_string().concat(
                    log_path(self.product, self.dir.as_str()).as_str(),
                ).concat(")");
                self.end(Err(EngineError::Internal(message)))
            },
            (ConnectPhase::Sleeping, ConnectReply::Slept) => {
                self.phase = ConnectPhase::Polling;
                ConnectAction::Probe
            },
            _ => self.end(Err(EngineError::Internal("unexpected reply".to_string()))),
        }
    }
}

/// A daemon is started only where none answered, and at most once: no later phase
/// leads back to the one before the start.
pub proof fn daemon_is_started_once(
    pre: Connect,
    reply: ConnectReply,
    post: Connect,
    action: ConnectAction,
)
    requires
        connect_step(pre, reply, post, action),
    ensures
        action is Spawn ==> pre.phase == ConnectPhase::Probing && (
        reply matches ConnectReply::Health { answered, .. } && !answered),
        pre.phase != ConnectPhase::Start ==> post.phase != ConnectPhase::Probing,
{
}

/// The daemon that belongs to the client at `exe`: the one beside it.
pub fn daemon_binary(product: Product, exe: &str) -> (r: Result<String, EngineError>)
    ensures
        match r {
            Ok(path) => components(exe@).len() > 0 && components(exe@) != seq![seq!['/']]
                && exists|dir: Seq<char>|
                is_parent_dir(dir, exe@) && path@ == #[trigger] joined_path(dir, product.daemon()),
            Err(e) => (components(exe@).len() == 0 || components(exe@) == seq![seq!['/']]) && e@
                == (ErrorKind::Internal, "current executable has no parent directory"@),
        },
{
    match parent_of(exe) {
        Some(dir) => {
            let path = join_path(dir.as_str(), product.daemon_name().as_str());
            assert(path@ == joined_path(dir@, product.daemon()));
            Ok(path)
        },
        None => Err(
            EngineError::Internal("current executable has no parent directory".to_string()),
        ),
    }
}

/// What the start of a daemon waits for.
#[derive(Debug, Clone, Copy, PartialEq, Eq, Structural)]
pub enum SpawnPhase {
    Start,
    Locating,
    MakingDir,
    OpeningLog,
    Starting,
    Over,
}

/// The start of the daemon from the client: detached, with its output appended to
/// the log in the state directory, so that none of it lands on the terminal.
pub struct SpawnDaemon {
    pub product: Product,
    pub dir: String,
    pub phase: SpawnPhase,
    /// The daemon's binary, once it is known.
    pub binary: String,
}

/// What has to be done next to start the daemon.
pub enum SpawnDaemonAction {
    /// Say where the running executable is.
    Locate,
    /// Create the directory, and those above it.
    MakeDir(String),
    /// Open the file for appending, and create it where it is absent.
    OpenLog(String),
    /// Start the binary, with no input and with its output to the log.
    Start(String),
    Finish(Result<(), EngineError>),
}

/// What came of an action.
pub enum SpawnDaemonReply {
    Begin,
    Executable(Result<String, EngineError>),
    Done(Result<(), EngineError>),
}

pub open spec fn spawn_fails(
    post: SpawnDaemon,
    action: SpawnDaemonAction,
    why: (ErrorKind, Seq<char>),
) -> bool {
    &&& post.phase == SpawnPhase::Over
    &&& action matches SpawnDaemonAction::Finish(r)
    &&& r matches Err(e)
    &&& e@ == why
}

/// The failure, with what else went wrong in front of it.
pub open spec fn with_context(e: EngineError, outer: Seq<char>) -> (ErrorKind, Seq<char>) {
    (e@.0, outer + ": "@ + e@.1)
}

/// One step of starting the daemon.
pub open spec fn spawn_step(
    pre: SpawnDaemon,
    reply: SpawnDaemonReply,
    post: SpawnDaemon,
    action: SpawnDaemonAction,
) -> bool {
    &&& post.product == pre.product
    &&& post.dir == pre.dir
    &&& match (pre.phase, reply) {
        (SpawnPhase::Start, SpawnDaemonReply::Begin) => post.phase == SpawnPhase::Locating
            && action is Locate,
        (SpawnPhase::Locating, SpawnDaemonReply::Executable(r)) => match r {
            Err(e) => spawn_fails(
                post,
                action,
                with_context(e, "cannot locate current executable"@),
            ),
            Ok(exe) => if components(exe@).len() == 0 || components(exe@) == seq![seq!['/']] {
                spawn_fails(
                    post,
                    action,
                    (ErrorKind::Internal, "current executable has no parent directory"@),
                )
            } else {
                &&& post.phase == SpawnPhase::MakingDir
                &&& exists|dir: Seq<char>|
                    is_parent_dir(dir, exe@) && post.binary@ == #[trigger] joined_path(
                        dir,
                        pre.product.daemon(),
                    )
                &&& action matches SpawnDaemonAction::MakeDir(path)
                &&& path@ == pre.dir@
            },
        },
        (SpawnPhase::MakingDir, SpawnDaemonReply::Done(r)) => match r {
            Err(e) => spawn_fails(
                post,
                action,
                with_context(e, "cannot create state dir "@ + pre.dir@),
            ),
            Ok(_) => {
                &&& post.phase == SpawnPhase::OpeningLog
                &&& post.binary == pre.binary
                &&& action matches SpawnDaemonAction::OpenLog(path)
                &&& path@ == state_file(pre.product, pre.dir@, ".log"@)
            },
        },
        (SpawnPhase::OpeningLog, SpawnDaemonReply::Done(r)) => match r {
            Err(e) => spawn_fails(post, action, e@),
            Ok(_) => {
                &&& post.phase == SpawnPhase::Starting
                &&& post.binary == pre.binary
                &&& action matches SpawnDaemonAction::Start(path)
                &&& path@ == pre.binary@
            },
        },
        (SpawnPhase::Starting, SpawnDaemonReply::Done(r)) => match r {
            Err(e) => spawn_fails(
                post,
                action,
                with_context(e, "failed to start daemon binary "@ + pre.binary@),
            ),
            Ok(_) => post.phase == SpawnPhase::Over && (action matches SpawnDaemonAction::Finish(
                answer,
            ) && answer is Ok),
        },
        _ => spawn_fails(post, action, (ErrorKind::Internal, "unexpected reply"@)),
    }
}

impl SpawnDaemon {
    fn fail(&mut self, e: EngineError) -> (action: SpawnDaemonAction)
        ensures
            final(self).product == old(self).product,
            final(self).dir == old(self).dir,
            spawn_fails(*final(self), action, e@),
    {
        self.phase = SpawnPhase::Over;
        SpawnDaemonAction::Finish(Err(e))
    }

    /// Takes the reply to the last action and says what has to be done next.
    pub fn step(&mut self, reply: SpawnDaemonReply) -> (action: SpawnDaemonAction)
        ensures
            spawn_step(*old(self), reply, *final(self), action),
    {
        match (self.phase, reply) {
            (SpawnPhase::Start, SpawnDaemonReply::Begin) => {
                self.phase = SpawnPhase::Locating;
                SpawnDaemonAction::Locate
            },
            (SpawnPhase::Locating, SpawnDaemonReply::Executable(r)) => match r {
                Err(e) => self.fail(e.context("cannot locate current executable")),
                Ok(exe) => match daemon_binary(self.product, exe.as_str()) {
                    Err(e) => self.fail(e),
                    Ok(binary) => {
                        self.phase = SpawnPhase::MakingDir;
                        self.binary = binary;
                        SpawnDaemonAction::MakeDir(self.dir.clone())
                    },
                },
            },
            (SpawnPhase::MakingDir, SpawnDaemonReply::Done(r)) => match r {
                Err(e) => {
                    let outer = "cannot create state dir ".to_string().concat(self.dir.as_str());
                    self.fail(e.context(outer.as_str()))
                },
                Ok(_) => {
                    self.phase = SpawnPhase::OpeningLog;
                    SpawnDaemonAction::OpenLog(log_path(self.product, self.dir.as_str()))
                },
            },
            (SpawnPhase::OpeningLog, SpawnDaemonReply::Done(r)) => match r {
                Err(e) => self.fail(e),
                Ok(_) => {
                    self.phase = SpawnPhase::Starting;
                    SpawnDaemonAction::Start(self.binary.clone())
                },
            },
            (SpawnPhase::Starting, SpawnDaemonReply::Done(r)) => match r {
                Err(e) => {
                    let outer = "failed to start daemon binary ".to_string().concat(
                        self.binary.as_str(),
                    );
                    self.fail(e.context(outer.as_str()))
                },
                Ok(_) => {
                    self.phase = SpawnPhase::Over;
                    SpawnDaemonAction::Finish(Ok(()))
                },
            },
            _ => self.fail(EngineError::Internal("unexpected reply".to_string())),
        }
    }
}

/// A connection from its start on: the states that it went through, the reply that
/// each was given, and the action that followed.
pub open spec fn is_connect_run(
    states: Seq<Connect>,
    replies: Seq<ConnectReply>,
    actions: Seq<ConnectAction>,
) -> bool {
    &&& states.len() == replies.len() + 1
    &&& actions.len() == replies.len()
    &&& states[0].phase == ConnectPhase::Start
    &&& forall|i: int|
        0 <= i < replies.len() ==> connect_step(
            states[i],
            #[trigger] replies[i],
            states[i + 1],
            actions[i],
        )
}

proof fn start_is_left(
    states: Seq<Connect>,
    replies: Seq<ConnectReply>,
    actions: Seq<ConnectAction>,
    i: int,
)
    requires
        is_connect_run(states, replies, actions),
        0 < i < states.len(),
    ensures
        states[i].phase != ConnectPhase::Start,
        states[i].phase == ConnectPhase::Probing ==> i == 1,
    decreases i,
{
    assert(connect_step(states[i - 1], replies[i - 1], states[i], actions[i - 1]));
    if i > 1 {
        start_is_left(states, replies, actions, i - 1);
    }
}

/// A connection starts a daemon at most once, and only after the first look at the
/// socket brought no answer.
pub proof fn one_start_per_connection(
    states: Seq<Connect>,
    replies: Seq<ConnectReply>,
    actions: Seq<ConnectAction>,
    i: int,
)
    requires
        is_connect_run(states, replies, actions),
        0 <= i < actions.len(),
        actions[i] is Spawn,
    ensures
        i == 1,
        actions[0] is Probe,
        replies[1] matches ConnectReply::Health { answered, .. } && !answered,
{
    assert(connect_step(states[i], replies[i], states[i + 1], actions[i]));
    if i > 0 {
        start_is_left(states, replies, actions, i);
        assert(connect_step(states[0], replies[0], states[1], actions[0]));
    }
}

} // verus!
