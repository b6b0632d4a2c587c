//! The daemon: where its state lives, who commits are by, and how it starts.

use vstd::prelude::*;
use vstd::string::*;
use vstd::utf8::*;

use crate::error::EngineError;
#[allow(unused_imports)]
use crate::error::ErrorKind;
use crate::git::ProcessOutput;
use crate::paths::join_path;
#[allow(unused_imports)]
use crate::paths::joined_path;
use crate::text::{is_utf8, lossy, starts_with, trim};
#[allow(unused_imports)]
use crate::text::{lossy_text, trimmed};

verus! {

/// The two names that the program goes by.
#[derive(Debug, Clone, Copy, PartialEq, Eq, Structural)]
pub enum Product {
    Bg,
    Dvr,
}

impl Product {
    /// The name of the client.
    pub open spec fn name(self) -> Seq<char> {
        match self {
            Product::Bg => "bg"@,
            Product::Dvr => "dvr"@,
        }
    }

    /// The name of the daemon.
    pub open spec fn daemon(self) -> Seq<char> {
        self.name() + "d"@
    }

    /// The name of the client.
    pub fn client_name(self) -> (r: String)
        ensures
            r@ == self.name(),
    {
        match self {
            Product::Bg => "bg".to_string(),
            Product::Dvr => "dvr".to_string(),
        }
    }

    /// The name of the daemon.
    pub fn daemon_name(self) -> (r: String)
        ensures
            r@ == self.daemon(),
    {
        self.client_name().concat("d")
    }

    /// The environment variable that names the state directory.
    pub fn state_variable(self) -> (r: String)
        ensures
            r@ == match self {
                Product::Bg => "BG_STATE_DIR"@,
                Product::Dvr => "DVR_STATE_DIR"@,
            },
    {
        match self {
            Product::Bg => "BG_STATE_DIR".to_string(),
            Product::Dvr => "DVR_STATE_DIR".to_string(),
        }
    }
}

/// The state directory: what the environment variable names, else one in the home
/// directory. One of the two has to be known.
pub fn state_dir(product: Product, set: Option<&str>, home: Option<&str>) -> (r: String)
    requires
        set is Some || home is Some,
    ensures
        r@ == match set {
            Some(dir) => dir@,
            None => joined_path(home->0@, ".local/state/"@ + product.name()),
        },
{
    match set {
        Some(dir) => dir.to_string(),
        None => match home {
            Some(home) => join_path(
                home,
                ".local/state/".to_string().concat(product.client_name().as_str()).as_str(),
            ),
            None => String::new(),
        },
    }
}

/// A file of the daemon in its state directory.
pub open spec fn state_file(product: Product, dir: Seq<char>, suffix: Seq<char>) -> Seq<char> {
    joined_path(dir, product.daemon() + suffix)
}

fn file_in(product: Product, dir: &str, suffix: &str) -> (r: String)
    ensures
        r@ == state_file(product, dir@, suffix@),
{
    join_path(dir, product.daemon_name().concat(suffix).as_str())
}

/// The socket that the daemon listens on.
pub fn socket_path(product: Product, dir: &str) -> (r: String)
    ensures
        r@ == state_file(product, dir@, ".sock"@),
{
    file_in(product, dir, ".sock")
}

/// The file whose lock the daemon holds as long as it runs.
pub fn lock_path(product: Product, dir: &str) -> (r: String)
    ensures
        r@ == state_file(product, dir@, ".lock"@),
{
    file_in(product, dir, ".lock")
}

/// The file that the daemon writes its process id to.
pub fn pid_path(product: Product, dir: &str) -> (r: String)
    ensures
        r@ == state_file(product, dir@, ".pid"@),
{
    file_in(product, dir, ".pid")
}

/// Where the output of a daemon goes that the client has started.
pub fn log_path(product: Product, dir: &str) -> (r: String)
    ensures
        r@ == state_file(product, dir@, ".log"@),
{
    file_in(product, dir, ".log")
}

/// What `git config` says, where it ran and says something.
pub open spec fn config_value(out: Option<ProcessOutput>) -> Option<Seq<char>> {
    match out {
        Some(o) => if o.success && trimmed(lossy_text(o.stdout@)).len() > 0 {
            Some(trimmed(lossy_text(o.stdout@)))
        } else {
            None
        },
        None => None,
    }
}

fn config_text(out: &Option<ProcessOutput>) -> (r: Option<String>)
    ensures
        match r {
            Some(s) => config_value(*out) == Some(s@),
            None => config_value(*out) is None,
        },
{
    match out {
        Some(o) => {
            if !o.success {
                return None;
            }
            let said = trim(lossy(o.stdout.as_slice()).as_str());
            if said.as_str().is_empty() {
                None
            } else {
                Some(said)
            }
        },
        None => None,
    }
}

/// Who commits are by.
#[derive(Debug, Clone, PartialEq)]
pub struct Identity {
    pub name: String,
    pub email: String,
}

/// The identity that git is configured with, from what `git config` said of
/// `user.name` and `user.email`; with a fallback for each, so that the daemon works
/// where git has none.
pub fn git_identity(
    product: Product,
    name: &Option<ProcessOutput>,
    email: &Option<ProcessOutput>,
) -> (r: Identity)
    ensures
        r.name@ == match config_value(*name) {
            Some(said) => said,
            None => product.name(),
        },
        r.email@ == match config_value(*email) {
            Some(said) => said,
            None => product.name() + "@localhost"@,
        },
{
    Identity {
        name: match config_text(name) {
            Some(said) => said,
            None => product.client_name(),
        },
        email: match config_text(email) {
            Some(said) => said,
            None => product.client_name().concat("@localhost"),
        },
    }
}

/// What came back from the socket says that a daemon is there: text that starts
/// with a success status.
pub open spec fn healthy_reply(bytes: Seq<u8>) -> bool {
    valid_utf8(bytes) && "HTTP/1.1 200"@.is_prefix_of(decode_utf8(bytes))
}

/// Whether a live daemon answered, from the first bytes of its answer. A stale
/// socket gives none.
pub fn health_answers(answer: &Option<Vec<u8>>) -> (r: bool)
    ensures
        r == (answer is Some && healthy_reply(answer->0@)),
{
    match answer {
        Some(bytes) => is_utf8(bytes.as_slice()) && starts_with(
            lossy(bytes.as_slice()).as_str(),
            "HTTP/1.1 200",
        ),
        None => false,
    }
}

/// What is sent to the socket to see whether a daemon is there.
pub fn health_request(product: Product) -> (r: String)
    ensures
        r@ == "GET /health HTTP/1.1\r\nHost: "@ + product.daemon()
            + "\r\nConnection: close\r\n\r\n"@,
{
    "GET /health HTTP/1.1\r\nHost: ".to_string().concat(product.daemon_name().as_str()).concat(
        "\r\nConnection: close\r\n\r\n",
    )
}

/// What came of taking the lock.
pub enum LockReply {
    Taken,
    /// Another process holds it.
    Held,
    /// The lock file could not be opened.
    Failed(EngineError),
}

/// What the start of the daemon waits for.
#[derive(Debug, Clone, Copy, PartialEq, Eq, Structural)]
pub enum StartPhase {
    Start,
    MakingDir,
    LookForSocket,
    Probing,
    Locking,
    WritingPid,
    Loading,
    Scanning,
    Watching,
    RemovingSocket,
    Binding,
    Serving,
    Over,
}

/// The start of a daemon on a state directory. There is one daemon for a directory:
/// a second one is refused before it touches anything of the first.
pub struct StartUp {
    pub product: Product,
    pub dir: String,
    pub phase: StartPhase,
    /// The lock is held.
    pub locked: bool,
    /// Every registered repo was snapshotted.
    pub scanned: bool,
}

/// What has to be done next to start the daemon.
pub enum StartAction {
    /// Create the directory, and those above it.
    MakeDir(String),
    /// Say whether there is anything at the path.
    LookFor(String),
    /// Send the request to the socket and give back the first bytes of the answer,
    /// or nothing where none came within a second.
    Probe { socket: String, request: String },
    /// Take the lock without waiting, and hold it as long as the process runs.
    Lock(String),
    /// Write the process id to the file. A failure does not matter.
    WritePid(String),
    /// Load the registry.
    Load(String),
    /// Snapshot every registered repo.
    SnapshotAllRepos,
    /// Watch every workspace root.
    SpawnWatcher,
    /// Remove what is left of an earlier socket. A failure does not matter.
    RemoveSocket(String),
    /// Listen on the socket.
    Bind(String),
    /// Serve, for as long as it goes.
    Serve,
    Finish(Result<(), EngineError>),
}

/// What came of an action.
pub enum StartReply {
    Begin,
    Done(Result<(), EngineError>),
    Exists(bool),
    Answer(Option<Vec<u8>>),
    Lock(LockReply),
}

pub open spec fn start_fails(
    post: StartUp,
    action: StartAction,
    why: (ErrorKind, Seq<char>),
) -> bool {
    &&& post.phase == StartPhase::Over
    &&& action matches StartAction::Finish(r)
    &&& r matches Err(e)
    &&& e@ == why
}

/// The start goes on to take the lock.
pub open spec fn start_locks(pre: StartUp, post: StartUp, action: StartAction) -> bool {
    &&& post.phase == StartPhase::Locking
    &&& post.locked == pre.locked
    &&& post.scanned == pre.scanned
    &&& action matches StartAction::Lock(path)
    &&& path@ == state_file(pre.product, pre.dir@, ".lock"@)
}

/// One step of the start.
pub open spec fn start_step(
    pre: StartUp,
    reply: StartReply,
    post: StartUp,
    action: StartAction,
) -> bool {
    let sock = state_file(pre.product, pre.dir@, ".sock"@);
    let lock = state_file(pre.product, pre.dir@, ".lock"@);
    &&& post.product == pre.product
    &&& post.dir == pre.dir
    &&& match (pre.phase, reply) {
        (StartPhase::Start, StartReply::Begin) => {
            &&& post.phase == StartPhase::MakingDir
            &&& post.locked == pre.locked
            &&& post.scanned == pre.scanned
            &&& action matches StartAction::MakeDir(path)
            &&& path@ == pre.dir@
        },
        (StartPhase::LookForSocket, StartReply::Exists(there)) => if there {
            &&& post.phase == StartPhase::Probing
            &&& post.locked == pre.locked
            &&& post.scanned == pre.scanned
            &&& action matches StartAction::Probe { socket, request }
            &&& socket@ == sock
            &&& request@ == "GET /health HTTP/1.1\r\nHost: "@ + pre.product.daemon()
                + "\r\nConnection: close\r\n\r\n"@
        } else {
            start_locks(pre, post, action)
        },
        (StartPhase::Probing, StartReply::Answer(answer)) => if answer is Some && healthy_reply(
            answer->0@,
        ) {
            start_fails(
                post,
                action,
                (
                    ErrorKind::Internal,
                    pre.product.daemon() + " already running (socket "@ + sock
                        + " answers /health)"@,
                ),
            )
        } else {
            start_locks(pre, post, action)
        },
        (StartPhase::Locking, StartReply::Lock(r)) => match r {
            LockReply::Taken => {
                &&& post.phase == StartPhase::WritingPid
                &&& post.locked
                &&& post.scanned == pre.scanned
                &&& action matches StartAction::WritePid(path)
                &&& path@ == state_file(pre.product, pre.dir@, ".pid"@)
            },
            LockReply::Held => start_fails(
                post,
                action,
                (
                    ErrorKind::Internal,
                    pre.product.daemon() + " already running (could not lock "@ + lock + ")"@,
                ),
            ),
            LockReply::Failed(e) => start_fails(post, action, e@),
        },
        (StartPhase::WritingPid, StartReply::Done(_)) => {
            &&& post.phase == StartPhase::Loading
            &&& post.locked == pre.locked
            &&& post.scanned == pre.scanned
            &&& action matches StartAction::Load(path)
            &&& path@ == pre.dir@
        },
        (StartPhase::RemovingSocket, StartReply::Done(_)) => {
            &&& post.phase == StartPhase::Binding
            &&& post.locked == pre.locked
            &&& post.scanned == pre.scanned
            &&& action matches StartAction::Bind(path)
            &&& path@ == sock
        },
        (
            StartPhase::MakingDir
            | StartPhase::Loading
            | StartPhase::Scanning
            | StartPhase::Watching
            | StartPhase::Binding
            | StartPhase::Serving,
            StartReply::Done(r),
        ) => match r {
            Err(e) => start_fails(post, action, e@),
            Ok(_) => {
                &&& post.locked == pre.locked
                &&& post.scanned == (pre.scanned || pre.phase == StartPhase::Scanning)
                &&& match pre.phase {
                    StartPhase::MakingDir => {
                        &&& post.phase == StartPhase::LookForSocket
                        &&& action matches StartAction::LookFor(path)
                        &&& path@ == sock
                    },
                    StartPhase::Loading => post.phase == StartPhase::Scanning
                        && action is SnapshotAllRepos,
                    StartPhase::Scanning => post.phase == StartPhase::Watching
                        && action is SpawnWatcher,
                    StartPhase::Watching => {
                        &&& post.phase == StartPhase::RemovingSocket
                        &&& action matches StartAction::RemoveSocket(path)
                        &&& path@ == sock
                    },
                    StartPhase::Binding => post.phase == StartPhase::Serving && action is Serve,
                    _ => post.phase == StartPhase::Over && (action matches StartAction::Finish(
                        answer,
                    ) && answer is Ok),
                }
            },
        },
        _ => start_fails(post, action, (ErrorKind::Internal, "unexpected reply"@)),
    }
}

/// The phases after the lock was taken.
pub open spec fn after_lock(phase: StartPhase) -> bool {
    phase == StartPhase::WritingPid || phase == StartPhase::Loading || phase
        == StartPhase::Scanning || after_scan(phase)
}

/// The phases after the registered repos were snapshotted.
pub open spec fn after_scan(phase: StartPhase) -> bool {
    phase == StartPhase::Watching || phase == StartPhase::RemovingSocket || phase
        == StartPhase::Binding || phase == StartPhase::Serving
}

/// The start of a daemon on the state directory `dir`.
pub fn run_with_dir(product: Product, dir: String) -> (r: StartUp)
    ensures
        r.wf(),
        r.product == product,
        r.dir == dir,
        r.phase == StartPhase::Start,
        !r.locked,
        !r.scanned,
{
    StartUp { product, dir, phase: StartPhase::Start, locked: false, scanned: false }
}

impl StartUp {
    pub open spec fn wf(self) -> bool {
        &&& after_lock(self.phase) ==> self.locked
        &&& after_scan(self.phase) ==> self.scanned
    }

    fn fail(&mut self, e: EngineError) -> (action: StartAction)
        ensures
            final(self).product == old(self).product,
            final(self).dir == old(self).dir,
            final(self).wf(),
            start_fails(*final(self), action, e@),
    {
        self.phase = StartPhase::Over;
        StartAction::Finish(Err(e))
    }

    fn unexpected(&mut self) -> (action: StartAction)
        ensures
            final(self).product == old(self).product,
            final(self).dir == old(self).dir,
            final(self).wf(),
            start_fails(*final(self), action, (ErrorKind::Internal, "unexpected reply"@)),
    {
        self.fail(EngineError::Internal("unexpected reply".to_string()))
    }

    fn take_lock(&mut self) -> (action: StartAction)
        ensures
            final(self).product == old(self).product,
            final(self).dir == old(self).dir,
            final(self).wf(),
            start_locks(*old(self), *final(self), action),
    {
        self.phase = StartPhase::Locking;
        StartAction::Lock(lock_path(self.product, self.dir.as_str()))
    }

    /// Takes the reply to the last action and says what has to be done next.
    pub fn step(&mut self, reply: StartReply) -> (action: StartAction)
        requires
            old(self).wf(),
        ensures
            final(self).wf(),
            start_step(*old(self), reply, *final(self), action),
    {
        match reply {
            StartReply::Begin => {
                if self.phase != StartPhase::Start {
                    return self.unexpected();
                }
                self.phase = StartPhase::MakingDir;
                StartAction::MakeDir(self.dir.clone())
            },
            StartReply::Exists(there) => {
                if self.phase != StartPhase::LookForSocket {
                    return self.unexpected();
                }
                if there {
                    self.phase = StartPhase::Probing;
                    StartAction::Probe {
                        socket: socket_path(self.product, self.dir.as_str()),
                        request: health_request(self.product),
                    }
                } else {
                    self.take_lock()
                }
            },
            StartReply::Answer(answer) => {
                if self.phase != StartPhase::Probing {
                    return self.unexpected();
                }
                if health_answers(&answer) {
                    let message = self.product.daemon_name().concat(
                        " already running (socket ",
                    ).concat(socket_path(self.product, self.dir.as_str()).as_str()).concat(
                        " answers /health)",
                    );
                    self.fail(EngineError::Internal(message))
                } else {
                    self.take_lock()
                }
            },
            StartReply::Lock(r) => {
                if self.phase != StartPhase::Locking {
                    return self.unexpected();
                }
                match r {
                    LockReply::Taken => {
                        self.locked = true;
                        self.phase = StartPhase::WritingPid;
                        StartAction::WritePid(pid_path(self.product, self.dir.as_str()))
                    },
                    LockReply::Held => {
                        let message = self.product.daemon_name().concat(
                            " already running (could not lock ",
                        ).concat(lock_path(self.product, self.dir.as_str()).as_str()).concat(")");
                        self.fail(EngineError::Internal(message))
                    },
                    LockReply::Failed(e) => self.fail(e),
                }
            },
            StartReply::Done(r) => self.done(r),
        }
    }

    fn done(&mut self, r: Result<(), EngineError>) -> (action: StartAction)
        requires
            old(self).wf(),
        ensures
            final(self).wf(),
            start_step(*old(self), StartReply::Done(r), *final(self), action),
    {
        if self.phase == StartPhase::WritingPid {
            self.phase = StartPhase::Loading;
            return StartAction::Load(self.dir.clone());
        }
        if self.phase == StartPhase::RemovingSocket {
            self.phase = StartPhase::Binding;
            return StartAction::Bind(socket_path(self.product, self.dir.as_str()));
        }
        let waits = match self.phase {
            StartPhase::MakingDir
            | StartPhase::Loading
            | StartPhase::Scanning
            | StartPhase::Watching
            | StartPhase::Binding
            | StartPhase::Serving => true,
            _ => false,
        };
        if !waits {
            return self.unexpected();
        }
        if let Err(e) = r {
            return self.fail(e);
        }
        match self.phase {
            StartPhase::MakingDir => {
                self.phase = StartPhase::LookForSocket;
                StartAction::LookFor(socket_path(self.product, self.dir.as_str()))
            },
            StartPhase::Loading => {
                self.phase = StartPhase::Scanning;
                StartAction::SnapshotAllRepos
            },
            StartPhase::Scanning => {
                self.scanned = true;
                self.phase = StartPhase::Watching;
                StartAction::SpawnWatcher
            },
            StartPhase::Watching => {
                self.phase = StartPhase::RemovingSocket;
                StartAction::RemoveSocket(socket_path(self.product, self.dir.as_str()))
            },
            StartPhase::Binding => {
                self.phase = StartPhase::Serving;
                StartAction::Serve
            },
            _ => {
                self.phase = StartPhase::Over;
                StartAction::Finish(Ok(()))
            },
        }
    }
}

/// What was edited while no daemon ran is in the log before a request is served:
/// the daemon listens and serves only after every registered repo was snapshotted.
pub proof fn scan_comes_before_serving(
    pre: StartUp,
    reply: StartReply,
    post: StartUp,
    action: StartAction,
)
    requires
        pre.wf(),
        start_step(pre, reply, post, action),
        action is Bind || action is Serve,
    ensures
        pre.scanned,
        pre.locked,
{
}

/// The socket of a daemon that runs is never taken away: only the holder of the lock
/// loads repos, removes a socket or listens.
pub proof fn only_the_lock_holder_acts(
    pre: StartUp,
    reply: StartReply,
    post: StartUp,
    action: StartAction,
)
    requires
        pre.wf(),
        start_step(pre, reply, post, action),
        action is Load || action is SnapshotAllRepos || action is SpawnWatcher
            || action is RemoveSocket || action is Bind || action is Serve,
    ensures
        pre.locked,
{
}

/// A second daemon is refused at once where the first answers, or holds the lock.
pub proof fn second_daemon_is_refused(
    pre: StartUp,
    reply: StartReply,
    post: StartUp,
    action: StartAction,
)
    requires
        start_step(pre, reply, post, action),
        pre.phase == StartPhase::Locking && reply == StartReply::Lock(LockReply::Held) || (
        pre.phase == StartPhase::Probing && (reply matches StartReply::Answer(a) && a is Some
            && healthy_reply(a->0@))),
    ensures
        action matches StartAction::Finish(r) && r is Err,
{
}

/// A start-up from its beginning on: the states that it went through, the reply
/// that each was given, and the action that followed.
pub open spec fn is_start_run(
    states: Seq<StartUp>,
    replies: Seq<StartReply>,
    actions: Seq<StartAction>,
) -> bool {
    &&& states.len() == replies.len() + 1
    &&& actions.len() == replies.len()
    &&& states[0].phase == StartPhase::Start
    &&& !states[0].locked
    &&& !states[0].scanned
    &&& forall|i: int|
        0 <= i < replies.len() ==> start_step(
            states[i],
            #[trigger] replies[i],
            states[i + 1],
            actions[i],
        )
}

/// The lock was asked for and taken.
pub open spec fn lock_was_taken(asked: StartAction, reply: StartReply) -> bool {
    asked is Lock && reply == StartReply::Lock(LockReply::Taken)
}

/// Every registered repo was to be snapshotted, and all went well.
pub open spec fn scan_went_well(asked: StartAction, reply: StartReply) -> bool {
    asked is SnapshotAllRepos && (reply matches StartReply::Done(r) && r is Ok)
}

/// What a state has behind it was shown by a reply.
proof fn start_run_shows(
    states: Seq<StartUp>,
    replies: Seq<StartReply>,
    actions: Seq<StartAction>,
    i: int,
)
    requires
        is_start_run(states, replies, actions),
        0 <= i < states.len(),
    ensures
        states[i].wf(),
        states[i].phase == StartPhase::Locking ==> i > 0 && actions[i - 1] is Lock,
        states[i].phase == StartPhase::Scanning ==> i > 0 && actions[i - 1] is SnapshotAllRepos,
        states[i].phase != StartPhase::Over && states[i].locked ==> exists|j: int|
            0 < j < i && lock_was_taken(actions[j - 1], #[trigger] replies[j]),
        states[i].phase != StartPhase::Over && states[i].scanned ==> exists|j: int|
            0 < j < i && scan_went_well(actions[j - 1], #[trigger] replies[j]),
    decreases i,
{
    if i > 0 {
        start_run_shows(states, replies, actions, i - 1);
        let pre = states[i - 1];
        let post = states[i];
        assert(start_step(pre, replies[i - 1], post, actions[i - 1]));
        if post.phase != StartPhase::Over && post.locked {
            if pre.phase == StartPhase::Locking {
                assert(lock_was_taken(actions[i - 2], replies[i - 1]));
            } else {
                let j = choose|j: int|
                    0 < j < i - 1 && lock_was_taken(actions[j - 1], #[trigger] replies[j]);
                assert(lock_was_taken(actions[j - 1], replies[j]));
            }
        }
        if post.phase != StartPhase::Over && post.scanned {
            if pre.phase == StartPhase::Scanning {
                assert(scan_went_well(actions[i - 2], replies[i - 1]));
            } else {
                let j = choose|j: int|
                    0 < j < i - 1 && scan_went_well(actions[j - 1], #[trigger] replies[j]);
                assert(scan_went_well(actions[j - 1], replies[j]));
            }
        }
    }
}

/// Whatever happens on the way, a daemon listens and serves only after the lock was
/// taken, and after a snapshot of every registered repo went well.
pub proof fn served_repos_were_scanned(
    states: Seq<StartUp>,
    replies: Seq<StartReply>,
    actions: Seq<StartAction>,
    i: int,
)
    requires
        is_start_run(states, replies, actions),
        0 <= i < actions.len(),
        actions[i] is Bind || actions[i] is Serve,
    ensures
        exists|j: int| 0 < j < i && lock_was_taken(actions[j - 1], #[trigger] replies[j]),
        exists|j: int| 0 < j < i && scan_went_well(actions[j - 1], #[trigger] replies[j]),
{
    start_run_shows(states, replies, actions, i);
    assert(start_step(states[i], replies[i], states[i + 1], actions[i]));
}

} // verus!
