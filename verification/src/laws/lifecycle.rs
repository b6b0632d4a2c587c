//! The daemon is found, started and spoken to in its own directory.

use vstd::prelude::*;
use vstd::string::*;
use vstd::utf8::*;

#[allow(unused_imports)]
use crate::client::{
    api_failure, connect_step, cwd_repo_segment, daemon_binary, encode_segment, encoded, failure_of,
    is_connect_run, json_fault, read_json, shown_status, spawn_step, ApiFailure, Client,
    ClientError, Connect, ConnectAction, ConnectPhase, ConnectReply, Reply, SpawnDaemon,
    SpawnDaemonAction, SpawnDaemonReply, SpawnPhase,
};
#[allow(unused_imports)]
use crate::daemon::{
    git_identity, health_answers, health_request, healthy_reply, is_start_run, lock_path, log_path,
    pid_path, run_with_dir, socket_path, start_step, state_dir, Identity, LockReply, Product,
    StartAction, StartPhase, StartReply, StartUp,
};
#[allow(unused_imports)]
use crate::error::{EngineError, ErrorKind};
#[allow(unused_imports)]
use crate::git::ProcessOutput;
#[allow(unused_imports)]
use crate::laws::{fails, passes_on};
#[allow(unused_imports)]
use crate::paths::{components, joined_path, parent_of};
#[allow(unused_imports)]
use crate::proto::ApiError;
#[allow(unused_imports)]
use crate::text::{lossy_text, trimmed};

verus! {

/// What the daemon of a product is called.
pub open spec fn daemon_of(product: Product) -> Seq<char> {
    match product {
        Product::Bg => "bgd"@,
        Product::Dvr => "dvrd"@,
    }
}

proof fn daemons_are_called(product: Product)
    ensures
        product.daemon() == daemon_of(product),
{
    reveal_strlit("bg");
    reveal_strlit("dvr");
    reveal_strlit("d");
    reveal_strlit("bgd");
    reveal_strlit("dvrd");
    assert("bg"@ + "d"@ =~= "bgd"@);
    assert("dvr"@ + "d"@ =~= "dvrd"@);
}

/// The products have names of their own, for the client, for the daemon and in the
/// environment.
pub proof fn products_have_their_names(product: Product, r: String)
    ensures
        call_ensures(Product::client_name, (product,), r) ==> match product {
            Product::Bg => r@ == "bg"@,
            Product::Dvr => r@ == "dvr"@,
        },
        call_ensures(Product::daemon_name, (product,), r) ==> r@ == daemon_of(product),
        call_ensures(Product::state_variable, (product,), r) ==> match product {
            Product::Bg => r@ == "BG_STATE_DIR"@,
            Product::Dvr => r@ == "DVR_STATE_DIR"@,
        },
{
    daemons_are_called(product);
}

/// The state directory is the one that is set; where none is, it is below the home
/// directory, under the name of the product.
pub proof fn state_is_kept_where_set(
    product: Product,
    set: Option<&str>,
    home: Option<&str>,
    name: String,
    r: String,
)
    requires
        call_ensures(Product::client_name, (product,), name),
        call_ensures(state_dir, (product, set, home), r),
    ensures
        set matches Some(dir) ==> r@ == dir@,
        set is None && home is Some ==> r@ == joined_path(home->0@, ".local/state/"@ + name@),
        set is Some || home is Some ==> call_requires(state_dir, (product, set, home)),
{
}

/// The files of the daemon are in its state directory, under its name, and no two of
/// them are the same.
pub proof fn files_of_the_daemon_differ(
    product: Product,
    dir: &str,
    socket: String,
    lock: String,
    pid: String,
    log: String,
)
    requires
        call_ensures(socket_path, (product, dir), socket),
        call_ensures(lock_path, (product, dir), lock),
        call_ensures(pid_path, (product, dir), pid),
        call_ensures(log_path, (product, dir), log),
    ensures
        socket@ == joined_path(dir@, daemon_of(product) + ".sock"@),
        lock@ == joined_path(dir@, daemon_of(product) + ".lock"@),
        pid@ == joined_path(dir@, daemon_of(product) + ".pid"@),
        log@ == joined_path(dir@, daemon_of(product) + ".log"@),
        socket@.last() == 'k' && lock@.last() == 'k' && pid@.last() == 'd' && log@.last() == 'g',
        socket@ != lock@,
{
    daemons_are_called(product);
    let name = daemon_of(product);
    reveal_strlit("bgd");
    reveal_strlit("dvrd");
    reveal_strlit(".sock");
    reveal_strlit(".lock");
    reveal_strlit(".pid");
    reveal_strlit(".log");
    let (a, b) = (socket@, lock@);
    assert(a[a.len() - 4] == 's');
    assert(b[b.len() - 4] == 'l');
}

/// Commits are by whom git is configured for, or else by the product: a value counts
/// where git went well and printed something but white space.
pub proof fn commits_are_by_who_git_says(
    product: Product,
    name: &Option<ProcessOutput>,
    email: &Option<ProcessOutput>,
    client: String,
    r: Identity,
)
    requires
        call_ensures(Product::client_name, (product,), client),
        call_ensures(git_identity, (product, name, email), r),
    ensures
        is_configured(*name) ==> r.name@ == trimmed(lossy_text(name->0.stdout@)),
        !is_configured(*name) ==> r.name@ == client@,
        is_configured(*email) ==> r.email@ == trimmed(lossy_text(email->0.stdout@)),
        !is_configured(*email) ==> r.email@ == client@ + "@localhost"@,
{
}

/// Git went well, and printed something but white space.
pub open spec fn is_configured(out: Option<ProcessOutput>) -> bool {
    out matches Some(o) && o.success && trimmed(lossy_text(o.stdout@)).len() > 0
}

/// A daemon is there where its answer is text that begins as a success does; what is
/// asked is its health, in its name.
pub proof fn daemons_are_asked_for_their_health(
    product: Product,
    answer: &Option<Vec<u8>>,
    r: bool,
    request: String,
)
    ensures
        call_ensures(health_answers, (answer,), r) ==> r == (answer matches Some(bytes)
            && valid_utf8(bytes@) && "HTTP/1.1 200"@.is_prefix_of(decode_utf8(bytes@))),
        call_ensures(health_request, (product,), request) ==> request@
            == "GET /health HTTP/1.1\r\nHost: "@ + daemon_of(product)
            + "\r\nConnection: close\r\n\r\n"@,
{
    daemons_are_called(product);
}

/// The start of a daemon is made for the directory that is named, and goes by its steps.
pub proof fn starts_go_by_steps(
    product: Product,
    dir: String,
    start: StartUp,
    m: &mut StartUp,
    reply: StartReply,
    action: StartAction,
)
    ensures
        call_requires(run_with_dir, (product, dir)),
        call_ensures(run_with_dir, (product, dir), start) ==> start.product == product && start.dir
            == dir && start.phase == StartPhase::Start && !start.locked && !start.scanned
            && start.wf(),
        old(m).wf() ==> call_requires(StartUp::step, (m, reply)),
        call_ensures(StartUp::step, (m, reply), action) ==> final(m).wf() && start_step(
            *old(m),
            reply,
            *final(m),
            action,
        ),
{
}

/// A file of the daemon.
pub open spec fn daemon_file(m: StartUp, suffix: Seq<char>) -> Seq<char> {
    joined_path(m.dir@, daemon_of(m.product) + suffix)
}

/// The start of a daemon, action by action: in its own directory and with its own files
/// throughout; refused where another answers or holds the lock.
pub proof fn start_run_in_full(
    states: Seq<StartUp>,
    replies: Seq<StartReply>,
    actions: Seq<StartAction>,
    i: int,
)
    requires
        is_start_run(states, replies, actions),
        0 <= i < actions.len(),
    ensures
        i == 0 && replies[0] is Begin ==> (actions[0] matches StartAction::MakeDir(path) && path@
            == states[0].dir@),
        i > 0 && actions[i - 1] is MakeDir && replies[i] is Done ==> match replies[i]->Done_0 {
            Ok(_) => actions[i] matches StartAction::LookFor(path) && path@ == daemon_file(
                states[0],
                ".sock"@,
            ),
            Err(e) => actions[i] matches StartAction::Finish(r) && passes_on(r, e),
        },
        i > 0 && actions[i - 1] is LookFor && replies[i] is Exists ==> if replies[i]->Exists_0 {
            actions[i] matches StartAction::Probe { socket, request } && socket@ == daemon_file(
                states[0],
                ".sock"@,
            ) && request@ == "GET /health HTTP/1.1\r\nHost: "@ + daemon_of(states[0].product)
                + "\r\nConnection: close\r\n\r\n"@
        } else {
            actions[i] matches StartAction::Lock(path) && path@ == daemon_file(states[0], ".lock"@)
        },
        i > 0 && actions[i - 1] is Probe && replies[i] is Answer ==> if replies[i]->Answer_0 is Some
            && healthy_reply(replies[i]->Answer_0->0@) {
            actions[i] matches StartAction::Finish(r) && fails(
                r,
                ErrorKind::Internal,
                daemon_of(states[0].product) + " already running (socket "@ + daemon_file(
                    states[0],
                    ".sock"@,
                ) + " answers /health)"@,
            )
        } else {
            actions[i] matches StartAction::Lock(path) && path@ == daemon_file(states[0], ".lock"@)
        },
        i > 0 && actions[i - 1] is Lock && replies[i] is Lock ==> match replies[i]->Lock_0 {
            LockReply::Taken => actions[i] matches StartAction::WritePid(path) && path@
                == daemon_file(states[0], ".pid"@),
            LockReply::Held => actions[i] matches StartAction::Finish(r) && fails(
                r,
                ErrorKind::Internal,
                daemon_of(states[0].product) + " already running (could not lock "@ + daemon_file(
                    states[0],
                    ".lock"@,
                ) + ")"@,
            ),
            LockReply::Failed(e) => actions[i] matches StartAction::Finish(r) && passes_on(r, e),
        },
        i > 0 && actions[i - 1] is WritePid && replies[i] is Done ==> (
        actions[i] matches StartAction::Load(path) && path@ == states[0].dir@),
        i > 0 && actions[i - 1] is Load && replies[i] is Done ==> match replies[i]->Done_0 {
            Ok(_) => actions[i] is SnapshotAllRepos,
            Err(e) => actions[i] matches StartAction::Finish(r) && passes_on(r, e),
        },
        i > 0 && actions[i - 1] is SnapshotAllRepos && replies[i] is Done ==> match replies[i]->Done_0 {
            Ok(_) => actions[i] is SpawnWatcher,
            Err(e) => actions[i] matches StartAction::Finish(r) && passes_on(r, e),
        },
        i > 0 && actions[i - 1] is SpawnWatcher && replies[i] is Done ==> match replies[i]->Done_0 {
            Ok(_) => actions[i] matches StartAction::RemoveSocket(path) && path@ == daemon_file(
                states[0],
                ".sock"@,
            ),
            Err(e) => actions[i] matches StartAction::Finish(r) && passes_on(r, e),
        },
        i > 0 && actions[i - 1] is RemoveSocket && replies[i] is Done ==> (
        actions[i] matches StartAction::Bind(path) && path@ == daemon_file(states[0], ".sock"@)),
        i > 0 && actions[i - 1] is Bind && replies[i] is Done ==> match replies[i]->Done_0 {
            Ok(_) => actions[i] is Serve,
            Err(e) => actions[i] matches StartAction::Finish(r) && passes_on(r, e),
        },
        i > 0 && actions[i - 1] is Serve && replies[i] is Done ==> match replies[i]->Done_0 {
            Ok(_) => actions[i] matches StartAction::Finish(r) && r is Ok,
            Err(e) => actions[i] matches StartAction::Finish(r) && passes_on(r, e),
        },
        actions[i] matches StartAction::Finish(Ok(_)) ==> i > 0 && actions[i - 1] is Serve && (
        replies[i] matches StartReply::Done(r) && r is Ok),
{
    start_phases(states, replies, actions, i);
    daemons_are_called(states[0].product);
    assert(start_step(states[i], replies[i], states[i + 1], actions[i]));
}

proof fn start_phases(
    states: Seq<StartUp>,
    replies: Seq<StartReply>,
    actions: Seq<StartAction>,
    i: int,
)
    requires
        is_start_run(states, replies, actions),
        0 <= i < states.len(),
    ensures
        states[i].product == states[0].product,
        states[i].dir == states[0].dir,
        states[i].phase == StartPhase::Start <==> i == 0,
        states[i].phase == StartPhase::MakingDir <==> i > 0 && actions[i - 1] is MakeDir,
        states[i].phase == StartPhase::LookForSocket <==> i > 0 && actions[i - 1] is LookFor,
        states[i].phase == StartPhase::Probing <==> i > 0 && actions[i - 1] is Probe,
        states[i].phase == StartPhase::Locking <==> i > 0 && actions[i - 1] is Lock,
        states[i].phase == StartPhase::WritingPid <==> i > 0 && actions[i - 1] is WritePid,
        states[i].phase == StartPhase::Loading <==> i > 0 && actions[i - 1] is Load,
        states[i].phase == StartPhase::Scanning <==> i > 0 && actions[i - 1] is SnapshotAllRepos,
        states[i].phase == StartPhase::Watching <==> i > 0 && actions[i - 1] is SpawnWatcher,
        states[i].phase == StartPhase::RemovingSocket <==> i > 0 && actions[i - 1] is RemoveSocket,
        states[i].phase == StartPhase::Binding <==> i > 0 && actions[i - 1] is Bind,
        states[i].phase == StartPhase::Serving <==> i > 0 && actions[i - 1] is Serve,
    decreases i,
{
    if i > 0 {
        start_phases(states, replies, actions, i - 1);
        assert(start_step(states[i - 1], replies[i - 1], states[i], actions[i - 1]));
    }
}

/// A client is of its product and directory, and so is what it starts; the socket is
/// that of the daemon.
pub proof fn clients_go_to_their_daemon(
    product: Product,
    dir: String,
    client: Client,
    c: &Client,
    connect: Connect,
    spawn: SpawnDaemon,
    m: &mut Connect,
    reply: ConnectReply,
    action: ConnectAction,
    s: &mut SpawnDaemon,
    spawn_reply: SpawnDaemonReply,
    spawn_action: SpawnDaemonAction,
)
    ensures
        call_ensures(Client::new, (product, dir), client) ==> client.product == product
            && client.dir == dir && client.socket@ == joined_path(
            dir@,
            daemon_of(product) + ".sock"@,
        ),
        call_ensures(Client::connect, (c,), connect) ==> connect.product == c.product && connect.dir
            == c.dir && connect.phase == ConnectPhase::Start,
        call_ensures(Client::spawn_daemon, (c,), spawn) ==> spawn.product == c.product && spawn.dir
            == c.dir && spawn.phase == SpawnPhase::Start,
        call_requires(Connect::step, (m, reply)),
        call_ensures(Connect::step, (m, reply), action) ==> connect_step(
            *old(m),
            reply,
            *final(m),
            action,
        ),
        call_requires(SpawnDaemon::step, (s, spawn_reply)),
        call_ensures(SpawnDaemon::step, (s, spawn_reply), spawn_action) ==> spawn_step(
            *old(s),
            spawn_reply,
            *final(s),
            spawn_action,
        ),
{
    daemons_are_called(product);
}

/// A connection, action by action: the daemon is asked first; where it does not answer,
/// it is started, and asked again every tenth of a second, for five seconds.
pub proof fn connect_run_in_full(
    states: Seq<Connect>,
    replies: Seq<ConnectReply>,
    actions: Seq<ConnectAction>,
    i: int,
)
    requires
        is_connect_run(states, replies, actions),
        0 <= i < actions.len(),
    ensures
        i == 0 && replies[0] is Begin ==> actions[0] is Probe,
        i > 0 && actions[i - 1] is Probe && replies[i] is Health ==> if replies[i]->answered {
            actions[i] matches ConnectAction::Finish(r) && r is Ok
        } else if i == 1 {
            actions[i] is Spawn
        } else if replies[i]->elapsed_ms < 5000 {
            actions[i] matches ConnectAction::Sleep(ms) && ms == 100
        } else {
            actions[i] matches ConnectAction::Finish(r) && fails(
                r,
                ErrorKind::Internal,
                "daemon did not become healthy within 5s (log: "@ + joined_path(
                    states[0].dir@,
                    daemon_of(states[0].product) + ".log"@,
                ) + ")"@,
            )
        },
        i > 0 && actions[i - 1] is Spawn && replies[i] is Spawned ==> match replies[i]->Spawned_0 {
            Ok(_) => actions[i] is Probe,
            Err(e) => actions[i] matches ConnectAction::Finish(r) && passes_on(r, e),
        },
        i > 0 && actions[i - 1] is Sleep && replies[i] is Slept ==> actions[i] is Probe,
        actions[i] matches ConnectAction::Finish(Ok(_)) ==> i > 0 && actions[i - 1] is Probe && (
        replies[i] matches ConnectReply::Health { answered, .. } && answered),
{
    connect_phases(states, replies, actions, i);
    daemons_are_called(states[0].product);
    assert(connect_step(states[i], replies[i], states[i + 1], actions[i]));
}

proof fn connect_phases(
    states: Seq<Connect>,
    replies: Seq<ConnectReply>,
    actions: Seq<ConnectAction>,
    i: int,
)
    requires
        is_connect_run(states, replies, actions),
        0 <= i < states.len(),
    ensures
        states[i].product == states[0].product,
        states[i].dir == states[0].dir,
        states[i].phase == ConnectPhase::Start <==> i == 0,
        states[i].phase == ConnectPhase::Probing <==> i == 1 && actions[0] is Probe,
        states[i].phase == ConnectPhase::Polling <==> i > 1 && actions[i - 1] is Probe,
        states[i].phase == ConnectPhase::Spawning <==> i > 0 && actions[i - 1] is Spawn,
        states[i].phase == ConnectPhase::Sleeping <==> i > 0 && actions[i - 1] is Sleep,
        states[i].phase == ConnectPhase::Spawning ==> i == 2,
        states[i].phase == ConnectPhase::Sleeping ==> i > 2,
    decreases i,
{
    if i > 0 {
        connect_phases(states, replies, actions, i - 1);
        assert(connect_step(states[i - 1], replies[i - 1], states[i], actions[i - 1]));
    }
}

/// The start of a daemon by the client, from its start on.
pub open spec fn is_spawn_run(
    states: Seq<SpawnDaemon>,
    replies: Seq<SpawnDaemonReply>,
    actions: Seq<SpawnDaemonAction>,
) -> bool {
    &&& states.len() == replies.len() + 1
    &&& actions.len() == replies.len()
    &&& states[0].phase == SpawnPhase::Start
    &&& forall|i: int|
        0 <= i < replies.len() ==> spawn_step(
            states[i],
            #[trigger] replies[i],
            states[i + 1],
            actions[i],
        )
}

/// The path is that of the daemon in the directory that the executable is in.
pub open spec fn is_beside(path: Seq<char>, exe: Seq<char>, daemon: Seq<char>) -> bool {
    exists|dir: Seq<char>|
        components(dir) == components(exe).drop_last() && dir.is_prefix_of(exe) && path
            == #[trigger] joined_path(dir, daemon)
}

/// The daemon of a client is beside it.
pub proof fn daemons_are_beside_their_client(
    product: Product,
    exe: &str,
    r: Result<String, EngineError>,
    dir: Option<String>,
)
    ensures
        call_ensures(daemon_binary, (product, exe), r) ==> if components(exe@).len() == 0
            || components(exe@) == seq!["/"@] {
            fails(r, ErrorKind::Internal, "current executable has no parent directory"@)
        } else {
            r matches Ok(path) && is_beside(path@, exe@, daemon_of(product))
        },
        call_ensures(parent_of, (exe,), dir) ==> match dir {
            Some(d) => components(d@) == components(exe@).drop_last() && d@.is_prefix_of(exe@)
                && components(exe@).len() > 0 && components(exe@) != seq!["/"@],
            None => components(exe@).len() == 0 || components(exe@) == seq!["/"@],
        },
{
    daemons_are_called(product);
    reveal_strlit("/");
    assert("/"@ =~= seq!['/']);
    if call_ensures(daemon_binary, (product, exe), r) && r is Ok {
        let path = r->Ok_0@;
        let d = choose|d: Seq<char>|
            crate::paths::is_parent_dir(d, exe@) && path == #[trigger] joined_path(
                d,
                product.daemon(),
            );
        assert(path == joined_path(d, daemon_of(product)));
    }
}

/// The start of a daemon by the client, action by action: the binary is the one beside
/// the client, the directory is made before, and the log in it takes what it prints.
pub proof fn spawn_run_in_full(
    states: Seq<SpawnDaemon>,
    replies: Seq<SpawnDaemonReply>,
    actions: Seq<SpawnDaemonAction>,
    i: int,
)
    requires
        is_spawn_run(states, replies, actions),
        0 <= i < actions.len(),
    ensures
        i == 0 && replies[0] is Begin ==> actions[0] is Locate,
        i == 1 && actions[0] is Locate && replies[1] is Executable ==> match replies[1]->Executable_0 {
            Ok(exe) => if components(exe@).len() == 0 || components(exe@) == seq!["/"@] {
                actions[1] matches SpawnDaemonAction::Finish(r) && fails(
                    r,
                    ErrorKind::Internal,
                    "current executable has no parent directory"@,
                )
            } else {
                actions[1] matches SpawnDaemonAction::MakeDir(path) && path@ == states[0].dir@
            },
            Err(e) => actions[1] matches SpawnDaemonAction::Finish(r) && fails(
                r,
                e@.0,
                "cannot locate current executable"@ + ": "@ + e@.1,
            ),
        },
        i == 2 && actions[1] is MakeDir && replies[2] is Done ==> match replies[2]->Done_0 {
            Ok(_) => actions[2] matches SpawnDaemonAction::OpenLog(path) && path@ == joined_path(
                states[0].dir@,
                daemon_of(states[0].product) + ".log"@,
            ),
            Err(e) => actions[2] matches SpawnDaemonAction::Finish(r) && fails(
                r,
                e@.0,
                "cannot create state dir "@ + states[0].dir@ + ": "@ + e@.1,
            ),
        },
        i == 3 && actions[2] is OpenLog && replies[3] is Done ==> match replies[3]->Done_0 {
            Ok(_) => actions[3] matches SpawnDaemonAction::Start(path) && is_beside(
                path@,
                replies[1]->Executable_0->Ok_0@,
                daemon_of(states[0].product),
            ),
            Err(e) => actions[3] matches SpawnDaemonAction::Finish(r) && passes_on(r, e),
        },
        i == 4 && actions[3] is Start && replies[4] is Done ==> match replies[4]->Done_0 {
            Ok(_) => actions[4] matches SpawnDaemonAction::Finish(r) && r is Ok,
            Err(e) => actions[4] matches SpawnDaemonAction::Finish(r) && fails(
                r,
                e@.0,
                "failed to start daemon binary "@ + actions[3]->Start_0@ + ": "@ + e@.1,
            ),
        },
        actions[i] matches SpawnDaemonAction::Finish(Ok(_)) ==> i == 4 && actions[3] is Start && (
        replies[4] matches SpawnDaemonReply::Done(r) && r is Ok),
{
    spawn_phases(states, replies, actions, i);
    daemons_are_called(states[0].product);
    reveal_strlit("/");
    assert("/"@ =~= seq!['/']);
    assert(spawn_step(states[i], replies[i], states[i + 1], actions[i]));
}

proof fn spawn_phases(
    states: Seq<SpawnDaemon>,
    replies: Seq<SpawnDaemonReply>,
    actions: Seq<SpawnDaemonAction>,
    i: int,
)
    requires
        is_spawn_run(states, replies, actions),
        0 <= i < states.len(),
    ensures
        states[i].product == states[0].product,
        states[i].dir == states[0].dir,
        states[i].phase == SpawnPhase::Start <==> i == 0,
        states[i].phase == SpawnPhase::Locating <==> i == 1 && actions[0] is Locate,
        states[i].phase == SpawnPhase::MakingDir <==> i == 2 && actions[1] is MakeDir,
        states[i].phase == SpawnPhase::OpeningLog <==> i == 3 && actions[2] is OpenLog,
        states[i].phase == SpawnPhase::Starting <==> i == 4 && actions[3] is Start,
        states[i].phase == SpawnPhase::MakingDir || states[i].phase == SpawnPhase::OpeningLog
            || states[i].phase == SpawnPhase::Starting ==> is_beside(
            states[i].binary@,
            replies[1]->Executable_0->Ok_0@,
            daemon_of(states[0].product),
        ),
        states[i].phase == SpawnPhase::Starting ==> actions[3]->Start_0@ == states[i].binary@,
    decreases i,
{
    if i > 0 {
        spawn_phases(states, replies, actions, i - 1);
        daemons_are_called(states[0].product);
        assert(spawn_step(states[i - 1], replies[i - 1], states[i], actions[i - 1]));
        if states[i].phase == SpawnPhase::MakingDir {
            let exe = replies[1]->Executable_0->Ok_0@;
            let d = choose|d: Seq<char>|
                crate::paths::is_parent_dir(d, exe) && states[i].binary@
                    == #[trigger] joined_path(d, states[i - 1].product.daemon());
            assert(states[i].binary@ == joined_path(d, daemon_of(states[0].product)));
        }
    }
}

/// A character of a segment, or three of them, as one byte.
pub open spec fn read_segment(s: Seq<char>) -> Seq<u8>
    decreases s.len(),
{
    if s.len() == 0 {
        Seq::empty()
    } else if s[0] == '%' && s.len() >= 3 {
        seq![(16 * digit_value(s[1]) + digit_value(s[2])) as u8] + read_segment(s.skip(3))
    } else {
        seq![s[0] as u8] + read_segment(s.skip(1))
    }
}

/// The value of an upper-case hexadecimal digit.
pub open spec fn digit_value(c: char) -> int {
    if '0' <= c <= '9' {
        c as int - '0' as int
    } else {
        c as int - 'A' as int + 10
    }
}

/// What is written as a segment is read back as it was: letters, digits and four signs
/// stand for themselves, and every other byte as a percent sign and two digits.
pub proof fn segments_read_back(raw: &str, r: String, i: int)
    requires
        call_ensures(encode_segment, (raw,), r),
    ensures
        read_segment(r@) == encode_utf8(raw@),
        0 <= i < r@.len() ==> ('A' <= r@[i] <= 'Z' || 'a' <= r@[i] <= 'z' || '0' <= r@[i] <= '9'
            || r@[i] == '-' || r@[i] == '.' || r@[i] == '_' || r@[i] == '~' || r@[i] == '%'),
{
    encoding_reads_back(encode_utf8(raw@));
    if 0 <= i < r@.len() {
        crate::client::segments_hold_no_separator(encode_utf8(raw@), i);
    }
}

/// A text of those characters alone is its own segment.
pub proof fn plain_texts_are_their_segment(bytes: Seq<u8>, i: int)
    requires
        forall|k: int|
            0 <= k < bytes.len() ==> (65 <= #[trigger] bytes[k] <= 90 || 97 <= bytes[k] <= 122 || 48
                <= bytes[k] <= 57 || bytes[k] == 45 || bytes[k] == 46 || bytes[k] == 95 || bytes[k]
                == 126),
    ensures
        encoded(bytes).len() == bytes.len(),
        0 <= i < bytes.len() ==> encoded(bytes)[i] as int == bytes[i],
    decreases bytes.len(),
{
    if bytes.len() > 0 {
        let front = bytes.drop_last();
        assert forall|k: int| 0 <= k < front.len() implies (65 <= #[trigger] front[k] <= 90 || 97
            <= front[k] <= 122 || 48 <= front[k] <= 57 || front[k] == 45 || front[k] == 46
            || front[k] == 95 || front[k] == 126) by {
            assert(front[k] == bytes[k]);
        }
        plain_texts_are_their_segment(front, i);
        let last = bytes[bytes.len() - 1];
        assert(crate::client::unreserved(last));
        assert((last as char) as int == last);
    }
}

proof fn encoding_reads_back(bytes: Seq<u8>)
    ensures
        read_segment(encoded(bytes)) == bytes,
    decreases bytes.len(),
{
    if bytes.len() == 0 {
        assert(bytes =~= Seq::empty());
    } else {
        crate::client::first_byte_is_encoded_first(bytes);
        let b = bytes[0];
        let rest = bytes.drop_first();
        encoding_reads_back(rest);
        let s = encoded(bytes);
        if crate::client::unreserved(b) {
            assert(s[0] == b as char);
            assert((b as char) as u8 == b);
            assert((b as char) as int == b);
            assert(s[0] != '%');
            assert(s.skip(1) =~= encoded(rest));
            assert(read_segment(s) =~= seq![b] + rest);
        } else {
            let (h, l) = (b as int / 16, b as int % 16);
            assert(s[0] == '%' && s[1] == crate::client::upper_hex_digit(h) && s[2]
                == crate::client::upper_hex_digit(l));
            assert(crate::client::upper_hex_digit(h) as int == if h < 10 {
                48 + h
            } else {
                55 + h
            });
            assert(crate::client::upper_hex_digit(l) as int == if l < 10 {
                48 + l
            } else {
                55 + l
            });
            assert(digit_value(s[1]) == h && digit_value(s[2]) == l);
            assert(16 * h + l == b);
            assert(s.skip(3) =~= encoded(rest));
            assert(read_segment(s) =~= seq![b] + rest);
        }
        assert(seq![b] + rest =~= bytes);
    }
}

/// The repo is named by the current directory, where that is text.
pub proof fn repos_are_named_by_directory(
    dir: &str,
    cwd: Option<&str>,
    shown: &str,
    segment: String,
    r: Result<String, EngineError>,
)
    requires
        call_ensures(encode_segment, (dir,), segment),
        call_ensures(cwd_repo_segment, (cwd, shown), r),
        cwd matches Some(d) ==> d@ == dir@,
    ensures
        cwd is Some ==> (r matches Ok(s) && s@ == segment@),
        cwd is None ==> fails(
            r,
            ErrorKind::Internal,
            "current directory is not valid UTF-8: "@ + shown@,
        ),
{
}

/// What a failure says is what the daemon said, with its hint; where that is nothing that
/// can be read, the status as it is shown and the body.
pub proof fn failures_say_what_the_daemon_said(
    status: u16,
    shown: &str,
    body: &Vec<u8>,
    parsed: Option<ApiError>,
    f: ApiFailure,
    g: ApiFailure,
)
    requires
        call_ensures(failure_of, (shown, body, parsed), f),
        call_ensures(api_failure, (status, body, parsed), g),
    ensures
        parsed matches Some(e) ==> f.message == e.message && f.hint == e.hint && g.message
            == e.message && g.hint == e.hint,
        parsed is None ==> f.hint is None && g.hint is None && f.message@ == "daemon returned "@
            + shown@ + ": "@ + lossy_text(body@) && g.message@ == "daemon returned "@ + shown_status(
            status,
        ) + ": "@ + lossy_text(body@),
{
}

/// A failure is shown in a line, and its hint in another.
pub proof fn failures_are_shown_with_their_hint(e: &ClientError, r: Vec<String>)
    requires
        call_ensures(ClientError::lines, (e,), r),
    ensures
        e matches ClientError::Api(f) ==> r@[0]@ == "error: "@ + f.message@ && (f.hint is Some
            ==> r@.len() == 2 && r@[1]@ == f.hint->0@) && (f.hint is None ==> r@.len() == 1),
        e matches ClientError::Other(o) ==> r@.len() == 1 && r@[0]@ == "error: "@ + o@.1,
{
}

/// A reply is used where its status is a success and its body is what it should be; the
/// body comes as it is, and a failure is the one that the daemon reported.
pub proof fn replies_are_used_or_reported(
    path: &str,
    reply: Reply,
    r: Result<Vec<u8>, ClientError>,
    status: u16,
    body: Vec<u8>,
    error: Option<ApiError>,
    f: ApiFailure,
)
    requires
        call_ensures(api_failure, (reply.status, &reply.body, reply.error), f),
        status == reply.status && body == reply.body && error == reply.error,
    ensures
        call_ensures(Client::bytes, (reply,), r) ==> if 200 <= reply.status <= 299 {
            r matches Ok(b) && b == reply.body
        } else {
            r matches Err(ClientError::Api(g)) && g.message@ == f.message@ && g.hint == f.hint
        },
        call_ensures(Client::json, (path, reply), r) ==> if !(200 <= reply.status <= 299) {
            r matches Err(ClientError::Api(g)) && g.message@ == f.message@ && g.hint == f.hint
        } else if reply.invalid is Some {
            r matches Err(ClientError::Other(e)) && e@ == (
                ErrorKind::Internal,
                "daemon sent invalid JSON for "@ + path@ + ": "@ + reply.invalid->0@,
            )
        } else {
            r matches Ok(b) && b == reply.body
        },
        call_ensures(read_json, (path, status, body, error), r) ==> if !(200 <= status <= 299) {
            r matches Err(ClientError::Api(g)) && g.message@ == f.message@ && g.hint == f.hint
        } else if json_fault(body@) is Some {
            r matches Err(ClientError::Other(e)) && e@ == (
                ErrorKind::Internal,
                "daemon sent invalid JSON for "@ + path@ + ": "@ + json_fault(body@)->0,
            )
        } else {
            r matches Ok(b) && b == body
        },
{
}

/// A daemon is well where it says so, and one that is not reached is named by its socket.
pub proof fn unwell_daemons_are_told(
    client: &Client,
    status: u16,
    health: Result<(), EngineError>,
    e: EngineError,
    r: EngineError,
)
    ensures
        call_ensures(Client::health, (status,), health) ==> (health is Ok <==> status == 200) && (
        status != 200 ==> fails(
            health,
            ErrorKind::Internal,
            "health returned "@ + shown_status(status),
        )),
        call_ensures(Client::unreachable, (client, e), r) ==> r@.0 == e@.0 && r@.1
            == "cannot reach daemon at "@ + client.socket@ + ": "@ + e@.1,
{
}

} // verus!
