//! The client: addresses, replies, the way to a daemon, and what is printed.

use dvr::client::{
    api_failure, cwd_repo_segment, daemon_binary, encode_segment, read_json, ApiFailure, Client,
    ClientError, ConnectAction, ConnectReply, Reply, SpawnDaemonAction, SpawnDaemonReply,
};
use dvr::commands::{
    absolute_dest, describe, describe_or_placeholder, log, log_address, push, register, repo_path,
    status, summary, workspace_list, workspace_new,
};
use dvr::daemon::Product;
use dvr::error::EngineError;
use dvr::proto::{
    ApiError, ChangeKind, ErrorCode, FileChange, LogEntry, PushResponse, RepoId, RepoInfo,
    StatusResponse, WorkspaceInfo, WorkspaceStatus,
};

#[test]
fn segments_are_percent_encoded() {
    assert_eq!(encode_segment("/tmp/my repo"), "%2Ftmp%2Fmy%20repo");
    assert_eq!(encode_segment("AZaz09-._~"), "AZaz09-._~");
    assert_eq!(encode_segment("ö%"), "%C3%B6%25");
    assert_eq!(encode_segment(""), "");
    let all: String = (0u8..128).map(|b| b as char).collect();
    let encoded = encode_segment(&all);
    assert!(!encoded.contains('/') && !encoded.contains('?') && !encoded.contains('#'));
    assert!(encoded.starts_with("%00%01"));
    assert!(encoded.contains("%5B%5C%5D%5E_%60a"));
}

#[test]
fn segments_can_be_read_back() {
    for raw in ["/a/b c", "%2F", "100%", "日本", "a+b&c=d"] {
        let mut bytes = Vec::new();
        let encoded = encode_segment(raw).into_bytes();
        let mut i = 0;
        while i < encoded.len() {
            if encoded[i] == b'%' {
                let hex = std::str::from_utf8(&encoded[i + 1..i + 3]).unwrap();
                bytes.push(u8::from_str_radix(hex, 16).unwrap());
                i += 3;
            } else {
                bytes.push(encoded[i]);
                i += 1;
            }
        }
        assert_eq!(String::from_utf8(bytes).unwrap(), raw);
    }
}

#[test]
fn current_directory_names_the_repo() {
    assert_eq!(cwd_repo_segment(Some("/r"), "/r"), Ok("%2Fr".to_string()));
    assert_eq!(
        cwd_repo_segment(None, "/r/\u{fffd}"),
        Err(EngineError::Internal(
            "current directory is not valid UTF-8: /r/\u{fffd}".to_string()
        ))
    );
}

#[test]
fn failures_come_from_the_body_or_from_the_status() {
    let parsed = ApiError {
        code: ErrorCode::NotFound,
        message: "unknown repo: x".to_string(),
        hint: Some("register".to_string()),
    };
    assert_eq!(
        api_failure(404, &b"{}".to_vec(), Some(parsed)),
        ApiFailure {
            message: "unknown repo: x".to_string(),
            hint: Some("register".to_string())
        }
    );
    assert_eq!(
        api_failure(502, &b"oops\xff".to_vec(), None),
        ApiFailure {
            message: "daemon returned 502 Bad Gateway: oops\u{fffd}".to_string(),
            hint: None
        }
    );
    assert_eq!(
        api_failure(599, &Vec::new(), None).message,
        "daemon returned 599 <unknown status code>: "
    );
}

fn client() -> Client {
    Client::new(Product::Dvr, "/s".to_string())
}

fn reply(status: u16, body: &[u8], invalid: Option<&str>) -> Reply {
    Reply {
        status,
        body: body.to_vec(),
        error: None,
        invalid: invalid.map(str::to_string),
    }
}

#[test]
fn replies_succeed_by_their_status() {
    for good in [200, 204, 299] {
        assert_eq!(Client::bytes(reply(good, b"x", Some("no JSON"))), Ok(b"x".to_vec()));
        assert_eq!(Client::json("/p", reply(good, b"{}", None)), Ok(b"{}".to_vec()));
    }
    for bad in [199, 300, 404, 500] {
        assert!(matches!(Client::bytes(reply(bad, b"", None)), Err(ClientError::Api(_))));
        assert!(matches!(Client::json("/p", reply(bad, b"", None)), Err(ClientError::Api(_))));
    }
    assert_eq!(
        Client::json("/p", reply(200, b"", Some("EOF"))),
        Err(ClientError::Other(EngineError::Internal(
            "daemon sent invalid JSON for /p: EOF".to_string()
        )))
    );
}

#[test]
fn health_is_exactly_ok() {
    assert_eq!(Client::health(200), Ok(()));
    assert_eq!(
        Client::health(204),
        Err(EngineError::Internal("health returned 204 No Content".to_string()))
    );
    assert_eq!(client().socket, "/s/dvrd.sock");
    assert_eq!(
        client().unreachable(EngineError::Internal("refused".to_string())),
        EngineError::Internal("cannot reach daemon at /s/dvrd.sock: refused".to_string())
    );
}

#[test]
fn failures_are_shown_with_their_hint() {
    let f = ApiFailure { message: "m".to_string(), hint: Some("h".to_string()) };
    assert_eq!(ClientError::Api(f).lines(), ["error: m", "h"]);
    let f = ApiFailure { message: "m".to_string(), hint: None };
    assert_eq!(ClientError::Api(f).lines(), ["error: m"]);
    let e = EngineError::Internal("lost".to_string());
    assert_eq!(ClientError::Other(e).lines(), ["error: lost"]);
}

fn health(answered: bool, elapsed_ms: u64) -> ConnectReply {
    ConnectReply::Health { answered, elapsed_ms }
}

#[test]
fn a_running_daemon_is_used() {
    let mut connect = client().connect();
    assert!(matches!(connect.step(ConnectReply::Begin), ConnectAction::Probe));
    assert!(matches!(connect.step(health(true, 0)), ConnectAction::Finish(Ok(()))));
}

#[test]
fn a_missing_daemon_is_started_and_waited_for() {
    let mut connect = client().connect();
    connect.step(ConnectReply::Begin);
    assert!(matches!(connect.step(health(false, 0)), ConnectAction::Spawn));
    assert!(matches!(connect.step(ConnectReply::Spawned(Ok(()))), ConnectAction::Probe));
    assert!(matches!(connect.step(health(false, 4999)), ConnectAction::Sleep(100)));
    assert!(matches!(connect.step(ConnectReply::Slept), ConnectAction::Probe));
    // One that answers late still counts.
    assert!(matches!(connect.step(health(true, 6000)), ConnectAction::Finish(Ok(()))));
}

#[test]
fn a_daemon_that_never_answers_is_given_up() {
    let mut connect = client().connect();
    connect.step(ConnectReply::Begin);
    connect.step(health(false, 0));
    connect.step(ConnectReply::Spawned(Ok(())));
    assert!(matches!(
        connect.step(health(false, 5000)),
        ConnectAction::Finish(Err(EngineError::Internal(m)))
            if m == "daemon did not become healthy within 5s (log: /s/dvrd.log)"
    ));
    let mut connect = client().connect();
    connect.step(ConnectReply::Begin);
    connect.step(health(false, 0));
    let gone = EngineError::Internal("no binary".to_string());
    assert!(matches!(
        connect.step(ConnectReply::Spawned(Err(gone))),
        ConnectAction::Finish(Err(EngineError::Internal(m))) if m == "no binary"
    ));
}

#[test]
fn the_daemon_sits_beside_the_client() {
    assert_eq!(daemon_binary(Product::Dvr, "/usr/bin/dvr"), Ok("/usr/bin/dvrd".to_string()));
    assert_eq!(daemon_binary(Product::Bg, "/bg"), Ok("/bgd".to_string()));
    assert_eq!(daemon_binary(Product::Dvr, "dvr"), Ok("dvrd".to_string()));
    assert_eq!(
        daemon_binary(Product::Dvr, "/usr//local/./bin/.//dvr"),
        Ok("/usr//local/./bin/dvrd".to_string())
    );
    assert_eq!(
        daemon_binary(Product::Dvr, "/"),
        Err(EngineError::Internal("current executable has no parent directory".to_string()))
    );
}

#[test]
fn the_daemon_is_started_with_its_log() {
    let mut spawn = client().spawn_daemon();
    assert!(matches!(spawn.step(SpawnDaemonReply::Begin), SpawnDaemonAction::Locate));
    let exe = Ok("/usr/bin/dvr".to_string());
    assert!(matches!(
        spawn.step(SpawnDaemonReply::Executable(exe)),
        SpawnDaemonAction::MakeDir(d) if d == "/s"
    ));
    assert!(matches!(
        spawn.step(SpawnDaemonReply::Done(Ok(()))),
        SpawnDaemonAction::OpenLog(p) if p == "/s/dvrd.log"
    ));
    assert!(matches!(
        spawn.step(SpawnDaemonReply::Done(Ok(()))),
        SpawnDaemonAction::Start(p) if p == "/usr/bin/dvrd"
    ));
    let gone = EngineError::Internal("not found".to_string());
    assert!(matches!(
        spawn.step(SpawnDaemonReply::Done(Err(gone))),
        SpawnDaemonAction::Finish(Err(EngineError::Internal(m)))
            if m == "failed to start daemon binary /usr/bin/dvrd: not found"
    ));
    let mut spawn = client().spawn_daemon();
    spawn.step(SpawnDaemonReply::Begin);
    let lost = Err(EngineError::Internal("x".to_string()));
    assert!(matches!(
        spawn.step(SpawnDaemonReply::Executable(lost)),
        SpawnDaemonAction::Finish(Err(e)) if e.message() == "cannot locate current executable: x"
    ));
    let mut spawn = client().spawn_daemon();
    spawn.step(SpawnDaemonReply::Begin);
    spawn.step(SpawnDaemonReply::Executable(Ok("/b/dvr".to_string())));
    let full = EngineError::Internal("full".to_string());
    assert!(matches!(
        spawn.step(SpawnDaemonReply::Done(Err(full))),
        SpawnDaemonAction::Finish(Err(e)) if e.message() == "cannot create state dir /s: full"
    ));
}

#[test]
fn summaries_are_the_first_line() {
    assert_eq!(describe_or_placeholder("  \n"), "(no description)");
    assert_eq!(describe_or_placeholder(" a\nb \n"), "a\nb");
    assert_eq!(summary("\n\n fix: it\r\n\nmore"), "fix: it");
    assert_eq!(summary(""), "(no description)");
}

fn ws(name: &str, path: &str, change_id: &str, description: &str) -> WorkspaceInfo {
    WorkspaceInfo {
        name: name.to_string(),
        path: path.to_string(),
        change_id: change_id.to_string(),
        commit_id: "def456".to_string(),
        description: description.to_string(),
    }
}

#[test]
fn status_prints_workspaces_and_files() {
    let file = |path: &str, kind: ChangeKind| FileChange { path: path.to_string(), kind };
    let resp = StatusResponse {
        repo: RepoInfo { id: RepoId("demo".to_string()), root: "/tmp/demo".to_string() },
        workspaces: vec![
            WorkspaceStatus {
                info: ws("default", "/tmp/demo", "abc123", ""),
                parent_change_id: "p".to_string(),
                changed_files: vec![
                    file("src/main.rs", ChangeKind::Modified),
                    file("a", ChangeKind::Added),
                    file("b", ChangeKind::Removed),
                ],
            },
            WorkspaceStatus {
                info: ws("w1", "/tmp/w1", "xyz", "wip\nmore"),
                parent_change_id: "p".to_string(),
                changed_files: Vec::new(),
            },
        ],
    };
    assert_eq!(
        status(&resp),
        ["abc123 (no description)", "  M src/main.rs", "  A a", "  D b", "xyz wip"]
    );
}

#[test]
fn log_marks_working_copies_and_bookmarks() {
    let row = |wc: bool, bookmarks: &[&str]| LogEntry {
        change_id: "abc".to_string(),
        commit_id: "def".to_string(),
        description: "add w\n".to_string(),
        author_name: String::new(),
        author_email: String::new(),
        timestamp_ms: 0,
        bookmarks: bookmarks.iter().map(|b| b.to_string()).collect(),
        is_working_copy: wc,
    };
    assert_eq!(
        log(&vec![row(true, &[]), row(false, &["main", "x"])]),
        ["@ abc add w", "  abc main x add w"]
    );
    assert_eq!(describe(&row(true, &[])), "abc add w");
}

#[test]
fn other_commands_print_one_line() {
    let info = RepoInfo { id: RepoId("demo".to_string()), root: "/tmp/demo".to_string() };
    assert_eq!(register(&info), "registered demo at /tmp/demo");
    let w = ws("w1", "/tmp/w1", "xyz", " wip ");
    assert_eq!(workspace_new(&w), "created workspace w1 at /tmp/w1");
    assert_eq!(workspace_list(&vec![w]), ["w1 /tmp/w1 xyz wip"]);
    let pushed = PushResponse {
        remote: "origin".to_string(),
        bookmark: "feat/x".to_string(),
        commit_id: "abc".to_string(),
    };
    assert_eq!(push(&pushed), "pushed abc to origin/feat/x");
}

#[test]
fn addresses_name_the_repo_by_its_segment() {
    assert_eq!(repo_path("%2Fr", "/status"), "/repos/%2Fr/status");
    assert_eq!(log_address("%2Fr", 20), "/repos/%2Fr/log?limit=20");
    assert_eq!(
        dvr::commands::file("%2Fr", "@", "a b/c"),
        "/repos/%2Fr/file?rev=%40&path=a%20b%2Fc"
    );
}

#[test]
fn relative_places_are_seen_from_the_user() {
    let d = |s: &str| Some(s.to_string());
    assert_eq!(absolute_dest("/cwd", d("w")), d("/cwd/w"));
    assert_eq!(absolute_dest("/cwd", d("/w")), d("/w"));
    assert_eq!(absolute_dest("/cwd", None), None);
}

#[test]
fn bodies_are_read_as_json() {
    let body = b"{\"changed\": true}".to_vec();
    assert_eq!(read_json("/p", 200, body.clone(), None), Ok(body));
    assert_eq!(
        read_json("/p", 200, b"{".to_vec(), None),
        Err(ClientError::Other(EngineError::Internal(
            "daemon sent invalid JSON for /p: EOF while parsing an object at line 1 column 1"
                .to_string()
        )))
    );
    assert_eq!(
        read_json("/p", 204, Vec::new(), None),
        Err(ClientError::Other(EngineError::Internal(
            "daemon sent invalid JSON for /p: EOF while parsing a value at line 1 column 0"
                .to_string()
        )))
    );
    // A failure is one whatever its body holds.
    assert_eq!(
        read_json("/p", 500, b"{".to_vec(), None),
        Err(ClientError::Api(ApiFailure {
            message: "daemon returned 500 Internal Server Error: {".to_string(),
            hint: None,
        }))
    );
}
