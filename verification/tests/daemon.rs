//! Requests and answers, and the start of the daemon.

use dvr::daemon::{
    git_identity, health_answers, health_request, lock_path, log_path, pid_path, run_with_dir,
    socket_path, state_dir, Identity, LockReply, Product, StartAction, StartReply, StartUp,
};
use dvr::error::{EngineError, RegisterError};
use dvr::git::ProcessOutput;
use dvr::proto::{
    DescribeRequest, ErrorCode, FileQuery, NewWorkspaceRequest, PushRequest, RepoId, RepoInfo,
};
use dvr::routes::{default_log_limit, plan_request, ApiFailure, EngineCall, RepoRequest};

fn info() -> RepoInfo {
    RepoInfo { id: RepoId("bgtest-ws".to_string()), root: "/tmp/bgtest-ws".to_string() }
}

#[test]
fn error_codes_serialize_snake_case() {
    assert_eq!(ErrorCode::GuardrailRefused.wire_name(), "guardrail_refused");
    assert_eq!(ErrorCode::NotFound.wire_name(), "not_found");
    assert_eq!(ErrorCode::Conflict.wire_name(), "conflict");
    assert_eq!(ErrorCode::Internal.wire_name(), "internal");
    assert_eq!(ErrorCode::InvalidRequest.wire_name(), "invalid_request");
}

#[test]
fn unknown_repo_is_404_with_api_error() {
    let f = ApiFailure::unknown_repo("nope");
    assert_eq!(f.status, 404);
    assert_eq!(f.error.code, ErrorCode::NotFound);
    assert_eq!(f.error.message, "unknown repo: nope");
    assert_eq!(f.error.hint.as_deref(), Some("register the repo first via POST /repos"));
}

#[test]
fn engine_failures_map_to_statuses_by_kind() {
    let m = || "said".to_string();
    for (err, status, code) in [
        (EngineError::NotFound(m()), 404, ErrorCode::NotFound),
        (EngineError::Guardrail(m()), 403, ErrorCode::GuardrailRefused),
        (EngineError::Invalid(m()), 400, ErrorCode::InvalidRequest),
        (EngineError::Conflict(m()), 409, ErrorCode::Conflict),
        (EngineError::Internal(m()), 500, ErrorCode::Internal),
    ] {
        let f = ApiFailure::from_engine(err);
        assert_eq!((f.status, f.error.code), (status, code));
        assert_eq!(f.error.message, "said");
        assert_eq!(f.error.hint, None);
    }
    let f = ApiFailure::from_register(RegisterError::Invalid(m()));
    assert_eq!((f.status, f.error.code), (400, ErrorCode::InvalidRequest));
    let f = ApiFailure::from_register(RegisterError::Internal(m()));
    assert_eq!((f.status, f.error.code), (500, ErrorCode::Internal));
}

#[test]
fn framework_rejections_are_structured_api_errors() {
    for (status, code) in [
        (400, ErrorCode::InvalidRequest),
        (404, ErrorCode::NotFound),
        (405, ErrorCode::InvalidRequest),
        (415, ErrorCode::InvalidRequest),
        (422, ErrorCode::InvalidRequest),
        (500, ErrorCode::Internal),
    ] {
        let f = ApiFailure::from_rejection(status, "no".to_string());
        assert_eq!((f.status, f.error.code), (status, code));
        assert_eq!(f.error.message, "no");
    }
}

#[test]
fn reports_snapshot_first_and_file_reads_never_do() {
    let calls = plan_request(&info(), RepoRequest::Status).unwrap();
    assert!(matches!(&calls[..], [EngineCall::SnapshotAll, EngineCall::Status(id)] if id == "bgtest-ws"));
    let calls = plan_request(&info(), RepoRequest::Log { limit: Some(1) }).unwrap();
    assert!(matches!(&calls[..], [EngineCall::SnapshotAll, EngineCall::Log(1)]));
    let calls = plan_request(&info(), RepoRequest::Log { limit: None }).unwrap();
    assert!(matches!(&calls[..], [EngineCall::SnapshotAll, EngineCall::Log(50)]));
    assert_eq!(default_log_limit(), 50);
    let q = FileQuery { rev: "@".to_string(), path: "README.md".to_string() };
    let calls = plan_request(&info(), RepoRequest::File(q)).unwrap();
    assert!(matches!(
        &calls[..],
        [EngineCall::ReadFile { rev, path }] if rev == "@" && path == "README.md"
    ));
    let calls = plan_request(&info(), RepoRequest::Snapshot).unwrap();
    assert!(matches!(&calls[..], [EngineCall::SnapshotAll]));
    let calls = plan_request(&info(), RepoRequest::ListWorkspaces).unwrap();
    assert!(matches!(&calls[..], [EngineCall::ListWorkspaces]));
}

#[test]
fn describe_and_push_default_to_the_default_workspace() {
    let r = DescribeRequest { workspace: None, change_id: None, message: "wip".to_string() };
    let calls = plan_request(&info(), RepoRequest::Describe(r)).unwrap();
    assert!(matches!(
        &calls[..],
        [EngineCall::Describe { ws, change: None, message }] if ws == "default" && message == "wip"
    ));
    let r = DescribeRequest {
        workspace: Some("w1".to_string()),
        change_id: Some("zx".to_string()),
        message: "wip".to_string(),
    };
    let calls = plan_request(&info(), RepoRequest::Describe(r)).unwrap();
    assert!(matches!(
        &calls[..],
        [EngineCall::Describe { ws, change: Some(c), .. }] if ws == "w1" && c == "zx"
    ));
    let r = PushRequest {
        change_id: None,
        remote: "origin".to_string(),
        bookmark: "feat/x".to_string(),
        create: false,
    };
    let calls = plan_request(&info(), RepoRequest::Push(r.clone())).unwrap();
    assert!(matches!(
        &calls[..],
        [EngineCall::Push { ws, request }] if ws == "default" && *request == r
    ));
}

#[test]
fn workspace_create_defaults_to_a_sibling() {
    let new = |dest: Option<&str>| {
        RepoRequest::NewWorkspace(NewWorkspaceRequest {
            name: "w1".to_string(),
            dest: dest.map(str::to_string),
            at_change: None,
        })
    };
    let calls = plan_request(&info(), new(None)).unwrap();
    assert!(matches!(
        &calls[..],
        [EngineCall::AddWorkspace { name, dest, at_change: None }]
            if name == "w1" && dest == "/tmp/bgtest-ws-w1"
    ));
    let calls = plan_request(&info(), new(Some("/d"))).unwrap();
    assert!(matches!(&calls[..], [EngineCall::AddWorkspace { dest, .. }] if dest == "/d"));
    match plan_request(&info(), new(Some("d"))) {
        Err(f) => {
            assert_eq!(f.status, 400);
            assert_eq!(f.error.message, "destination must be absolute: d");
        }
        Ok(_) => panic!("a relative place means nothing to the daemon"),
    }
}

#[test]
fn state_lives_where_it_is_told_to() {
    assert_eq!(state_dir(Product::Dvr, Some("/s"), Some("/home/me")), "/s");
    assert_eq!(state_dir(Product::Dvr, None, Some("/home/me")), "/home/me/.local/state/dvr");
    assert_eq!(state_dir(Product::Bg, None, Some("/home/me")), "/home/me/.local/state/bg");
    assert_eq!(Product::Dvr.state_variable(), "DVR_STATE_DIR");
    assert_eq!(Product::Bg.state_variable(), "BG_STATE_DIR");
    assert_eq!(socket_path(Product::Dvr, "/s"), "/s/dvrd.sock");
    assert_eq!(socket_path(Product::Bg, "/s"), "/s/bgd.sock");
    assert_eq!(lock_path(Product::Dvr, "/s"), "/s/dvrd.lock");
    assert_eq!(pid_path(Product::Dvr, "/s"), "/s/dvrd.pid");
    assert_eq!(log_path(Product::Bg, "/s"), "/s/bgd.log");
}

#[test]
fn identity_falls_back_where_git_has_none() {
    let said = |success: bool, text: &str| {
        Some(ProcessOutput { success, stdout: text.as_bytes().to_vec(), stderr: Vec::new() })
    };
    assert_eq!(
        git_identity(Product::Dvr, &said(true, " Ada \n"), &said(true, "ada@example.com\n")),
        Identity { name: "Ada".to_string(), email: "ada@example.com".to_string() }
    );
    assert_eq!(
        git_identity(Product::Dvr, &said(true, "\n"), &said(false, "x")),
        Identity { name: "dvr".to_string(), email: "dvr@localhost".to_string() }
    );
    assert_eq!(
        git_identity(Product::Bg, &None, &None),
        Identity { name: "bg".to_string(), email: "bg@localhost".to_string() }
    );
}

#[test]
fn health_is_a_success_status() {
    assert!(health_answers(&Some(b"HTTP/1.1 200 OK\r\ncontent-type: ap".to_vec())));
    assert!(!health_answers(&Some(b"HTTP/1.1 404 Not Found".to_vec())));
    assert!(!health_answers(&Some(b"HTTP/1.1 20".to_vec())));
    assert!(!health_answers(&Some(b"HTTP/1.1 200 \xff".to_vec())));
    assert!(!health_answers(&Some(Vec::new())));
    assert!(!health_answers(&None));
    assert_eq!(
        health_request(Product::Dvr),
        "GET /health HTTP/1.1\r\nHost: dvrd\r\nConnection: close\r\n\r\n"
    );
}

fn up_to_lock() -> StartUp {
    let mut start = run_with_dir(Product::Dvr, "/s".to_string());
    assert!(matches!(start.step(StartReply::Begin), StartAction::MakeDir(d) if d == "/s"));
    assert!(matches!(
        start.step(StartReply::Done(Ok(()))),
        StartAction::LookFor(p) if p == "/s/dvrd.sock"
    ));
    assert!(matches!(
        start.step(StartReply::Exists(false)),
        StartAction::Lock(p) if p == "/s/dvrd.lock"
    ));
    start
}

#[test]
fn changes_made_while_daemon_down_are_snapshotted_on_startup() {
    let mut start = up_to_lock();
    assert!(matches!(
        start.step(StartReply::Lock(LockReply::Taken)),
        StartAction::WritePid(p) if p == "/s/dvrd.pid"
    ));
    // The pid file does not matter.
    let no_pid = EngineError::Internal("read-only".to_string());
    assert!(matches!(
        start.step(StartReply::Done(Err(no_pid))),
        StartAction::Load(d) if d == "/s"
    ));
    assert!(matches!(start.step(StartReply::Done(Ok(()))), StartAction::SnapshotAllRepos));
    assert!(matches!(start.step(StartReply::Done(Ok(()))), StartAction::SpawnWatcher));
    assert!(matches!(
        start.step(StartReply::Done(Ok(()))),
        StartAction::RemoveSocket(p) if p == "/s/dvrd.sock"
    ));
    let none = EngineError::Internal("no such file".to_string());
    assert!(matches!(
        start.step(StartReply::Done(Err(none))),
        StartAction::Bind(p) if p == "/s/dvrd.sock"
    ));
    assert!(matches!(start.step(StartReply::Done(Ok(()))), StartAction::Serve));
    assert!(matches!(start.step(StartReply::Done(Ok(()))), StartAction::Finish(Ok(()))));
}

#[test]
fn second_daemon_on_same_state_dir_fails_fast() {
    let mut start = run_with_dir(Product::Dvr, "/s".to_string());
    start.step(StartReply::Begin);
    start.step(StartReply::Done(Ok(())));
    assert!(matches!(
        start.step(StartReply::Exists(true)),
        StartAction::Probe { socket, .. } if socket == "/s/dvrd.sock"
    ));
    assert!(matches!(
        start.step(StartReply::Answer(Some(b"HTTP/1.1 200 OK".to_vec()))),
        StartAction::Finish(Err(EngineError::Internal(m)))
            if m == "dvrd already running (socket /s/dvrd.sock answers /health)"
    ));
    // A racer that holds the lock already.
    let mut start = up_to_lock();
    assert!(matches!(
        start.step(StartReply::Lock(LockReply::Held)),
        StartAction::Finish(Err(EngineError::Internal(m)))
            if m == "dvrd already running (could not lock /s/dvrd.lock)"
    ));
    // A stale socket is no daemon.
    let mut start = run_with_dir(Product::Dvr, "/s".to_string());
    start.step(StartReply::Begin);
    start.step(StartReply::Done(Ok(())));
    start.step(StartReply::Exists(true));
    assert!(matches!(start.step(StartReply::Answer(None)), StartAction::Lock(_)));
}

#[test]
fn readiness_waits_for_the_scan() {
    let mut start = up_to_lock();
    start.step(StartReply::Lock(LockReply::Taken));
    start.step(StartReply::Done(Ok(())));
    start.step(StartReply::Done(Ok(())));
    let broken = EngineError::Internal("snapshot of repo a failed: no".to_string());
    assert!(matches!(
        start.step(StartReply::Done(Err(broken))),
        StartAction::Finish(Err(EngineError::Internal(m))) if m.contains("snapshot")
    ));
}
