//! Pushes, from the request to the reply.

use dvr::commits::{Commit, RepoView};
use dvr::engine::RepoEngine;
use dvr::error::EngineError;
use dvr::git::{git_stdout, ref_is_listed, ProcessOutput};
use dvr::ids::{ChangeId, CommitId};
use dvr::proto::{PushRequest, PushResponse};
use dvr::push::{validate_name, ExportFailure, Push, PushAction, PushReply};

fn engine() -> RepoEngine {
    RepoEngine {
        root: "/r".to_string(),
        view: RepoView { heads: Vec::new(), working_copies: Vec::new(), bookmarks: Vec::new() },
        workspaces: Vec::new(),
    }
}

fn request(change: Option<&str>, create: bool) -> PushRequest {
    PushRequest {
        change_id: change.map(str::to_string),
        remote: "origin".to_string(),
        bookmark: "feat/x".to_string(),
        create,
    }
}

fn commit(description: &str, has_conflict: bool) -> Commit {
    Commit {
        id: CommitId { bytes: vec![0xab; 20] },
        change_id: ChangeId { bytes: vec![0; 16] },
        parents: Vec::new(),
        description: description.to_string(),
        author_name: String::new(),
        author_email: String::new(),
        committer_ms: 0,
        has_conflict,
    }
}

fn ran(stdout: &str) -> PushReply {
    PushReply::Ran(Ok(ProcessOutput {
        success: true,
        stdout: stdout.as_bytes().to_vec(),
        stderr: Vec::new(),
    }))
}

fn failed(stderr: &str) -> PushReply {
    PushReply::Ran(Ok(ProcessOutput {
        success: false,
        stdout: Vec::new(),
        stderr: stderr.as_bytes().to_vec(),
    }))
}

fn up_to_target(req: PushRequest, c: Commit) -> (Push, PushAction) {
    let explicit = req.change_id.is_some();
    let mut push = engine().push("default".to_string(), req);
    let first = push.step(PushReply::Begin);
    if explicit {
        assert!(matches!(first, PushAction::FindWorkingCopy(ws) if ws == "default"));
        let next = push.step(PushReply::Found(Ok(commit("", true))));
        assert!(matches!(next, PushAction::FindChange(p) if p == "abc"));
    } else {
        assert!(matches!(first, PushAction::Snapshot(ws) if ws == "default"));
        let next = push.step(PushReply::Snapshotted(Ok(true)));
        assert!(matches!(next, PushAction::FindWorkingCopy(ws) if ws == "default"));
    }
    let action = push.step(PushReply::Found(Ok(c)));
    (push, action)
}

fn error(action: PushAction) -> EngineError {
    match action {
        PushAction::Finish(Err(e)) => e,
        _ => panic!("the push went on"),
    }
}

#[test]
fn push_refuses_undescribed_change() {
    let (_, action) = up_to_target(request(None, true), commit(" \n\t", false));
    assert_eq!(
        error(action),
        EngineError::Guardrail(
            "refusing to push abababababab: it has no description (run `dvr describe` first)"
                .to_string()
        )
    );
}

#[test]
fn push_refuses_conflicts() {
    let (_, action) = up_to_target(request(None, true), commit("feat: x", true));
    assert_eq!(
        error(action),
        EngineError::Guardrail(
            "refusing to push abababababab: it has unresolved conflicts".to_string()
        )
    );
}

#[test]
fn push_refuses_new_bookmark_without_create() {
    let (mut push, action) = up_to_target(request(None, false), commit("feat: x", false));
    match action {
        PushAction::Git(args) => {
            assert_eq!(args, ["ls-remote", "--heads", "origin", "refs/heads/feat/x"])
        }
        _ => panic!("the remote has to be asked"),
    }
    // A branch that only ends alike does not count.
    let action = push.step(ran("1234\trefs/heads/other/feat/x\n"));
    assert_eq!(
        error(action),
        EngineError::Guardrail(
            "refusing to push: branch \"feat/x\" does not exist on remote \"origin\" \
             (pass create=true to create origin/feat/x)"
                .to_string()
        )
    );
}

#[test]
fn push_with_create_lands_exactly_the_named_branch() {
    let (mut push, _) = up_to_target(request(None, true), commit("feat: x", false));
    match push.step(ran("")) {
        PushAction::Export { bookmark, target } => {
            assert_eq!(bookmark, "feat/x");
            assert_eq!(target.bytes, vec![0xab; 20]);
        }
        _ => panic!("the bookmark has to be exported"),
    }
    let stray = ExportFailure {
        bookmark: "other".to_string(),
        symbol: "other@git".to_string(),
        reason: "conflicted".to_string(),
    };
    match push.step(PushReply::Exported(Ok(vec![stray]))) {
        PushAction::Commit(description) => {
            assert_eq!(description, "push abababababab to origin/feat/x")
        }
        _ => panic!("a stray failure must not stop the push"),
    }
    assert!(matches!(
        push.step(PushReply::Committed(Ok(()))),
        PushAction::SyncWorkingCopy(ws) if ws == "default"
    ));
    match push.step(PushReply::Synced(Ok(()))) {
        PushAction::Git(args) => {
            assert_eq!(args, ["push", "origin", "refs/heads/feat/x:refs/heads/feat/x"])
        }
        _ => panic!("the branch has to be pushed"),
    }
    match push.step(ran("")) {
        PushAction::Finish(Ok(response)) => assert_eq!(
            response,
            PushResponse {
                remote: "origin".to_string(),
                bookmark: "feat/x".to_string(),
                commit_id: "abababababab".to_string(),
            }
        ),
        _ => panic!("the push has to be answered"),
    }
}

#[test]
fn push_to_an_existing_branch_needs_no_create() {
    let (mut push, _) = up_to_target(request(Some("abc"), false), commit("feat: x", false));
    let action = push.step(ran("1234\trefs/heads/feat/x\n"));
    assert!(matches!(action, PushAction::Export { .. }));
    assert!(push.exists);
}

#[test]
fn push_reports_its_own_export_failure_and_gits_words() {
    let (mut push, _) = up_to_target(request(None, true), commit("feat: x", false));
    push.step(ran(""));
    let own = ExportFailure {
        bookmark: "feat/x".to_string(),
        symbol: "feat/x@git".to_string(),
        reason: "name is not allowed".to_string(),
    };
    assert_eq!(
        error(push.step(PushReply::Exported(Ok(vec![own])))),
        EngineError::Internal(
            "failed to export bookmark feat/x@git to git: name is not allowed".to_string()
        )
    );
    let (mut push, _) = up_to_target(request(None, true), commit("feat: x", false));
    assert_eq!(
        error(push.step(failed("fatal: no such remote\n \n"))),
        EngineError::Internal(
            "git ls-remote --heads origin refs/heads/feat/x failed: fatal: no such remote"
                .to_string()
        )
    );
}

#[test]
fn push_rejects_names_that_mean_more_than_one_branch() {
    for bad in ["", "a b", "-f", "a:b", "*", "a?", "a[b", "a\u{3000}b", "a\nb"] {
        let mut req = request(None, true);
        req.bookmark = bad.to_string();
        let mut push = engine().push("default".to_string(), req);
        assert_eq!(
            error(push.step(PushReply::Begin)),
            EngineError::Invalid(format!("invalid bookmark name: {bad:?}"))
        );
        assert_eq!(
            validate_name("remote", bad),
            Err(EngineError::Invalid(format!("invalid remote name: {bad:?}")))
        );
    }
    for good in ["main", "feat/x", "a-b", "a.b", "ö", "a\"b"] {
        assert_eq!(validate_name("remote", good), Ok(()));
    }
}

#[test]
fn push_stops_at_an_outside_failure_or_a_stray_reply() {
    let mut push = engine().push("default".to_string(), request(None, true));
    push.step(PushReply::Begin);
    let lost = EngineError::NotFound("no workspace default".to_string());
    assert_eq!(error(push.step(PushReply::Snapshotted(Err(lost.clone())))), lost);
    assert_eq!(
        error(push.step(PushReply::Begin)),
        EngineError::Internal("unexpected reply".to_string())
    );
}

#[test]
fn listings_are_matched_exactly() {
    let listing = "11\trefs/heads/feat/x\r\n22\trefs/heads/y\textra\nrefs/heads/z\n";
    assert!(ref_is_listed(listing, "refs/heads/feat/x"));
    assert!(ref_is_listed(listing, "refs/heads/y"));
    assert!(!ref_is_listed(listing, "refs/heads/z"));
    assert!(!ref_is_listed(listing, "x"));
    assert!(!ref_is_listed("", ""));
}

#[test]
fn git_output_is_read_as_well_as_can_be() {
    let args = vec!["status".to_string()];
    let out = ProcessOutput { success: true, stdout: vec![b'a', 0xff, b'b'], stderr: Vec::new() };
    assert_eq!(git_stdout(&args, &out).unwrap(), "a\u{fffd}b");
}
