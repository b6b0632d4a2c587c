//! The registry of repos, and the watcher.

use dvr::error::{EngineError, RegisterError};
use dvr::proto::{RepoId, RepoInfo, WorkspaceInfo};
use dvr::registry::{
    ListedRepo, LoadAction, LoadReply, RegisterRepoAction, RegisterRepoReply,
    SnapshotReposAction, WatchedRoot,
};
use dvr::state::{DaemonState, Resolution};
use dvr::watcher::{
    dirty_repos, is_internal, plan_batch, spawn, Batch, SpawnAction, WatcherHandle,
};

fn info(id: &str, root: &str) -> RepoInfo {
    RepoInfo { id: RepoId(id.to_string()), root: root.to_string() }
}

fn state(repos: &[(&str, &str)]) -> DaemonState {
    DaemonState {
        dir: "/state".to_string(),
        repos: repos.iter().map(|(id, root)| info(id, root)).collect(),
    }
}

fn register(state: &mut DaemonState, root: &str) -> Result<RepoInfo, RegisterError> {
    let mut reg = state.register(root.to_string());
    assert!(matches!(
        reg.step(state, RegisterRepoReply::Begin),
        RegisterRepoAction::Canonicalize(path) if path == root
    ));
    let mut action = reg.step(state, RegisterRepoReply::Canonical(Ok(root.to_string())));
    loop {
        action = match action {
            RegisterRepoAction::Open(_) => reg.step(state, RegisterRepoReply::Opened(Ok(()))),
            RegisterRepoAction::Persist(p) => {
                assert_eq!(p.path, "/state/repos.json");
                assert_eq!(p.tmp, "/state/repos.json.tmp");
                assert_eq!(p.infos.len(), state.repos.len());
                reg.step(state, RegisterRepoReply::Persisted(Ok(())))
            }
            RegisterRepoAction::Watch(_) => reg.step(state, RegisterRepoReply::Watched),
            RegisterRepoAction::Finish(r) => return r,
            RegisterRepoAction::Canonicalize(_) => panic!("once is enough"),
        };
    }
}

#[test]
fn register_dedups_ids_and_is_idempotent() {
    let mut s = state(&[]);
    let ia = register(&mut s, "/tmp/fx/a/twin").unwrap();
    let ib = register(&mut s, "/tmp/fx/b/twin").unwrap();
    assert_eq!(ia.id.0, "twin");
    assert_eq!(ib.id.0, "twin-2");
    assert_eq!(register(&mut s, "/tmp/fx/a/twin").unwrap(), ia);
    assert_eq!(register(&mut s, "/tmp/fx/c/twin").unwrap().id.0, "twin-3");
    assert_eq!(s.repos.len(), 3);
}

#[test]
fn ids_take_the_first_free_number() {
    let s = state(&[("a", "/1"), ("a-2", "/2"), ("a-4", "/4")]);
    assert_eq!(s.fresh_id("a"), "a-3");
    assert_eq!(s.fresh_id("b"), "b");
    assert_eq!(s.fresh_id("a-2"), "a-2-2");
    let many: Vec<RepoInfo> = (0..12)
        .map(|n| info(&if n == 0 { "x".to_string() } else { format!("x-{}", n + 1) }, "/x"))
        .collect();
    assert_eq!(DaemonState { dir: String::new(), repos: many }.fresh_id("x"), "x-13");
}

#[test]
fn register_rejects_non_git_dir() {
    let mut s = state(&[]);
    let mut reg = s.register("/tmp/nogit".to_string());
    reg.step(&mut s, RegisterRepoReply::Begin);
    assert!(matches!(
        reg.step(&mut s, RegisterRepoReply::Canonical(Ok("/tmp/nogit".to_string()))),
        RegisterRepoAction::Open(i) if i == info("nogit", "/tmp/nogit")
    ));
    let broken = EngineError::Internal("not a git repo: /tmp/nogit".to_string());
    assert!(matches!(
        reg.step(&mut s, RegisterRepoReply::Opened(Err(broken))),
        RegisterRepoAction::Finish(Err(RegisterError::Invalid(m)))
            if m == "not a git repo: /tmp/nogit"
    ));
    assert_eq!(s.repos.len(), 0);
}

#[test]
fn register_rejects_paths_without_a_name_or_a_place() {
    let mut s = state(&[]);
    assert_eq!(
        register(&mut s, "/"),
        Err(RegisterError::Invalid("cannot derive a repo id from /".to_string()))
    );
    let mut reg = s.register("nope".to_string());
    reg.step(&mut s, RegisterRepoReply::Begin);
    let said = "No such file or directory".to_string();
    assert!(matches!(
        reg.step(&mut s, RegisterRepoReply::Canonical(Err(said))),
        RegisterRepoAction::Finish(Err(RegisterError::Invalid(m)))
            if m == "path nope: No such file or directory"
    ));
}

#[test]
fn unwritten_registration_is_taken_back() {
    let mut s = state(&[("a", "/a")]);
    let mut reg = s.register("/b".to_string());
    reg.step(&mut s, RegisterRepoReply::Begin);
    reg.step(&mut s, RegisterRepoReply::Canonical(Ok("/b".to_string())));
    reg.step(&mut s, RegisterRepoReply::Opened(Ok(())));
    assert_eq!(s.repos.len(), 2);
    let full = EngineError::Internal("disk full".to_string());
    assert!(matches!(
        reg.step(&mut s, RegisterRepoReply::Persisted(Err(full))),
        RegisterRepoAction::Finish(Err(RegisterError::Internal(m))) if m == "disk full"
    ));
    assert_eq!(s.repos, [info("a", "/a")]);
}

#[test]
fn resolve_accepts_path_inside_repo() {
    let s = state(&[("r", "/tmp/r"), ("inner", "/tmp/r/sub/inner"), ("other", "/tmp/rr")]);
    assert!(matches!(s.resolve("inner"), Resolution::Known(i) if i.id.0 == "inner"));
    assert!(matches!(s.resolve("nope"), Resolution::Unknown));
    assert!(matches!(s.resolve("sub/inner"), Resolution::Unknown));
    assert!(matches!(s.resolve("/tmp/r/src"), Resolution::Canonicalize(p) if p == "/tmp/r/src"));
    assert_eq!(s.containing("/tmp/r/src").unwrap().id.0, "r");
    assert_eq!(s.containing("/tmp/r").unwrap().id.0, "r");
    assert_eq!(s.containing("/tmp/r/sub/inner/x").unwrap().id.0, "inner");
    assert_eq!(s.containing("/tmp/rr/x").unwrap().id.0, "other");
    assert_eq!(s.containing("/tmp/elsewhere"), None);
}

#[test]
fn list_is_sorted_by_id() {
    let s = state(&[("b", "/1"), ("a", "/2"), ("a-2", "/3")]);
    let ids: Vec<String> = s.list().into_iter().map(|i| i.id.0).collect();
    assert_eq!(ids, ["a", "a-2", "b"]);
}

#[test]
fn load_drops_vanished_and_broken_repos() {
    let mut load = DaemonState::load("/state".to_string());
    assert!(matches!(
        load.step(LoadReply::Begin),
        LoadAction::LookFor(path) if path == "/state/repos.json"
    ));
    assert!(matches!(load.step(LoadReply::Exists(true)), LoadAction::Read(_)));
    let infos = vec![info("gone", "/gone"), info("ok", "/ok"), info("bad", "/bad")];
    assert!(matches!(
        load.step(LoadReply::Registry(Ok(infos))),
        LoadAction::Look(root) if root == "/gone"
    ));
    assert!(matches!(
        load.step(LoadReply::IsDirectory(false)),
        LoadAction::Look(root) if root == "/ok"
    ));
    assert!(matches!(
        load.step(LoadReply::IsDirectory(true)),
        LoadAction::Open(i) if i.id.0 == "ok"
    ));
    load.step(LoadReply::Opened(Ok(())));
    load.step(LoadReply::IsDirectory(true));
    let bad = EngineError::Internal("no".to_string());
    match load.step(LoadReply::Opened(Err(bad))) {
        LoadAction::Persist(p) => assert_eq!(p.infos, [info("ok", "/ok")]),
        _ => panic!("what was dropped has to be written out"),
    }
    assert!(matches!(load.step(LoadReply::Persisted(Ok(()))), LoadAction::Finish(Ok(()))));
    assert_eq!(load.state.repos, [info("ok", "/ok")]);
}

#[test]
fn load_of_a_fresh_state_dir_is_empty() {
    let mut load = DaemonState::load("/state".to_string());
    load.step(LoadReply::Begin);
    assert!(matches!(load.step(LoadReply::Exists(false)), LoadAction::Finish(Ok(()))));
    let mut load = DaemonState::load("/state".to_string());
    load.step(LoadReply::Begin);
    load.step(LoadReply::Exists(true));
    // Nothing was dropped, so nothing is written.
    load.step(LoadReply::Registry(Ok(vec![info("a", "/a")])));
    load.step(LoadReply::IsDirectory(true));
    assert!(matches!(load.step(LoadReply::Opened(Ok(()))), LoadAction::Finish(Ok(()))));
    let mut load = DaemonState::load("/state".to_string());
    load.step(LoadReply::Begin);
    load.step(LoadReply::Exists(true));
    let torn = EngineError::Internal("EOF while parsing".to_string());
    assert!(matches!(load.step(LoadReply::Registry(Err(torn))), LoadAction::Finish(Err(_))));
}

#[test]
fn startup_scan_surfaces_repo_snapshot_failures() {
    let s = state(&[("a", "/a"), ("b", "/b"), ("c", "/c")]);
    let (mut scan, action) = s.snapshot_all_repos();
    assert!(matches!(action, SnapshotReposAction::Snapshot(id) if id == "a"));
    let broken = EngineError::Internal("no working copy".to_string());
    assert!(matches!(
        scan.step(Err(broken)),
        SnapshotReposAction::Snapshot(id) if id == "b"
    ));
    assert!(matches!(scan.step(Ok(true)), SnapshotReposAction::Snapshot(id) if id == "c"));
    let lost = EngineError::NotFound("lost".to_string());
    match scan.step(Err(lost)) {
        SnapshotReposAction::Finish(Err(err)) => {
            assert!(err.message().contains("snapshot"));
            assert_eq!(
                err.message(),
                "snapshot of repo a failed: no working copy; snapshot of repo c failed: lost"
            );
        }
        _ => panic!("a failure must not be passed over"),
    }
    let (_, action) = state(&[]).snapshot_all_repos();
    assert!(matches!(action, SnapshotReposAction::Finish(Ok(()))));
}

fn watched(id: &str, root: &str) -> WatchedRoot {
    WatchedRoot { id: RepoId(id.to_string()), root: root.to_string() }
}

fn paths(list: &[&str]) -> Vec<String> {
    list.iter().map(|p| p.to_string()).collect()
}

#[test]
fn file_change_makes_its_repo_dirty_once() {
    let roots = vec![watched("r", "/r"), watched("w", "/r/deep/w"), watched("s", "/s")];
    assert_eq!(dirty_repos(&roots, &paths(&["/r/a", "/r/b/c", "/r"])), ["r"]);
    assert_eq!(dirty_repos(&roots, &paths(&["/r/deep/w/x", "/s/y"])), ["w", "s"]);
    assert_eq!(dirty_repos(&roots, &paths(&["/rr/a", "/"])), [] as [String; 0]);
}

#[test]
fn own_writes_of_jj_and_git_are_ignored() {
    let roots = vec![watched("r", "/r")];
    assert!(is_internal("/r/.jj/repo/op"));
    assert!(is_internal("/r/sub/.git"));
    assert!(!is_internal("/r/.github/x"));
    assert!(!is_internal("/r/.gitignore"));
    assert_eq!(dirty_repos(&roots, &paths(&["/r/.jj/x", "/r/.git/HEAD"])), [] as [String; 0]);
    assert_eq!(dirty_repos(&roots, &paths(&["/r/.jj/x", "/r/.jjx"])), ["r"]);
}

#[test]
fn equally_deep_roots_give_the_last() {
    let roots = vec![watched("a", "/r"), watched("b", "/r/")];
    assert_eq!(dirty_repos(&roots, &paths(&["/r/x"])), ["b"]);
}

#[test]
fn watcher_errors_are_logged_and_make_nothing_dirty() {
    let roots = vec![watched("r", "/r")];
    let plan = plan_batch(&roots, &Batch::Errors(paths(&["overflow"])));
    assert_eq!(plan.dirty, [] as [String; 0]);
    assert_eq!(plan.warnings, ["watcher error: overflow"]);
    let plan = plan_batch(&roots, &Batch::Events(vec![paths(&["/r/x"]), paths(&["/r/y", "/q"])]));
    assert_eq!(plan.dirty, ["r"]);
    assert_eq!(plan.warnings, [] as [String; 0]);
}

#[test]
fn newly_created_workspace_joins_the_watcher() {
    let mut handle = WatcherHandle { roots: vec![watched("r", "/r")] };
    let id = RepoId("r".to_string());
    assert!(handle.watch_path(id.clone(), "/r-agent1".to_string(), Ok(())).is_ok());
    assert_eq!(dirty_repos(&handle.roots, &paths(&["/r-agent1/x"])), ["r"]);
    let broken = Err(EngineError::Internal("too many".to_string()));
    assert!(handle.watch_path(id, "/r-agent2".to_string(), broken).is_err());
    assert_eq!(handle.roots.len(), 2);
}

#[test]
fn watcher_starts_on_every_root_or_not_at_all() {
    let mut watcher = spawn(vec![watched("r", "/r"), watched("s", "/s")]);
    assert!(matches!(watcher.step(Ok(())), SpawnAction::Watch(root) if root == "/r"));
    assert!(matches!(watcher.step(Ok(())), SpawnAction::Watch(root) if root == "/s"));
    assert!(matches!(watcher.step(Ok(())), SpawnAction::Finish(Ok(h)) if h.roots.len() == 2));
    let mut watcher = spawn(vec![watched("r", "/r"), watched("s", "/s")]);
    watcher.step(Ok(()));
    let broken = EngineError::Internal("no".to_string());
    assert!(matches!(watcher.step(Err(broken)), SpawnAction::Finish(Err(_))));
}

#[test]
fn workspace_roots_cover_every_repo() {
    let ws = |name: &str, path: &str| WorkspaceInfo {
        name: name.to_string(),
        path: path.to_string(),
        change_id: String::new(),
        commit_id: String::new(),
        description: String::new(),
    };
    let roots = DaemonState::workspace_roots(&vec![
        ListedRepo {
            id: RepoId("a".to_string()),
            workspaces: vec![ws("default", "/a"), ws("w", "/a-w")],
        },
        ListedRepo { id: RepoId("b".to_string()), workspaces: vec![ws("default", "/b")] },
    ]);
    assert_eq!(roots, [watched("a", "/a"), watched("a", "/a-w"), watched("b", "/b")]);
}

#[test]
fn registered_roots_are_told_by_their_components() {
    let mut s = state(&[("twin", "/t/b/twin/"), ("other", "/t//o/./x")]);
    assert_eq!(register(&mut s, "/t/b/twin").unwrap(), info("twin", "/t/b/twin/"));
    assert_eq!(register(&mut s, "/t/o/x").unwrap(), info("other", "/t//o/./x"));
    assert_eq!(s.repos.len(), 2);
    assert_eq!(register(&mut s, "/t/b/twins").unwrap().id.0, "twins");
    assert_eq!(s.repos.len(), 3);
}

#[test]
fn reload_lists_what_was_registered() {
    let mut s = state(&[]);
    let mut disk: Vec<RepoInfo> = Vec::new();
    for (root, written) in [("/z/app", true), ("/b/app", true), ("/c/lost", false), ("/a", true)] {
        let mut reg = s.register(root.to_string());
        reg.step(&mut s, RegisterRepoReply::Begin);
        reg.step(&mut s, RegisterRepoReply::Canonical(Ok(root.to_string())));
        let persist = match reg.step(&mut s, RegisterRepoReply::Opened(Ok(()))) {
            RegisterRepoAction::Persist(p) => p,
            _ => panic!("what was opened has to be written"),
        };
        if written {
            disk = persist.infos;
            reg.step(&mut s, RegisterRepoReply::Persisted(Ok(())));
            reg.step(&mut s, RegisterRepoReply::Watched);
        } else {
            let full = EngineError::Internal("disk full".to_string());
            reg.step(&mut s, RegisterRepoReply::Persisted(Err(full)));
        }
    }
    let mut load = DaemonState::load("/state".to_string());
    load.step(LoadReply::Begin);
    load.step(LoadReply::Exists(true));
    let mut action = load.step(LoadReply::Registry(Ok(disk)));
    loop {
        action = match action {
            LoadAction::Look(_) => load.step(LoadReply::IsDirectory(true)),
            LoadAction::Open(_) => load.step(LoadReply::Opened(Ok(()))),
            LoadAction::Finish(r) => {
                assert_eq!(r, Ok(()));
                break;
            }
            _ => panic!("nothing was dropped"),
        };
    }
    assert_eq!(load.state.list(), s.list());
    assert_eq!(s.list(), [info("a", "/a"), info("app", "/z/app"), info("app-2", "/b/app")]);
}
