//! Adding workspaces, taking failed ones back, loading those of an earlier life.

use dvr::clones::{
    clonefile_dir, CloneAction, CloneReply, RegisterAction, RegisterReply, Removal,
    RollbackAction, RollbackReply,
};
use dvr::commits::{Commit, RepoView, WorkingCopy};
use dvr::engine::{RepoEngine, WorkspaceEntry};
use dvr::error::EngineError;
use dvr::ids::{ChangeId, CommitId};
use dvr::ops::Op;
use dvr::others::{
    load_extra_workspaces, state_path_of, type_path_of, working_copy_type, OthersAction,
    OthersReply,
};
use dvr::workspace_ops::{AddAction, AddReply};

fn id(n: u8) -> CommitId {
    CommitId { bytes: vec![n; 20] }
}

fn commit(n: u8, parents: &[u8]) -> Commit {
    Commit {
        id: id(n),
        change_id: ChangeId { bytes: vec![n; 16] },
        parents: parents.iter().map(|p| id(*p)).collect(),
        description: "wip".to_string(),
        author_name: String::new(),
        author_email: String::new(),
        committer_ms: 0,
        has_conflict: false,
    }
}

fn engine() -> RepoEngine {
    RepoEngine {
        root: "/tmp/x/main".to_string(),
        view: RepoView {
            heads: Vec::new(),
            working_copies: vec![
                WorkingCopy { workspace: "default".to_string(), commit: id(2) },
                WorkingCopy { workspace: "seen".to_string(), commit: id(3) },
            ],
            bookmarks: Vec::new(),
        },
        workspaces: vec![WorkspaceEntry {
            name: "default".into(),
            jj_name: "default".into(),
            root: "/tmp/x/main".into(),
        }],
    }
}

fn failure(action: AddAction) -> EngineError {
    match action {
        AddAction::Finish(Err(e)) => e,
        _ => panic!("the workspace was not refused"),
    }
}

#[test]
fn add_workspace_rejects_bad_names_and_existing_dest() {
    let e = engine();
    for (bad, said) in [
        ("", "workspace name cannot be empty"),
        ("default", "workspace \"default\" already exists"),
        ("seen", "workspace \"seen\" already exists"),
        ("a/b", "invalid workspace name: \"a/b\""),
        (".", "invalid workspace name: \".\""),
        ("..", "invalid workspace name: \"..\""),
    ] {
        let mut add = e.add_workspace(bad.to_string(), "/tmp/x/y".to_string(), None);
        assert_eq!(
            failure(add.step(&e, AddReply::Begin)),
            EngineError::Invalid(said.to_string())
        );
    }
    let mut add = e.add_workspace("ok".to_string(), "/tmp/x/exists".to_string(), None);
    assert!(matches!(
        add.step(&e, AddReply::Begin),
        AddAction::LookFor(path) if path == "/tmp/x/exists"
    ));
    assert_eq!(
        failure(add.step(&e, AddReply::Exists(true))),
        EngineError::Invalid("destination exists: /tmp/x/exists".to_string())
    );
    assert_eq!(e.workspaces.len(), 1);
}

#[test]
fn add_workspace_rejects_nested_places() {
    let e = engine();
    for dest in ["/tmp/x/main/sub", "/tmp/x/main", "/tmp/x", "/"] {
        assert_eq!(
            e.validate_dest(dest, false),
            Err(EngineError::Invalid(format!(
                "destination {dest} must not nest with the repo root /tmp/x/main"
            )))
        );
    }
    // Whole components count.
    assert_eq!(e.validate_dest("/tmp/x/main-w1", false), Ok(()));
}

#[test]
fn add_workspace_starts_from_the_first_parent() {
    let e = engine();
    let mut add = e.add_workspace("agent1".to_string(), "/tmp/x/agent1".to_string(), None);
    add.step(&e, AddReply::Begin);
    assert!(matches!(
        add.step(&e, AddReply::Exists(false)),
        AddAction::FindWorkingCopy(ws) if ws == "default"
    ));
    assert!(matches!(
        add.step(&e, AddReply::Found(Ok(commit(2, &[1, 9])))),
        AddAction::Read(c) if c == id(1)
    ));
    assert!(matches!(
        add.step(&e, AddReply::Found(Ok(commit(1, &[])))),
        AddAction::Clone { src, dest } if src == "/tmp/x/main" && dest == "/tmp/x/agent1"
    ));
    assert!(matches!(
        add.step(&e, AddReply::Cloned(Ok(()))),
        AddAction::Register { name, dest, parent }
            if name == "agent1" && dest == "/tmp/x/agent1" && parent == id(1)
    ));
    let broken = EngineError::Internal("locked".to_string());
    assert!(matches!(
        add.step(&e, AddReply::Registered(Err(broken.clone()))),
        AddAction::RollBack { name, dest, error }
            if name == "agent1" && dest == "/tmp/x/agent1" && error == broken
    ));
    assert_eq!(failure(add.step(&e, AddReply::RolledBack(broken.clone()))), broken);
}

#[test]
fn two_workspaces_on_same_change_is_allowed() {
    let mut e = engine();
    for name in ["a", "b"] {
        let dest = format!("/tmp/x/{name}");
        let mut add =
            e.add_workspace(name.to_string(), dest.clone(), Some("zy".to_string()));
        add.step(&e, AddReply::Begin);
        assert!(matches!(
            add.step(&e, AddReply::Exists(false)),
            AddAction::FindChange(p) if p == "zy"
        ));
        assert!(matches!(
            add.step(&e, AddReply::Found(Ok(commit(1, &[])))),
            AddAction::Clone { .. }
        ));
        let mut register = e.register_clone(name.to_string(), dest.clone(), id(1));
        register.step(&mut e, RegisterReply::Begin);
        register.step(&mut e, RegisterReply::Initialized(Ok(dest)));
    }
    let names: Vec<&str> = e.workspaces.iter().map(|w| w.name.as_str()).collect();
    assert_eq!(names, ["default", "a", "b"]);
}

#[test]
fn clones_drop_the_jj_directory() {
    let mut clone = clonefile_dir("/r".to_string(), "/d".to_string());
    assert!(matches!(
        clone.step(CloneReply::Begin),
        CloneAction::Copy(args) if args == ["-Rc", "/r", "/d"]
    ));
    assert!(matches!(
        clone.step(CloneReply::Copied(Ok(true))),
        CloneAction::LookFor(path) if path == "/d/.jj"
    ));
    assert!(matches!(
        clone.step(CloneReply::Exists(true)),
        CloneAction::Remove(path) if path == "/d/.jj"
    ));
    assert!(matches!(
        clone.step(CloneReply::Removal(Removal::Removed)),
        CloneAction::Finish(Ok(()))
    ));
}

#[test]
fn failed_clones_are_cleaned_up() {
    let start = || {
        let mut clone = clonefile_dir("/r".to_string(), "/d".to_string());
        clone.step(CloneReply::Begin);
        clone
    };
    let said = "cp -Rc /r /d failed (clonefile needs src and dest on the same APFS volume)";
    let mut clone = start();
    assert!(matches!(
        clone.step(CloneReply::Copied(Ok(false))),
        CloneAction::Remove(path) if path == "/d"
    ));
    assert!(matches!(
        clone.step(CloneReply::Removal(Removal::Missing("gone".to_string()))),
        CloneAction::Finish(Err(EngineError::Internal(m))) if m == said
    ));
    let mut clone = start();
    clone.step(CloneReply::Copied(Ok(false)));
    let both = format!("cleanup of partial clone /d also failed: denied: {said}");
    assert!(matches!(
        clone.step(CloneReply::Removal(Removal::Failed("denied".to_string()))),
        CloneAction::Finish(Err(EngineError::Internal(m))) if m == both
    ));
    let mut clone = start();
    let no_cp = EngineError::Internal("no cp".to_string());
    assert!(matches!(clone.step(CloneReply::Copied(Err(no_cp))), CloneAction::Remove(_)));
    assert!(matches!(
        clone.step(CloneReply::Removal(Removal::Removed)),
        CloneAction::Finish(Err(EngineError::Internal(m))) if m == "no cp"
    ));
}

#[test]
fn ws_new_is_registered_synced_and_snapshotted() {
    let mut e = engine();
    let mut register =
        e.register_clone("agent1".to_string(), "/tmp/x/agent1".to_string(), id(1));
    assert!(matches!(
        register.step(&mut e, RegisterReply::Begin),
        RegisterAction::Init { name, dest } if name == "agent1" && dest == "/tmp/x/agent1"
    ));
    let root = "/private/tmp/x/agent1".to_string();
    assert!(matches!(
        register.step(&mut e, RegisterReply::Initialized(Ok(root))),
        RegisterAction::LookFor(path) if path == "/tmp/x/agent1/.jj/.gitignore"
    ));
    assert_eq!(e.workspaces.len(), 2);
    assert!(matches!(
        register.step(&mut e, RegisterReply::Exists(false)),
        RegisterAction::Write { path, text }
            if path == "/tmp/x/agent1/.jj/.gitignore" && text == "/*\n"
    ));
    match register.step(&mut e, RegisterReply::Done(Ok(()))) {
        RegisterAction::Run(ops) => {
            assert_eq!(ops.len(), 4);
            assert!(matches!(
                &ops[1],
                Op::CheckOut { workspace, commit } if workspace == "agent1" && *commit == id(1)
            ));
            assert!(matches!(&ops[3], Op::Commit(d) if d == "create workspace agent1"));
        }
        _ => panic!("the workspace needs a working-copy commit"),
    }
    assert!(matches!(
        register.step(&mut e, RegisterReply::Done(Ok(()))),
        RegisterAction::SyncWorkingCopy(ws) if ws == "agent1"
    ));
    assert!(matches!(
        register.step(&mut e, RegisterReply::Done(Ok(()))),
        RegisterAction::Snapshot(ws) if ws == "agent1"
    ));
    assert!(matches!(
        register.step(&mut e, RegisterReply::Snapshotted(Ok(true))),
        RegisterAction::FindWorkingCopy(ws) if ws == "agent1"
    ));
    match register.step(&mut e, RegisterReply::Found(Ok(commit(5, &[1])))) {
        RegisterAction::Finish(Ok(info)) => {
            assert_eq!(info.name, "agent1");
            assert_eq!(info.path, "/private/tmp/x/agent1");
            assert_eq!(info.commit_id, "050505050505");
        }
        _ => panic!("the workspace has to be reported"),
    }
}

#[test]
fn rollback_restores_the_workspaces() {
    let mut e = engine();
    let before = e.workspaces.clone();
    let mut register = e.register_clone("w".to_string(), "/tmp/x/w".to_string(), id(1));
    register.step(&mut e, RegisterReply::Begin);
    register.step(&mut e, RegisterReply::Initialized(Ok("/tmp/x/w".to_string())));
    assert_ne!(e.workspaces, before);

    let why = EngineError::Internal("locked".to_string());
    let mut rollback = e.rollback_failed_workspace("w".to_string(), "/tmp/x/w".to_string(), why.clone());
    assert!(matches!(
        rollback.step(&mut e, RollbackReply::Begin),
        RollbackAction::LookFor(path) if path == "/tmp/x/w"
    ));
    assert_eq!(e.workspaces, before);
    assert!(matches!(
        rollback.step(&mut e, RollbackReply::Exists(true)),
        RollbackAction::Remove(path) if path == "/tmp/x/w"
    ));
    // The repo does not know it yet.
    assert!(matches!(
        rollback.step(&mut e, RollbackReply::Removed(Ok(()))),
        RollbackAction::Finish(err) if err == why
    ));
}

#[test]
fn rollback_forgets_what_the_repo_knows_and_keeps_the_failure() {
    let mut e = engine();
    let why = EngineError::NotFound("lost".to_string());
    let mut rollback = e.rollback_failed_workspace("seen".to_string(), "/d".to_string(), why.clone());
    rollback.step(&mut e, RollbackReply::Begin);
    match rollback.step(&mut e, RollbackReply::Exists(false)) {
        RollbackAction::Run(ops) => {
            assert_eq!(ops.len(), 5);
            assert!(matches!(&ops[1], Op::RemoveWorkingCopy { workspace } if workspace == "seen"));
            assert!(matches!(&ops[3], Op::Commit(d) if d == "forget workspace seen"));
            assert!(matches!(&ops[4], Op::ForgetInStore { workspace } if workspace == "seen"));
        }
        _ => panic!("the repo has to forget the workspace"),
    }
    let broken = EngineError::Internal("locked".to_string());
    assert!(matches!(
        rollback.step(&mut e, RollbackReply::Ran(Err(broken))),
        RollbackAction::Finish(EngineError::NotFound(m)) if m ==
            "rollback also failed: could not forget half-registered workspace \"seen\" \
             (recover with `jj workspace forget seen`): locked: lost"
    ));
    let mut rollback = e.rollback_failed_workspace("w".to_string(), "/d".to_string(), why);
    rollback.step(&mut e, RollbackReply::Begin);
    rollback.step(&mut e, RollbackReply::Exists(true));
    assert!(matches!(
        rollback.step(&mut e, RollbackReply::Removed(Err("denied".to_string()))),
        RollbackAction::Finish(EngineError::NotFound(m)) if m ==
            "rollback also failed: could not remove clone /d: denied: lost"
    ));
}

#[test]
fn other_workspaces_are_loaded_and_broken_ones_passed_over() {
    let mut view = engine().view;
    for (n, name) in ["absolute", "vanished", "unknown", "broken"].iter().enumerate() {
        view.working_copies
            .push(WorkingCopy { workspace: name.to_string(), commit: id(n as u8) });
    }
    let mut others = load_extra_workspaces(&view, "default", "/r/.jj/repo".to_string());
    assert!(matches!(
        others.step(OthersReply::Begin),
        OthersAction::OpenStore(path) if path == "/r/.jj/repo"
    ));
    assert!(matches!(
        others.step(OthersReply::Opened(Ok(()))),
        OthersAction::Ask(name) if name == "seen"
    ));
    let relative = Some("../../../seen".to_string());
    assert!(matches!(
        others.step(OthersReply::Path(Ok(relative))),
        OthersAction::Look(root) if root == "/r/.jj/repo/../../../seen"
    ));
    assert!(matches!(
        others.step(OthersReply::IsDirectory(true)),
        OthersAction::Load { name, root }
            if name == "seen" && root == "/r/.jj/repo/../../../seen"
    ));
    assert!(matches!(
        others.step(OthersReply::Loaded(Ok("seen".to_string()))),
        OthersAction::Ask(name) if name == "absolute"
    ));
    assert!(matches!(
        others.step(OthersReply::Path(Ok(Some("/w".to_string())))),
        OthersAction::Look(root) if root == "/w"
    ));
    others.step(OthersReply::IsDirectory(true));
    others.step(OthersReply::Loaded(Ok("absolute".to_string())));
    others.step(OthersReply::Path(Ok(Some("/v".to_string()))));
    assert!(matches!(
        others.step(OthersReply::IsDirectory(false)),
        OthersAction::Ask(name) if name == "unknown"
    ));
    assert!(matches!(
        others.step(OthersReply::Path(Ok(None))),
        OthersAction::Ask(name) if name == "broken"
    ));
    others.step(OthersReply::Path(Ok(Some("/b".to_string()))));
    others.step(OthersReply::IsDirectory(true));
    match others.step(OthersReply::Loaded(Err(EngineError::Internal("bad".to_string())))) {
        OthersAction::Finish(Ok(loaded)) => {
            let names: Vec<&str> = loaded.iter().map(|w| w.name.as_str()).collect();
            assert_eq!(names, ["seen", "absolute"]);
        }
        _ => panic!("one broken workspace must not stop the others"),
    }
}

#[test]
fn working_copy_types_are_checked() {
    assert_eq!(state_path_of("/w"), "/w/.jj/working_copy");
    assert_eq!(type_path_of("/w"), "/w/.jj/working_copy/type");
    let known = vec!["local".to_string()];
    assert_eq!(working_copy_type(&known, " local\n"), Ok("local".to_string()));
    assert_eq!(
        working_copy_type(&known, "google\n"),
        Err(EngineError::Internal("unsupported working copy type \"google\"".to_string()))
    );
}

#[test]
fn opening_a_workspace_replaces_one_of_the_same_name() {
    let mut e = engine();
    e.insert_workspace(WorkspaceEntry {
        name: "default".into(),
        jj_name: "x".into(),
        root: "/other".into(),
    });
    assert_eq!(e.workspaces.len(), 1);
    assert_eq!(e.workspaces[0].root, "/other");
    e.remove_workspace("nope");
    assert_eq!(e.workspaces.len(), 1);
    e.remove_workspace("default");
    assert_eq!(e.workspaces.len(), 0);
}
