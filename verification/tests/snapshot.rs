//! Snapshots, imports from git, and the opening of a repo.

use dvr::commits::{Commit, RepoView, WorkingCopy};
use dvr::engine::{RepoEngine, WorkspaceEntry};
use dvr::error::EngineError;
use dvr::git_import::{
    HeadAction, HeadImport, HeadReply, ImportedHead, OpenAction, OpenReply, RefsAction,
    RefsImport, RefsReply,
};
use dvr::ids::{ChangeId, CommitId, TreeId};
use dvr::ops::{Op, Script, ScriptAction};
use dvr::snapshot::{
    is_same_tree, ordered_workspace_names, AllAction, AllReply, SnapshotAction, SnapshotReply,
    TreeAction, TreeReply, TreeSnapshot, TreeState,
};

fn names(list: &[&str]) -> Vec<String> {
    list.iter().map(|n| n.to_string()).collect()
}

fn commit() -> Commit {
    Commit {
        id: CommitId { bytes: vec![7; 20] },
        change_id: ChangeId { bytes: vec![7; 16] },
        parents: vec![CommitId { bytes: vec![1; 20] }],
        description: String::new(),
        author_name: String::new(),
        author_email: String::new(),
        committer_ms: 0,
        has_conflict: false,
    }
}

fn engine() -> RepoEngine {
    RepoEngine {
        root: "/r".to_string(),
        view: RepoView {
            heads: Vec::new(),
            working_copies: vec![WorkingCopy {
                workspace: "default".to_string(),
                commit: CommitId { bytes: vec![7; 20] },
            }],
            bookmarks: Vec::new(),
        },
        workspaces: vec![
            WorkspaceEntry { name: "zeta".into(), jj_name: "zeta".into(), root: "/z".into() },
            WorkspaceEntry { name: "default".into(), jj_name: "default".into(), root: "/r".into() },
            WorkspaceEntry { name: "alpha".into(), jj_name: "alpha".into(), root: "/a".into() },
        ],
    }
}

fn tree(n: u8, labels: &[&str]) -> TreeState {
    TreeState { ids: vec![TreeId { bytes: vec![n; 20] }], labels: names(labels) }
}

#[test]
fn default_workspace_snapshots_before_secondaries() {
    let names = vec!["zeta".to_string(), "default".to_string(), "alpha".to_string()];
    assert_eq!(
        ordered_workspace_names(names),
        ["default", "alpha", "zeta"]
    );
}

#[test]
fn workspace_order_without_a_default_is_sorted() {
    assert_eq!(ordered_workspace_names(names(&["b", "a", "c"])), ["a", "b", "c"]);
    assert_eq!(
        ordered_workspace_names(names(&["z", "default", "b", "a"])),
        ["default", "b", "a", "z"]
    );
    assert_eq!(ordered_workspace_names(Vec::new()), [] as [String; 0]);
}

#[test]
fn trees_are_compared_by_ids_and_labels() {
    assert!(is_same_tree(&tree(1, &[]), &tree(1, &[])));
    assert!(!is_same_tree(&tree(1, &[]), &tree(2, &[])));
    assert!(!is_same_tree(&tree(1, &["a"]), &tree(1, &["b"])));
    assert!(!is_same_tree(&tree(1, &["a"]), &tree(1, &[])));
}

fn taken(new: TreeState, stored: TreeState) -> (TreeSnapshot, Vec<Op>) {
    let e = engine();
    let mut snapshot = engine().snapshot_tree("default".to_string());
    assert!(matches!(
        snapshot.step(&e, TreeReply::Begin),
        TreeAction::Read(id) if id.bytes == vec![7; 20]
    ));
    match snapshot.step(&e, TreeReply::Commit(Ok(commit()))) {
        TreeAction::Take { workspace, max_new_file_size } => {
            assert_eq!(workspace, "default");
            assert_eq!(max_new_file_size, 67108864);
        }
        _ => panic!("the tree has to be taken"),
    }
    match snapshot.step(&e, TreeReply::Taken(Ok((new, stored)))) {
        TreeAction::Run(ops) => (snapshot, ops),
        _ => panic!("operations have to follow"),
    }
}

#[test]
fn snapshot_captures_new_file() {
    let (mut snapshot, ops) = taken(tree(2, &[]), tree(1, &[]));
    assert_eq!(ops.len(), 7);
    assert!(matches!(ops[0], Op::Begin));
    assert!(matches!(ops[1], Op::MarkSnapshot));
    assert!(matches!(&ops[2], Op::AdoptTree { commit } if commit.bytes == vec![7; 20]));
    assert!(matches!(&ops[3], Op::SetWorkingCopy { workspace } if workspace == "default"));
    assert!(matches!(ops[4], Op::Rebase));
    assert!(matches!(&ops[5], Op::Commit(d) if d == "snapshot workspace default"));
    assert!(matches!(ops[6], Op::Unlock));
    assert!(matches!(
        snapshot.step(&engine(), TreeReply::Ran(Ok(()))),
        TreeAction::Finish(Ok(true))
    ));
}

#[test]
fn snapshot_twice_is_idempotent() {
    let (mut snapshot, ops) = taken(tree(1, &[]), tree(1, &[]));
    assert_eq!(ops.len(), 1);
    assert!(matches!(ops[0], Op::Unlock));
    assert!(matches!(
        snapshot.step(&engine(), TreeReply::Ran(Ok(()))),
        TreeAction::Finish(Ok(false))
    ));
}

#[test]
fn tree_snapshot_needs_a_workspace() {
    let mut snapshot = engine().snapshot_tree("nope".to_string());
    match snapshot.step(&engine(), TreeReply::Begin) {
        TreeAction::Finish(Err(e)) => {
            assert_eq!(e, EngineError::NotFound("no workspace nope".to_string()))
        }
        _ => panic!("there is no such workspace"),
    }
}

#[test]
fn default_snapshot_imports_head_first_and_refs_last() {
    let mut snapshot = engine().snapshot("default".to_string());
    assert!(matches!(snapshot.step(SnapshotReply::Begin), SnapshotAction::ImportHead));
    assert!(matches!(
        snapshot.step(SnapshotReply::Did(Ok(false))),
        SnapshotAction::SnapshotTree(ws) if ws == "default"
    ));
    assert!(matches!(snapshot.step(SnapshotReply::Did(Ok(true))), SnapshotAction::ImportRefs));
    assert!(matches!(
        snapshot.step(SnapshotReply::Did(Ok(false))),
        SnapshotAction::Finish(Ok(true))
    ));
}

#[test]
fn other_snapshots_leave_git_alone() {
    let mut snapshot = engine().snapshot("agent1".to_string());
    assert!(matches!(
        snapshot.step(SnapshotReply::Begin),
        SnapshotAction::SnapshotTree(ws) if ws == "agent1"
    ));
    assert!(matches!(
        snapshot.step(SnapshotReply::Did(Ok(false))),
        SnapshotAction::Finish(Ok(false))
    ));
    let mut snapshot = engine().snapshot("agent1".to_string());
    snapshot.step(SnapshotReply::Begin);
    let broken = EngineError::Internal("no space".to_string());
    assert!(matches!(
        snapshot.step(SnapshotReply::Did(Err(broken))),
        SnapshotAction::Finish(Err(EngineError::Internal(m))) if m == "no space"
    ));
    assert!(matches!(
        snapshot.step(SnapshotReply::Begin),
        SnapshotAction::Finish(Err(EngineError::Internal(_)))
    ));
}

#[test]
fn vanished_workspace_dir_does_not_break_repo_routes() {
    let mut all = engine().snapshot_all();
    let order: Vec<&str> = all.places.iter().map(|p| p.name.as_str()).collect();
    assert_eq!(order, ["default", "alpha", "zeta"]);
    assert!(matches!(all.step(AllReply::Begin), AllAction::Look(root) if root == "/r"));
    assert!(matches!(
        all.step(AllReply::IsDirectory(true)),
        AllAction::Snapshot(name) if name == "default"
    ));
    assert!(matches!(
        all.step(AllReply::Snapshotted(Ok(true))),
        AllAction::Look(root) if root == "/a"
    ));
    // It has vanished.
    assert!(matches!(
        all.step(AllReply::IsDirectory(false)),
        AllAction::Look(root) if root == "/z"
    ));
    assert!(matches!(
        all.step(AllReply::IsDirectory(true)),
        AllAction::Snapshot(name) if name == "zeta"
    ));
    assert!(matches!(
        all.step(AllReply::Snapshotted(Ok(false))),
        AllAction::Finish(Ok(true))
    ));
}

#[test]
fn snapshot_of_all_stops_at_the_first_failure() {
    let mut all = engine().snapshot_all();
    all.step(AllReply::Begin);
    all.step(AllReply::IsDirectory(true));
    let broken = EngineError::Internal("locked".to_string());
    assert!(matches!(
        all.step(AllReply::Snapshotted(Err(broken))),
        AllAction::Finish(Err(EngineError::Internal(m))) if m == "locked"
    ));
}

#[test]
fn external_git_commit_is_imported_on_snapshot() {
    let mut import = engine().import_head_from_git().unwrap();
    assert!(matches!(import.step(HeadReply::Begin), HeadAction::Import));
    let head = CommitId { bytes: vec![9; 20] };
    let found = ImportedHead { changed: true, head: Some(head.clone()) };
    match import.step(HeadReply::Imported(Ok(found))) {
        HeadAction::Run(ops) => {
            assert_eq!(ops.len(), 6);
            assert!(matches!(
                &ops[0],
                Op::CheckOut { workspace, commit } if workspace == "default" && *commit == head
            ));
            assert!(matches!(&ops[1], Op::Lock(ws) if ws == "default"));
            assert!(matches!(ops[2], Op::ResetToCheckedOut));
            assert!(matches!(ops[3], Op::Rebase));
            assert!(matches!(&ops[4], Op::Commit(d) if d == "import git head"));
            assert!(matches!(ops[5], Op::Unlock));
        }
        _ => panic!("a moved HEAD has to be checked out"),
    }
    assert!(matches!(import.step(HeadReply::Ran(Ok(()))), HeadAction::Finish(Ok(true))));
}

#[test]
fn unmoved_head_is_not_an_operation() {
    let mut import = HeadImport::start("default".to_string(), "default".to_string());
    import.step(HeadReply::Begin);
    let found = ImportedHead { changed: false, head: Some(CommitId { bytes: vec![9; 20] }) };
    assert!(matches!(
        import.step(HeadReply::Imported(Ok(found))),
        HeadAction::Finish(Ok(false))
    ));
    let mut import = HeadImport::start("default".to_string(), "default".to_string());
    import.step(HeadReply::Begin);
    let found = ImportedHead { changed: true, head: None };
    match import.step(HeadReply::Imported(Ok(found))) {
        HeadAction::Run(ops) => {
            assert_eq!(ops.len(), 2);
            assert!(matches!(ops[0], Op::Rebase));
            assert!(matches!(&ops[1], Op::Commit(d) if d == "import git head"));
        }
        _ => panic!("a vanished HEAD has to be settled"),
    }
    let mut e = engine();
    e.remove_workspace("default");
    assert!(matches!(
        e.import_head_from_git(),
        Err(EngineError::NotFound(m)) if m == "no workspace default"
    ));
}

#[test]
fn moved_refs_are_rebased_and_synced() {
    let mut import = engine().import_refs_from_git();
    assert!(matches!(
        import.step(RefsReply::Begin),
        RefsAction::Import {
            abandon_unreachable_commits: false,
            record_synthetic_predecessors: false,
            track_remote_bookmarks,
        } if track_remote_bookmarks.is_empty()
    ));
    match import.step(RefsReply::Imported(Ok(true))) {
        RefsAction::Run(ops) => {
            assert!(matches!(ops[0], Op::Rebase));
            assert!(matches!(&ops[1], Op::Commit(d) if d == "import git refs"));
        }
        _ => panic!("moved refs have to be committed"),
    }
    assert!(matches!(
        import.step(RefsReply::Ran(Ok(()))),
        RefsAction::SyncWorkingCopy(ws) if ws == "default"
    ));
    assert!(matches!(import.step(RefsReply::Synced(Ok(()))), RefsAction::Finish(Ok(true))));
    let mut import = RefsImport::start(false);
    import.step(RefsReply::Begin);
    assert!(matches!(import.step(RefsReply::Imported(Ok(false))), RefsAction::Finish(Ok(false))));
    let mut import = RefsImport::start(false);
    import.step(RefsReply::Begin);
    import.step(RefsReply::Imported(Ok(true)));
    assert!(matches!(import.step(RefsReply::Ran(Ok(()))), RefsAction::Finish(Ok(true))));
}

#[test]
fn init_on_existing_git_repo_creates_wc_commit() {
    let mut open = RepoEngine::open_or_init("/r".to_string());
    assert!(matches!(open.step(OpenReply::Begin), OpenAction::LookFor(p) if p == "/r/.git"));
    assert!(matches!(open.step(OpenReply::Exists(true)), OpenAction::LookFor(p) if p == "/r/.jj"));
    assert!(matches!(
        open.step(OpenReply::Exists(false)),
        OpenAction::Init { root, git_dir } if root == "/r" && git_dir == "/r/.git"
    ));
    assert!(matches!(open.step(OpenReply::Done(Ok(()))), OpenAction::ImportRefs));
    assert!(matches!(open.step(OpenReply::Done(Ok(()))), OpenAction::ImportHead));
    assert!(matches!(
        open.step(OpenReply::Done(Ok(()))),
        OpenAction::LookFor(p) if p == "/r/.jj/.gitignore"
    ));
    assert!(matches!(
        open.step(OpenReply::Exists(false)),
        OpenAction::Write { path, text } if path == "/r/.jj/.gitignore" && text == "/*\n"
    ));
    assert!(matches!(open.step(OpenReply::Done(Ok(()))), OpenAction::LoadOthers));
    assert!(matches!(open.step(OpenReply::Done(Ok(()))), OpenAction::Finish(Ok(()))));
}

#[test]
fn open_or_init_is_idempotent() {
    let mut open = RepoEngine::open_or_init("/r".to_string());
    open.step(OpenReply::Begin);
    open.step(OpenReply::Exists(true));
    assert!(matches!(open.step(OpenReply::Exists(true)), OpenAction::Load(root) if root == "/r"));
    assert!(matches!(open.step(OpenReply::Done(Ok(()))), OpenAction::LookFor(_)));
    // The ignore file is there, perhaps edited by the user.
    assert!(matches!(open.step(OpenReply::Exists(true)), OpenAction::LoadOthers));
    assert!(matches!(open.step(OpenReply::Done(Ok(()))), OpenAction::Finish(Ok(()))));
    let mut open = RepoEngine::open_or_init("/tmp/x".to_string());
    open.step(OpenReply::Begin);
    assert!(matches!(
        open.step(OpenReply::Exists(false)),
        OpenAction::Finish(Err(EngineError::Internal(m))) if m == "not a git repo: /tmp/x"
    ));
}

#[test]
fn scripts_run_in_order_up_to_the_first_failure() {
    let mut script = Script::start(vec![Op::Begin, Op::Rebase]);
    assert!(matches!(script.step(Ok(())), ScriptAction::Perform(Op::Begin)));
    assert!(matches!(script.step(Ok(())), ScriptAction::Perform(Op::Rebase)));
    assert!(matches!(script.step(Ok(())), ScriptAction::Finish(Ok(()))));
    let mut script = Script::start(vec![Op::Begin, Op::Rebase]);
    script.step(Ok(()));
    let broken = EngineError::Internal("x".to_string());
    assert!(matches!(script.step(Err(broken)), ScriptAction::Finish(Err(_))));
    assert!(matches!(script.step(Ok(())), ScriptAction::Finish(Ok(()))));
}

#[test]
fn sync_points_the_working_copy_at_its_commit() {
    let ops = engine().sync_wc_after_tx("default").unwrap();
    assert_eq!(ops.len(), 3);
    assert!(matches!(&ops[0], Op::Lock(ws) if ws == "default"));
    assert!(matches!(&ops[1], Op::Reset(id) if id.bytes == vec![7; 20]));
    assert!(matches!(ops[2], Op::Unlock));
    assert!(matches!(
        engine().sync_wc_after_tx("zeta"),
        Err(EngineError::NotFound(m)) if m == "no working-copy commit for zeta"
    ));
}

#[test]
fn snapshots_neither_describe_nor_check_out() {
    let (_, ops) = taken(tree(2, &[]), tree(1, &[]));
    for op in &ops {
        assert!(!matches!(op, Op::Describe { .. } | Op::CheckOut { .. }));
    }
}

#[test]
fn order_does_not_depend_on_how_names_are_given() {
    let expected = names(&["default", "b", "a", "z"]);
    for list in [
        ["a", "b", "default", "z"],
        ["z", "default", "b", "a"],
        ["default", "z", "a", "b"],
        ["b", "a", "z", "default"],
    ] {
        assert_eq!(ordered_workspace_names(names(&list)), expected);
    }
}

#[test]
fn opened_repo_takes_its_own_workspace_for_the_default() {
    let entry = |name: &str, root: &str| WorkspaceEntry {
        name: name.to_string(),
        jj_name: name.to_string(),
        root: root.to_string(),
    };
    let view = RepoView {
        heads: Vec::new(),
        working_copies: vec![
            WorkingCopy { workspace: "default".to_string(), commit: CommitId { bytes: vec![1] } },
            WorkingCopy { workspace: "main".to_string(), commit: CommitId { bytes: vec![2] } },
        ],
        bookmarks: Vec::new(),
    };
    let open = || {
        RepoEngine::opened(
            "/r".to_string(),
            view.clone(),
            "main".to_string(),
            "/r".to_string(),
            vec![entry("w", "/w"), entry("default", "/elsewhere")],
        )
    };
    let e = open();
    assert_eq!(e.sorted_names(), ["default", "w"]);
    assert_eq!(e.find("default").unwrap().root, "/r");
    assert_eq!(e.wc_commit("default"), Ok(CommitId { bytes: vec![2] }));
    assert_eq!(open(), e);
}
