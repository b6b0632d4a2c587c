//! Descriptions, files and statuses.

use dvr::commits::{Commit, RepoView, WorkingCopy};
use dvr::describe::{DescribeAction, DescribeReply};
use dvr::engine::{RepoEngine, WorkspaceEntry};
use dvr::error::EngineError;
use dvr::files::{
    changed_files, DiffEntry, EntryKind, MergedEntry, ReadAction, ReadFile, ReadReply,
};
use dvr::ids::{ChangeId, CommitId};
use dvr::ops::Op;
use dvr::proto::{ChangeKind, FileChange};
use dvr::status::{StatusAction, StatusReply};

fn id(n: u8) -> CommitId {
    CommitId { bytes: vec![n; 20] }
}

fn commit(n: u8, parents: &[u8], description: &str) -> Commit {
    Commit {
        id: id(n),
        change_id: ChangeId { bytes: vec![n; 16] },
        parents: parents.iter().map(|p| id(*p)).collect(),
        description: description.to_string(),
        author_name: "T".to_string(),
        author_email: "t@t".to_string(),
        committer_ms: 0,
        has_conflict: false,
    }
}

fn engine() -> RepoEngine {
    RepoEngine {
        root: "/tmp/demo".to_string(),
        view: RepoView {
            heads: vec![id(2)],
            working_copies: vec![
                WorkingCopy { workspace: "default".to_string(), commit: id(2) },
                WorkingCopy { workspace: "agent1".to_string(), commit: id(3) },
            ],
            bookmarks: Vec::new(),
        },
        workspaces: vec![
            WorkspaceEntry {
                name: "default".into(),
                jj_name: "default".into(),
                root: "/tmp/demo".into(),
            },
            WorkspaceEntry {
                name: "agent1".into(),
                jj_name: "agent1".into(),
                root: "/tmp/demo-agent1".into(),
            },
        ],
    }
}

fn entry(sides: &[Option<EntryKind>]) -> MergedEntry {
    MergedEntry { sides: sides.to_vec() }
}

fn diff(path: &str, before: &[Option<EntryKind>], after: &[Option<EntryKind>]) -> DiffEntry {
    DiffEntry { path: path.to_string(), before: entry(before), after: entry(after) }
}

#[test]
fn log_shows_wc_and_history_and_describe_sets_message() {
    let mut describe = engine().describe("default".to_string(), None, "add f.txt".to_string());
    assert!(matches!(
        describe.step(&engine(), DescribeReply::Begin),
        DescribeAction::FindWorkingCopy(ws) if ws == "default"
    ));
    match describe.step(&engine(), DescribeReply::Found(Ok(commit(2, &[1], "")))) {
        DescribeAction::Run(ops) => {
            assert_eq!(ops.len(), 4);
            assert!(matches!(ops[0], Op::Begin));
            assert!(matches!(
                &ops[1],
                Op::Describe { commit, message } if *commit == id(2) && message == "add f.txt"
            ));
            assert!(matches!(ops[2], Op::Rebase));
            assert!(matches!(&ops[3], Op::Commit(d) if d == "describe 020202020202"));
        }
        _ => panic!("the commit has to be rewritten"),
    }
    assert!(matches!(
        describe.step(&engine(), DescribeReply::Ran(Ok(()))),
        DescribeAction::SyncWorkingCopy(ws) if ws == "default"
    ));
    match describe.step(&engine(), DescribeReply::Synced(Ok(()))) {
        // The change id is stable across the rewrite.
        DescribeAction::FindChange(prefix) => {
            assert_eq!(prefix, ChangeId { bytes: vec![2; 16] }.reverse_hex())
        }
        _ => panic!("the rewritten commit has to be found"),
    }
    let mut rewritten = commit(2, &[1], "add f.txt");
    rewritten.id = id(3);
    match describe.step(&engine(), DescribeReply::Found(Ok(rewritten))) {
        DescribeAction::Finish(Ok(row)) => {
            assert_eq!(row.description, "add f.txt");
            assert_eq!(row.change_id, "zxzxzxzxzxzx");
            assert_eq!(row.commit_id, "030303030303");
            assert!(row.is_working_copy);
        }
        _ => panic!("the row has to be reported"),
    }
}

#[test]
fn describe_of_a_named_change_resolves_it() {
    let mut describe =
        engine().describe("default".to_string(), Some("zx".to_string()), "m".to_string());
    assert!(matches!(
        describe.step(&engine(), DescribeReply::Begin),
        DescribeAction::FindChange(p) if p == "zx"
    ));
    let lost = EngineError::NotFound("no".to_string());
    assert!(matches!(
        describe.step(&engine(), DescribeReply::Found(Err(lost))),
        DescribeAction::Finish(Err(EngineError::NotFound(_)))
    ));
}

#[test]
fn files_are_told_from_directories() {
    use_all(&[
        (&[None], &[Some(EntryKind::File)], Some(ChangeKind::Added)),
        (&[Some(EntryKind::File)], &[None], Some(ChangeKind::Removed)),
        (&[Some(EntryKind::File)], &[Some(EntryKind::Other)], Some(ChangeKind::Modified)),
        (&[Some(EntryKind::Tree)], &[Some(EntryKind::File)], Some(ChangeKind::Added)),
        (&[Some(EntryKind::Tree)], &[None], None),
        (&[None], &[Some(EntryKind::Tree)], None),
        // A conflict of files, and one of directories.
        (
            &[None],
            &[Some(EntryKind::File), None, Some(EntryKind::File)],
            Some(ChangeKind::Added),
        ),
        (&[None], &[Some(EntryKind::Tree), None, Some(EntryKind::Tree)], None),
    ]);
}

fn use_all(cases: &[(&[Option<EntryKind>], &[Option<EntryKind>], Option<ChangeKind>)]) {
    for (before, after, expected) in cases {
        let changes = changed_files(&vec![diff("src/main.rs", before, after)]);
        match expected {
            Some(kind) => assert_eq!(
                changes,
                [FileChange { path: "src/main.rs".to_string(), kind: *kind }]
            ),
            None => assert_eq!(changes, []),
        }
    }
}

#[test]
fn changed_files_keep_the_order_of_the_diff() {
    let changes = changed_files(&vec![
        diff("b", &[None], &[Some(EntryKind::File)]),
        diff("d", &[Some(EntryKind::Tree)], &[Some(EntryKind::Tree)]),
        diff("a", &[Some(EntryKind::File)], &[None]),
    ]);
    let paths: Vec<&str> = changes.iter().map(|c| c.path.as_str()).collect();
    assert_eq!(paths, ["b", "a"]);
}

fn read(rev: &str, path: &str) -> (ReadFile, ReadAction) {
    let mut read = engine().read_file(rev.to_string(), path.to_string());
    read.step(ReadReply::Begin);
    let action = read.step(ReadReply::Found(Ok(commit(2, &[1], ""))));
    (read, action)
}

#[test]
fn reads_file_at_wc_and_errors_on_missing() {
    let mut start = engine().read_file("@".to_string(), "README.md".to_string());
    assert!(matches!(
        start.step(ReadReply::Begin),
        ReadAction::FindWorkingCopy(ws) if ws == "default"
    ));
    let mut other = engine().read_file("zx".to_string(), "README.md".to_string());
    assert!(matches!(other.step(ReadReply::Begin), ReadAction::FindChange(p) if p == "zx"));

    let (mut file, action) = read("@", "README.md");
    assert!(matches!(
        action,
        ReadAction::Look { commit, path } if commit == id(2) && path == "README.md"
    ));
    assert!(matches!(
        file.step(ReadReply::Entry(Ok(entry(&[Some(EntryKind::File)])))),
        ReadAction::Read
    ));
    assert!(matches!(
        file.step(ReadReply::Content(Ok(b"# fixture\n".to_vec()))),
        ReadAction::Finish(Ok(bytes)) if bytes == b"# fixture\n"
    ));

    let (mut missing, _) = read("@", "nope.txt");
    assert!(matches!(
        missing.step(ReadReply::Entry(Ok(entry(&[None])))),
        ReadAction::Finish(Err(EngineError::NotFound(m))) if m == "not found: nope.txt"
    ));
    let (mut dir, _) = read("@", "nested");
    assert!(matches!(
        dir.step(ReadReply::Entry(Ok(entry(&[Some(EntryKind::Tree)])))),
        ReadAction::Finish(Err(EngineError::Invalid(m))) if m == "not a file: nested"
    ));
    let (mut torn, _) = read("@", "a");
    assert!(matches!(
        torn.step(ReadReply::Entry(Ok(entry(&[Some(EntryKind::File), None, None])))),
        ReadAction::Finish(Err(EngineError::Conflict(m))) if m == "path is conflicted: a"
    ));
}

#[test]
fn reads_refuse_what_is_no_repo_path() {
    for bad in ["/", "/foo", "foo/", "foo//bar"] {
        let (_, action) = read("@", bad);
        assert!(matches!(
            action,
            ReadAction::Finish(Err(EngineError::Internal(m)))
                if m == format!("Invalid repo path input \"{bad}\"")
        ));
    }
    for good in ["", "foo", "foo/bar", ".", "a b"] {
        let (_, action) = read("@", good);
        assert!(matches!(action, ReadAction::Look { path, .. } if path == good));
    }
}

#[test]
fn status_reports_every_workspace() {
    let e = engine();
    let mut status = e.status("demo".to_string());
    // Sorted by name: agent1 comes first.
    assert!(matches!(status.step(&e, StatusReply::Begin), StatusAction::Read(c) if c == id(3)));
    assert!(matches!(
        status.step(&e, StatusReply::Commit(Ok(commit(3, &[1, 9], "wip\nmore")))),
        StatusAction::Read(c) if c == id(1)
    ));
    assert!(matches!(
        status.step(&e, StatusReply::Commit(Ok(commit(1, &[], "base")))),
        StatusAction::Diff { before, after } if before == id(1) && after == id(3)
    ));
    assert!(matches!(
        status.step(
            &e,
            StatusReply::Differences(Ok(vec![diff(
                "src/main.rs",
                &[Some(EntryKind::File)],
                &[Some(EntryKind::File)]
            )]))
        ),
        StatusAction::Read(c) if c == id(2)
    ));
    status.step(&e, StatusReply::Commit(Ok(commit(2, &[1], ""))));
    status.step(&e, StatusReply::Commit(Ok(commit(1, &[], "base"))));
    match status.step(&e, StatusReply::Differences(Ok(Vec::new()))) {
        StatusAction::Finish(Ok(answer)) => {
            assert_eq!(answer.repo.id.0, "demo");
            assert_eq!(answer.repo.root, "/tmp/demo");
            assert_eq!(answer.workspaces.len(), 2);
            let first = &answer.workspaces[0];
            assert_eq!(first.info.name, "agent1");
            assert_eq!(first.info.path, "/tmp/demo-agent1");
            assert_eq!(first.info.description, "wip\nmore");
            assert_eq!(first.parent_change_id, "zyzyzyzyzyzy");
            assert_eq!(
                first.changed_files,
                [FileChange { path: "src/main.rs".to_string(), kind: ChangeKind::Modified }]
            );
            assert_eq!(answer.workspaces[1].info.name, "default");
            assert_eq!(answer.workspaces[1].changed_files, []);
        }
        _ => panic!("the status has to be answered"),
    }
}

#[test]
fn status_fails_with_the_first_thing_that_is_missing() {
    let mut e = engine();
    e.view.working_copies.remove(1);
    let mut status = e.status("demo".to_string());
    assert!(matches!(
        status.step(&e, StatusReply::Begin),
        StatusAction::Finish(Err(EngineError::NotFound(m)))
            if m == "no working-copy commit for agent1"
    ));
    let e = engine();
    let mut status = e.status("demo".to_string());
    status.step(&e, StatusReply::Begin);
    let root = format!("working-copy commit {} has no parents", "03".repeat(20));
    assert!(matches!(
        status.step(&e, StatusReply::Commit(Ok(commit(3, &[], "")))),
        StatusAction::Finish(Err(EngineError::Internal(m))) if m == root
    ));
}

#[test]
fn changes_turn_round_with_the_trees() {
    let file = [Some(EntryKind::File)];
    let there = vec![
        diff("new", &[None], &file),
        diff("gone", &file, &[Some(EntryKind::Tree)]),
        diff("other", &file, &file),
    ];
    let back = vec![
        diff("new", &file, &[None]),
        diff("gone", &[Some(EntryKind::Tree)], &file),
        diff("other", &file, &file),
    ];
    let kinds = |d: &Vec<DiffEntry>| -> Vec<ChangeKind> {
        changed_files(d).iter().map(|c| c.kind).collect()
    };
    assert_eq!(
        kinds(&there),
        [ChangeKind::Added, ChangeKind::Removed, ChangeKind::Modified]
    );
    assert_eq!(
        kinds(&back),
        [ChangeKind::Removed, ChangeKind::Added, ChangeKind::Modified]
    );
    assert_eq!(changed_files(&Vec::new()), []);
}
