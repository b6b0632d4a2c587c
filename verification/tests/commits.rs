//! The walk over the visible commits, and what a prefix or a row says.

use dvr::commits::{Bookmark, Commit, LogWalk, RepoView, WorkingCopy};
use dvr::engine::{RepoEngine, WorkspaceEntry};
use dvr::error::EngineError;
use dvr::ids::{short_change_id, short_commit_id, ChangeId, CommitId};
use jj_lib::object_id::ObjectId as _;

fn id(n: u8) -> CommitId {
    CommitId { bytes: vec![n; 20] }
}

fn commit(n: u8, parents: &[u8], ms: i64) -> Commit {
    Commit {
        id: id(n),
        change_id: ChangeId { bytes: vec![n; 16] },
        parents: parents.iter().map(|p| id(*p)).collect(),
        description: format!("commit {n}"),
        author_name: "T".to_string(),
        author_email: "t@t".to_string(),
        committer_ms: ms,
        has_conflict: false,
    }
}

fn view(heads: &[u8], working_copies: &[(&str, u8)]) -> RepoView {
    RepoView {
        heads: heads.iter().map(|h| id(*h)).collect(),
        working_copies: working_copies
            .iter()
            .map(|(name, n)| WorkingCopy { workspace: name.to_string(), commit: id(*n) })
            .collect(),
        bookmarks: Vec::new(),
    }
}

fn walk(view: &RepoView, store: &[Commit]) -> Vec<Commit> {
    let mut walk = LogWalk::start(view);
    let mut asked = 0;
    while let Some(wanted) = walk.next() {
        asked += 1;
        let found = store.iter().find(|c| c.id == wanted).expect("asked for a stored commit");
        walk.supply(found.clone()).unwrap();
    }
    assert!(asked <= store.len());
    walk.visible()
}

fn ids_of(log: &[Commit]) -> Vec<u8> {
    log.iter().map(|c| c.id.bytes[0]).collect()
}

#[test]
fn log_is_newest_first() {
    let store = [commit(1, &[], 10), commit(2, &[1], 20), commit(3, &[2], 30)];
    let log = walk(&view(&[3], &[]), &store);
    assert_eq!(ids_of(&log), [3, 2, 1]);
}

#[test]
fn equal_times_show_children_above_parents() {
    let store = [
        commit(1, &[], 5),
        commit(2, &[1], 5),
        commit(3, &[1], 5),
        commit(4, &[2, 3], 5),
    ];
    let log = walk(&view(&[4], &[("default", 4)]), &store);
    let ids = ids_of(&log);
    assert_eq!(ids.len(), 4);
    let at = |n: u8| ids.iter().position(|x| *x == n).unwrap();
    assert!(at(4) < at(2) && at(4) < at(3) && at(2) < at(1) && at(3) < at(1));
}

#[test]
fn only_what_is_reachable_is_visible() {
    let store = [commit(1, &[], 1), commit(2, &[1], 2), commit(9, &[1], 9)];
    assert_eq!(ids_of(&walk(&view(&[2], &[]), &store)), [2, 1]);
    assert_eq!(ids_of(&walk(&view(&[2], &[("w", 9)]), &store)), [9, 2, 1]);
    assert_eq!(ids_of(&walk(&view(&[], &[]), &store)), [] as [u8; 0]);
}

#[test]
fn walk_refuses_a_commit_that_it_did_not_ask_for() {
    let mut walk = LogWalk::start(&view(&[2], &[]));
    assert_eq!(walk.next(), Some(id(2)));
    assert_eq!(walk.next(), Some(id(2)));
    assert!(matches!(walk.supply(commit(1, &[], 0)), Err(EngineError::Internal(_))));
    assert!(walk.supply(commit(2, &[], 0)).is_ok());
    assert_eq!(walk.next(), None);
}

#[test]
fn short_ids_are_twelve_characters() {
    let c = commit(0xab, &[], 0);
    assert_eq!(short_commit_id(&c.id), "abababababab");
    assert_eq!(short_change_id(&ChangeId { bytes: vec![0x01, 0xff, 0x5a, 0, 0, 0, 0] }), "zykkupzzzzzz");
    assert_eq!(short_commit_id(&CommitId { bytes: vec![0x0f] }), "0f");
}

#[test]
fn ids_are_shown_as_jj_shows_them() {
    let bytes: Vec<u8> = (0..=255).collect();
    let jj = jj_lib::backend::CommitId::new(bytes.clone());
    assert_eq!(CommitId { bytes: bytes.clone() }.hex(), jj.hex());
    let jj = jj_lib::backend::ChangeId::new(bytes.clone());
    assert_eq!(ChangeId { bytes }.reverse_hex(), jj.reverse_hex());
}

#[test]
fn resolve_change_rejects_unknown_prefix() {
    let visible = vec![commit(1, &[], 0)];
    let err = RepoEngine::resolve_change(&visible, "zzzzzzzzzzzz9999").unwrap_err();
    assert_eq!(
        err,
        EngineError::NotFound("no visible commit matches prefix \"zzzzzzzzzzzz9999\"".to_string())
    );
}

#[test]
fn resolve_change_tells_empty_ambiguous_and_exact_apart() {
    let visible = vec![commit(0x11, &[], 0), commit(0x12, &[], 0), commit(0x2f, &[], 0)];
    assert_eq!(
        RepoEngine::resolve_change(&visible, "").unwrap_err(),
        EngineError::Invalid("empty change/commit id prefix".to_string())
    );
    assert_eq!(
        RepoEngine::resolve_change(&visible, "1").unwrap_err(),
        EngineError::Invalid("prefix \"1\" is ambiguous: 2 visible commits match".to_string())
    );
    assert_eq!(RepoEngine::resolve_change(&visible, "11").unwrap().id, id(0x11));
    assert_eq!(RepoEngine::resolve_change(&visible, "2").unwrap().id, id(0x2f));
    // A change id as it is shown: 0x2f is `xk`.
    assert_eq!(RepoEngine::resolve_change(&visible, "xk").unwrap().id, id(0x2f));
    let full = visible[1].id.hex();
    assert_eq!(RepoEngine::resolve_change(&visible, &full).unwrap().id, id(0x12));
    let full = visible[1].change_id.reverse_hex();
    assert_eq!(RepoEngine::resolve_change(&visible, &full).unwrap().id, id(0x12));
    assert!(RepoEngine::resolve_change(&visible, "AB").is_err());
}

fn engine() -> RepoEngine {
    let mut v = view(&[3], &[("default", 3), ("w1", 2)]);
    v.bookmarks = vec![
        Bookmark { name: "feat".to_string(), targets: vec![id(2)] },
        Bookmark { name: "main".to_string(), targets: vec![id(1), id(2)] },
        Bookmark { name: "other".to_string(), targets: vec![id(3)] },
    ];
    RepoEngine {
        root: "/r".to_string(),
        view: v,
        workspaces: vec![
            WorkspaceEntry { name: "w1".into(), jj_name: "w1".into(), root: "/r-w1".into() },
            WorkspaceEntry { name: "default".into(), jj_name: "default".into(), root: "/r".into() },
            WorkspaceEntry { name: "gone".into(), jj_name: "gone".into(), root: "/r-gone".into() },
        ],
    }
}

#[test]
fn log_rows_carry_bookmarks_and_working_copies() {
    let e = engine();
    let visible = vec![commit(3, &[2], 7), commit(2, &[1], -5), commit(1, &[], 0)];
    let rows = e.log(&visible, 2);
    assert_eq!(rows.len(), 2);
    assert_eq!(rows[0].bookmarks, ["other"]);
    assert_eq!(rows[1].bookmarks, ["feat", "main"]);
    assert!(rows[0].is_working_copy && rows[1].is_working_copy);
    assert_eq!(rows[0].timestamp_ms, 7);
    assert_eq!(rows[1].timestamp_ms, 0);
    assert_eq!(rows[0].change_id, "wwwwwwwwwwww".replace('w', "zw")[..12].to_string());
    assert_eq!(rows[0].description, "commit 3");
    let all = e.log(&visible, 10);
    assert_eq!(all.len(), 3);
    assert!(!all[2].is_working_copy);
}

#[test]
fn working_copies_are_looked_up_by_workspace() {
    let e = engine();
    assert_eq!(e.wc_commit("default"), Ok(id(3)));
    assert_eq!(
        e.wc_commit("nope"),
        Err(EngineError::NotFound("no workspace nope".to_string()))
    );
    assert_eq!(
        e.wc_commit("gone"),
        Err(EngineError::NotFound("no working-copy commit for gone".to_string()))
    );
}

#[test]
fn listing_is_sorted_and_survives_a_broken_workspace() {
    let e = engine();
    let list = e.list_workspaces(&vec![commit(3, &[], 0)]);
    let names: Vec<&str> = list.iter().map(|w| w.name.as_str()).collect();
    assert_eq!(names, ["default", "gone", "w1"]);
    assert_eq!(list[0].commit_id, "030303030303");
    assert_eq!(list[0].description, "commit 3");
    assert_eq!(list[0].path, "/r");
    assert_eq!((list[1].commit_id.as_str(), list[1].change_id.as_str()), ("", ""));
    // Its commit could not be read.
    assert_eq!(list[2].commit_id, "");
    assert_eq!(list[2].path, "/r-w1");
}

#[test]
fn settings_hold_the_identity() {
    let settings = dvr::settings::make_settings("Test", "test@example.com").unwrap();
    assert_eq!(settings.user_name(), "Test");
    assert_eq!(settings.user_email(), "test@example.com");
}

#[test]
fn equal_times_show_descendants_above_ancestors() {
    // The commits between the two are newer and older than both.
    let store = [
        commit(1, &[], 5),
        commit(2, &[1], 9),
        commit(3, &[2], 1),
        commit(4, &[3], 5),
    ];
    let log = walk(&view(&[4], &[]), &store);
    assert_eq!(ids_of(&log), [2, 4, 1, 3]);
}
