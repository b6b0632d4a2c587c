//! What is shown of commits and workspaces is what they are.

use vstd::prelude::*;
use vstd::string::*;

#[allow(unused_imports)]
use crate::commits::{Bookmark, Commit, RepoView, WorkingCopy};
#[allow(unused_imports)]
use crate::engine::{
    commit_of_id, entry_named, id_starts_with, is_log_entry, meant_by, points_at, workspace_info,
    working_copy_of, RepoEngine, WorkspaceEntry,
};
#[allow(unused_imports)]
use crate::error::{EngineError, ErrorKind};
#[allow(unused_imports)]
use crate::ids::{hex_text, reverse_hex_text, CommitId};
#[allow(unused_imports)]
use crate::laws::reading::{file_changes_tell, tells_all};
#[allow(unused_imports)]
use crate::laws::texts::{order_is_by_first_difference, stands_before};
#[allow(unused_imports)]
use crate::laws::{fails, passes_on, shows_start};
#[allow(unused_imports)]
use crate::lists::{first_where, first_where_is_there, only_one_is_found};
#[allow(unused_imports)]
use crate::ops::{ops_view, Op, Script, ScriptAction};
#[allow(unused_imports)]
use crate::proto::{LogEntry, RepoInfo, WorkspaceInfo};
#[allow(unused_imports)]
use crate::sort::sorts;
#[allow(unused_imports)]
use crate::status::{
    is_status_run, row_was_read, status_step, Status, StatusAction, StatusPhase, StatusReply,
};
#[allow(unused_imports)]
use crate::text::{debug_text, decimal, texts};

verus! {

/// What is shown of a workspace is its name, its place, and the start of the ids of its
/// working-copy commit with the description of that.
pub open spec fn shows_workspace(info: WorkspaceInfo, name: Seq<char>, root: Seq<char>, wc: Commit) -> bool {
    &&& info.name@ == name
    &&& info.path@ == root
    &&& shows_start(info.change_id@, reverse_hex_text(wc.change_id@))
    &&& shows_start(info.commit_id@, hex_text(wc.id@))
    &&& info.description@ == wc.description@
}

/// What is shown of a workspace is of that workspace and of its working-copy commit.
pub proof fn workspaces_show_their_commit(
    name: &str,
    root: &str,
    wc: &Commit,
    info: WorkspaceInfo,
)
    requires
        call_ensures(workspace_info, (name, root, wc), info),
    ensures
        shows_workspace(info, name@, root@, *wc),
{
}

/// The change id that is shown depends on the change alone, and the commit id on the
/// commit: two commits of one change are shown as one change, and a change id is never
/// taken from a commit id.
pub proof fn one_change_is_shown_as_one(
    name_a: &str,
    root_a: &str,
    a: &Commit,
    name_b: &str,
    root_b: &str,
    b: &Commit,
    x: WorkspaceInfo,
    y: WorkspaceInfo,
)
    requires
        call_ensures(workspace_info, (name_a, root_a, a), x),
        call_ensures(workspace_info, (name_b, root_b, b), y),
    ensures
        a.change_id@ == b.change_id@ ==> x.change_id@ == y.change_id@,
        a.id@ == b.id@ ==> x.commit_id@ == y.commit_id@,
        a.change_id@.len() <= 6 && b.change_id@.len() <= 6 && x.change_id@ == y.change_id@
            ==> a.change_id@ == b.change_id@,
{
    if a.change_id@.len() <= 6 && b.change_id@.len() <= 6 && x.change_id@ == y.change_id@ {
        assert(reverse_hex_text(a.change_id@).len() <= 12);
        assert(reverse_hex_text(b.change_id@).len() <= 12);
        crate::ids::reverse_hex_is_injective(a.change_id@, b.change_id@);
    }
}

/// The open workspace of a name, where names are given once.
pub proof fn workspaces_are_found_by_name(
    engine: &RepoEngine,
    name: &str,
    r: Option<&WorkspaceEntry>,
    k: int,
)
    requires
        engine.wf(),
        call_ensures(RepoEngine::find, (engine, name), r),
        0 <= k < engine.workspaces@.len(),
    ensures
        r matches Some(e) ==> e.name@ == name@ && engine.workspaces@.contains(*e),
        engine.workspaces@[k].name@ == name@ ==> r == Some(&engine.workspaces@[k]),
{
    first_where_is_there(engine.workspaces@, entry_named(name@));
    if engine.workspaces@[k].name@ == name@ {
        only_one_is_found(engine.workspaces@, entry_named(name@), k);
    }
}

/// The working-copy commit of a workspace is the one that the repo has under the name
/// that it knows the workspace by.
pub proof fn working_copies_are_found_by_workspace(
    engine: &RepoEngine,
    ws: &str,
    r: Result<CommitId, EngineError>,
    k: int,
    j: int,
)
    requires
        engine.wf(),
        call_ensures(RepoEngine::wc_commit, (engine, ws), r),
    ensures
        (forall|i: int|
            0 <= i < engine.workspaces@.len() ==> (#[trigger] engine.workspaces@[i]).name@ != ws@)
            ==> fails(r, ErrorKind::NotFound, "no workspace "@ + ws@),
        0 <= k < engine.workspaces@.len() && engine.workspaces@[k].name@ == ws@ && (forall|i: int|
            0 <= i < engine.view.working_copies@.len() ==> (
            #[trigger] engine.view.working_copies@[i]).workspace@
                != engine.workspaces@[k].jj_name@) ==> fails(
            r,
            ErrorKind::NotFound,
            "no working-copy commit for "@ + ws@,
        ),
        0 <= k < engine.workspaces@.len() && engine.workspaces@[k].name@ == ws@ && 0 <= j
            < engine.view.working_copies@.len() && engine.view.working_copies@[j].workspace@
            == engine.workspaces@[k].jj_name@ && (forall|i: int|
            0 <= i < j ==> (#[trigger] engine.view.working_copies@[i]).workspace@
                != engine.workspaces@[k].jj_name@) ==> (r matches Ok(id) && id@
            == engine.view.working_copies@[j].commit@),
{
    let p = entry_named(ws@);
    first_where_is_there(engine.workspaces@, p);
    if engine.entry(ws@) is Some {
        let i = choose|i: int|
            0 <= i < engine.workspaces@.len() && engine.workspaces@[i] == engine.entry(ws@)->0;
        assert(engine.workspaces@[i].name@ == ws@);
    }
    if 0 <= k < engine.workspaces@.len() && engine.workspaces@[k].name@ == ws@ {
        only_one_is_found(engine.workspaces@, p, k);
        let q = working_copy_of(engine.workspaces@[k].jj_name@);
        first_where_is_there(engine.view.working_copies@, q);
        if first_where(engine.view.working_copies@, q) is Some {
            let w = first_where(engine.view.working_copies@, q)->0;
            let i = choose|i: int|
                0 <= i < engine.view.working_copies@.len() && engine.view.working_copies@[i] == w;
            assert(engine.view.working_copies@[i].workspace@ == engine.workspaces@[k].jj_name@);
        }
        if 0 <= j < engine.view.working_copies@.len() && q(engine.view.working_copies@[j]) && (
        forall|i: int|
            0 <= i < j ==> (#[trigger] engine.view.working_copies@[i]).workspace@
                != engine.workspaces@[k].jj_name@) {
            first_is_found(engine.view.working_copies@, q, j);
        }
    }
}

/// The first value for which `p` holds is found.
pub(crate) proof fn first_is_found<T>(s: Seq<T>, p: spec_fn(T) -> bool, j: int)
    requires
        0 <= j < s.len(),
        p(s[j]),
        forall|i: int| 0 <= i < j ==> !p(#[trigger] s[i]),
    ensures
        first_where(s, p) == Some(s[j]),
    decreases s.len(),
{
    if j > 0 {
        assert(!p(s[0]));
        let rest = s.skip(1);
        assert(rest[j - 1] == s[j]);
        assert forall|i: int| 0 <= i < j - 1 implies !p(#[trigger] rest[i]) by {
            assert(rest[i] == s[i + 1]);
        }
        first_is_found(rest, p, j - 1);
    }
}

/// The names come sorted, and are those of the open workspaces.
pub proof fn names_come_in_order(engine: &RepoEngine, r: Vec<String>, i: int, j: int)
    requires
        call_ensures(RepoEngine::sorted_names, (engine,), r),
    ensures
        r@.len() == engine.workspaces@.len(),
        0 <= i < j < r@.len() ==> stands_before(r@[i]@, r@[j]@),
        0 <= i < r@.len() ==> exists|k: int|
            0 <= k < engine.workspaces@.len() && (#[trigger] engine.workspaces@[k]).name == r@[i],
        0 <= i < engine.workspaces@.len() ==> r@.contains(engine.workspaces@[i].name),
{
    sorted_names_are(*engine, r@, i, j);
}

proof fn sorted_names_are(engine: RepoEngine, r: Seq<String>, i: int, j: int)
    requires
        sorts(engine.names(), r),
    ensures
        r.len() == engine.workspaces@.len(),
        0 <= i < j < r.len() ==> stands_before(r[i]@, r[j]@),
        0 <= i < r.len() ==> exists|k: int|
            0 <= k < engine.workspaces@.len() && (#[trigger] engine.workspaces@[k]).name == r[i],
        0 <= i < engine.workspaces@.len() ==> r.contains(engine.workspaces@[i].name),
{
    crate::commits::sorts_keeps_members(engine.names(), r);
    if 0 <= i < j < r.len() {
        assert(crate::sort::Ordered::le(r[i], r[j]));
        order_is_by_first_difference(r[i]@, r[j]@);
    }
    if 0 <= i < r.len() {
        let k = choose|k: int| 0 <= k < engine.names().len() && engine.names()[k] == r[i];
        assert(engine.workspaces@[k].name == r[i]);
    }
    if 0 <= i < engine.workspaces@.len() {
        assert(engine.names()[i] == engine.workspaces@[i].name);
    }
}

/// A listing has every open workspace once, in the order of the names, each with its
/// place and, where its working-copy commit was read, what that is; else these fields
/// are empty.
pub proof fn listings_show_every_workspace(
    engine: &RepoEngine,
    read: &Vec<Commit>,
    r: Vec<WorkspaceInfo>,
    i: int,
    j: int,
)
    requires
        engine.wf(),
        call_ensures(RepoEngine::list_workspaces, (engine, read), r),
    ensures
        r@.len() == engine.workspaces@.len(),
        0 <= i < j < r@.len() ==> stands_before(r@[i].name@, r@[j].name@),
        0 <= i < engine.workspaces@.len() ==> exists|k: int|
            0 <= k < r@.len() && (#[trigger] r@[k]).name@ == engine.workspaces@[i].name@,
        0 <= i < r@.len() ==> exists|k: int|
            0 <= k < engine.workspaces@.len() && (#[trigger] engine.workspaces@[k]).name@
                == r@[i].name@ && r@[i].path@ == engine.workspaces@[k].root@,
        0 <= i < r@.len() ==> match engine.wc_id(r@[i].name@) {
            Ok(id) => if exists|c: int| 0 <= c < read@.len() && (#[trigger] read@[c]).id@ == id {
                exists|c: int|
                    0 <= c < read@.len() && (#[trigger] read@[c]).id@ == id && shows_workspace(
                        r@[i],
                        r@[i].name@,
                        r@[i].path@,
                        read@[c],
                    )
            } else {
                r@[i].change_id@.len() == 0 && r@[i].commit_id@.len() == 0
                    && r@[i].description@.len() == 0
            },
            Err(_) => r@[i].change_id@.len() == 0 && r@[i].commit_id@.len() == 0
                && r@[i].description@.len() == 0,
        },
{
    let names = choose|names: Seq<String>| #[trigger]
        sorts(engine.names(), names) && forall|i: int|
            0 <= i < names.len() ==> engine.is_listed(#[trigger] r@[i], names[i]@, read@);
    sorted_names_are(*engine, names, i, j);
    if 0 <= i < r@.len() {
        assert(engine.is_listed(r@[i], names[i]@, read@));
        let k = choose|k: int|
            0 <= k < engine.workspaces@.len() && (#[trigger] engine.workspaces@[k]).name == names[i];
        only_one_is_found(engine.workspaces@, entry_named(names[i]@), k);
        if let Ok(id) = engine.wc_id(r@[i].name@) {
            let p = commit_of_id(id);
            first_where_is_there(read@, p);
            match first_where(read@, p) {
                Some(c) => {
                    let n = choose|n: int| 0 <= n < read@.len() && read@[n] == c;
                    assert(read@[n].id@ == id);
                },
                None => {
                    assert forall|c: int| 0 <= c < read@.len() implies (#[trigger] read@[c]).id@
                        != id by {
                        assert(!p(read@[c]));
                    }
                },
            }
        }
    }
    if 0 <= j < r@.len() {
        assert(engine.is_listed(r@[j], names[j]@, read@));
    }
    if 0 <= i < engine.workspaces@.len() {
        let k = choose|k: int| 0 <= k < names.len() && names[k] == engine.workspaces@[i].name;
        assert(engine.is_listed(r@[k], names[k]@, read@));
        assert(r@[k].name@ == engine.workspaces@[i].name@);
    }
}

/// What the row of a log shows of a commit.
pub open spec fn shows_commit(row: LogEntry, view: RepoView, c: Commit) -> bool {
    &&& shows_start(row.change_id@, reverse_hex_text(c.change_id@))
    &&& shows_start(row.commit_id@, hex_text(c.id@))
    &&& row.description@ == c.description@
    &&& row.author_name@ == c.author_name@
    &&& row.author_email@ == c.author_email@
    &&& c.committer_ms >= 0 ==> row.timestamp_ms == c.committer_ms
    &&& c.committer_ms < 0 ==> row.timestamp_ms == 0
    &&& row.is_working_copy <==> exists|k: int|
        0 <= k < view.working_copies@.len() && (#[trigger] view.working_copies@[k]).commit@ == c.id@
    &&& forall|b: int|
        0 <= b < view.bookmarks@.len() && bookmark_is_at(#[trigger] view.bookmarks@[b], c.id@)
            ==> texts(row.bookmarks@).contains(view.bookmarks@[b].name@)
    &&& forall|n: int|
        0 <= n < row.bookmarks@.len() ==> is_bookmark_of(view, c, (#[trigger] row.bookmarks@[n])@)
    &&& forall|n: int, m: int|
        0 <= n < m < row.bookmarks@.len() ==> stand_in_order(
            view,
            c,
            (#[trigger] row.bookmarks@[n])@,
            (#[trigger] row.bookmarks@[m])@,
        )
}

/// Two bookmarks of the commit have these names, and stand in this order.
pub open spec fn stand_in_order(view: RepoView, c: Commit, a: Seq<char>, b: Seq<char>) -> bool {
    exists|p: int, q: int|
        0 <= p < q < view.bookmarks@.len() && (#[trigger] view.bookmarks@[p]).name@ == a && (
        #[trigger] view.bookmarks@[q]).name@ == b && bookmark_is_at(view.bookmarks@[p], c.id@)
            && bookmark_is_at(view.bookmarks@[q], c.id@)
}

/// One of the commits that the bookmark points at is this one.
pub open spec fn bookmark_is_at(b: Bookmark, id: Seq<u8>) -> bool {
    exists|t: int| 0 <= t < b.targets@.len() && (#[trigger] b.targets@[t])@ == id
}

/// A bookmark of this name points at the commit.
pub open spec fn is_bookmark_of(view: RepoView, c: Commit, name: Seq<char>) -> bool {
    exists|b: int|
        0 <= b < view.bookmarks@.len() && (#[trigger] view.bookmarks@[b]).name@ == name
            && bookmark_is_at(view.bookmarks@[b], c.id@)
}

pub(crate) proof fn log_rows_show(row: LogEntry, view: RepoView, c: Commit)
    requires
        is_log_entry(row, view, c),
    ensures
        shows_commit(row, view, c),
{
    let at = |b: Bookmark| points_at(b, c.id@);
    let kept = view.bookmarks@.filter(at);
    let names = texts(row.bookmarks@);
    assert(names == crate::engine::bookmark_names(kept));
    assert forall|b: int|
        0 <= b < view.bookmarks@.len() && bookmark_is_at(
            #[trigger] view.bookmarks@[b],
            c.id@,
        ) implies names.contains(view.bookmarks@[b].name@) by {
        let k = crate::files::filter_keeps_each(view.bookmarks@, at, b);
        assert(names[k] == kept[k].name@);
    }
    assert forall|n: int| 0 <= n < row.bookmarks@.len() implies is_bookmark_of(
        view,
        c,
        (#[trigger] row.bookmarks@[n])@,
    ) by {
        assert(names[n] == row.bookmarks@[n]@);
        assert(names[n] == kept[n].name@);
        let r = crate::files::filter_comes_from(view.bookmarks@, at, n, n);
        assert(view.bookmarks@[r.0].name@ == row.bookmarks@[n]@);
        assert(points_at(view.bookmarks@[r.0], c.id@));
    }
    assert forall|n: int, m: int| 0 <= n < m < row.bookmarks@.len() implies stand_in_order(
        view,
        c,
        (#[trigger] row.bookmarks@[n])@,
        (#[trigger] row.bookmarks@[m])@,
    ) by {
        assert(names[n] == row.bookmarks@[n]@ && names[m] == row.bookmarks@[m]@);
        assert(names[n] == kept[n].name@ && names[m] == kept[m].name@);
        let r = crate::files::filter_comes_from(view.bookmarks@, at, n, m);
        let s = crate::files::filter_comes_from(view.bookmarks@, at, m, m);
        assert(view.bookmarks@[r.0].name@ == row.bookmarks@[n]@);
        assert(view.bookmarks@[r.1].name@ == row.bookmarks@[m]@);
        assert(points_at(view.bookmarks@[r.0], c.id@));
        assert(view.bookmarks@[s.0] == view.bookmarks@[r.1]);
        assert(points_at(view.bookmarks@[r.1], c.id@));
    }
}

/// The row of a log shows its commit, and a log shows the commits that it is given, in
/// order, up to its limit.
pub proof fn logs_show_their_commits(
    engine: &RepoEngine,
    commit: &Commit,
    row: LogEntry,
    visible: &Vec<Commit>,
    limit: usize,
    r: Vec<LogEntry>,
    i: int,
)
    ensures
        call_ensures(RepoEngine::log_entry_for, (engine, commit), row) ==> shows_commit(
            row,
            engine.view,
            *commit,
        ),
        call_ensures(RepoEngine::log, (engine, visible, limit), r) ==> r@.len() <= limit && r@.len()
            <= visible@.len() && (r@.len() == limit || r@.len() == visible@.len()) && (0 <= i
            < r@.len() ==> shows_commit(r@[i], engine.view, visible@[i])),
{
    if call_ensures(RepoEngine::log_entry_for, (engine, commit), row) {
        log_rows_show(row, engine.view, *commit);
    }
    if call_ensures(RepoEngine::log, (engine, visible, limit), r) && 0 <= i < r@.len() {
        log_rows_show(r@[i], engine.view, visible@[i]);
    }
}

/// A shorter log is the start of a longer one.
pub proof fn shorter_logs_are_starts(
    engine: &RepoEngine,
    visible: &Vec<Commit>,
    a: usize,
    b: usize,
    x: Vec<LogEntry>,
    y: Vec<LogEntry>,
    i: int,
)
    requires
        a <= b,
        call_ensures(RepoEngine::log, (engine, visible, a), x),
        call_ensures(RepoEngine::log, (engine, visible, b), y),
        0 <= i < x@.len(),
    ensures
        i < y@.len(),
        x@[i].commit_id@ == y@[i].commit_id@,
        x@[i].change_id@ == y@[i].change_id@,
{
    assert(is_log_entry(x@[i], engine.view, visible@[i]));
    assert(is_log_entry(y@[i], engine.view, visible@[i]));
}

/// The change id as it is shown, or the commit id, begins with the prefix.
pub open spec fn fits(c: Commit, prefix: Seq<char>) -> bool {
    prefix.is_prefix_of(reverse_hex_text(c.change_id@)) || prefix.is_prefix_of(hex_text(c.id@))
}

/// A prefix means the one commit that it fits. One that fits none is not found, and one
/// that fits two is ambiguous.
pub proof fn prefixes_mean_one_commit(
    visible: &Vec<Commit>,
    prefix: &str,
    r: Result<&Commit, EngineError>,
    i: int,
    j: int,
)
    requires
        call_ensures(RepoEngine::resolve_change, (visible, prefix), r),
    ensures
        prefix@.len() == 0 ==> fails(r, ErrorKind::Invalid, "empty change/commit id prefix"@),
        prefix@.len() > 0 && (forall|k: int|
            0 <= k < visible@.len() ==> !fits(#[trigger] visible@[k], prefix@)) ==> fails(
            r,
            ErrorKind::NotFound,
            "no visible commit matches prefix "@ + debug_text(prefix@),
        ),
        prefix@.len() > 0 && 0 <= i < visible@.len() && fits(visible@[i], prefix@) && (
        forall|k: int|
            0 <= k < visible@.len() && fits(#[trigger] visible@[k], prefix@) ==> k == i) ==> r == Ok::<
            &Commit,
            EngineError,
        >(&visible@[i]),
        prefix@.len() > 0 && 0 <= i < j < visible@.len() && fits(visible@[i], prefix@) && fits(
            visible@[j],
            prefix@,
        ) ==> fails(
            r,
            ErrorKind::Invalid,
            "prefix "@ + debug_text(prefix@) + " is ambiguous: "@ + decimal(
                visible@.filter(|c: Commit| fits(c, prefix@)).len(),
            ) + " visible commits match"@,
        ),
        r matches Ok(c) ==> prefix@.len() > 0 && visible@.contains(*c) && fits(*c, prefix@),
{
    let f = |c: Commit| id_starts_with(c, prefix@);
    let found = visible@.filter(f);
    assert(found == meant_by(visible@, prefix@));
    if forall|k: int| 0 <= k < visible@.len() ==> !fits(#[trigger] visible@[k], prefix@) {
        crate::engine::filter_of_none(visible@, f);
    }
    if 0 <= i < visible@.len() && fits(visible@[i], prefix@) && forall|k: int|
        0 <= k < visible@.len() && fits(#[trigger] visible@[k], prefix@) ==> k == i {
        assert forall|k: int| 0 <= k < visible@.len() implies (f(#[trigger] visible@[k]) <==> k
            == i) by {}
        crate::engine::filter_of_one(visible@, f, i);
    }
    if 0 <= i < j < visible@.len() && fits(visible@[i], prefix@) && fits(visible@[j], prefix@) {
        two_are_kept(visible@, f, i, j);
        assert(f =~= |c: Commit| fits(c, prefix@));
    }
    if r is Ok {
        let c = *r->Ok_0;
        let from = crate::files::filter_comes_from(visible@, f, 0, 0);
        assert(visible@[from.0] == c);
    }
}

proof fn two_are_kept<T>(s: Seq<T>, keep: spec_fn(T) -> bool, i: int, j: int)
    requires
        0 <= i < j < s.len(),
        keep(s[i]),
        keep(s[j]),
    ensures
        s.filter(keep).len() >= 2,
    decreases s.len(),
{
    reveal(Seq::filter);
    let front = s.drop_last();
    if j < s.len() - 1 {
        two_are_kept(front, keep, i, j);
    } else {
        let a = crate::files::filter_keeps_each(front, keep, i);
        assert(front.filter(keep).len() > 0);
    }
}

/// A status is started for the repo under its id, with every workspace in the order of
/// the names, and goes by its steps.
pub proof fn statuses_go_by_steps(
    engine: &RepoEngine,
    repo_id: String,
    start: Status,
    m: &mut Status,
    reply: StatusReply,
    action: StatusAction,
    i: int,
    j: int,
)
    ensures
        call_requires(RepoEngine::status, (engine, repo_id)),
        call_ensures(RepoEngine::status, (engine, repo_id), start) ==> start.repo_id == repo_id
            && start.phase == StatusPhase::Start && start.wf() && start.rows@.len() == 0
            && start.names@.len() == engine.workspaces@.len() && (0 <= i < j < start.names@.len()
            ==> stands_before(start.names@[i]@, start.names@[j]@)) && (0 <= i
            < engine.workspaces@.len() ==> start.names@.contains(engine.workspaces@[i].name)),
        old(m).wf() ==> call_requires(Status::step, (m, engine, reply)),
        call_ensures(Status::step, (m, engine, reply), action) ==> final(m).wf() && status_step(
            *engine,
            *old(m),
            reply,
            *final(m),
            action,
        ),
{
    if call_ensures(RepoEngine::status, (engine, repo_id), start) {
        sorted_names_are(*engine, start.names@, i, j);
    }
}

/// The row of a workspace shows its own working-copy commit, the change of the first
/// parent of that, and the files that differ from the parent to it.
pub proof fn rows_show_their_workspace(
    engine: RepoEngine,
    states: Seq<Status>,
    replies: Seq<StatusReply>,
    actions: Seq<StatusAction>,
    i: int,
    k: int,
)
    requires
        is_status_run(engine, states, replies, actions),
        0 <= i < actions.len(),
        actions[i] matches StatusAction::Finish(r) && r is Ok,
        0 <= k < actions[i]->Finish_0->Ok_0.workspaces@.len(),
    ensures
        actions[i]->Finish_0->Ok_0.repo.id.0@ == states[0].repo_id@,
        actions[i]->Finish_0->Ok_0.repo.root@ == engine.root@,
        actions[i]->Finish_0->Ok_0.workspaces@.len() == states[0].names@.len(),
        ({
            let row = actions[i]->Finish_0->Ok_0.workspaces@[k];
            let name = states[0].names@[k]@;
            &&& 3 * k + 3 <= i
            &&& replies[3 * k + 1] matches StatusReply::Commit(Ok(wc)) && replies[3 * k
                + 2] matches StatusReply::Commit(Ok(parent)) && replies[3 * k
                + 3] matches StatusReply::Differences(Ok(diff)) && {
                &&& actions[3 * k] matches StatusAction::Read(asked) && engine.wc_id(name) == Ok::<
                    _,
                    (ErrorKind, Seq<char>),
                >(asked@)
                &&& actions[3 * k + 1] matches StatusAction::Read(first) && wc.parents@.len() > 0
                    && first@ == wc.parents@[0]@
                &&& actions[3 * k + 2] matches StatusAction::Diff { before, after } && before@
                    == parent.id@ && after@ == wc.id@
                &&& engine.entry(name) matches Some(e) && shows_workspace(row.info, name, e.root@, wc)
                &&& shows_start(row.parent_change_id@, reverse_hex_text(parent.change_id@))
                &&& tells_all(row.changed_files@, diff@)
            }
        }),
{
    crate::status::every_workspace_has_its_row(engine, states, replies, actions, i);
    let row = actions[i]->Finish_0->Ok_0.workspaces@[k];
    assert(row_was_read(engine, replies, actions, 3 * k + 1, states[0].names@[k]@, row));
    status_ends_late(engine, states, replies, actions, i, k);
    file_changes_tell(row.changed_files@, replies[3 * k + 3]->Differences_0->Ok_0@);
}

proof fn status_ends_late(
    engine: RepoEngine,
    states: Seq<Status>,
    replies: Seq<StatusReply>,
    actions: Seq<StatusAction>,
    i: int,
    k: int,
)
    requires
        is_status_run(engine, states, replies, actions),
        0 <= i < actions.len(),
        actions[i] matches StatusAction::Finish(r) && r is Ok,
        0 <= k < actions[i]->Finish_0->Ok_0.workspaces@.len(),
    ensures
        3 * k + 3 <= i,
{
    assert(status_step(engine, states[i], replies[i], states[i + 1], actions[i]));
    crate::status::status_run_shows(engine, states, replies, actions, i);
    let pre = states[i];
    if pre.phase == StatusPhase::Trees {
        crate::status::row_is_added(
            engine,
            states,
            replies,
            actions,
            i,
            actions[i]->Finish_0->Ok_0.workspaces@,
        );
    }
}

/// A status fails as what it is made of fails, and only so.
pub proof fn statuses_fail_as_their_parts(
    engine: RepoEngine,
    pre: Status,
    reply: StatusReply,
    post: Status,
    action: StatusAction,
)
    requires
        pre.wf(),
        status_step(engine, pre, reply, post, action),
        pre.phase != StatusPhase::Over,
    ensures
        pre.phase == StatusPhase::Start && reply is Begin && pre.rows@.len() < pre.names@.len()
            ==> match engine.wc_id(pre.names@[pre.rows@.len() as int]@) {
            Ok(_) => action is Read,
            Err(e) => action matches StatusAction::Finish(r) && fails(r, e.0, e.1),
        },
        pre.phase == StatusPhase::Start && reply is Begin && pre.rows@.len() == pre.names@.len() ==> (
        action matches StatusAction::Finish(r) && r is Ok),
        pre.phase == StatusPhase::WorkingCopy && reply is Commit ==> match reply->Commit_0 {
            Ok(c) => if c.parents@.len() > 0 {
                action is Read
            } else {
                action matches StatusAction::Finish(r) && fails(
                    r,
                    ErrorKind::Internal,
                    "working-copy commit "@ + hex_text(c.id@) + " has no parents"@,
                )
            },
            Err(e) => action matches StatusAction::Finish(r) && passes_on(r, e),
        },
        pre.phase == StatusPhase::Parent && reply is Commit ==> match reply->Commit_0 {
            Ok(_) => action is Diff,
            Err(e) => action matches StatusAction::Finish(r) && passes_on(r, e),
        },
        pre.phase == StatusPhase::Trees && reply is Differences ==> match reply->Differences_0 {
            Ok(_) => if engine.entry(pre.names@[pre.rows@.len() as int]@) is None {
                action matches StatusAction::Finish(r) && fails(
                    r,
                    ErrorKind::NotFound,
                    "no workspace "@ + pre.names@[pre.rows@.len() as int]@,
                )
            } else if pre.rows@.len() + 1 == pre.names@.len() {
                action matches StatusAction::Finish(r) && r is Ok
            } else {
                match engine.wc_id(pre.names@[pre.rows@.len() as int + 1]@) {
                    Ok(id) => action matches StatusAction::Read(asked) && asked@ == id,
                    Err(e) => action matches StatusAction::Finish(r) && fails(r, e.0, e.1),
                }
            },
            Err(e) => action matches StatusAction::Finish(r) && passes_on(r, e),
        },
{
}

/// What brings the on-disk state of a workspace up to date is about that workspace and
/// its own working-copy commit.
pub proof fn states_are_pointed_at_their_commit(
    engine: &RepoEngine,
    ws: &str,
    id: Result<CommitId, EngineError>,
    r: Result<Vec<Op>, EngineError>,
)
    requires
        call_ensures(RepoEngine::wc_commit, (engine, ws), id),
        call_ensures(RepoEngine::sync_wc_after_tx, (engine, ws), r),
    ensures
        match id {
            Ok(wc) => r matches Ok(ops) && ops@.len() == 3 && (ops@[0] matches Op::Lock(name)
                && name@ == ws@) && (ops@[1] matches Op::Reset(commit) && commit@ == wc@)
                && ops@[2] is Unlock,
            Err(e) => passes_on(r, e),
        },
{
    if r is Ok {
        let ops = r->Ok_0@;
        assert(ops_view(ops).len() == ops.len());
        assert(forall|k: int| 0 <= k < ops.len() ==> (#[trigger] ops[k])@ == ops_view(ops)[k]);
    }
}

/// Copies are what they are copies of, and a repo knows the working copy of a workspace
/// by the name that it has for it.
pub proof fn copies_are_the_same(
    info: &RepoInfo,
    info_copy: RepoInfo,
    entry: &WorkspaceEntry,
    entry_copy: WorkspaceEntry,
    view: &RepoView,
    jj_name: &str,
    r: Option<&CommitId>,
    j: int,
)
    ensures
        call_ensures(RepoInfo::copy, (info,), info_copy) ==> info_copy.id.0@ == info.id.0@
            && info_copy.root@ == info.root@,
        call_ensures(WorkspaceEntry::copy, (entry,), entry_copy) ==> entry_copy.name@ == entry.name@
            && entry_copy.jj_name@ == entry.jj_name@ && entry_copy.root@ == entry.root@,
        call_ensures(RepoView::working_copy, (view, jj_name), r) && 0 <= j
            < view.working_copies@.len() && view.working_copies@[j].workspace@ == jj_name@ && (
        forall|i: int|
            0 <= i < j ==> (#[trigger] view.working_copies@[i]).workspace@ != jj_name@) ==> r == Some(
            &view.working_copies@[j].commit,
        ),
        call_ensures(RepoView::working_copy, (view, jj_name), r) && (forall|i: int|
            0 <= i < view.working_copies@.len() ==> (#[trigger] view.working_copies@[i]).workspace@
                != jj_name@) ==> r is None,
{
    let q = working_copy_of(jj_name@);
    first_where_is_there(view.working_copies@, q);
    if 0 <= j < view.working_copies@.len() && q(view.working_copies@[j]) && forall|i: int|
        0 <= i < j ==> (#[trigger] view.working_copies@[i]).workspace@ != jj_name@ {
        first_is_found(view.working_copies@, q, j);
    }
}

/// A script hands out its operations one by one and in order, stops at the first that
/// fails, and ends well behind the last.
pub proof fn scripts_go_in_order(
    ops: Vec<Op>,
    start: Script,
    m: &mut Script,
    reply: Result<(), EngineError>,
    action: ScriptAction<'_>,
)
    ensures
        call_ensures(Script::start, (ops,), start) ==> start.ops == ops && start.at == 0 && start.wf(),
        old(m).wf() ==> call_requires(Script::step, (m, reply)),
        call_ensures(Script::step, (m, reply), action) ==> final(m).ops == old(m).ops,
        call_ensures(Script::step, (m, reply), action) && reply is Ok && old(m).at < old(m).ops@.len()
            ==> final(m).at == old(m).at + 1 && (action matches ScriptAction::Perform(op) && *op
            == old(m).ops@[final(m).at - 1]),
        call_ensures(Script::step, (m, reply), action) && reply is Ok && old(m).at >= old(m).ops@.len()
            ==> (action matches ScriptAction::Finish(r) && r is Ok),
        call_ensures(Script::step, (m, reply), action) && reply is Err ==> final(m).at
            == old(m).ops@.len() && (action matches ScriptAction::Finish(r) && passes_on(
            r,
            reply->Err_0,
        )),
{
}

} // verus!
