//! What is watched, and what the other workspaces of a repo are.

use vstd::prelude::*;
use vstd::string::*;

#[allow(unused_imports)]
use crate::commits::{RepoView, WorkingCopy};
#[allow(unused_imports)]
use crate::engine::WorkspaceEntry;
#[allow(unused_imports)]
use crate::error::{EngineError, ErrorKind};
#[allow(unused_imports)]
use crate::laws::{fails, passes_on};
#[allow(unused_imports)]
use crate::others::{
    is_others_run, load_extra_workspaces, others_goes_on, others_step, state_path_of, type_path_of,
    working_copy_type, LoadOthers, OthersAction, OthersPhase, OthersReply,
};
#[allow(unused_imports)]
use crate::paths::{components, joined_path, within};
#[allow(unused_imports)]
use crate::proto::RepoId;
#[allow(unused_imports)]
use crate::registry::WatchedRoot;
#[allow(unused_imports)]
use crate::text::{debug_text, texts};
#[allow(unused_imports)]
use crate::watcher::{
    all_paths, deepest, dirtied_by, dirty_repos, is_dirty, is_internal, plan_batch, spawn, Batch,
    BatchPlan, SpawnAction, SpawnWatcher, WatcherHandle,
};

verus! {

/// A path is jj's or git's own where one of its components is `.jj` or `.git`.
pub proof fn own_paths_have_own_components(path: &str, r: bool)
    requires
        call_ensures(is_internal, (path,), r),
    ensures
        r <==> exists|i: int|
            0 <= i < components(path@).len() && (#[trigger] components(path@)[i] == ".jj"@
                || components(path@)[i] == ".git"@),
{
    let parts = components(path@);
    if parts.contains(".jj"@) {
        let i = choose|i: int| 0 <= i < parts.len() && parts[i] == ".jj"@;
        assert(parts[i] == ".jj"@);
    }
    if parts.contains(".git"@) {
        let i = choose|i: int| 0 <= i < parts.len() && parts[i] == ".git"@;
        assert(parts[i] == ".git"@);
    }
}

/// The path lies in root `k`, and in none that is deeper; of roots that are as deep, `k`
/// is the last.
pub open spec fn is_seen_by(roots: Seq<WatchedRoot>, path: Seq<char>, k: int) -> bool {
    &&& 0 <= k < roots.len()
    &&& within(path, roots[k].root@)
    &&& forall|j: int|
        0 <= j < roots.len() && within(path, (#[trigger] roots[j]).root@) ==> components(
            roots[j].root@,
        ).len() <= components(roots[k].root@).len()
    &&& forall|j: int|
        k < j < roots.len() && within(path, (#[trigger] roots[j]).root@) ==> components(
            roots[j].root@,
        ).len() < components(roots[k].root@).len()
}

/// The path has a component of jj's or git's.
pub open spec fn is_own(path: Seq<char>) -> bool {
    exists|i: int|
        0 <= i < components(path).len() && (#[trigger] components(path)[i] == ".jj"@ || components(
            path,
        )[i] == ".git"@)
}

proof fn deepest_is_seen(roots: Seq<WatchedRoot>, path: Seq<char>) -> (k: int)
    ensures
        match deepest(roots, path) {
            Some(best) => is_seen_by(roots, path, k) && roots[k] == best,
            None => forall|j: int|
                0 <= j < roots.len() ==> !within(path, (#[trigger] roots[j]).root@),
        },
    decreases roots.len(),
{
    if roots.len() == 0 {
        0
    } else {
        let front = roots.drop_last();
        let n = roots.len() - 1;
        let k = deepest_is_seen(front, path);
        assert(forall|j: int| 0 <= j < n ==> #[trigger] roots[j] == front[j]);
        if deepest(roots, path) == Some(roots[n]) && within(path, roots[n].root@) && (deepest(
            front,
            path,
        ) is None || components(roots[n].root@).len() >= components(
            deepest(front, path)->0.root@,
        ).len()) {
            n
        } else {
            k
        }
    }
}

proof fn seen_once(roots: Seq<WatchedRoot>, path: Seq<char>, a: int, b: int)
    requires
        is_seen_by(roots, path, a),
        is_seen_by(roots, path, b),
    ensures
        a == b,
{
}

proof fn dirtied_is_seen(roots: Seq<WatchedRoot>, path: Seq<char>, k: int)
    ensures
        dirtied_by(roots, path) is Some ==> !is_own(path) && exists|j: int| #[trigger]
            is_seen_by(roots, path, j) && roots[j].id.0@ == dirtied_by(roots, path)->0,
        !is_own(path) && is_seen_by(roots, path, k) ==> dirtied_by(roots, path) == Some(
            roots[k].id.0@,
        ),
{
    let parts = components(path);
    let d = deepest_is_seen(roots, path);
    if crate::watcher::internal(path) {
        if parts.contains(".jj"@) {
            let i = choose|i: int| 0 <= i < parts.len() && parts[i] == ".jj"@;
            assert(parts[i] == ".jj"@);
        } else {
            let i = choose|i: int| 0 <= i < parts.len() && parts[i] == ".git"@;
            assert(parts[i] == ".git"@);
        }
    }
    if is_own(path) {
        let i = choose|i: int|
            0 <= i < parts.len() && (#[trigger] parts[i] == ".jj"@ || parts[i] == ".git"@);
        assert(parts.contains(parts[i]));
    }
    if is_seen_by(roots, path, k) {
        if deepest(roots, path) is Some {
            seen_once(roots, path, k, d);
        }
    }
    if deepest(roots, path) is Some {
        assert(is_seen_by(roots, path, d));
    }
}

/// A repo is dirty where something happened in it: at a path that is not jj's or git's
/// own, and of which one of its roots is the deepest. Each is named once.
pub proof fn repos_are_dirty_where_something_happened(
    roots: &Vec<WatchedRoot>,
    paths: &Vec<String>,
    r: Vec<String>,
    n: int,
    p: int,
    k: int,
)
    requires
        call_ensures(dirty_repos, (roots, paths), r),
    ensures
        texts(r@).no_duplicates(),
        0 <= n < r@.len() ==> was_touched(roots@, paths@, r@[n]@),
        0 <= p < paths@.len() && !is_own(paths@[p]@) && is_seen_by(roots@, paths@[p]@, k) ==> texts(
            r@,
        ).contains(roots@[k].id.0@),
{
    if 0 <= n < r@.len() {
        assert(texts(r@)[n] == r@[n]@);
        assert(texts(r@).contains(r@[n]@));
        dirty_was_touched(roots@, paths@, r@[n]@);
    }
    if 0 <= p < paths@.len() && !is_own(paths@[p]@) && is_seen_by(roots@, paths@[p]@, k) {
        dirtied_is_seen(roots@, paths@[p]@, k);
        assert(is_dirty(roots@, paths@, roots@[k].id.0@));
    }
}

/// At one of the paths something happened to this repo.
pub open spec fn was_touched(roots: Seq<WatchedRoot>, paths: Seq<String>, id: Seq<char>) -> bool {
    exists|p: int, k: int|
        0 <= p < paths.len() && !is_own(paths[p]@) && #[trigger] is_seen_by(roots, paths[p]@, k)
            && roots[k].id.0@ == id
}

proof fn dirty_was_touched(roots: Seq<WatchedRoot>, paths: Seq<String>, id: Seq<char>)
    requires
        is_dirty(roots, paths, id),
    ensures
        was_touched(roots, paths, id),
{
    let p = choose|p: int|
        0 <= p < paths.len() && dirtied_by(roots, (#[trigger] paths[p])@) == Some(id);
    dirtied_is_seen(roots, paths[p]@, 0);
    let k = choose|k: int| #[trigger]
        is_seen_by(roots, paths[p]@, k) && roots[k].id.0@ == id;
    assert(is_seen_by(roots, paths[p]@, k));
}

/// A batch of events makes dirty what any path of any event does, and warns of nothing;
/// a batch of errors warns of each, and makes nothing dirty.
pub proof fn batches_come_to_what_they_hold(
    roots: &Vec<WatchedRoot>,
    batch: &Batch,
    r: BatchPlan,
    e: int,
    p: int,
    k: int,
    n: int,
) -> (at: (int, int))
    requires
        call_ensures(plan_batch, (roots, batch), r),
    ensures
        texts(r.dirty@).no_duplicates(),
        batch matches Batch::Events(events) ==> {
            &&& r.warnings@.len() == 0
            &&& 0 <= e < events@.len() && 0 <= p < events@[e]@.len() && !is_own(events@[e]@[p]@)
                && is_seen_by(roots@, events@[e]@[p]@, k) ==> texts(r.dirty@).contains(
                roots@[k].id.0@,
            )
            &&& 0 <= n < r.dirty@.len() ==> 0 <= at.0 < events@.len() && 0 <= at.1
                < events@[at.0]@.len() && !is_own(events@[at.0]@[at.1]@) && exists|j: int| #[trigger]
                is_seen_by(roots@, events@[at.0]@[at.1]@, j) && roots@[j].id.0@ == r.dirty@[n]@
        },
        batch matches Batch::Errors(errors) ==> r.dirty@.len() == 0 && r.warnings@.len()
            == errors@.len() && (0 <= n < errors@.len() ==> r.warnings@[n]@ == "watcher error: "@
            + errors@[n]@),
{
    assert(texts(r.dirty@).len() == r.dirty@.len());
    assert(texts(r.warnings@).len() == r.warnings@.len());
    match batch {
        Batch::Events(events) => {
            let all = all_paths(events@);
            if 0 <= e < events@.len() && 0 <= p < events@[e]@.len() && !is_own(events@[e]@[p]@)
                && is_seen_by(roots@, events@[e]@[p]@, k) {
                let m = path_is_among(events@, e, p);
                dirtied_is_seen(roots@, all[m]@, k);
                assert(is_dirty(roots@, all, roots@[k].id.0@));
            }
            if 0 <= n < r.dirty@.len() {
                assert(texts(r.dirty@)[n] == r.dirty@[n]@);
                assert(texts(r.dirty@).contains(r.dirty@[n]@));
                let m = choose|m: int|
                    0 <= m < all.len() && dirtied_by(roots@, (#[trigger] all[m])@) == Some(
                        r.dirty@[n]@,
                    );
                dirtied_is_seen(roots@, all[m]@, 0);
                path_is_of(events@, m)
            } else {
                (0, 0)
            }
        },
        Batch::Errors(errors) => {
            if 0 <= n < errors@.len() {
                assert(texts(r.warnings@)[n] == r.warnings@[n]@);
            }
            (0, 0)
        },
    }
}

proof fn path_is_among(events: Seq<Vec<String>>, e: int, p: int) -> (m: int)
    requires
        0 <= e < events.len(),
        0 <= p < events[e]@.len(),
    ensures
        0 <= m < all_paths(events).len(),
        all_paths(events)[m] == events[e]@[p],
    decreases events.len(),
{
    let front = events.drop_last();
    if e < front.len() {
        path_is_among(front, e, p)
    } else {
        all_paths(front).len() + p
    }
}

proof fn path_is_of(events: Seq<Vec<String>>, m: int) -> (r: (int, int))
    requires
        0 <= m < all_paths(events).len(),
    ensures
        0 <= r.0 < events.len(),
        0 <= r.1 < events[r.0]@.len(),
        all_paths(events)[m] == events[r.0]@[r.1],
    decreases events.len(),
{
    let front = events.drop_last();
    if m < all_paths(front).len() {
        path_is_of(front, m)
    } else {
        (events.len() - 1, m - all_paths(front).len())
    }
}

/// The watcher is started on the roots that are named, one after the other, and holds
/// all of them in the end; the first failure is that of the whole.
pub proof fn watchers_watch_every_root(
    roots: Vec<WatchedRoot>,
    start: SpawnWatcher,
    m: &mut SpawnWatcher,
    reply: Result<(), EngineError>,
    action: SpawnAction,
)
    ensures
        call_ensures(spawn, (roots,), start) ==> start.roots == roots && start.at == 0 && start.wf(),
        old(m).wf() ==> call_requires(SpawnWatcher::step, (m, reply)),
        call_ensures(SpawnWatcher::step, (m, reply), action) && reply is Err ==> (
        action matches SpawnAction::Finish(r) && passes_on(r, reply->Err_0)),
        call_ensures(SpawnWatcher::step, (m, reply), action) && reply is Ok && old(m).at
            < old(m).roots@.len() ==> final(m).roots == old(m).roots && final(m).at == old(m).at + 1
            && (action matches SpawnAction::Watch(root) && root@ == old(m).roots@[final(m).at
            - 1].root@),
        call_ensures(SpawnWatcher::step, (m, reply), action) && reply is Ok && old(m).at
            >= old(m).roots@.len() ==> (action matches SpawnAction::Finish(r) && (r matches Ok(handle)
            && handle.roots@ == old(m).roots@)),
{
}

/// A root that a repo has got is known to be watched where watching it went well, and the
/// others stay known.
pub proof fn watched_roots_are_known(
    handle: &mut WatcherHandle,
    id: RepoId,
    root: String,
    watched: Result<(), EngineError>,
    r: Result<(), EngineError>,
    k: int,
)
    requires
        call_ensures(WatcherHandle::watch_path, (handle, id, root, watched), r),
    ensures
        watched is Ok ==> r is Ok && final(handle).roots@.len() == old(handle).roots@.len() + 1
            && final(handle).roots@.last().id == id && final(handle).roots@.last().root == root,
        watched is Err ==> passes_on(r, watched->Err_0) && final(handle).roots@
            == old(handle).roots@,
        0 <= k < old(handle).roots@.len() ==> final(handle).roots@[k] == old(handle).roots@[k],
{
}

/// The other workspaces are those of the view but the one that is open.
pub proof fn other_workspaces_are_the_others(
    view: &RepoView,
    primary: &str,
    repo_path: String,
    start: LoadOthers,
    m: &mut LoadOthers,
    reply: OthersReply,
    action: OthersAction,
    k: int,
    n: int,
)
    ensures
        call_ensures(load_extra_workspaces, (view, primary, repo_path), start) ==> {
            &&& start.wf() && start.repo_path == repo_path && start.at == 0 && start.loaded@.len() == 0
            &&& start.phase == OthersPhase::Start
            &&& 0 <= k < start.names@.len() ==> start.names@[k]@ != primary@ && exists|w: int|
                0 <= w < view.working_copies@.len() && (#[trigger] view.working_copies@[w]).workspace@
                    == start.names@[k]@
            &&& 0 <= k < view.working_copies@.len() && view.working_copies@[k].workspace@ != primary@
                ==> texts(start.names@).contains(view.working_copies@[k].workspace@)
            &&& 0 <= k < n < start.names@.len() ==> stand_in_order(
                *view,
                start.names@[k]@,
                start.names@[n]@,
            )
        },
        old(m).wf() ==> call_requires(LoadOthers::step, (m, reply)),
        call_ensures(LoadOthers::step, (m, reply), action) ==> final(m).wf() && others_step(
            *old(m),
            reply,
            *final(m),
            action,
        ),
{
    let all = view.working_copies@.map_values(|w: WorkingCopy| w.workspace@);
    let keep = |n: Seq<char>| n != primary@;
    if call_ensures(load_extra_workspaces, (view, primary, repo_path), start) {
        let names = texts(start.names@);
        assert(names == all.filter(keep));
        assert(names.len() == start.names@.len());
        if 0 <= k < start.names@.len() {
            assert(names[k] == start.names@[k]@);
            let from = crate::files::filter_comes_from(all, keep, k, k);
            assert(view.working_copies@[from.0].workspace@ == all[from.0]);
        }
        if 0 <= k < all.len() && view.working_copies@[k].workspace@ != primary@ {
            assert(all[k] == view.working_copies@[k].workspace@);
            let a = crate::files::filter_keeps_each(all, keep, k);
            assert(names[a] == all[k]);
        }
        if 0 <= k < n < start.names@.len() {
            let from = crate::files::filter_comes_from(all, keep, k, n);
            assert(names[k] == start.names@[k]@ && names[n] == start.names@[n]@);
            assert(view.working_copies@[from.0].workspace@ == all[from.0]);
            assert(view.working_copies@[from.1].workspace@ == all[from.1]);
        }
    }
}

/// Two workspaces of these names stand in this order in the view.
pub open spec fn stand_in_order(view: RepoView, a: Seq<char>, b: Seq<char>) -> bool {
    exists|p: int, q: int|
        0 <= p < q < view.working_copies@.len() && (
        #[trigger] view.working_copies@[p]).workspace@ == a && (
        #[trigger] view.working_copies@[q]).workspace@ == b
}

/// Events are gathered for half a second.
pub proof fn events_are_gathered()
    ensures
        crate::watcher::DEBOUNCE_MS == 500,
{
}

/// How many workspaces were dealt with: passed over, or tried to load.
pub open spec fn were_tried(replies: Seq<OthersReply>, i: int) -> int
    decreases i,
{
    if i <= 0 {
        0
    } else {
        were_tried(replies, i - 1) + if is_done_with(replies[i - 1]) {
            1
        } else {
            0int
        }
    }
}

/// The reply is the last of its workspace.
pub open spec fn is_done_with(reply: OthersReply) -> bool {
    match reply {
        OthersReply::Path(Ok(Some(_))) => false,
        OthersReply::Path(_) => true,
        OthersReply::IsDirectory(there) => !there,
        OthersReply::Loaded(_) => true,
        _ => false,
    }
}

/// The replies before `i` that loaded a workspace.
pub open spec fn loads(replies: Seq<OthersReply>, i: int) -> Seq<int>
    decreases i,
{
    if i <= 0 {
        Seq::empty()
    } else if replies[i - 1] matches OthersReply::Loaded(Ok(_)) {
        loads(replies, i - 1).push(i - 1)
    } else {
        loads(replies, i - 1)
    }
}

/// The entry is the workspace that was asked for and loaded at reply `j`, at its place.
pub open spec fn was_loaded_at(
    entry: WorkspaceEntry,
    replies: Seq<OthersReply>,
    actions: Seq<OthersAction>,
    j: int,
) -> bool {
    &&& 0 < j < replies.len()
    &&& replies[j] matches OthersReply::Loaded(Ok(jj_name)) && entry.jj_name@ == jj_name@
    &&& actions[j - 1] matches OthersAction::Load { name, root } && entry.name@ == name@
        && entry.root@ == root@
}

/// The loading of the other workspaces, action by action: each has its turn, under its
/// own name; where the store says where it is, that place is looked at, as seen from the
/// repo; where it is there, it is loaded from there; and the answer has those that were
/// loaded, in order.
pub proof fn others_run_in_full(
    states: Seq<LoadOthers>,
    replies: Seq<OthersReply>,
    actions: Seq<OthersAction>,
    i: int,
    n: int,
)
    requires
        is_others_run(states, replies, actions),
        0 <= i < actions.len(),
    ensures
        i == 0 && replies[0] is Begin ==> (actions[0] matches OthersAction::OpenStore(path) && path@
            == states[0].repo_path@),
        i == 1 && actions[0] is OpenStore && (replies[1] matches OthersReply::Opened(r) && r is Err)
            ==> (actions[1] matches OthersAction::Finish(r) && passes_on(
            r,
            replies[1]->Opened_0->Err_0,
        )),
        i == 1 && actions[0] is OpenStore && (replies[1] matches OthersReply::Opened(r) && r is Ok)
            || i > 1 && actions[i - 1] is Ask && replies[i] is Path && is_done_with(replies[i]) || i
            > 1 && actions[i - 1] is Look && replies[i] == OthersReply::IsDirectory(false) || i > 1
            && actions[i - 1] is Load && replies[i] is Loaded ==> if were_tried(replies, i + 1)
            < states[0].names@.len() {
            actions[i] matches OthersAction::Ask(name) && name@ == states[0].names@[were_tried(
                replies,
                i + 1,
            )]@
        } else {
            actions[i] matches OthersAction::Finish(r) && (r matches Ok(list) && list@.len()
                == loads(replies, i + 1).len() && (0 <= n < list@.len() ==> was_loaded_at(
                list@[n],
                replies,
                actions,
                loads(replies, i + 1)[n],
            )))
        },
        i > 1 && actions[i - 1] is Ask && (replies[i] matches OthersReply::Path(r) && (
        r matches Ok(Some(_)))) ==> (actions[i] matches OthersAction::Look(root) && root@
            == joined_path(states[0].repo_path@, replies[i]->Path_0->Ok_0->0@)),
        i > 1 && actions[i - 1] is Look && replies[i] == OthersReply::IsDirectory(true) ==> (
        actions[i] matches OthersAction::Load { name, root } && root@ == actions[i - 1]->Look_0@
            && name@ == states[0].names@[were_tried(replies, i)]@ && were_tried(replies, i)
            < states[0].names@.len()),
{
    others_phases(states, replies, actions, i, n);
    assert(others_step(states[i], replies[i], states[i + 1], actions[i]));
    let pre = states[i];
    if pre.phase == OthersPhase::Loading && replies[i] is Loaded && replies[i]->Loaded_0 is Ok {
        let name = pre.names@[pre.at as int]@;
        let jj_name = replies[i]->Loaded_0->Ok_0;
        let entry = choose|entry: WorkspaceEntry| #[trigger]
            crate::others::is_loaded(entry, name, jj_name@, pre.root@) && others_goes_on(
                states[i + 1],
                pre.at + 1,
                pre.loaded@.push(entry),
                actions[i],
            );
        assert(was_loaded_at(entry, replies, actions, i));
    }
}

proof fn others_phases(
    states: Seq<LoadOthers>,
    replies: Seq<OthersReply>,
    actions: Seq<OthersAction>,
    i: int,
    n: int,
)
    requires
        is_others_run(states, replies, actions),
        0 <= i < states.len(),
    ensures
        states[i].names == states[0].names,
        states[i].repo_path == states[0].repo_path,
        states[i].phase == OthersPhase::Start <==> i == 0,
        states[i].phase == OthersPhase::OpeningStore <==> i > 0 && actions[i - 1] is OpenStore,
        states[i].phase == OthersPhase::OpeningStore ==> i == 1,
        states[i].phase == OthersPhase::Asking <==> i > 0 && actions[i - 1] is Ask,
        states[i].phase == OthersPhase::Looking <==> i > 0 && actions[i - 1] is Look,
        states[i].phase == OthersPhase::Loading <==> i > 0 && actions[i - 1] is Load,
        states[i].phase == OthersPhase::Over <==> i > 0 && actions[i - 1] is Finish,
        states[i].phase != OthersPhase::Over ==> states[i].at == were_tried(replies, i)
            && states[i].loaded@.len() == loads(replies, i).len() && (0 <= n < states[i].loaded@.len()
            ==> was_loaded_at(states[i].loaded@[n], replies, actions, loads(replies, i)[n])),
        states[i].phase == OthersPhase::Asking || states[i].phase == OthersPhase::Looking
            || states[i].phase == OthersPhase::Loading ==> i > 1 && states[i].at
            < states[i].names@.len(),
        states[i].phase == OthersPhase::Looking ==> states[i].root@ == actions[i - 1]->Look_0@,
        states[i].phase == OthersPhase::Loading ==> states[i].root@ == actions[i - 1]->Load_root@
            && actions[i - 1]->Load_name@ == states[i].names@[states[i].at as int]@,
    decreases i,
{
    if i > 0 {
        others_phases(states, replies, actions, i - 1, n);
        assert(others_step(states[i - 1], replies[i - 1], states[i], actions[i - 1]));
        let pre = states[i - 1];
        if pre.phase == OthersPhase::Loading && replies[i - 1] is Loaded
            && replies[i - 1]->Loaded_0 is Ok {
            let name = pre.names@[pre.at as int]@;
            let jj_name = replies[i - 1]->Loaded_0->Ok_0;
            let entry = choose|entry: WorkspaceEntry| #[trigger]
                crate::others::is_loaded(entry, name, jj_name@, pre.root@) && others_goes_on(
                    states[i],
                    pre.at + 1,
                    pre.loaded@.push(entry),
                    actions[i - 1],
                );
            assert(was_loaded_at(entry, replies, actions, i - 1));
        }
    }
}

/// Where the state of a working copy is and where its type is written; and only a type
/// that is known is taken, without the white space around it.
pub proof fn working_copies_are_of_a_known_type(
    root: &str,
    state: String,
    kind: String,
    known: &Vec<String>,
    read: &str,
    r: Result<String, EngineError>,
    trim: String,
)
    requires
        call_ensures(crate::text::trim, (read,), trim),
    ensures
        call_ensures(state_path_of, (root,), state) ==> state@ == joined_path(
            joined_path(root@, ".jj"@),
            "working_copy"@,
        ),
        call_ensures(type_path_of, (root,), kind) ==> kind@ == joined_path(
            joined_path(joined_path(root@, ".jj"@), "working_copy"@),
            "type"@,
        ),
        call_ensures(working_copy_type, (known, read), r) ==> if texts(known@).contains(trim@) {
            r matches Ok(t) && t@ == trim@
        } else {
            fails(
                r,
                ErrorKind::Internal,
                "unsupported working copy type "@ + debug_text(trim@),
            )
        },
{
}

} // verus!
