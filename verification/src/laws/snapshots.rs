//! Snapshots put the files of a workspace into the commit of that workspace.

use vstd::prelude::*;
use vstd::string::*;

#[allow(unused_imports)]
use crate::commits::Commit;
#[allow(unused_imports)]
use crate::engine::{entry_named, RepoEngine};
#[allow(unused_imports)]
use crate::error::{EngineError, ErrorKind};
#[allow(unused_imports)]
use crate::laws::texts::{order_is_by_first_difference, stands_before};
#[allow(unused_imports)]
use crate::laws::{fails, passes_on};
#[allow(unused_imports)]
use crate::lists::first_where_is_there;
#[allow(unused_imports)]
use crate::ops::Op;
#[allow(unused_imports)]
use crate::snapshot::{
    all_step, is_all_run, is_same_tree, is_snapshot_run, is_tree_run, ordered_workspace_names,
    snapshot_step, tree_step, AllAction, AllPhase, AllReply, Snapshot, SnapshotAction, SnapshotAll,
    SnapshotPhase, SnapshotReply, TreeAction, TreePhase, TreeReply, TreeSnapshot, TreeState,
};

verus! {

/// A tree snapshot is started for the workspace that is named, and goes by its steps.
pub proof fn tree_snapshots_go_by_steps(
    engine: &RepoEngine,
    ws: String,
    start: TreeSnapshot,
    m: &mut TreeSnapshot,
    reply: TreeReply,
    action: TreeAction,
)
    ensures
        call_requires(RepoEngine::snapshot_tree, (engine, ws)),
        call_ensures(RepoEngine::snapshot_tree, (engine, ws), start) ==> start.ws == ws
            && start.phase == TreePhase::Start && start.wf(),
        old(m).wf() ==> call_requires(TreeSnapshot::step, (m, engine, reply)),
        call_ensures(TreeSnapshot::step, (m, engine, reply), action) ==> final(m).wf() && tree_step(
            *engine,
            *old(m),
            reply,
            *final(m),
            action,
        ),
{
}

/// The operations are these, one after the other: the tree that was taken becomes that
/// of the commit, which becomes the working-copy commit of the workspace.
pub open spec fn adopts(ops: Seq<Op>, commit: Seq<u8>, jj_name: Seq<char>, said: Seq<char>) -> bool {
    &&& ops.len() == 7
    &&& ops[0] is Begin
    &&& ops[1] is MarkSnapshot
    &&& ops[2] matches Op::AdoptTree { commit: c } && c.bytes@ == commit
    &&& ops[3] matches Op::SetWorkingCopy { workspace } && workspace@ == jj_name
    &&& ops[4] is Rebase
    &&& ops[5] matches Op::Commit(d) && d@ == said
    &&& ops[6] is Unlock
}

/// The tree that is compared with a workspace's working-copy commit and goes into it is
/// taken from that same workspace, and into no other commit than the one that the repo
/// has for that workspace.
pub proof fn trees_go_into_their_own_commit(
    engine: RepoEngine,
    states: Seq<TreeSnapshot>,
    replies: Seq<TreeReply>,
    actions: Seq<TreeAction>,
    i: int,
)
    requires
        is_tree_run(engine, states, replies, actions),
        0 <= i < actions.len(),
    ensures
        actions[i] matches TreeAction::Read(id) ==> i == 0 && engine.wc_id(states[0].ws@) == Ok::<
            _,
            (ErrorKind, Seq<char>),
        >(id@),
        actions[i] matches TreeAction::Take { workspace, max_new_file_size } ==> i == 1
            && workspace@ == states[0].ws@ && max_new_file_size == 67108864,
        actions[i] matches TreeAction::Run(ops) ==> i == 2 && (
        actions[1] matches TreeAction::Take { workspace, .. } && workspace@ == states[0].ws@) && (
        replies[1] matches TreeReply::Commit(c) && c is Ok && (ops@.len() == 1 && ops@[0] is Unlock
            || adopts(
            ops@,
            c->Ok_0.id@,
            engine.entry(states[0].ws@)->0.jj_name@,
            "snapshot workspace "@ + states[0].ws@,
        ))),
    decreases i,
{
    if i > 0 {
        trees_go_into_their_own_commit(engine, states, replies, actions, i - 1);
    }
    tree_run_in_full(engine, states, replies, actions, i);
}

/// What two trees are told apart by, side by side.
pub open spec fn alike(a: TreeState, b: TreeState) -> bool {
    &&& a.ids@.len() == b.ids@.len()
    &&& a.labels@.len() == b.labels@.len()
    &&& forall|k: int| 0 <= k < a.ids@.len() ==> (#[trigger] a.ids@[k]).bytes@ == b.ids@[k].bytes@
    &&& forall|k: int| 0 <= k < a.labels@.len() ==> (#[trigger] a.labels@[k])@ == b.labels@[k]@
}

/// Trees are the same where every side and every label is.
pub proof fn trees_are_compared_in_full(a: &TreeState, b: &TreeState, r: bool)
    requires
        call_ensures(is_same_tree, (a, b), r),
    ensures
        r == alike(*a, *b),
{
    same_is_alike(*a, *b);
}

proof fn same_is_alike(a: TreeState, b: TreeState)
    ensures
        crate::snapshot::same_tree(a, b) == alike(a, b),
{
    let (x, y) = (crate::snapshot::tree_ids(a.ids@), crate::snapshot::tree_ids(b.ids@));
    let (p, q) = (crate::text::texts(a.labels@), crate::text::texts(b.labels@));
    if alike(a, b) {
        assert(x =~= y);
        assert(p =~= q);
    }
    if crate::snapshot::same_tree(a, b) {
        assert(x.len() == a.ids@.len() && y.len() == b.ids@.len());
        assert(p.len() == a.labels@.len() && q.len() == b.labels@.len());
        assert forall|k: int| 0 <= k < a.ids@.len() implies (#[trigger] a.ids@[k]).bytes@
            == b.ids@[k].bytes@ by {
            assert(x[k] == y[k]);
        }
        assert forall|k: int| 0 <= k < a.labels@.len() implies (#[trigger] a.labels@[k])@
            == b.labels@[k]@ by {
            assert(p[k] == q[k]);
        }
    }
}

/// A tree snapshot, action by action: the commit that the repo has for the workspace is
/// read, the tree of the workspace is taken, and where the two differ the commit takes
/// the tree; what fails is passed on.
pub proof fn tree_run_in_full(
    engine: RepoEngine,
    states: Seq<TreeSnapshot>,
    replies: Seq<TreeReply>,
    actions: Seq<TreeAction>,
    i: int,
)
    requires
        is_tree_run(engine, states, replies, actions),
        0 <= i < actions.len(),
    ensures
        i == 0 && replies[0] is Begin ==> match engine.wc_id(states[0].ws@) {
            Ok(id) => actions[0] matches TreeAction::Read(asked) && asked@ == id,
            Err(e) => actions[0] matches TreeAction::Finish(r) && fails(r, e.0, e.1),
        },
        i == 1 && actions[0] is Read && replies[1] is Commit ==> match replies[1]->Commit_0 {
            Ok(_) => match engine.entry(states[0].ws@) {
                Some(_) => actions[1] matches TreeAction::Take { workspace, max_new_file_size }
                    && workspace@ == states[0].ws@ && max_new_file_size == 67108864,
                None => actions[1] matches TreeAction::Finish(r) && fails(
                    r,
                    ErrorKind::NotFound,
                    "no workspace "@ + states[0].ws@,
                ),
            },
            Err(e) => actions[1] matches TreeAction::Finish(r) && passes_on(r, e),
        },
        i == 2 && actions[0] is Read && actions[1] is Take && replies[2] is Taken ==> (
        replies[1] matches TreeReply::Commit(c) && c is Ok && match replies[2]->Taken_0 {
            Ok(trees) => actions[2] matches TreeAction::Run(ops) && if alike(trees.0, trees.1) {
                ops@.len() == 1 && ops@[0] is Unlock
            } else {
                adopts(
                    ops@,
                    c->Ok_0.id@,
                    engine.entry(states[0].ws@)->0.jj_name@,
                    "snapshot workspace "@ + states[0].ws@,
                )
            },
            Err(e) => actions[2] matches TreeAction::Finish(r) && passes_on(r, e),
        }),
        i == 3 && actions[2] is Run && replies[3] is Ran ==> match replies[3]->Ran_0 {
            Ok(_) => actions[3] matches TreeAction::Finish(r) && r == Ok::<bool, EngineError>(
                !alike(replies[2]->Taken_0->Ok_0.0, replies[2]->Taken_0->Ok_0.1),
            ),
            Err(e) => actions[3] matches TreeAction::Finish(r) && passes_on(r, e),
        },
        actions[i] is Read ==> i == 0,
        actions[i] is Take ==> i == 1 && actions[0] is Read && replies[1] is Commit,
        actions[i] is Run ==> i == 2 && actions[0] is Read && actions[1] is Take && replies[2] is Taken,
        actions[i] matches TreeAction::Finish(r) ==> (r is Ok ==> i == 3 && actions[2] is Run
            && replies[3] is Ran),
{
    tree_run_phases(engine, states, replies, actions, i);
    assert(tree_step(engine, states[i], replies[i], states[i + 1], actions[i]));
    if i >= 2 {
        if let TreeReply::Taken(Ok(trees)) = replies[2] {
            same_is_alike(trees.0, trees.1);
        }
    }
    if actions[i] is Run {
        let ops = actions[i]->Run_0@;
        assert(crate::ops::ops_view(ops).len() == ops.len());
        assert forall|k: int| 0 <= k < ops.len() implies crate::ops::ops_view(ops)[k] == (
        #[trigger] ops[k])@ by {}
        assert(forall|k: int| 0 <= k < ops.len() ==> (#[trigger] ops[k])@ == crate::ops::ops_view(ops)[k]);
    }
}

/// A snapshot is started for the workspace that is named, and goes by its steps.
pub proof fn snapshots_go_by_steps(
    engine: &RepoEngine,
    ws: String,
    start: Snapshot,
    m: &mut Snapshot,
    reply: SnapshotReply,
    action: SnapshotAction,
)
    ensures
        call_requires(RepoEngine::snapshot, (engine, ws)),
        call_ensures(RepoEngine::snapshot, (engine, ws), start) ==> start.ws == ws && start.phase
            == SnapshotPhase::Start && !start.changed,
        call_requires(Snapshot::step, (m, reply)),
        call_ensures(Snapshot::step, (m, reply), action) ==> snapshot_step(
            *old(m),
            reply,
            *final(m),
            action,
        ),
{
}

/// A snapshot, action by action: that of the default workspace imports HEAD, takes the
/// tree and imports the refs, that of another takes the tree alone; the tree is that of
/// the workspace; and the answer is whether any of them changed anything.
pub proof fn snapshot_run_in_full(
    states: Seq<Snapshot>,
    replies: Seq<SnapshotReply>,
    actions: Seq<SnapshotAction>,
    i: int,
)
    requires
        is_snapshot_run(states, replies, actions),
        0 <= i < actions.len(),
    ensures
        i == 0 && replies[0] is Begin ==> if states[0].ws@ == "default"@ {
            actions[0] is ImportHead
        } else {
            actions[0] matches SnapshotAction::SnapshotTree(ws) && ws@ == states[0].ws@
        },
        i > 0 && !(actions[i - 1] is Finish) && (replies[i] matches SnapshotReply::Did(r) && r is Err)
            ==> (actions[i] matches SnapshotAction::Finish(r) && passes_on(
            r,
            replies[i]->Did_0->Err_0,
        )),
        i > 0 && actions[i - 1] is ImportHead && (replies[i] matches SnapshotReply::Did(r) && r is Ok)
            ==> i == 1 && (actions[1] matches SnapshotAction::SnapshotTree(ws) && ws@
            == states[0].ws@),
        i > 0 && actions[i - 1] is SnapshotTree && (replies[i] matches SnapshotReply::Did(r)
            && r is Ok) ==> if states[0].ws@ == "default"@ {
            i == 2 && actions[0] is ImportHead && actions[2] is ImportRefs
        } else {
            i == 1 && (actions[1] matches SnapshotAction::Finish(r) && r == replies[1]->Did_0)
        },
        i > 0 && actions[i - 1] is ImportRefs && (replies[i] matches SnapshotReply::Did(r) && r is Ok)
            ==> i == 3 && (actions[3] matches SnapshotAction::Finish(r) && r == Ok::<
            bool,
            EngineError,
        >(replies[1]->Did_0->Ok_0 || replies[2]->Did_0->Ok_0 || replies[3]->Did_0->Ok_0)),
        actions[i] matches SnapshotAction::Finish(Ok(_)) ==> (replies[i] matches SnapshotReply::Did(r)
            && r is Ok) && if states[0].ws@ == "default"@ {
            i == 3 && actions[2] is ImportRefs
        } else {
            i == 1 && actions[0] is SnapshotTree
        },
{
    snapshot_phases(states, replies, actions, i);
    assert(snapshot_step(states[i], replies[i], states[i + 1], actions[i]));
}

proof fn snapshot_phases(
    states: Seq<Snapshot>,
    replies: Seq<SnapshotReply>,
    actions: Seq<SnapshotAction>,
    i: int,
)
    requires
        is_snapshot_run(states, replies, actions),
        0 <= i < states.len(),
    ensures
        states[i].ws == states[0].ws,
        states[i].phase == SnapshotPhase::Start <==> i == 0,
        states[i].phase == SnapshotPhase::Head <==> i > 0 && actions[i - 1] is ImportHead,
        states[i].phase == SnapshotPhase::Tree <==> i > 0 && actions[i - 1] is SnapshotTree,
        states[i].phase == SnapshotPhase::Refs <==> i > 0 && actions[i - 1] is ImportRefs,
        states[i].phase == SnapshotPhase::Over <==> i > 0 && actions[i - 1] is Finish,
        states[i].phase == SnapshotPhase::Head ==> i == 1 && !states[i].changed && states[0].ws@
            == "default"@,
        states[i].phase == SnapshotPhase::Tree ==> if states[0].ws@ == "default"@ {
            i == 2 && actions[0] is ImportHead && replies[1] == SnapshotReply::Did(
                Ok(states[i].changed),
            )
        } else {
            i == 1 && !states[i].changed
        },
        states[i].phase == SnapshotPhase::Refs ==> i == 3 && (replies[1] matches SnapshotReply::Did(
            a,
        ) && a is Ok && (replies[2] matches SnapshotReply::Did(b) && b is Ok && states[i].changed
            == (a->Ok_0 || b->Ok_0))),
    decreases i,
{
    if i > 0 {
        snapshot_phases(states, replies, actions, i - 1);
        assert(snapshot_step(states[i - 1], replies[i - 1], states[i], actions[i - 1]));
    }
}

/// A snapshot of all workspaces goes by its steps. It is started with every open
/// workspace at its own place, the default one first.
pub proof fn full_snapshots_go_by_steps(
    engine: &RepoEngine,
    start: SnapshotAll,
    m: &mut SnapshotAll,
    reply: AllReply,
    action: AllAction,
    k: int,
)
    requires
        engine.wf(),
    ensures
        call_ensures(RepoEngine::snapshot_all, (engine,), start) ==> {
            &&& start.wf() && start.phase == AllPhase::Start && start.at == 0 && !start.any
            &&& start.places@.len() == engine.workspaces@.len()
            &&& 0 <= k < start.places@.len() ==> exists|e: int|
                0 <= e < engine.workspaces@.len() && (#[trigger] engine.workspaces@[e]).name@
                    == start.places@[k].name@ && engine.workspaces@[e].root@ == start.places@[k].root@
            &&& 0 <= k < engine.workspaces@.len() ==> exists|p: int|
                0 <= p < start.places@.len() && (#[trigger] start.places@[p]).name@
                    == engine.workspaces@[k].name@
            &&& 0 <= k < engine.workspaces@.len() && engine.workspaces@[k].name@ == "default"@
                ==> start.places@[0].name@ == "default"@
        },
        old(m).wf() ==> call_requires(SnapshotAll::step, (m, reply)),
        call_ensures(SnapshotAll::step, (m, reply), action) ==> final(m).wf() && all_step(
            *old(m),
            reply,
            *final(m),
            action,
        ),
{
    if call_ensures(RepoEngine::snapshot_all, (engine,), start) {
        let names = crate::snapshot::place_names(start.places@);
        let sorted = choose|sorted: Seq<String>| #[trigger]
            crate::sort::sorts(engine.names(), sorted) && crate::snapshot::default_swapped_first(
                sorted,
                names,
            );
        crate::commits::sorts_keeps_members(engine.names(), sorted);
        crate::snapshot::ordering_keeps_names(sorted, names);
        assert(names.len() == start.places@.len());
        if 0 <= k < start.places@.len() {
            first_where_is_there(engine.workspaces@, entry_named(start.places@[k].name@));
            let x = engine.entry(start.places@[k].name@)->0;
            let e = choose|e: int| 0 <= e < engine.workspaces@.len() && engine.workspaces@[e] == x;
            assert(engine.workspaces@[e].name@ == start.places@[k].name@);
        }
        if 0 <= k < engine.workspaces@.len() {
            let name = engine.workspaces@[k].name;
            assert(engine.names()[k] == name);
            let s = choose|s: int| 0 <= s < sorted.len() && sorted[s] == name;
            broadcast use vstd::seq_lib::group_to_multiset_ensures;
            assert(sorted.to_multiset().count(name) > 0);
            assert(names.contains(name));
            let p = choose|p: int| 0 <= p < names.len() && names[p] == name;
            assert(start.places@[p].name == names[p]);
            if name@ == "default"@ {
                crate::snapshot::default_comes_first(sorted, names, s);
                assert(names[0] == start.places@[0].name);
            }
        }
    }
}

/// The names are put in order, and then the default one changes places with the first:
/// it stands in front, the smallest of the others stands where it would have stood, and
/// the rest is in order around that.
pub proof fn default_changes_places_with_the_first(
    names: Vec<String>,
    r: Vec<String>,
    i: int,
    j: int,
) -> (k: int)
    requires
        call_ensures(ordered_workspace_names, (names,), r),
        0 <= i < j < r@.len(),
    ensures
        r@.to_multiset() == names@.to_multiset(),
        (forall|n: int| 0 <= n < r@.len() ==> (#[trigger] r@[n])@ != "default"@) ==> stands_before(
            r@[i]@,
            r@[j]@,
        ),
        (exists|n: int| 0 <= n < r@.len() && (#[trigger] r@[n])@ == "default"@) ==> {
            &&& 0 <= k < r@.len()
            &&& r@[0]@ == "default"@
            &&& 0 < i && i != k && j != k ==> stands_before(r@[i]@, r@[j]@)
            &&& k > 0 ==> stands_before(r@[k]@, r@[j]@)
            &&& 0 < i < k ==> stands_before(r@[i]@, "default"@)
            &&& j > k ==> stands_before("default"@, r@[j]@)
        },
{
    let sorted = choose|sorted: Seq<String>| #[trigger]
        crate::sort::sorts(names@, sorted) && crate::snapshot::default_swapped_first(sorted, r@);
    crate::snapshot::ordering_keeps_names(sorted, r@);
    assert forall|a: int, b: int| 0 <= a < b < sorted.len() implies stands_before(
        #[trigger] sorted[a]@,
        #[trigger] sorted[b]@,
    ) by {
        assert(crate::sort::Ordered::le(sorted[a], sorted[b]));
        order_is_by_first_difference(sorted[a]@, sorted[b]@);
    }
    if exists|n: int| 0 <= n < r@.len() && (#[trigger] r@[n])@ == "default"@ {
        let n = choose|n: int| 0 <= n < r@.len() && (#[trigger] r@[n])@ == "default"@;
        if r@ == sorted && forall|m: int|
            0 <= m < sorted.len() ==> (#[trigger] sorted[m])@ != "default"@ {
            assert(sorted[n]@ == "default"@);
        }
        let k = choose|k: int|
            0 <= k < sorted.len() && (#[trigger] sorted[k])@ == "default"@ && (forall|m: int|
                0 <= m < k ==> (#[trigger] sorted[m])@ != "default"@) && r@ == sorted.update(
                k,
                sorted[0],
            ).update(0, sorted[k]);
        assert(sorted[k]@ == "default"@);
        assert(r@[0] == sorted[k]);
        if k > 0 {
            assert(r@[k] == sorted[0]);
        }
        assert(stands_before(sorted[0]@, sorted[0]@)) by {
            let t = sorted[0]@;
            assert(t =~= t.subrange(0, t.len() as int));
        }
        assert(j != k && j != 0 ==> r@[j] == sorted[j]);
        assert(i != k && i != 0 ==> r@[i] == sorted[i]);
        k
    } else {
        if r@ != sorted {
            assert(r@[0]@ == "default"@);
        }
        0
    }
}

/// How many workspaces were dealt with: passed over, or snapshotted.
pub open spec fn dealt_with(replies: Seq<AllReply>, i: int) -> int
    decreases i,
{
    if i <= 0 {
        0
    } else {
        dealt_with(replies, i - 1) + if replies[i - 1] == AllReply::IsDirectory(false)
            || replies[i - 1] is Snapshotted {
            1
        } else {
            0int
        }
    }
}

/// Every workspace has its turn, in order: the directory of each is looked at, and where
/// it is there, that workspace is snapshotted. The answer comes when all have had it, and
/// says whether any changed. A failure ends it.
pub proof fn every_workspace_has_its_turn(
    states: Seq<SnapshotAll>,
    replies: Seq<AllReply>,
    actions: Seq<AllAction>,
    i: int,
)
    requires
        is_all_run(states, replies, actions),
        0 <= i < actions.len(),
    ensures
        actions[i] matches AllAction::Look(root) ==> dealt_with(replies, i + 1)
            < states[0].places@.len() && root@ == states[0].places@[dealt_with(
            replies,
            i + 1,
        )].root@,
        actions[i] matches AllAction::Snapshot(name) ==> i > 0 && actions[i - 1] is Look
            && replies[i] == AllReply::IsDirectory(true) && dealt_with(replies, i + 1)
            < states[0].places@.len() && name@ == states[0].places@[dealt_with(
            replies,
            i + 1,
        )].name@,
        actions[i] matches AllAction::Finish(Ok(any)) ==> dealt_with(replies, i + 1)
            == states[0].places@.len() && (any <==> exists|j: int|
            0 <= j <= i && #[trigger] replies[j] == AllReply::Snapshotted(Ok(true))),
        i > 0 && actions[i - 1] is Look && replies[i] == AllReply::IsDirectory(true)
            ==> actions[i] is Snapshot,
        i > 0 && actions[i - 1] is Look && replies[i] == AllReply::IsDirectory(false)
            || i > 0 && actions[i - 1] is Snapshot && (replies[i] matches AllReply::Snapshotted(r)
            && r is Ok) || i == 0 && replies[0] is Begin ==> if dealt_with(replies, i + 1)
            < states[0].places@.len() {
            actions[i] is Look
        } else {
            actions[i] matches AllAction::Finish(r) && r is Ok
        },
        i > 0 && actions[i - 1] is Snapshot && (replies[i] matches AllReply::Snapshotted(r)
            && r is Err) ==> (actions[i] matches AllAction::Finish(r) && passes_on(
            r,
            replies[i]->Snapshotted_0->Err_0,
        )),
{
    all_phases(states, replies, actions, i);
    all_phases(states, replies, actions, i + 1);
    assert(all_step(states[i], replies[i], states[i + 1], actions[i]));
}

proof fn all_phases(
    states: Seq<SnapshotAll>,
    replies: Seq<AllReply>,
    actions: Seq<AllAction>,
    i: int,
)
    requires
        is_all_run(states, replies, actions),
        0 <= i < states.len(),
    ensures
        states[i].places == states[0].places,
        states[i].phase == AllPhase::Start <==> i == 0,
        states[i].phase == AllPhase::Looking <==> i > 0 && actions[i - 1] is Look,
        states[i].phase == AllPhase::Snapshotting <==> i > 0 && actions[i - 1] is Snapshot,
        states[i].phase == AllPhase::Over <==> i > 0 && actions[i - 1] is Finish,
        states[i].phase != AllPhase::Over ==> states[i].at == dealt_with(replies, i)
            && states[i].at <= states[i].places@.len() && (states[i].any <==> exists|j: int|
            0 <= j < i && #[trigger] replies[j] == AllReply::Snapshotted(Ok(true))),
        states[i].phase == AllPhase::Looking || states[i].phase == AllPhase::Snapshotting
            ==> states[i].at < states[i].places@.len(),
        i > 0 && (actions[i - 1] matches AllAction::Finish(r) && r is Ok) ==> states[i].at
            == dealt_with(replies, i) && (actions[i - 1]->Finish_0->Ok_0 <==> exists|j: int|
            0 <= j < i && #[trigger] replies[j] == AllReply::Snapshotted(Ok(true))),
    decreases i,
{
    if i > 0 {
        all_phases(states, replies, actions, i - 1);
        assert(all_step(states[i - 1], replies[i - 1], states[i], actions[i - 1]));
        if states[i - 1].any && states[i - 1].phase != AllPhase::Over {
            let j = choose|j: int|
                0 <= j < i - 1 && #[trigger] replies[j] == AllReply::Snapshotted(Ok(true));
            assert(replies[j] == AllReply::Snapshotted(Ok(true)));
        }
        assert(replies[i - 1] == replies[i - 1]);
    }
}

proof fn tree_run_phases(
    engine: RepoEngine,
    states: Seq<TreeSnapshot>,
    replies: Seq<TreeReply>,
    actions: Seq<TreeAction>,
    i: int,
)
    requires
        is_tree_run(engine, states, replies, actions),
        0 <= i < states.len(),
    ensures
        states[i].ws == states[0].ws,
        states[i].phase == TreePhase::Start <==> i == 0,
        states[i].phase == TreePhase::Reading <==> i == 1 && actions[0] is Read,
        states[i].phase == TreePhase::Taking <==> i == 2 && actions[0] is Read && actions[1] is Take,
        states[i].phase == TreePhase::Writing <==> i == 3 && actions[0] is Read && actions[1] is Take
            && actions[2] is Run,
        states[i].phase == TreePhase::Taking ==> states[i].wc is Some && replies[1]
            == TreeReply::Commit(Ok(states[i].wc->0)) && engine.entry(states[0].ws@) is Some
            && states[i].jj_name@ == engine.entry(states[0].ws@)->0.jj_name@,
        states[i].phase == TreePhase::Writing ==> (replies[2] matches TreeReply::Taken(r)
            && r matches Ok(trees) && states[i].changed == !crate::snapshot::same_tree(
            trees.0,
            trees.1,
        )),
        i > 0 && states[i].phase == TreePhase::Over ==> actions[i - 1] is Finish,
    decreases i,
{
    if i > 0 {
        tree_run_phases(engine, states, replies, actions, i - 1);
        assert(tree_step(engine, states[i - 1], replies[i - 1], states[i], actions[i - 1]));
    }
}

} // verus!
