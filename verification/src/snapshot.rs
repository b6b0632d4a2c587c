//! Snapshots: of one working-copy tree, of one workspace, of all workspaces.

use vstd::prelude::*;
use vstd::string::*;

use crate::commits::Commit;
#[allow(unused_imports)]
use crate::commits::sorts_keeps_members;
use crate::engine::RepoEngine;
#[allow(unused_imports)]
use crate::engine::entry_named;
use crate::error::EngineError;
#[allow(unused_imports)]
use crate::error::ErrorKind;
#[allow(unused_imports)]
use crate::git_import::{
    head_runs_answer_for_head, is_head_run, is_refs_run, quiet_head_runs_go_well,
    quiet_refs_runs_go_well, refs_runs_answer_for_refs, HeadAction, HeadImport, HeadReply,
    RefsAction, RefsImport, RefsReply,
};
use crate::ids::{CommitId, TreeId};
#[allow(unused_imports)]
use crate::lists::first_where_is_there;
use crate::ops::Op;
#[allow(unused_imports)]
use crate::ops::{describes, facts_after, ops_view, starts_change, Facts, OpView};
use crate::sort::sort;
#[allow(unused_imports)]
use crate::sort::{same_values_look_the_same, sorts, Ordered};
use crate::text::same;
#[allow(unused_imports)]
use crate::text::{text_le, text_le_antisymmetric, text_le_total, text_le_transitive, texts};

verus! {

/// A new file that is larger than this is not taken into a snapshot.
pub const MAX_NEW_FILE_SIZE: u64 = 64 * 1024 * 1024;

/// `r` is `sorted` with its first `default` swapped to the front.
pub open spec fn default_swapped_first(sorted: Seq<String>, r: Seq<String>) -> bool {
    ||| r == sorted && forall|i: int| 0 <= i < sorted.len() ==> (#[trigger] sorted[i])@ != "default"@
    ||| exists|k: int|
        0 <= k < sorted.len() && (#[trigger] sorted[k])@ == "default"@ && (forall|j: int|
            0 <= j < k ==> (#[trigger] sorted[j])@ != "default"@) && r == sorted.update(
            k,
            sorted[0],
        ).update(0, sorted[k])
}

/// The order in which workspaces are snapshotted: the default one first.
///
/// The default snapshot may import from git or rewrite its working-copy commit and
/// rebase the commits of other workspaces, which are reconciled after that.
pub fn ordered_workspace_names(names: Vec<String>) -> (r: Vec<String>)
    ensures
        exists|sorted: Seq<String>| #[trigger]
            sorts(names@, sorted) && default_swapped_first(sorted, r@),
{
    let mut list = sort(names);
    let ghost sorted = list@;
    let n: usize = list.len();
    for i in 0..n
        invariant
            n == list@.len(),
            list@ == sorted,
            sorts(names@, sorted),
            forall|j: int| 0 <= j < i ==> (#[trigger] sorted[j])@ != "default"@,
    {
        if same(list[i].as_str(), "default") {
            let first = list[0].clone();
            let default = list[i].clone();
            list.set(i, first);
            list.set(0, default);
            assert(list@ =~= sorted.update(i as int, sorted[0]).update(0, sorted[i as int]));
            return list;
        }
    }
    list
}

/// The default workspace is snapshotted before all others.
pub proof fn default_comes_first(sorted: Seq<String>, r: Seq<String>, k: int)
    requires
        default_swapped_first(sorted, r),
        0 <= k < sorted.len(),
        sorted[k]@ == "default"@,
    ensures
        r.len() == sorted.len(),
        r[0]@ == "default"@,
{
}

/// Every workspace is snapshotted, and none twice that is not there twice.
pub proof fn ordering_keeps_names(sorted: Seq<String>, r: Seq<String>)
    requires
        default_swapped_first(sorted, r),
    ensures
        r.len() == sorted.len(),
        r.to_multiset() == sorted.to_multiset(),
{
    if r != sorted {
        let k = choose|k: int|
            0 <= k < sorted.len() && (#[trigger] sorted[k])@ == "default"@ && (forall|j: int|
                0 <= j < k ==> (#[trigger] sorted[j])@ != "default"@) && r == sorted.update(
                k,
                sorted[0],
            ).update(0, sorted[k]);
        broadcast use vstd::seq_lib::group_to_multiset_ensures;

        vstd::seq_lib::to_multiset_update(sorted, k, sorted[0]);
        let once = sorted.update(k, sorted[0]);
        vstd::seq_lib::to_multiset_update(once, 0, sorted[k]);
        if k > 0 {
            assert(once[0] == sorted[0]);
        }
        assert(r.to_multiset() =~= sorted.to_multiset());
    }
}

/// The texts with the first `default` swapped to the front.
pub open spec fn default_first(sorted: Seq<Seq<char>>) -> Seq<Seq<char>> {
    if sorted.contains("default"@) {
        let k = sorted.index_of_first("default"@)->0;
        sorted.update(k, sorted[0]).update(0, sorted[k])
    } else {
        sorted
    }
}

proof fn swapped_texts_are_default_first(sorted: Seq<String>, r: Seq<String>)
    requires
        default_swapped_first(sorted, r),
    ensures
        texts(r) == default_first(texts(sorted)),
{
    let all = texts(sorted);
    all.index_of_first_ensures("default"@);
    if all.contains("default"@) {
        let f = all.index_of_first("default"@)->0;
        assert(sorted[f]@ == "default"@);
        let k = choose|k: int|
            0 <= k < sorted.len() && (#[trigger] sorted[k])@ == "default"@ && (forall|j: int|
                0 <= j < k ==> (#[trigger] sorted[j])@ != "default"@) && r == sorted.update(
                k,
                sorted[0],
            ).update(0, sorted[k]);
        assert(all[k] == "default"@);
        if f < k {
            assert(sorted[f]@ != "default"@);
        }
        assert(k == f);
        assert(texts(r) =~= default_first(all));
    } else {
        assert forall|i: int| 0 <= i < sorted.len() implies (#[trigger] sorted[i])@ != "default"@ by {
            assert(all[i] == sorted[i]@);
        }
        assert(r == sorted);
    }
}

proof fn sorted_texts_are_one(a: Seq<Seq<char>>, b: Seq<Seq<char>>)
    requires
        a.to_multiset() == b.to_multiset(),
        forall|i: int, j: int| 0 <= i < j < a.len() ==> text_le(#[trigger] a[i], #[trigger] a[j]),
        forall|i: int, j: int| 0 <= i < j < b.len() ==> text_le(#[trigger] b[i], #[trigger] b[j]),
    ensures
        a == b,
{
    let le = |x: Seq<char>, y: Seq<char>| text_le(x, y);
    assert(vstd::relations::total_ordering(le)) by {
        assert forall|x: Seq<char>| #[trigger] le(x, x) by {
            text_le_total(x, x);
        }
        assert forall|x: Seq<char>, y: Seq<char>| #[trigger] le(x, y) && #[trigger] le(y, x) implies x
            == y by {
            text_le_antisymmetric(x, y);
        }
        assert forall|x: Seq<char>, y: Seq<char>, z: Seq<char>| #[trigger]
            le(x, y) && #[trigger] le(y, z) implies le(x, z) by {
            text_le_transitive(x, y, z);
        }
        assert forall|x: Seq<char>, y: Seq<char>| #[trigger] le(x, y) || #[trigger] le(y, x) by {
            text_le_total(x, y);
        }
    }
    vstd::seq_lib::lemma_sorted_unique(a, b, le);
}

/// The order of the workspaces depends on their names alone, and not on the order in
/// which these were given: it is the names sorted, with the first `default` swapped to
/// the front.
pub proof fn ordering_is_by_names_alone(
    names: Seq<String>,
    r: Seq<String>,
    again: Seq<String>,
    r_again: Seq<String>,
)
    requires
        texts(names).to_multiset() == texts(again).to_multiset(),
        exists|sorted: Seq<String>| #[trigger]
            sorts(names, sorted) && default_swapped_first(sorted, r),
        exists|sorted: Seq<String>| #[trigger]
            sorts(again, sorted) && default_swapped_first(sorted, r_again),
    ensures
        texts(r) == texts(r_again),
        forall|sorted: Seq<String>| #[trigger]
            sorts(names, sorted) ==> texts(r) == default_first(texts(sorted)),
{
    let a = choose|sorted: Seq<String>| #[trigger]
        sorts(names, sorted) && default_swapped_first(sorted, r);
    let b = choose|sorted: Seq<String>| #[trigger]
        sorts(again, sorted) && default_swapped_first(sorted, r_again);
    swapped_texts_are_default_first(a, r);
    swapped_texts_are_default_first(b, r_again);
    sorted_names_agree(names, a, again, b);
    assert forall|sorted: Seq<String>| #[trigger] sorts(names, sorted) implies texts(r)
        == default_first(texts(sorted)) by {
        sorted_names_agree(names, a, names, sorted);
    }
}

proof fn sorted_names_agree(
    names: Seq<String>,
    a: Seq<String>,
    again: Seq<String>,
    b: Seq<String>,
)
    requires
        texts(names).to_multiset() == texts(again).to_multiset(),
        sorts(names, a),
        sorts(again, b),
    ensures
        texts(a) == texts(b),
{
    same_values_look_the_same(a, names, |s: String| s@);
    same_values_look_the_same(b, again, |s: String| s@);
    let (p, q) = (texts(a), texts(b));
    assert(p.to_multiset() == texts(names).to_multiset());
    assert(q.to_multiset() == texts(again).to_multiset());
    assert forall|i: int, j: int| 0 <= i < j < p.len() implies text_le(
        #[trigger] p[i],
        #[trigger] p[j],
    ) by {
        assert(a[i].le(a[j]));
    }
    assert forall|i: int, j: int| 0 <= i < j < q.len() implies text_le(
        #[trigger] q[i],
        #[trigger] q[j],
    ) by {
        assert(b[i].le(b[j]));
    }
    sorted_texts_are_one(p, q);
}

/// What tells one tree from another: the ids of its sides, more than one where it
/// is conflicted, and their labels.
#[derive(Debug, Clone, PartialEq)]
pub struct TreeState {
    pub ids: Vec<TreeId>,
    pub labels: Vec<String>,
}

/// The ids of the sides of a tree.
pub open spec fn tree_ids(list: Seq<TreeId>) -> Seq<Seq<u8>> {
    list.map_values(|i: TreeId| i@)
}

/// The trees are the same.
pub open spec fn same_tree(a: TreeState, b: TreeState) -> bool {
    &&& tree_ids(a.ids@) == tree_ids(b.ids@)
    &&& texts(a.labels@) == texts(b.labels@)
}

/// Whether the trees are the same.
pub fn is_same_tree(a: &TreeState, b: &TreeState) -> (r: bool)
    ensures
        r == same_tree(*a, *b),
{
    let ghost (ia, ib) = (tree_ids(a.ids@), tree_ids(b.ids@));
    let ghost (la, lb) = (texts(a.labels@), texts(b.labels@));
    if a.ids.len() != b.ids.len() {
        assert(ia.len() != ib.len());
        return false;
    }
    if a.labels.len() != b.labels.len() {
        assert(la.len() != lb.len());
        return false;
    }
    for i in 0..a.ids.len()
        invariant
            a.ids@.len() == b.ids@.len(),
            forall|j: int| 0 <= j < i ==> (#[trigger] a.ids@[j])@ == b.ids@[j]@,
            ia == tree_ids(a.ids@),
            ib == tree_ids(b.ids@),
    {
        if !a.ids[i].is(&b.ids[i]) {
            assert(ia[i as int] != ib[i as int]);
            return false;
        }
    }
    for i in 0..a.labels.len()
        invariant
            a.labels@.len() == b.labels@.len(),
            forall|j: int| 0 <= j < i ==> (#[trigger] a.labels@[j])@ == b.labels@[j]@,
            la == texts(a.labels@),
            lb == texts(b.labels@),
    {
        if !same(a.labels[i].as_str(), b.labels[i].as_str()) {
            assert(la[i as int] != lb[i as int]);
            return false;
        }
    }
    assert(ia =~= ib);
    assert(la =~= lb);
    true
}

/// What a tree snapshot waits for.
#[derive(Debug, Clone, Copy, PartialEq, Eq, Structural)]
pub enum TreePhase {
    Start,
    Reading,
    Taking,
    Writing,
    Over,
}

/// A snapshot of the working-copy tree of one workspace.
pub struct TreeSnapshot {
    pub ws: String,
    pub phase: TreePhase,
    /// The working-copy commit before the snapshot, once it was read.
    pub wc: Option<Commit>,
    /// The name that the repo knows the workspace under.
    pub jj_name: String,
    pub changed: bool,
}

/// What has to be done next for a tree snapshot.
pub enum TreeAction {
    /// Read the commit.
    Read(CommitId),
    /// Lock the working copy of the workspace and take its tree: every file but
    /// the ignored ones and new ones above the size. Name both this tree and that
    /// of the working-copy commit.
    Take { workspace: String, max_new_file_size: u64 },
    /// Perform these operations.
    Run(Vec<Op>),
    /// Drop what is open and answer whether anything changed.
    Finish(Result<bool, EngineError>),
}

/// What came of an action.
pub enum TreeReply {
    Begin,
    Commit(Result<Commit, EngineError>),
    Taken(Result<(TreeState, TreeState), EngineError>),
    Ran(Result<(), EngineError>),
}

/// The operations that make `tree` the content of the working-copy commit.
pub open spec fn adopt_ops(ws: Seq<char>, jj_name: Seq<char>, wc: Seq<u8>) -> Seq<OpView> {
    seq![
        OpView::Begin,
        OpView::MarkSnapshot,
        OpView::AdoptTree { commit: wc },
        OpView::SetWorkingCopy { workspace: jj_name },
        OpView::Rebase,
        OpView::Commit("snapshot workspace "@ + ws),
        OpView::Unlock,
    ]
}

pub open spec fn tree_fails(
    post: TreeSnapshot,
    action: TreeAction,
    why: (ErrorKind, Seq<char>),
) -> bool {
    &&& post.phase == TreePhase::Over
    &&& action matches TreeAction::Finish(r)
    &&& r matches Err(e)
    &&& e@ == why
}

/// One step of a tree snapshot.
pub open spec fn tree_step(
    engine: RepoEngine,
    pre: TreeSnapshot,
    reply: TreeReply,
    post: TreeSnapshot,
    action: TreeAction,
) -> bool {
    &&& post.ws == pre.ws
    &&& match (pre.phase, reply) {
        (TreePhase::Start, TreeReply::Begin) => match engine.wc_id(pre.ws@) {
            Err(e) => tree_fails(post, action, e),
            Ok(id) => {
                &&& post.phase == TreePhase::Reading
                &&& action matches TreeAction::Read(asked)
                &&& asked@ == id
            },
        },
        (TreePhase::Reading, TreeReply::Commit(r)) => match r {
            Err(e) => tree_fails(post, action, e@),
            Ok(c) => match engine.entry(pre.ws@) {
                None => tree_fails(
                    post,
                    action,
                    (ErrorKind::NotFound, "no workspace "@ + pre.ws@),
                ),
                Some(entry) => {
                    &&& post.phase == TreePhase::Taking
                    &&& post.wc == Some(c)
                    &&& post.jj_name@ == entry.jj_name@
                    &&& action matches TreeAction::Take { workspace, max_new_file_size }
                    &&& workspace@ == pre.ws@
                    &&& max_new_file_size == MAX_NEW_FILE_SIZE
                },
            },
        },
        (TreePhase::Taking, TreeReply::Taken(r)) => match r {
            Err(e) => tree_fails(post, action, e@),
            Ok(trees) => {
                &&& post.phase == TreePhase::Writing
                &&& post.changed == !same_tree(trees.0, trees.1)
                &&& action matches TreeAction::Run(ops)
                &&& ops_view(ops@) == if same_tree(trees.0, trees.1) {
                    seq![OpView::Unlock]
                } else {
                    adopt_ops(pre.ws@, pre.jj_name@, pre.wc->0.id@)
                }
            },
        },
        (TreePhase::Writing, TreeReply::Ran(r)) => match r {
            Err(e) => tree_fails(post, action, e@),
            Ok(_) => {
                &&& post.phase == TreePhase::Over
                &&& action matches TreeAction::Finish(answer)
                &&& answer == Ok::<_, EngineError>(pre.changed)
            },
        },
        _ => tree_fails(post, action, (ErrorKind::Internal, "unexpected reply"@)),
    }
}

impl RepoEngine {
    /// A snapshot of the working-copy tree of one workspace.
    pub fn snapshot_tree(&self, ws: String) -> (r: TreeSnapshot)
        ensures
            r.wf(),
            r.ws == ws,
            r.phase == TreePhase::Start,
    {
        TreeSnapshot {
            ws,
            phase: TreePhase::Start,
            wc: None,
            jj_name: String::new(),
            changed: false,
        }
    }
}

impl TreeSnapshot {
    pub open spec fn wf(self) -> bool {
        self.phase == TreePhase::Taking ==> self.wc is Some
    }

    fn fail(&mut self, e: EngineError) -> (action: TreeAction)
        ensures
            final(self).ws == old(self).ws,
            final(self).wf(),
            tree_fails(*final(self), action, e@),
    {
        self.phase = TreePhase::Over;
        TreeAction::Finish(Err(e))
    }

    fn unexpected(&mut self) -> (action: TreeAction)
        ensures
            final(self).ws == old(self).ws,
            final(self).wf(),
            tree_fails(*final(self), action, (ErrorKind::Internal, "unexpected reply"@)),
    {
        self.fail(EngineError::Internal("unexpected reply".to_string()))
    }

    /// Takes the reply to the last action and says what has to be done next.
    pub fn step(&mut self, engine: &RepoEngine, reply: TreeReply) -> (action: TreeAction)
        requires
            old(self).wf(),
        ensures
            final(self).wf(),
            tree_step(*engine, *old(self), reply, *final(self), action),
    {
        match (self.phase, reply) {
            (TreePhase::Start, TreeReply::Begin) => match engine.wc_commit(self.ws.as_str()) {
                Ok(id) => {
                    self.phase = TreePhase::Reading;
                    TreeAction::Read(id)
                },
                Err(e) => self.fail(e),
            },
            (TreePhase::Reading, TreeReply::Commit(r)) => match r {
                Err(e) => self.fail(e),
                Ok(c) => match engine.find(self.ws.as_str()) {
                    None => {
                        let message = "no workspace ".to_string().concat(self.ws.as_str());
                        self.fail(EngineError::NotFound(message))
                    },
                    Some(entry) => {
                        self.phase = TreePhase::Taking;
                        self.wc = Some(c);
                        self.jj_name = entry.jj_name.clone();
                        TreeAction::Take {
                            workspace: self.ws.clone(),
                            max_new_file_size: MAX_NEW_FILE_SIZE,
                        }
                    },
                },
            },
            (TreePhase::Taking, TreeReply::Taken(r)) => match r {
                Err(e) => self.fail(e),
                Ok(trees) => {
                    let unchanged = is_same_tree(&trees.0, &trees.1);
                    self.phase = TreePhase::Writing;
                    self.changed = !unchanged;
                    let mut ops: Vec<Op> = Vec::new();
                    if unchanged {
                        ops.push(Op::Unlock);
                        assert(ops_view(ops@) =~= seq![OpView::Unlock]);
                    } else if let Some(wc) = &self.wc {
                        ops.push(Op::Begin);
                        ops.push(Op::MarkSnapshot);
                        ops.push(Op::AdoptTree { commit: wc.id.copy() });
                        ops.push(Op::SetWorkingCopy { workspace: self.jj_name.clone() });
                        ops.push(Op::Rebase);
                        ops.push(
                            Op::Commit("snapshot workspace ".to_string().concat(self.ws.as_str())),
                        );
                        ops.push(Op::Unlock);
                        assert(ops_view(ops@) =~= adopt_ops(self.ws@, self.jj_name@, wc.id@));
                    }
                    TreeAction::Run(ops)
                },
            },
            (TreePhase::Writing, TreeReply::Ran(r)) => match r {
                Err(e) => self.fail(e),
                Ok(_) => {
                    self.phase = TreePhase::Over;
                    TreeAction::Finish(Ok(self.changed))
                },
            },
            _ => self.unexpected(),
        }
    }
}

/// A tree that is what it was makes no commit: the working copy is only unlocked,
/// and the answer is that nothing changed.
pub proof fn unchanged_trees_write_nothing(
    engine: RepoEngine,
    pre: TreeSnapshot,
    trees: (TreeState, TreeState),
    mid: TreeSnapshot,
    action: TreeAction,
    end: TreeSnapshot,
    answer: TreeAction,
)
    requires
        pre.phase == TreePhase::Taking,
        tree_step(engine, pre, TreeReply::Taken(Ok(trees)), mid, action),
        same_tree(trees.0, trees.1),
        tree_step(engine, mid, TreeReply::Ran(Ok(())), end, answer),
    ensures
        action matches TreeAction::Run(ops) && ops_view(ops@) == seq![OpView::Unlock],
        answer matches TreeAction::Finish(r) && r == Ok::<_, EngineError>(false),
{
}

/// What the snapshot of a workspace waits for.
#[derive(Debug, Clone, Copy, PartialEq, Eq, Structural)]
pub enum SnapshotPhase {
    Start,
    Head,
    Tree,
    Refs,
    Over,
}

/// The snapshot of one workspace.
///
/// The default workspace shares its working copy with git. For it the git HEAD is
/// imported before the tree is taken, so that what git committed or checked out
/// moves the working-copy parent and is not absorbed as a change of files, and the
/// git refs are imported after.
pub struct Snapshot {
    pub ws: String,
    pub phase: SnapshotPhase,
    /// Something changed so far.
    pub changed: bool,
}

/// What has to be done next for a snapshot.
pub enum SnapshotAction {
    /// Import the git HEAD.
    ImportHead,
    /// Snapshot the working-copy tree of the workspace.
    SnapshotTree(String),
    /// Import the git refs.
    ImportRefs,
    /// Answer whether anything changed.
    Finish(Result<bool, EngineError>),
}

/// What came of an action.
pub enum SnapshotReply {
    Begin,
    /// Whether it changed anything.
    Did(Result<bool, EngineError>),
}

/// The workspace shares its working copy with git.
pub open spec fn colocated(ws: Seq<char>) -> bool {
    ws == "default"@
}

pub open spec fn snapshot_answers(
    post: Snapshot,
    action: SnapshotAction,
    answer: Result<bool, (ErrorKind, Seq<char>)>,
) -> bool {
    &&& post.phase == SnapshotPhase::Over
    &&& action matches SnapshotAction::Finish(r)
    &&& match r {
        Ok(changed) => answer == Ok::<_, (ErrorKind, Seq<char>)>(changed),
        Err(e) => answer == Err::<bool, _>(e@),
    }
}

/// One step of a snapshot.
pub open spec fn snapshot_step(
    pre: Snapshot,
    reply: SnapshotReply,
    post: Snapshot,
    action: SnapshotAction,
) -> bool {
    &&& post.ws == pre.ws
    &&& match (pre.phase, reply) {
        (SnapshotPhase::Start, SnapshotReply::Begin) => {
            &&& post.changed == pre.changed
            &&& if colocated(pre.ws@) {
                post.phase == SnapshotPhase::Head && action is ImportHead
            } else {
                &&& post.phase == SnapshotPhase::Tree
                &&& action matches SnapshotAction::SnapshotTree(ws)
                &&& ws@ == pre.ws@
            }
        },
        (SnapshotPhase::Head, SnapshotReply::Did(Ok(did))) => {
            &&& post.changed == (pre.changed || did)
            &&& post.phase == SnapshotPhase::Tree
            &&& action matches SnapshotAction::SnapshotTree(ws)
            &&& ws@ == pre.ws@
        },
        (SnapshotPhase::Tree, SnapshotReply::Did(Ok(did))) => {
            &&& post.changed == (pre.changed || did)
            &&& if colocated(pre.ws@) {
                post.phase == SnapshotPhase::Refs && action is ImportRefs
            } else {
                snapshot_answers(post, action, Ok(pre.changed || did))
            }
        },
        (SnapshotPhase::Refs, SnapshotReply::Did(Ok(did))) => snapshot_answers(
            post,
            action,
            Ok(pre.changed || did),
        ),
        (SnapshotPhase::Start, SnapshotReply::Did(_)) | (SnapshotPhase::Over, _) | (
            _,
            SnapshotReply::Begin,
        ) => snapshot_answers(post, action, Err((ErrorKind::Internal, "unexpected reply"@))),
        (_, SnapshotReply::Did(Err(e))) => snapshot_answers(post, action, Err(e@)),
    }
}

impl RepoEngine {
    /// A snapshot of one workspace.
    pub fn snapshot(&self, ws: String) -> (r: Snapshot)
        ensures
            r.ws == ws,
            r.phase == SnapshotPhase::Start,
            !r.changed,
    {
        Snapshot { ws, phase: SnapshotPhase::Start, changed: false }
    }
}

impl Snapshot {
    fn answer(&mut self, r: Result<bool, EngineError>) -> (action: SnapshotAction)
        ensures
            final(self).ws == old(self).ws,
            final(self).changed == old(self).changed,
            final(self).phase == SnapshotPhase::Over,
            action == SnapshotAction::Finish(r),
    {
        self.phase = SnapshotPhase::Over;
        SnapshotAction::Finish(r)
    }

    /// Takes the reply to the last action and says what has to be done next.
    pub fn step(&mut self, reply: SnapshotReply) -> (action: SnapshotAction)
        ensures
            snapshot_step(*old(self), reply, *final(self), action),
    {
        let shared = same(self.ws.as_str(), "default");
        let waits = self.phase != SnapshotPhase::Start && self.phase != SnapshotPhase::Over;
        match reply {
            SnapshotReply::Begin => {
                if self.phase != SnapshotPhase::Start {
                    return self.answer(
                        Err(EngineError::Internal("unexpected reply".to_string())),
                    );
                }
                if shared {
                    self.phase = SnapshotPhase::Head;
                    SnapshotAction::ImportHead
                } else {
                    self.phase = SnapshotPhase::Tree;
                    SnapshotAction::SnapshotTree(self.ws.clone())
                }
            },
            SnapshotReply::Did(r) => {
                if !waits {
                    return self.answer(
                        Err(EngineError::Internal("unexpected reply".to_string())),
                    );
                }
                match r {
                    Err(e) => self.answer(Err(e)),
                    Ok(did) => {
                        self.changed = self.changed || did;
                        if self.phase == SnapshotPhase::Head {
                            self.phase = SnapshotPhase::Tree;
                            SnapshotAction::SnapshotTree(self.ws.clone())
                        } else if self.phase == SnapshotPhase::Tree && shared {
                            self.phase = SnapshotPhase::Refs;
                            SnapshotAction::ImportRefs
                        } else {
                            let changed = self.changed;
                            self.answer(Ok(changed))
                        }
                    },
                }
            },
        }
    }
}

/// In a workspace that is shared with git, the tree is taken only after the git
/// HEAD was imported, and the git refs are imported only after the tree was taken.
pub proof fn head_comes_before_tree(
    pre: Snapshot,
    reply: SnapshotReply,
    post: Snapshot,
    action: SnapshotAction,
)
    requires
        snapshot_step(pre, reply, post, action),
        colocated(pre.ws@),
    ensures
        action is SnapshotTree ==> pre.phase == SnapshotPhase::Head,
        action is ImportRefs ==> pre.phase == SnapshotPhase::Tree,
        action is ImportHead ==> pre.phase == SnapshotPhase::Start,
{
}

/// A workspace of its own is snapshotted without a look at git.
pub proof fn others_leave_git_alone(
    pre: Snapshot,
    reply: SnapshotReply,
    post: Snapshot,
    action: SnapshotAction,
)
    requires
        snapshot_step(pre, reply, post, action),
        !colocated(pre.ws@),
        pre.phase == SnapshotPhase::Start || pre.phase == SnapshotPhase::Tree || pre.phase
            == SnapshotPhase::Over,
    ensures
        !(action is ImportHead),
        !(action is ImportRefs),
        post.phase == SnapshotPhase::Tree || post.phase == SnapshotPhase::Over,
{
}

/// What the snapshot of all workspaces waits for.
#[derive(Debug, Clone, Copy, PartialEq, Eq, Structural)]
pub enum AllPhase {
    Start,
    Looking,
    Snapshotting,
    Over,
}

/// A workspace that is to be snapshotted.
#[derive(Debug, Clone, PartialEq)]
pub struct Place {
    pub name: String,
    pub root: String,
}

/// The snapshot of all workspaces, one after the other. A workspace whose directory
/// has vanished is passed over; it stays open, as its changes are in the store.
pub struct SnapshotAll {
    pub places: Vec<Place>,
    /// How many of them are done.
    pub at: usize,
    pub any: bool,
    pub phase: AllPhase,
}

/// What has to be done next for a snapshot of all workspaces.
pub enum AllAction {
    /// Say whether the directory is there.
    Look(String),
    /// Snapshot the workspace.
    Snapshot(String),
    /// Answer whether anything changed.
    Finish(Result<bool, EngineError>),
}

/// What came of an action.
pub enum AllReply {
    Begin,
    IsDirectory(bool),
    Snapshotted(Result<bool, EngineError>),
}

/// `at` workspaces are done: the next one is looked at, or the answer is given.
pub open spec fn all_goes_on(post: SnapshotAll, at: int, any: bool, action: AllAction) -> bool {
    &&& post.at == at
    &&& post.any == any
    &&& if at < post.places@.len() {
        &&& post.phase == AllPhase::Looking
        &&& action matches AllAction::Look(root)
        &&& root@ == post.places@[at].root@
    } else {
        &&& post.phase == AllPhase::Over
        &&& action matches AllAction::Finish(r)
        &&& r == Ok::<_, EngineError>(any)
    }
}

pub open spec fn all_fails(
    post: SnapshotAll,
    action: AllAction,
    why: (ErrorKind, Seq<char>),
) -> bool {
    &&& post.phase == AllPhase::Over
    &&& action matches AllAction::Finish(r)
    &&& r matches Err(e)
    &&& e@ == why
}

/// One step of a snapshot of all workspaces.
pub open spec fn all_step(
    pre: SnapshotAll,
    reply: AllReply,
    post: SnapshotAll,
    action: AllAction,
) -> bool {
    &&& post.places == pre.places
    &&& match (pre.phase, reply) {
        (AllPhase::Start, AllReply::Begin) => all_goes_on(post, pre.at as int, pre.any, action),
        (AllPhase::Looking, AllReply::IsDirectory(true)) => {
            &&& post.phase == AllPhase::Snapshotting
            &&& post.at == pre.at
            &&& post.any == pre.any
            &&& action matches AllAction::Snapshot(name)
            &&& name@ == pre.places@[pre.at as int].name@
        },
        (AllPhase::Looking, AllReply::IsDirectory(false)) => all_goes_on(
            post,
            pre.at + 1,
            pre.any,
            action,
        ),
        (AllPhase::Snapshotting, AllReply::Snapshotted(Ok(changed))) => all_goes_on(
            post,
            pre.at + 1,
            pre.any || changed,
            action,
        ),
        (AllPhase::Snapshotting, AllReply::Snapshotted(Err(e))) => all_fails(post, action, e@),
        _ => all_fails(post, action, (ErrorKind::Internal, "unexpected reply"@)),
    }
}

/// The names of the places.
pub open spec fn place_names(places: Seq<Place>) -> Seq<String> {
    places.map_values(|p: Place| p.name)
}

impl RepoEngine {
    /// A snapshot of every open workspace, the default one first.
    pub fn snapshot_all(&self) -> (r: SnapshotAll)
        ensures
            r.wf(),
            r.phase == AllPhase::Start,
            r.at == 0,
            !r.any,
            exists|sorted: Seq<String>| #[trigger]
                sorts(self.names(), sorted) && default_swapped_first(
                    sorted,
                    place_names(r.places@),
                ),
            forall|i: int|
                0 <= i < r.places@.len() ==> self.entry((#[trigger] r.places@[i]).name@) is Some
                    && r.places@[i].root@ == self.entry(r.places@[i].name@)->0.root@,
    {
        let mut names: Vec<String> = Vec::new();
        for i in 0..self.workspaces.len()
            invariant
                names@ == self.names().take(i as int),
        {
            names.push(self.workspaces[i].name.clone());
            assert(names@ =~= self.names().take(i + 1));
        }
        assert(names@ =~= self.names());
        let order = ordered_workspace_names(names);
        let ghost sorted = choose|sorted: Seq<String>| #[trigger]
            sorts(self.names(), sorted) && default_swapped_first(sorted, order@);
        proof {
            sorts_keeps_members(self.names(), sorted);
            assert forall|i: int| 0 <= i < order@.len() implies self.entry(
                (#[trigger] order@[i])@,
            ) is Some by {
                assert(sorted.contains(order@[i])) by {
                    if order@ != sorted {
                        let k = choose|k: int|
                            0 <= k < sorted.len() && (#[trigger] sorted[k])@ == "default"@ && order@
                                == sorted.update(k, sorted[0]).update(0, sorted[k]);
                        if i == 0 {
                            assert(order@[i] == sorted[k]);
                        } else if i == k {
                            assert(order@[i] == sorted[0]);
                        } else {
                            assert(order@[i] == sorted[i]);
                        }
                    } else {
                        assert(sorted[i] == order@[i]);
                    }
                }
                let m = choose|m: int| 0 <= m < sorted.len() && sorted[m] == order@[i];
                assert(self.names().contains(sorted[m]));
                let k = choose|k: int|
                    0 <= k < self.names().len() && self.names()[k] == sorted[m];
                assert(self.workspaces@[k].name == self.names()[k]);
                first_where_is_there(self.workspaces@, entry_named(order@[i]@));
                assert(entry_named(order@[i]@)(self.workspaces@[k]));
            }
        }
        let mut places: Vec<Place> = Vec::new();
        for i in 0..order.len()
            invariant
                forall|j: int|
                    0 <= j < order@.len() ==> self.entry((#[trigger] order@[j])@) is Some,
                places@.len() == i,
                forall|j: int|
                    0 <= j < i ==> (#[trigger] places@[j]).name == order@[j] && places@[j].root@
                        == self.entry(order@[j]@)->0.root@,
        {
            let mut root = String::new();
            if let Some(e) = self.find(order[i].as_str()) {
                root = e.root.clone();
            }
            places.push(Place { name: order[i].clone(), root });
        }
        assert(place_names(places@) =~= order@);
        SnapshotAll { places, at: 0, any: false, phase: AllPhase::Start }
    }
}

impl SnapshotAll {
    pub open spec fn wf(self) -> bool {
        &&& self.at <= self.places@.len()
        &&& self.phase == AllPhase::Looking || self.phase == AllPhase::Snapshotting ==> self.at
            < self.places@.len()
    }

    fn go_on(&mut self) -> (action: AllAction)
        requires
            old(self).at <= old(self).places@.len(),
        ensures
            final(self).wf(),
            final(self).places == old(self).places,
            all_goes_on(*final(self), old(self).at as int, old(self).any, action),
    {
        if self.at < self.places.len() {
            self.phase = AllPhase::Looking;
            AllAction::Look(self.places[self.at].root.clone())
        } else {
            self.phase = AllPhase::Over;
            AllAction::Finish(Ok(self.any))
        }
    }

    fn fail(&mut self, e: EngineError) -> (action: AllAction)
        requires
            old(self).wf(),
        ensures
            final(self).wf(),
            final(self).places == old(self).places,
            all_fails(*final(self), action, e@),
    {
        self.phase = AllPhase::Over;
        AllAction::Finish(Err(e))
    }

    /// Takes the reply to the last action and says what has to be done next.
    pub fn step(&mut self, reply: AllReply) -> (action: AllAction)
        requires
            old(self).wf(),
        ensures
            final(self).wf(),
            all_step(*old(self), reply, *final(self), action),
    {
        let n: usize = self.places.len();
        match (self.phase, reply) {
            (AllPhase::Start, AllReply::Begin) => self.go_on(),
            (AllPhase::Looking, AllReply::IsDirectory(there)) => {
                if there {
                    self.phase = AllPhase::Snapshotting;
                    AllAction::Snapshot(self.places[self.at].name.clone())
                } else {
                    assert(self.at < n);
                    self.at = self.at + 1;
                    self.go_on()
                }
            },
            (AllPhase::Snapshotting, AllReply::Snapshotted(r)) => match r {
                Ok(changed) => {
                    assert(self.at < n);
                    self.at = self.at + 1;
                    self.any = self.any || changed;
                    self.go_on()
                },
                Err(e) => self.fail(e),
            },
            _ => self.fail(EngineError::Internal("unexpected reply".to_string())),
        }
    }
}

/// A workspace whose directory has vanished does not stop the others: it is passed
/// over, without a snapshot and without a failure.
pub proof fn vanished_workspaces_are_passed_over(
    pre: SnapshotAll,
    post: SnapshotAll,
    action: AllAction,
)
    requires
        pre.wf(),
        pre.phase == AllPhase::Looking,
        all_step(pre, AllReply::IsDirectory(false), post, action),
    ensures
        post.at == pre.at + 1,
        post.any == pre.any,
        post.places == pre.places,
        !(action is Snapshot),
        action matches AllAction::Finish(r) ==> r is Ok,
{
}

/// A snapshot from its start on: the states that it went through, the reply that
/// each was given, and the action that followed.
pub open spec fn is_snapshot_run(
    states: Seq<Snapshot>,
    replies: Seq<SnapshotReply>,
    actions: Seq<SnapshotAction>,
) -> bool {
    &&& states.len() == replies.len() + 1
    &&& actions.len() == replies.len()
    &&& states[0].phase == SnapshotPhase::Start
    &&& !states[0].changed
    &&& forall|i: int|
        0 <= i < replies.len() ==> snapshot_step(
            states[i],
            #[trigger] replies[i],
            states[i + 1],
            actions[i],
        )
}

/// The action went well and answered `did`.
pub open spec fn went_well(reply: SnapshotReply, did: bool) -> bool {
    reply matches SnapshotReply::Did(r) && r == Ok::<bool, EngineError>(did)
}

proof fn over_is_over(
    states: Seq<Snapshot>,
    replies: Seq<SnapshotReply>,
    actions: Seq<SnapshotAction>,
    k: int,
    i: int,
)
    requires
        is_snapshot_run(states, replies, actions),
        0 <= k <= i < actions.len(),
        states[k].phase == SnapshotPhase::Over,
    ensures
        states[i].phase == SnapshotPhase::Over,
        actions[i] matches SnapshotAction::Finish(r) && r is Err,
    decreases i - k,
{
    if k < i {
        over_is_over(states, replies, actions, k, i - 1);
        assert(snapshot_step(states[i - 1], replies[i - 1], states[i], actions[i - 1]));
    }
    assert(snapshot_step(states[i], replies[i], states[i + 1], actions[i]));
}

/// A snapshot of the workspace that is shared with git goes well only when, in this
/// order, the git HEAD was imported, the tree was taken and the git refs were
/// imported, and it reports a change where any of them changed something.
pub proof fn snapshots_go_in_order(
    states: Seq<Snapshot>,
    replies: Seq<SnapshotReply>,
    actions: Seq<SnapshotAction>,
    i: int,
)
    requires
        is_snapshot_run(states, replies, actions),
        colocated(states[0].ws@),
        0 <= i < actions.len(),
        actions[i] matches SnapshotAction::Finish(r) && r is Ok,
    ensures
        i == 3,
        actions[0] is ImportHead,
        actions[1] matches SnapshotAction::SnapshotTree(ws) && ws@ == states[0].ws@,
        actions[2] is ImportRefs,
        exists|head: bool, tree: bool, refs: bool|
            #![trigger went_well(replies[1], head), went_well(replies[2], tree), went_well(
                replies[3],
                refs,
            )]
            went_well(replies[1], head) && went_well(replies[2], tree) && went_well(
                replies[3],
                refs,
            ) && (head || tree || refs) == actions[i]->Finish_0->Ok_0,
{
    assert(snapshot_step(states[0], replies[0], states[1], actions[0]));
    if i >= 1 {
        if states[1].phase == SnapshotPhase::Over {
            over_is_over(states, replies, actions, 1, i);
        }
        assert(snapshot_step(states[1], replies[1], states[2], actions[1]));
    }
    if i >= 2 {
        if states[2].phase == SnapshotPhase::Over {
            over_is_over(states, replies, actions, 2, i);
        }
        assert(snapshot_step(states[2], replies[2], states[3], actions[2]));
    }
    if i >= 3 {
        if states[3].phase == SnapshotPhase::Over {
            over_is_over(states, replies, actions, 3, i);
        }
        assert(snapshot_step(states[3], replies[3], states[4], actions[3]));
    }
    if i >= 4 {
        over_is_over(states, replies, actions, 4, i);
    }
    let head = replies[1]->Did_0->Ok_0;
    let tree = replies[2]->Did_0->Ok_0;
    let refs = replies[3]->Did_0->Ok_0;
    assert(went_well(replies[1], head) && went_well(replies[2], tree) && went_well(
        replies[3],
        refs,
    ));
}

/// A snapshot of another workspace goes well only when its tree was taken and
/// nothing else was done, and it reports what that reported.
pub proof fn other_snapshots_take_the_tree(
    states: Seq<Snapshot>,
    replies: Seq<SnapshotReply>,
    actions: Seq<SnapshotAction>,
    i: int,
)
    requires
        is_snapshot_run(states, replies, actions),
        !colocated(states[0].ws@),
        0 <= i < actions.len(),
        actions[i] matches SnapshotAction::Finish(r) && r is Ok,
    ensures
        i == 1,
        actions[0] matches SnapshotAction::SnapshotTree(ws) && ws@ == states[0].ws@,
        went_well(replies[1], actions[i]->Finish_0->Ok_0),
{
    assert(snapshot_step(states[0], replies[0], states[1], actions[0]));
    if i >= 1 {
        if states[1].phase == SnapshotPhase::Over {
            over_is_over(states, replies, actions, 1, i);
        }
        assert(snapshot_step(states[1], replies[1], states[2], actions[1]));
    }
    if i >= 2 {
        over_is_over(states, replies, actions, 2, i);
    }
}

/// A snapshot of all workspaces from its start on: the states that it went through,
/// the reply that each was given, and the action that followed.
pub open spec fn is_all_run(
    states: Seq<SnapshotAll>,
    replies: Seq<AllReply>,
    actions: Seq<AllAction>,
) -> bool {
    &&& states.len() == replies.len() + 1
    &&& actions.len() == replies.len()
    &&& states[0].phase == AllPhase::Start
    &&& states[0].at == 0
    &&& !states[0].any
    &&& forall|i: int|
        0 <= i < replies.len() ==> all_step(
            states[i],
            #[trigger] replies[i],
            states[i + 1],
            actions[i],
        )
}

/// What the first `i` replies say of the workspaces, one by one: whether its snapshot
/// changed something. One whose directory has vanished changed nothing.
pub open spec fn changes(states: Seq<SnapshotAll>, replies: Seq<AllReply>, i: int) -> Seq<bool>
    decreases i,
{
    if i <= 0 {
        Seq::empty()
    } else {
        let before = changes(states, replies, i - 1);
        match (states[i - 1].phase, replies[i - 1]) {
            (AllPhase::Looking, AllReply::IsDirectory(false)) => before.push(false),
            (AllPhase::Snapshotting, AllReply::Snapshotted(Ok(changed))) => before.push(changed),
            _ => before,
        }
    }
}

proof fn all_run_shows(
    states: Seq<SnapshotAll>,
    replies: Seq<AllReply>,
    actions: Seq<AllAction>,
    i: int,
)
    requires
        is_all_run(states, replies, actions),
        0 <= i < states.len(),
        states[i].phase != AllPhase::Over,
    ensures
        states[i].places == states[0].places,
        changes(states, replies, i).len() == states[i].at,
        states[i].any == changes(states, replies, i).contains(true),
        states[i].phase != AllPhase::Start ==> states[i].at < states[i].places@.len(),
        states[i].phase == AllPhase::Snapshotting ==> i > 0 && (
        actions[i - 1] matches AllAction::Snapshot(name) && name@
            == states[0].places@[states[i].at as int].name@),
    decreases i,
{
    if i > 0 {
        assert(all_step(states[i - 1], replies[i - 1], states[i], actions[i - 1]));
        all_run_shows(states, replies, actions, i - 1);
        any_grows(changes(states, replies, i - 1), true);
        any_grows(changes(states, replies, i - 1), false);
    }
}

proof fn any_grows(before: Seq<bool>, did: bool)
    ensures
        before.push(did).contains(true) == (before.contains(true) || did),
{
    let after = before.push(did);
    assert(after[before.len() as int] == did);
    if before.contains(true) {
        let k = choose|k: int| 0 <= k < before.len() && before[k];
        assert(after[k]);
    }
    if after.contains(true) && !did {
        let k = choose|k: int| 0 <= k < after.len() && after[k];
        assert(before[k]);
    }
}

/// A snapshot of all workspaces goes well only when each of them was snapshotted or
/// has vanished, and it reports a change where one of them changed.
pub proof fn every_workspace_is_snapshotted(
    states: Seq<SnapshotAll>,
    replies: Seq<AllReply>,
    actions: Seq<AllAction>,
    i: int,
)
    requires
        is_all_run(states, replies, actions),
        0 <= i < actions.len(),
        actions[i] matches AllAction::Finish(r) && r is Ok,
    ensures
        changes(states, replies, i + 1).len() == states[0].places@.len(),
        actions[i]->Finish_0->Ok_0 == changes(states, replies, i + 1).contains(true),
{
    assert(all_step(states[i], replies[i], states[i + 1], actions[i]));
    all_run_shows(states, replies, actions, i);
    any_grows(changes(states, replies, i), true);
    any_grows(changes(states, replies, i), false);
}

/// No operation of a tree snapshot describes a commit or starts a change: the one
/// commit that it rewrites is the working-copy commit that was read, which keeps its
/// message and its change and takes the tree.
pub proof fn tree_snapshots_keep_messages(
    engine: RepoEngine,
    pre: TreeSnapshot,
    reply: TreeReply,
    post: TreeSnapshot,
    action: TreeAction,
    i: int,
)
    requires
        pre.wf(),
        tree_step(engine, pre, reply, post, action),
        action is Run,
        0 <= i < ops_view(action->Run_0@).len(),
    ensures
        !describes(ops_view(action->Run_0@)),
        !starts_change(ops_view(action->Run_0@)),
        ops_view(action->Run_0@)[i] matches OpView::AdoptTree { commit } ==> pre.wc is Some && commit
            == pre.wc->0.id@,
{
}

/// A tree snapshot from its start on: the states that it went through, the reply that
/// each was given, and the action that followed.
pub open spec fn is_tree_run(
    engine: RepoEngine,
    states: Seq<TreeSnapshot>,
    replies: Seq<TreeReply>,
    actions: Seq<TreeAction>,
) -> bool {
    &&& states.len() == replies.len() + 1
    &&& actions.len() == replies.len()
    &&& states[0].phase == TreePhase::Start
    &&& forall|i: int|
        0 <= i < replies.len() ==> tree_step(
            engine,
            states[i],
            #[trigger] replies[i],
            states[i + 1],
            actions[i],
        )
}

proof fn tree_run_shows(
    engine: RepoEngine,
    states: Seq<TreeSnapshot>,
    replies: Seq<TreeReply>,
    actions: Seq<TreeAction>,
    i: int,
)
    requires
        is_tree_run(engine, states, replies, actions),
        0 <= i < states.len(),
        states[i].phase != TreePhase::Over,
    ensures
        states[i].ws == states[0].ws,
        states[i].phase == TreePhase::Start ==> i == 0,
        states[i].phase == TreePhase::Reading ==> i == 1,
        i >= 1 ==> actions[0] is Read,
        states[i].phase == TreePhase::Taking ==> i == 2,
        i >= 2 ==> actions[1] is Take && (replies[1] matches TreeReply::Commit(r) && r is Ok),
        states[i].phase == TreePhase::Writing ==> i == 3 && (replies[2] matches TreeReply::Taken(r)
            && r matches Ok(trees) && states[i].changed == !same_tree(trees.0, trees.1) && (
        actions[2] matches TreeAction::Run(ops) && (same_tree(trees.0, trees.1) ==> ops_view(ops@)
            == seq![OpView::Unlock]))),
    decreases i,
{
    if i > 0 {
        assert(tree_step(engine, states[i - 1], replies[i - 1], states[i], actions[i - 1]));
        tree_run_shows(engine, states, replies, actions, i - 1);
    }
}

/// A tree snapshot that goes well answers whether the tree that was taken differs from
/// that of the working-copy commit, and where it does not, only unlocks.
pub proof fn tree_runs_answer_for_trees(
    engine: RepoEngine,
    states: Seq<TreeSnapshot>,
    replies: Seq<TreeReply>,
    actions: Seq<TreeAction>,
    i: int,
)
    requires
        is_tree_run(engine, states, replies, actions),
        0 <= i < actions.len(),
        actions[i] matches TreeAction::Finish(r) && r is Ok,
    ensures
        i >= 2,
        replies[2] matches TreeReply::Taken(r) && r matches Ok(trees) && actions[i]->Finish_0->Ok_0
            == !same_tree(trees.0, trees.1),
        !actions[i]->Finish_0->Ok_0 ==> forall|k: int|
            0 <= k <= i ==> ((#[trigger] actions[k]) matches TreeAction::Run(ops) ==> ops_view(ops@)
                == seq![OpView::Unlock]),
{
    assert(tree_step(engine, states[i], replies[i], states[i + 1], actions[i]));
    tree_run_shows(engine, states, replies, actions, i);
}

/// The tree was taken and is what it was.
pub open spec fn tree_is_quiet(phase: TreePhase, reply: TreeReply) -> bool {
    match phase {
        TreePhase::Start => reply is Begin,
        TreePhase::Reading => reply matches TreeReply::Commit(r) && r is Ok,
        TreePhase::Taking => reply matches TreeReply::Taken(r) && r matches Ok(trees) && same_tree(
            trees.0,
            trees.1,
        ),
        TreePhase::Writing => reply matches TreeReply::Ran(r) && r is Ok,
        TreePhase::Over => false,
    }
}

/// Where the tree of a workspace with a working-copy commit is what it was, a snapshot
/// of it goes well and answers that nothing changed.
pub proof fn quiet_tree_runs_go_well(
    engine: RepoEngine,
    states: Seq<TreeSnapshot>,
    replies: Seq<TreeReply>,
    actions: Seq<TreeAction>,
    i: int,
)
    requires
        is_tree_run(engine, states, replies, actions),
        engine.wc_id(states[0].ws@) is Ok,
        0 <= i < actions.len(),
        actions[i] is Finish,
        forall|k: int|
            0 <= k < replies.len() ==> tree_is_quiet((#[trigger] states[k]).phase, replies[k]),
    ensures
        actions[i] matches TreeAction::Finish(r) && r == Ok::<bool, EngineError>(false),
{
    assert(tree_is_quiet(states[i].phase, replies[i]));
    assert(tree_step(engine, states[i], replies[i], states[i + 1], actions[i]));
    tree_run_shows(engine, states, replies, actions, i);
}

/// What a snapshot of the workspace that is shared with git did: the import of HEAD,
/// the tree snapshot and the import of refs, each from its start to its end.
pub struct Parts {
    pub head_states: Seq<HeadImport>,
    pub head_replies: Seq<HeadReply>,
    pub head_actions: Seq<HeadAction>,
    pub engine: RepoEngine,
    pub tree_states: Seq<TreeSnapshot>,
    pub tree_replies: Seq<TreeReply>,
    pub tree_actions: Seq<TreeAction>,
    pub refs_states: Seq<RefsImport>,
    pub refs_replies: Seq<RefsReply>,
    pub refs_actions: Seq<RefsAction>,
}

impl Parts {
    pub open spec fn wf(self) -> bool {
        &&& is_head_run(self.head_states, self.head_replies, self.head_actions)
        &&& self.head_actions.len() > 0
        &&& self.head_actions.last() is Finish
        &&& is_tree_run(self.engine, self.tree_states, self.tree_replies, self.tree_actions)
        &&& self.tree_actions.len() > 0
        &&& self.tree_actions.last() is Finish
        &&& is_refs_run(self.refs_states, self.refs_replies, self.refs_actions)
        &&& self.refs_actions.len() > 0
        &&& self.refs_actions.last() is Finish
    }

    /// The replies of the snapshot are what came of the parts.
    pub open spec fn answer(self, replies: Seq<SnapshotReply>) -> bool {
        &&& replies.len() > 1 ==> replies[1] == SnapshotReply::Did(
            self.head_actions.last()->Finish_0,
        )
        &&& replies.len() > 2 ==> replies[2] == SnapshotReply::Did(
            self.tree_actions.last()->Finish_0,
        )
        &&& replies.len() > 3 ==> replies[3] == SnapshotReply::Did(
            self.refs_actions.last()->Finish_0,
        )
    }

    /// Git moved HEAD.
    pub open spec fn head_moved(self) -> bool {
        self.head_replies[1]->Imported_0->Ok_0.changed
    }

    /// The tree is another than that of the working-copy commit.
    pub open spec fn tree_changed(self) -> bool {
        let trees = self.tree_replies[2]->Taken_0->Ok_0;
        !same_tree(trees.0, trees.1)
    }

    /// Refs moved in git.
    pub open spec fn refs_moved(self) -> bool {
        self.refs_replies[1]->Imported_0->Ok_0
    }

    /// Nothing was done but that the working copy was unlocked.
    pub open spec fn did_nothing(self) -> bool {
        &&& forall|k: int|
            0 <= k < self.head_actions.len() ==> !((#[trigger] self.head_actions[k]) is Run)
        &&& forall|k: int|
            0 <= k < self.tree_actions.len() ==> ((
            #[trigger] self.tree_actions[k]) matches TreeAction::Run(ops) ==> ops_view(ops@)
                == seq![OpView::Unlock])
        &&& forall|k: int|
            0 <= k < self.refs_actions.len() ==> !((#[trigger] self.refs_actions[k]) is Run)
                && !(self.refs_actions[k] is SyncWorkingCopy)
    }

    /// Git moved neither HEAD nor refs, the tree is what it was, and nothing failed.
    pub open spec fn quiet(self) -> bool {
        &&& self.engine.wc_id(self.tree_states[0].ws@) is Ok
        &&& forall|k: int|
            0 <= k < self.head_replies.len() ==> crate::git_import::head_is_quiet(
                (#[trigger] self.head_states[k]).phase,
                self.head_replies[k],
            )
        &&& forall|k: int|
            0 <= k < self.tree_replies.len() ==> tree_is_quiet(
                (#[trigger] self.tree_states[k]).phase,
                self.tree_replies[k],
            )
        &&& forall|k: int|
            0 <= k < self.refs_replies.len() ==> crate::git_import::refs_are_quiet(
                (#[trigger] self.refs_states[k]).phase,
                self.refs_replies[k],
            )
    }
}

/// A snapshot of the workspace that is shared with git, where it goes well, answers
/// whether HEAD, the tree or refs changed. Where none did, nothing was done but that
/// the working copy was unlocked.
pub proof fn snapshots_answer_for_what_changed(
    states: Seq<Snapshot>,
    replies: Seq<SnapshotReply>,
    actions: Seq<SnapshotAction>,
    i: int,
    parts: Parts,
)
    requires
        is_snapshot_run(states, replies, actions),
        colocated(states[0].ws@),
        0 <= i < actions.len(),
        actions[i] matches SnapshotAction::Finish(r) && r is Ok,
        parts.wf(),
        parts.answer(replies),
    ensures
        actions[i]->Finish_0->Ok_0 == (parts.head_moved() || parts.tree_changed()
            || parts.refs_moved()),
        !actions[i]->Finish_0->Ok_0 ==> parts.did_nothing(),
{
    snapshots_go_in_order(states, replies, actions, i);
    let (head, tree, refs) = choose|head: bool, tree: bool, refs: bool|
        #![trigger went_well(replies[1], head), went_well(replies[2], tree), went_well(
            replies[3],
            refs,
        )]
        went_well(replies[1], head) && went_well(replies[2], tree) && went_well(replies[3], refs)
            && (head || tree || refs) == actions[i]->Finish_0->Ok_0;
    head_runs_answer_for_head(
        parts.head_states,
        parts.head_replies,
        parts.head_actions,
        parts.head_actions.len() - 1,
    );
    tree_runs_answer_for_trees(
        parts.engine,
        parts.tree_states,
        parts.tree_replies,
        parts.tree_actions,
        parts.tree_actions.len() - 1,
    );
    refs_runs_answer_for_refs(
        parts.refs_states,
        parts.refs_replies,
        parts.refs_actions,
        parts.refs_actions.len() - 1,
    );
}

/// A snapshot with nothing changed since the last goes well, answers that nothing
/// changed, and does nothing but unlock the working copy.
pub proof fn unchanged_snapshots_do_nothing(
    states: Seq<Snapshot>,
    replies: Seq<SnapshotReply>,
    actions: Seq<SnapshotAction>,
    i: int,
    parts: Parts,
)
    requires
        is_snapshot_run(states, replies, actions),
        colocated(states[0].ws@),
        replies[0] is Begin,
        0 <= i < actions.len(),
        actions[i] is Finish,
        forall|k: int| 0 <= k < i ==> !((#[trigger] actions[k]) is Finish),
        parts.wf(),
        parts.answer(replies),
        parts.quiet(),
    ensures
        actions[i] matches SnapshotAction::Finish(r) && r == Ok::<bool, EngineError>(false),
        parts.did_nothing(),
{
    quiet_head_runs_go_well(
        parts.head_states,
        parts.head_replies,
        parts.head_actions,
        parts.head_actions.len() - 1,
    );
    quiet_tree_runs_go_well(
        parts.engine,
        parts.tree_states,
        parts.tree_replies,
        parts.tree_actions,
        parts.tree_actions.len() - 1,
    );
    quiet_refs_runs_go_well(
        parts.refs_states,
        parts.refs_replies,
        parts.refs_actions,
        parts.refs_actions.len() - 1,
    );
    assert(snapshot_step(states[0], replies[0], states[1], actions[0]));
    if i >= 1 {
        assert(snapshot_step(states[1], replies[1], states[2], actions[1]));
    }
    if i >= 2 {
        assert(snapshot_step(states[2], replies[2], states[3], actions[2]));
    }
    if i >= 3 {
        assert(snapshot_step(states[3], replies[3], states[4], actions[3]));
        assert(actions[3] is Finish);
    }
    snapshots_answer_for_what_changed(states, replies, actions, i, parts);
}

/// The same of any other workspace: it answers whether its tree changed, and where it
/// did not, does nothing but unlock the working copy.
pub proof fn other_snapshots_answer_for_the_tree(
    states: Seq<Snapshot>,
    replies: Seq<SnapshotReply>,
    actions: Seq<SnapshotAction>,
    i: int,
    engine: RepoEngine,
    tree_states: Seq<TreeSnapshot>,
    tree_replies: Seq<TreeReply>,
    tree_actions: Seq<TreeAction>,
)
    requires
        is_snapshot_run(states, replies, actions),
        !colocated(states[0].ws@),
        0 <= i < actions.len(),
        actions[i] matches SnapshotAction::Finish(r) && r is Ok,
        is_tree_run(engine, tree_states, tree_replies, tree_actions),
        tree_actions.len() > 0,
        tree_actions.last() is Finish,
        replies.len() > 1 ==> replies[1] == SnapshotReply::Did(tree_actions.last()->Finish_0),
    ensures
        tree_replies[2] matches TreeReply::Taken(r) && r matches Ok(trees)
            && actions[i]->Finish_0->Ok_0 == !same_tree(trees.0, trees.1),
        !actions[i]->Finish_0->Ok_0 ==> forall|k: int|
            0 <= k < tree_actions.len() ==> ((#[trigger] tree_actions[k]) matches TreeAction::Run(
                ops,
            ) ==> ops_view(ops@) == seq![OpView::Unlock]),
{
    other_snapshots_take_the_tree(states, replies, actions, i);
    tree_runs_answer_for_trees(
        engine,
        tree_states,
        tree_replies,
        tree_actions,
        tree_actions.len() - 1,
    );
}

/// A snapshot of any other workspace with nothing changed since the last goes well,
/// answers that nothing changed, and does nothing but unlock the working copy.
pub proof fn unchanged_other_snapshots_do_nothing(
    states: Seq<Snapshot>,
    replies: Seq<SnapshotReply>,
    actions: Seq<SnapshotAction>,
    i: int,
    engine: RepoEngine,
    tree_states: Seq<TreeSnapshot>,
    tree_replies: Seq<TreeReply>,
    tree_actions: Seq<TreeAction>,
)
    requires
        is_snapshot_run(states, replies, actions),
        !colocated(states[0].ws@),
        replies[0] is Begin,
        0 <= i < actions.len(),
        actions[i] is Finish,
        forall|k: int| 0 <= k < i ==> !((#[trigger] actions[k]) is Finish),
        is_tree_run(engine, tree_states, tree_replies, tree_actions),
        engine.wc_id(tree_states[0].ws@) is Ok,
        tree_actions.len() > 0,
        tree_actions.last() is Finish,
        replies.len() > 1 ==> replies[1] == SnapshotReply::Did(tree_actions.last()->Finish_0),
        forall|k: int|
            0 <= k < tree_replies.len() ==> tree_is_quiet(
                (#[trigger] tree_states[k]).phase,
                tree_replies[k],
            ),
    ensures
        actions[i] matches SnapshotAction::Finish(r) && r == Ok::<bool, EngineError>(false),
        forall|k: int|
            0 <= k < tree_actions.len() ==> ((#[trigger] tree_actions[k]) matches TreeAction::Run(
                ops,
            ) ==> ops_view(ops@) == seq![OpView::Unlock]),
{
    quiet_tree_runs_go_well(
        engine,
        tree_states,
        tree_replies,
        tree_actions,
        tree_actions.len() - 1,
    );
    assert(snapshot_step(states[0], replies[0], states[1], actions[0]));
    if i >= 1 {
        assert(snapshot_step(states[1], replies[1], states[2], actions[1]));
        assert(actions[1] is Finish);
    }
    tree_runs_answer_for_trees(
        engine,
        tree_states,
        tree_replies,
        tree_actions,
        tree_actions.len() - 1,
    );
}

/// What a tree snapshot makes of commits: the working-copy commit takes the tree and
/// keeps its message, its change and its parents, and nothing is done to any other.
pub proof fn tree_snapshots_amend_one_commit(
    ws: Seq<char>,
    jj_name: Seq<char>,
    wc: Seq<u8>,
    other: Seq<u8>,
    before: Facts,
    taken: int,
)
    ensures
        facts_after(adopt_ops(ws, jj_name, wc), wc, before, taken) == (Facts {
            change_id: before.change_id,
            message: before.message,
            parents: before.parents,
            tree: taken,
        }),
        other != wc ==> facts_after(adopt_ops(ws, jj_name, wc), other, before, taken) == before,
        !describes(adopt_ops(ws, jj_name, wc)),
{
    let ops = adopt_ops(ws, jj_name, wc);
    assert(ops.last() is Unlock);
    let six = ops.drop_last();
    assert(six.last() is Commit);
    let five = six.drop_last();
    assert(five.last() is Rebase);
    let four = five.drop_last();
    assert(four.last() is SetWorkingCopy);
    let three = four.drop_last();
    assert(three.last() == OpView::AdoptTree { commit: wc });
    let two = three.drop_last();
    assert(two.last() is MarkSnapshot);
    let one = two.drop_last();
    assert(one.last() is Begin);
    assert(one.drop_last().len() == 0);
    assert forall|c: Seq<u8>| #[trigger] facts_after(two, c, before, taken) == before by {
        assert(facts_after(one.drop_last(), c, before, taken) == before);
        assert(facts_after(one, c, before, taken) == before);
    }
    assert forall|c: Seq<u8>| #[trigger]
        facts_after(ops, c, before, taken) == facts_after(three, c, before, taken) by {
        assert(facts_after(four, c, before, taken) == facts_after(three, c, before, taken));
        assert(facts_after(five, c, before, taken) == facts_after(four, c, before, taken));
        assert(facts_after(six, c, before, taken) == facts_after(five, c, before, taken));
    }
    assert(facts_after(two, wc, before, taken) == before);
    assert(facts_after(two, other, before, taken) == before);
}

} // verus!
