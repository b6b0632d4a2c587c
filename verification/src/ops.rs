//! Operations on a repo and its working copies, as a caller performs them one
//! after the other.

use vstd::prelude::*;
use vstd::string::*;

#[allow(unused_imports)]
use crate::commits::Commit;
use crate::engine::RepoEngine;
use crate::error::EngineError;
use crate::ids::CommitId;

verus! {

/// One operation. Those on a transaction are about the one that was begun last,
/// those on a locked working copy about the one that was locked last.
pub enum Op {
    /// Begin a transaction at the repo's current operation.
    Begin,
    /// Mark the transaction as a snapshot.
    MarkSnapshot,
    /// Rewrite the commit with another description.
    Describe { commit: CommitId, message: String },
    /// Rewrite the commit with the tree that was just taken from the working copy.
    AdoptTree { commit: CommitId },
    /// Make the rewritten commit the working-copy commit of the workspace.
    SetWorkingCopy { workspace: String },
    /// Make a new working-copy commit for the workspace on top of the commit.
    CheckOut { workspace: String, commit: CommitId },
    /// Take the working-copy commit of the workspace out of the repo's view.
    RemoveWorkingCopy { workspace: String },
    /// Rebase what descends from rewritten commits.
    Rebase,
    /// Commit the transaction under this description; the repo is then at the new
    /// operation.
    Commit(String),
    /// Lock the on-disk state of the workspace.
    Lock(String),
    /// Point the locked state at the commit, without touching files.
    Reset(CommitId),
    /// Point the locked state at the commit that was just checked out, without
    /// touching files.
    ResetToCheckedOut,
    /// Record the repo's current operation in the locked state and unlock it.
    Unlock,
    /// Take the workspace out of the repo's workspace store.
    ForgetInStore { workspace: String },
}

/// An operation without the memory that holds it.
pub enum OpView {
    Begin,
    MarkSnapshot,
    Describe { commit: Seq<u8>, message: Seq<char> },
    AdoptTree { commit: Seq<u8> },
    SetWorkingCopy { workspace: Seq<char> },
    CheckOut { workspace: Seq<char>, commit: Seq<u8> },
    RemoveWorkingCopy { workspace: Seq<char> },
    Rebase,
    Commit(Seq<char>),
    Lock(Seq<char>),
    Reset(Seq<u8>),
    ResetToCheckedOut,
    Unlock,
    ForgetInStore { workspace: Seq<char> },
}

impl View for Op {
    type V = OpView;

    open spec fn view(&self) -> OpView {
        match self {
            Op::Begin => OpView::Begin,
            Op::MarkSnapshot => OpView::MarkSnapshot,
            Op::Describe { commit, message } => OpView::Describe {
                commit: commit@,
                message: message@,
            },
            Op::AdoptTree { commit } => OpView::AdoptTree { commit: commit@ },
            Op::SetWorkingCopy { workspace } => OpView::SetWorkingCopy { workspace: workspace@ },
            Op::CheckOut { workspace, commit } => OpView::CheckOut {
                workspace: workspace@,
                commit: commit@,
            },
            Op::RemoveWorkingCopy { workspace } => OpView::RemoveWorkingCopy {
                workspace: workspace@,
            },
            Op::Rebase => OpView::Rebase,
            Op::Commit(description) => OpView::Commit(description@),
            Op::Lock(workspace) => OpView::Lock(workspace@),
            Op::Reset(commit) => OpView::Reset(commit@),
            Op::ResetToCheckedOut => OpView::ResetToCheckedOut,
            Op::Unlock => OpView::Unlock,
            Op::ForgetInStore { workspace } => OpView::ForgetInStore { workspace: workspace@ },
        }
    }
}

/// Operations without the memory that holds them.
pub open spec fn ops_view(ops: Seq<Op>) -> Seq<OpView> {
    ops.map_values(|o: Op| o@)
}

/// Operations that are performed in order, up to the first that fails.
pub struct Script {
    pub ops: Vec<Op>,
    /// How many of them were handed out.
    pub at: usize,
}

/// What has to be done next for a script.
pub enum ScriptAction<'a> {
    Perform(&'a Op),
    Finish(Result<(), EngineError>),
}

impl Script {
    pub open spec fn wf(self) -> bool {
        self.at <= self.ops@.len()
    }

    pub fn start(ops: Vec<Op>) -> (r: Script)
        ensures
            r.wf(),
            r.at == 0,
            r.ops == ops,
    {
        Script { ops, at: 0 }
    }

    /// Takes what came of the last operation, `Ok` at the start, and hands out the
    /// next one. A failure ends the script with that failure.
    pub fn step(&mut self, reply: Result<(), EngineError>) -> (action: ScriptAction<'_>)
        requires
            old(self).wf(),
        ensures
            final(self).wf(),
            final(self).ops == old(self).ops,
            match reply {
                Err(e) => {
                    &&& final(self).at == old(self).ops@.len()
                    &&& action matches ScriptAction::Finish(r)
                    &&& r == Err::<(), _>(e)
                },
                Ok(_) => if old(self).at < old(self).ops@.len() {
                    &&& final(self).at == old(self).at + 1
                    &&& action matches ScriptAction::Perform(op)
                    &&& *op == old(self).ops@[old(self).at as int]
                } else {
                    &&& final(self).at == old(self).at
                    &&& action matches ScriptAction::Finish(r)
                    &&& r == Ok::<_, EngineError>(())
                },
            },
    {
        match reply {
            Err(e) => {
                self.at = self.ops.len();
                ScriptAction::Finish(Err(e))
            },
            Ok(_) => {
                if self.at < self.ops.len() {
                    let k: usize = self.at;
                    self.at = k + 1;
                    ScriptAction::Perform(&self.ops[k])
                } else {
                    ScriptAction::Finish(Ok(()))
                }
            },
        }
    }
}

/// The operations that bring the on-disk state of a workspace up to its
/// working-copy commit.
pub open spec fn sync_ops(workspace: Seq<char>, wc: Seq<u8>) -> Seq<OpView> {
    seq![OpView::Lock(workspace), OpView::Reset(wc), OpView::Unlock]
}

impl RepoEngine {
    /// After a transaction that may have rewritten a working-copy commit: what
    /// points the on-disk state of the workspace at it again.
    pub fn sync_wc_after_tx(&self, ws: &str) -> (r: Result<Vec<Op>, EngineError>)
        ensures
            match r {
                Ok(ops) => self.wc_id(ws@) is Ok && ops_view(ops@) == sync_ops(
                    ws@,
                    self.wc_id(ws@)->Ok_0,
                ),
                Err(e) => self.wc_id(ws@) == Err::<Seq<u8>, _>(e@),
            },
    {
        match self.wc_commit(ws) {
            Ok(id) => {
                let ghost wc = id@;
                let mut ops: Vec<Op> = Vec::new();
                ops.push(Op::Lock(ws.to_string()));
                ops.push(Op::Reset(id));
                ops.push(Op::Unlock);
                assert(ops_view(ops@) =~= sync_ops(ws@, wc));
                Ok(ops)
            },
            Err(e) => Err(e),
        }
    }
}

/// What there is to a commit beside its id. `tree` stands for the files.
pub struct Facts {
    pub change_id: Seq<u8>,
    pub message: Seq<char>,
    pub parents: Seq<Seq<u8>>,
    pub tree: int,
}

/// A commit with these files.
pub open spec fn facts_of(c: Commit, tree: int) -> Facts {
    Facts {
        change_id: c.change_id@,
        message: c.description@,
        parents: c.parents@.map_values(|p: CommitId| p@),
        tree,
    }
}

/// What the operations make of a commit: one that describes it gives it another
/// message, one that gives it the tree that was taken gives it that tree, and nothing
/// else is done to it. (A rebase that follows rewritten parents is another matter: it
/// is of the commits below those that are rewritten.)
pub open spec fn facts_after(ops: Seq<OpView>, commit: Seq<u8>, before: Facts, taken: int) -> Facts
    decreases ops.len(),
{
    if ops.len() == 0 {
        before
    } else {
        let f = facts_after(ops.drop_last(), commit, before, taken);
        match ops.last() {
            OpView::Describe { commit: described, message } => if described == commit {
                Facts { change_id: f.change_id, message, parents: f.parents, tree: f.tree }
            } else {
                f
            },
            OpView::AdoptTree { commit: adopting } => if adopting == commit {
                Facts { change_id: f.change_id, message: f.message, parents: f.parents, tree: taken }
            } else {
                f
            },
            _ => f,
        }
    }
}

/// One of the operations describes a commit.
pub open spec fn describes(ops: Seq<OpView>) -> bool {
    exists|i: int| 0 <= i < ops.len() && (#[trigger] ops[i]) is Describe
}

/// One of the operations gives a commit another tree.
pub open spec fn takes_tree(ops: Seq<OpView>) -> bool {
    exists|i: int| 0 <= i < ops.len() && (#[trigger] ops[i]) is AdoptTree
}

/// One of the operations makes a new commit, of a change of its own.
pub open spec fn starts_change(ops: Seq<OpView>) -> bool {
    exists|i: int| 0 <= i < ops.len() && (#[trigger] ops[i]) is CheckOut
}

/// One of the operations locks the on-disk state of a workspace.
pub open spec fn locks(ops: Seq<OpView>) -> bool {
    exists|i: int| 0 <= i < ops.len() && (#[trigger] ops[i]) is Lock
}

/// No operation gives a commit another change or other parents, those that describe
/// nothing keep its message, and those that take no tree keep its files.
pub proof fn facts_are_kept(ops: Seq<OpView>, commit: Seq<u8>, before: Facts, taken: int)
    ensures
        facts_after(ops, commit, before, taken).change_id == before.change_id,
        facts_after(ops, commit, before, taken).parents == before.parents,
        !describes(ops) ==> facts_after(ops, commit, before, taken).message == before.message,
        !takes_tree(ops) ==> facts_after(ops, commit, before, taken).tree == before.tree,
    decreases ops.len(),
{
    if ops.len() > 0 {
        let front = ops.drop_last();
        facts_are_kept(front, commit, before, taken);
        if !describes(ops) {
            assert(!(ops[ops.len() - 1] is Describe));
            assert forall|i: int| 0 <= i < front.len() implies !((
            #[trigger] front[i]) is Describe) by {
                assert(front[i] == ops[i]);
            }
        }
        if !takes_tree(ops) {
            assert(!(ops[ops.len() - 1] is AdoptTree));
            assert forall|i: int| 0 <= i < front.len() implies !((
            #[trigger] front[i]) is AdoptTree) by {
                assert(front[i] == ops[i]);
            }
        }
    }
}

/// Operations that were performed on a repo, the id that a commit had then, and the
/// tree that was taken for them.
pub struct Performed {
    pub ops: Seq<OpView>,
    pub commit: Seq<u8>,
    pub taken: int,
}

/// What a commit, and what it is rewritten to, is after scripts that were performed
/// one after the other.
pub open spec fn facts_after_all(scripts: Seq<Performed>, before: Facts) -> Facts
    decreases scripts.len(),
{
    if scripts.len() == 0 {
        before
    } else {
        let last = scripts.last();
        facts_after(
            last.ops,
            last.commit,
            facts_after_all(scripts.drop_last(), before),
            last.taken,
        )
    }
}

} // verus!
