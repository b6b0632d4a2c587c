//! Clones of the default workspace: copying its files, making the copy a workspace,
//! and taking back what failed half-way.

use vstd::prelude::*;
use vstd::string::*;

use crate::commits::Commit;
#[allow(unused_imports)]
use crate::engine::{is_workspace_info, working_copy_of};
use crate::engine::{workspace_info, RepoEngine, WorkspaceEntry};
use crate::error::EngineError;
#[allow(unused_imports)]
use crate::error::ErrorKind;
#[allow(unused_imports)]
use crate::git_import::ignore_path;
use crate::git_import::ignore_path_of;
use crate::ids::CommitId;
#[allow(unused_imports)]
use crate::lists::first_where;
use crate::ops::Op;
#[allow(unused_imports)]
use crate::ops::{ops_view, OpView};
use crate::paths::join_path;
#[allow(unused_imports)]
use crate::paths::joined_path;
use crate::proto::WorkspaceInfo;
use crate::text::quoted;
#[allow(unused_imports)]
use crate::text::debug_text;
#[allow(unused_imports)]
use crate::workspace_ops::{removal_undoes_insertion, without};

verus! {

/// What came of removing a directory.
pub enum Removal {
    Removed,
    /// There was nothing to remove; how that was said.
    Missing(String),
    /// What went wrong.
    Failed(String),
}

/// What a clone waits for.
#[derive(Debug, Clone, Copy, PartialEq, Eq, Structural)]
pub enum ClonePhase {
    Start,
    Copying,
    LookForJj,
    RemovingJj,
    CleaningUp,
    Over,
}

/// The copy of a directory by `cp -Rc`, without the `.jj` of the source, so that
/// the copy never passes for the workspace that it was made from. The `.git` is kept. A failure
/// removes what was copied, so that a second try does not find the place taken.
pub struct CloneDir {
    pub src: String,
    pub dest: String,
    pub phase: ClonePhase,
    /// Why the copy is being cleaned up.
    pub failure: Option<EngineError>,
}

/// What has to be done next for a clone.
pub enum CloneAction {
    /// Run `/bin/cp` with these arguments.
    Copy(Vec<String>),
    /// Say whether there is anything at the path.
    LookFor(String),
    /// Remove the directory with all that it holds.
    Remove(String),
    Finish(Result<(), EngineError>),
}

/// What came of an action.
pub enum CloneReply {
    Begin,
    /// Whether the copy exited with status zero.
    Copied(Result<bool, EngineError>),
    Exists(bool),
    Removal(Removal),
}

/// The arguments of the copy.
pub open spec fn copy_args(src: Seq<char>, dest: Seq<char>) -> Seq<Seq<char>> {
    seq!["-Rc"@, src, dest]
}

/// The clone has failed; what was copied is removed.
pub open spec fn clone_cleans_up(
    pre: CloneDir,
    why: (ErrorKind, Seq<char>),
    post: CloneDir,
    action: CloneAction,
) -> bool {
    &&& post.phase == ClonePhase::CleaningUp
    &&& post.failure is Some
    &&& post.failure->0@ == why
    &&& action matches CloneAction::Remove(path)
    &&& path@ == pre.dest@
}

pub open spec fn clone_fails(
    post: CloneDir,
    action: CloneAction,
    why: (ErrorKind, Seq<char>),
) -> bool {
    &&& post.phase == ClonePhase::Over
    &&& action matches CloneAction::Finish(r)
    &&& r matches Err(e)
    &&& e@ == why
}

/// One step of a clone.
pub open spec fn clone_step(
    pre: CloneDir,
    reply: CloneReply,
    post: CloneDir,
    action: CloneAction,
) -> bool {
    let jj = joined_path(pre.dest@, ".jj"@);
    &&& post.src == pre.src
    &&& post.dest == pre.dest
    &&& match (pre.phase, reply) {
        (ClonePhase::Start, CloneReply::Begin) => {
            &&& post.phase == ClonePhase::Copying
            &&& action matches CloneAction::Copy(args)
            &&& crate::text::texts(args@) == copy_args(pre.src@, pre.dest@)
        },
        (ClonePhase::Copying, CloneReply::Copied(r)) => match r {
            Err(e) => clone_cleans_up(pre, e@, post, action),
            Ok(false) => clone_cleans_up(
                pre,
                (
                    ErrorKind::Internal,
                    "cp -Rc "@ + pre.src@ + " "@ + pre.dest@
                        + " failed (clonefile needs src and dest on the same APFS volume)"@,
                ),
                post,
                action,
            ),
            Ok(true) => {
                &&& post.phase == ClonePhase::LookForJj
                &&& action matches CloneAction::LookFor(path)
                &&& path@ == jj
            },
        },
        (ClonePhase::LookForJj, CloneReply::Exists(there)) => if there {
            &&& post.phase == ClonePhase::RemovingJj
            &&& action matches CloneAction::Remove(path)
            &&& path@ == jj
        } else {
            post.phase == ClonePhase::Over && action == CloneAction::Finish(Ok(()))
        },
        (ClonePhase::RemovingJj, CloneReply::Removal(r)) => match r {
            Removal::Removed => post.phase == ClonePhase::Over && action == CloneAction::Finish(
                Ok(()),
            ),
            Removal::Missing(said) | Removal::Failed(said) => clone_cleans_up(
                pre,
                (ErrorKind::Internal, said@),
                post,
                action,
            ),
        },
        (ClonePhase::CleaningUp, CloneReply::Removal(r)) => match r {
            Removal::Failed(said) => clone_fails(
                post,
                action,
                (
                    pre.failure->0@.0,
                    "cleanup of partial clone "@ + pre.dest@ + " also failed: "@ + said@ + ": "@
                        + pre.failure->0@.1,
                ),
            ),
            _ => clone_fails(post, action, pre.failure->0@),
        },
        _ => clone_fails(post, action, (ErrorKind::Internal, "unexpected reply"@)),
    }
}

/// A clone of the directory `src` at `dest`.
pub fn clonefile_dir(src: String, dest: String) -> (r: CloneDir)
    ensures
        r.wf(),
        r.src == src,
        r.dest == dest,
        r.phase == ClonePhase::Start,
{
    CloneDir { src, dest, phase: ClonePhase::Start, failure: None }
}

impl CloneDir {
    pub open spec fn wf(self) -> bool {
        self.phase == ClonePhase::CleaningUp ==> self.failure is Some
    }

    fn fail(&mut self, e: EngineError) -> (action: CloneAction)
        ensures
            final(self).src == old(self).src,
            final(self).dest == old(self).dest,
            final(self).wf(),
            clone_fails(*final(self), action, e@),
    {
        self.phase = ClonePhase::Over;
        CloneAction::Finish(Err(e))
    }

    fn clean_up(&mut self, e: EngineError) -> (action: CloneAction)
        ensures
            final(self).src == old(self).src,
            final(self).dest == old(self).dest,
            final(self).wf(),
            clone_cleans_up(*old(self), e@, *final(self), action),
    {
        self.phase = ClonePhase::CleaningUp;
        self.failure = Some(e);
        CloneAction::Remove(self.dest.clone())
    }

    /// Takes the reply to the last action and says what has to be done next.
    pub fn step(&mut self, reply: CloneReply) -> (action: CloneAction)
        requires
            old(self).wf(),
        ensures
            final(self).wf(),
            clone_step(*old(self), reply, *final(self), action),
    {
        let jj = join_path(self.dest.as_str(), ".jj");
        match (self.phase, reply) {
            (ClonePhase::Start, CloneReply::Begin) => {
                self.phase = ClonePhase::Copying;
                let mut args: Vec<String> = Vec::new();
                args.push("-Rc".to_string());
                args.push(self.src.clone());
                args.push(self.dest.clone());
                assert(crate::text::texts(args@) =~= copy_args(self.src@, self.dest@));
                CloneAction::Copy(args)
            },
            (ClonePhase::Copying, CloneReply::Copied(r)) => match r {
                Err(e) => self.clean_up(e),
                Ok(success) => {
                    if success {
                        self.phase = ClonePhase::LookForJj;
                        return CloneAction::LookFor(jj);
                    }
                    let message = "cp -Rc ".to_string().concat(self.src.as_str()).concat(
                        " ",
                    ).concat(self.dest.as_str()).concat(
                        " failed (clonefile needs src and dest on the same APFS volume)",
                    );
                    self.clean_up(EngineError::Internal(message))
                },
            },
            (ClonePhase::LookForJj, CloneReply::Exists(there)) => {
                if there {
                    self.phase = ClonePhase::RemovingJj;
                    CloneAction::Remove(jj)
                } else {
                    self.phase = ClonePhase::Over;
                    CloneAction::Finish(Ok(()))
                }
            },
            (ClonePhase::RemovingJj, CloneReply::Removal(r)) => match r {
                Removal::Removed => {
                    self.phase = ClonePhase::Over;
                    CloneAction::Finish(Ok(()))
                },
                Removal::Missing(said) | Removal::Failed(said) => self.clean_up(
                    EngineError::Internal(said),
                ),
            },
            (ClonePhase::CleaningUp, CloneReply::Removal(r)) => {
                let mut failure: Option<EngineError> = None;
                std::mem::swap(&mut failure, &mut self.failure);
                let e = match failure {
                    Some(e) => e,
                    None => EngineError::Internal("unexpected reply".to_string()),
                };
                match r {
                    Removal::Failed(said) => {
                        let outer = "cleanup of partial clone ".to_string().concat(
                            self.dest.as_str(),
                        ).concat(" also failed: ").concat(said.as_str());
                        self.fail(e.context(outer.as_str()))
                    },
                    _ => self.fail(e),
                }
            },
            _ => self.fail(EngineError::Internal("unexpected reply".to_string())),
        }
    }
}

/// A clone that fails after the copy began leaves nothing behind: the place is
/// removed before the failure is reported.
pub proof fn failed_clones_are_removed(
    pre: CloneDir,
    reply: CloneReply,
    post: CloneDir,
    action: CloneAction,
)
    requires
        pre.wf(),
        clone_step(pre, reply, post, action),
        pre.phase == ClonePhase::Copying && reply is Copied || pre.phase == ClonePhase::RemovingJj
            && reply is Removal,
    ensures
        action matches CloneAction::Finish(r) ==> r is Ok,
        post.phase == ClonePhase::CleaningUp ==> (action matches CloneAction::Remove(path) && path@
            == pre.dest@),
{
}

/// What the registration of a clone waits for.
#[derive(Debug, Clone, Copy, PartialEq, Eq, Structural)]
pub enum RegisterPhase {
    Start,
    Initializing,
    LookForIgnore,
    WritingIgnore,
    CheckingOut,
    Syncing,
    Snapshotting,
    Finding,
    Over,
}

/// The registration of a clone at `dest` as the workspace `name`, on top of
/// `parent`.
pub struct RegisterClone {
    pub name: String,
    pub dest: String,
    pub parent: CommitId,
    pub phase: RegisterPhase,
}

/// What has to be done next to register a clone.
pub enum RegisterAction {
    /// Set up a workspace of this name at the place, on the repo of the default
    /// workspace; say where its files are.
    Init { name: String, dest: String },
    /// Say whether there is anything at the path.
    LookFor(String),
    /// Write the file.
    Write { path: String, text: String },
    /// Perform these operations.
    Run(Vec<Op>),
    /// Point the on-disk state of the workspace at its working-copy commit.
    SyncWorkingCopy(String),
    /// Snapshot the workspace.
    Snapshot(String),
    /// Read the working-copy commit of the workspace.
    FindWorkingCopy(String),
    /// Drop what is open and answer.
    Finish(Result<WorkspaceInfo, EngineError>),
}

/// What came of an action.
pub enum RegisterReply {
    Begin,
    Initialized(Result<String, EngineError>),
    Exists(bool),
    Done(Result<(), EngineError>),
    Snapshotted(Result<bool, EngineError>),
    Found(Result<Commit, EngineError>),
}

/// The operations that give a new workspace its working-copy commit.
pub open spec fn create_ops(name: Seq<char>, parent: Seq<u8>) -> Seq<OpView> {
    seq![
        OpView::Begin,
        OpView::CheckOut { workspace: name, commit: parent },
        OpView::Rebase,
        OpView::Commit("create workspace "@ + name),
    ]
}

pub open spec fn register_fails(
    post: RegisterClone,
    action: RegisterAction,
    why: (ErrorKind, Seq<char>),
) -> bool {
    &&& post.phase == RegisterPhase::Over
    &&& action matches RegisterAction::Finish(r)
    &&& r matches Err(e)
    &&& e@ == why
}

/// The workspace is given its working-copy commit.
pub open spec fn register_checks_out(
    pre: RegisterClone,
    post: RegisterClone,
    action: RegisterAction,
) -> bool {
    &&& post.phase == RegisterPhase::CheckingOut
    &&& action matches RegisterAction::Run(ops)
    &&& ops_view(ops@) == create_ops(pre.name@, pre.parent@)
}

/// The workspace that a registration opens.
pub open spec fn opened(e: WorkspaceEntry, name: Seq<char>, root: Seq<char>) -> bool {
    e.name@ == name && e.jj_name@ == name && e.root@ == root
}

/// One step of registering a clone. The step after the workspace was set up opens
/// it; no other step changes the engine.
pub open spec fn register_step(
    before: RepoEngine,
    pre: RegisterClone,
    reply: RegisterReply,
    after: RepoEngine,
    post: RegisterClone,
    action: RegisterAction,
) -> bool {
    let name = pre.name@;
    &&& post.name == pre.name
    &&& post.dest == pre.dest
    &&& post.parent == pre.parent
    &&& after.root == before.root
    &&& after.view == before.view
    &&& match (pre.phase, reply) {
        (RegisterPhase::Initializing, RegisterReply::Initialized(Ok(root))) => {
            &&& after.workspaces@.len() > 0
            &&& opened(after.workspaces@.last(), name, root@)
            &&& after.workspaces@.drop_last() == without(before.workspaces@, name)
        },
        _ => after == before,
    }
    &&& match (pre.phase, reply) {
        (RegisterPhase::Start, RegisterReply::Begin) => {
            &&& post.phase == RegisterPhase::Initializing
            &&& action matches RegisterAction::Init { name: n, dest }
            &&& n@ == name
            &&& dest@ == pre.dest@
        },
        (RegisterPhase::Initializing, RegisterReply::Initialized(r)) => match r {
            Err(e) => register_fails(post, action, e@),
            Ok(_) => {
                &&& post.phase == RegisterPhase::LookForIgnore
                &&& action matches RegisterAction::LookFor(path)
                &&& path@ == ignore_path(pre.dest@)
            },
        },
        (RegisterPhase::LookForIgnore, RegisterReply::Exists(there)) => if there {
            register_checks_out(pre, post, action)
        } else {
            &&& post.phase == RegisterPhase::WritingIgnore
            &&& action matches RegisterAction::Write { path, text }
            &&& path@ == ignore_path(pre.dest@)
            &&& text@ == "/*\n"@
        },
        (RegisterPhase::WritingIgnore, RegisterReply::Done(r)) => match r {
            Err(e) => register_fails(post, action, e@),
            Ok(_) => register_checks_out(pre, post, action),
        },
        (RegisterPhase::CheckingOut, RegisterReply::Done(r)) => match r {
            Err(e) => register_fails(post, action, e@),
            Ok(_) => {
                &&& post.phase == RegisterPhase::Syncing
                &&& action matches RegisterAction::SyncWorkingCopy(ws)
                &&& ws@ == name
            },
        },
        (RegisterPhase::Syncing, RegisterReply::Done(r)) => match r {
            Err(e) => register_fails(post, action, e@),
            Ok(_) => {
                &&& post.phase == RegisterPhase::Snapshotting
                &&& action matches RegisterAction::Snapshot(ws)
                &&& ws@ == name
            },
        },
        (RegisterPhase::Snapshotting, RegisterReply::Snapshotted(r)) => match r {
            Err(e) => register_fails(post, action, e@),
            Ok(_) => {
                &&& post.phase == RegisterPhase::Finding
                &&& action matches RegisterAction::FindWorkingCopy(ws)
                &&& ws@ == name
            },
        },
        (RegisterPhase::Finding, RegisterReply::Found(r)) => match r {
            Err(e) => register_fails(post, action, e@),
            Ok(c) => match before.entry(name) {
                None => register_fails(
                    post,
                    action,
                    (ErrorKind::NotFound, "no workspace "@ + name),
                ),
                Some(entry) => {
                    &&& post.phase == RegisterPhase::Over
                    &&& action matches RegisterAction::Finish(answer)
                    &&& answer matches Ok(info)
                    &&& is_workspace_info(info, name, entry.root@, Some(c))
                },
            },
        },
        _ => register_fails(post, action, (ErrorKind::Internal, "unexpected reply"@)),
    }
}

impl RepoEngine {
    /// The registration of a clone as a workspace.
    pub fn register_clone(&self, name: String, dest: String, parent: CommitId) -> (r: RegisterClone)
        ensures
            r.name == name,
            r.dest == dest,
            r.parent == parent,
            r.phase == RegisterPhase::Start,
    {
        RegisterClone { name, dest, parent, phase: RegisterPhase::Start }
    }
}

impl RegisterClone {
    fn fail(&mut self, e: EngineError) -> (action: RegisterAction)
        ensures
            final(self).name == old(self).name,
            final(self).dest == old(self).dest,
            final(self).parent == old(self).parent,
            register_fails(*final(self), action, e@),
    {
        self.phase = RegisterPhase::Over;
        RegisterAction::Finish(Err(e))
    }

    fn check_out(&mut self) -> (action: RegisterAction)
        ensures
            final(self).name == old(self).name,
            final(self).dest == old(self).dest,
            final(self).parent == old(self).parent,
            register_checks_out(*old(self), *final(self), action),
    {
        self.phase = RegisterPhase::CheckingOut;
        let mut ops: Vec<Op> = Vec::new();
        ops.push(Op::Begin);
        ops.push(Op::CheckOut { workspace: self.name.clone(), commit: self.parent.copy() });
        ops.push(Op::Rebase);
        ops.push(Op::Commit("create workspace ".to_string().concat(self.name.as_str())));
        assert(ops_view(ops@) =~= create_ops(self.name@, self.parent@));
        RegisterAction::Run(ops)
    }

    /// Takes the reply to the last action and says what has to be done next.
    pub fn step(&mut self, engine: &mut RepoEngine, reply: RegisterReply) -> (action: RegisterAction)
        ensures
            old(engine).wf() ==> final(engine).wf(),
            register_step(
                *old(engine),
                *old(self),
                reply,
                *final(engine),
                *final(self),
                action,
            ),
    {
        match (self.phase, reply) {
            (RegisterPhase::Start, RegisterReply::Begin) => {
                self.phase = RegisterPhase::Initializing;
                RegisterAction::Init { name: self.name.clone(), dest: self.dest.clone() }
            },
            (RegisterPhase::Initializing, RegisterReply::Initialized(r)) => match r {
                Err(e) => self.fail(e),
                Ok(root) => {
                    let entry = WorkspaceEntry {
                        name: self.name.clone(),
                        jj_name: self.name.clone(),
                        root,
                    };
                    engine.insert_workspace(entry);
                    assert(engine.workspaces@.drop_last() =~= without(
                        old(engine).workspaces@,
                        self.name@,
                    ));
                    self.phase = RegisterPhase::LookForIgnore;
                    RegisterAction::LookFor(ignore_path_of(self.dest.as_str()))
                },
            },
            (RegisterPhase::LookForIgnore, RegisterReply::Exists(there)) => {
                if there {
                    self.check_out()
                } else {
                    self.phase = RegisterPhase::WritingIgnore;
                    RegisterAction::Write {
                        path: ignore_path_of(self.dest.as_str()),
                        text: "/*\n".to_string(),
                    }
                }
            },
            (RegisterPhase::WritingIgnore, RegisterReply::Done(r)) => match r {
                Err(e) => self.fail(e),
                Ok(_) => self.check_out(),
            },
            (RegisterPhase::CheckingOut, RegisterReply::Done(r)) => match r {
                Err(e) => self.fail(e),
                Ok(_) => {
                    self.phase = RegisterPhase::Syncing;
                    RegisterAction::SyncWorkingCopy(self.name.clone())
                },
            },
            (RegisterPhase::Syncing, RegisterReply::Done(r)) => match r {
                Err(e) => self.fail(e),
                Ok(_) => {
                    self.phase = RegisterPhase::Snapshotting;
                    RegisterAction::Snapshot(self.name.clone())
                },
            },
            (RegisterPhase::Snapshotting, RegisterReply::Snapshotted(r)) => match r {
                Err(e) => self.fail(e),
                Ok(_) => {
                    self.phase = RegisterPhase::Finding;
                    RegisterAction::FindWorkingCopy(self.name.clone())
                },
            },
            (RegisterPhase::Finding, RegisterReply::Found(r)) => match r {
                Err(e) => self.fail(e),
                Ok(c) => match engine.find(self.name.as_str()) {
                    None => {
                        let message = "no workspace ".to_string().concat(self.name.as_str());
                        self.fail(EngineError::NotFound(message))
                    },
                    Some(entry) => {
                        self.phase = RegisterPhase::Over;
                        RegisterAction::Finish(
                            Ok(workspace_info(self.name.as_str(), entry.root.as_str(), &c)),
                        )
                    },
                },
            },
            _ => self.fail(EngineError::Internal("unexpected reply".to_string())),
        }
    }
}

/// What a rollback waits for.
#[derive(Debug, Clone, Copy, PartialEq, Eq, Structural)]
pub enum RollbackPhase {
    Start,
    LookAtDest,
    Removing,
    Forgetting,
    Over,
}

/// The rollback of a workspace that failed half-way: it is dropped, its clone is
/// removed, and where the repo knows it already, it is forgotten there. What goes
/// wrong on the way is put in front of the failure, not in its place.
pub struct Rollback {
    pub name: String,
    pub dest: String,
    /// The failure that is being rolled back.
    pub failure: EngineError,
    pub phase: RollbackPhase,
}

/// What has to be done next for a rollback.
pub enum RollbackAction {
    /// Say whether there is anything at the path.
    LookFor(String),
    /// Remove the directory with all that it holds.
    Remove(String),
    /// Perform these operations.
    Run(Vec<Op>),
    /// The failure that is left to report.
    Finish(EngineError),
}

/// What came of an action.
pub enum RollbackReply {
    Begin,
    Exists(bool),
    /// What went wrong, where something did.
    Removed(Result<(), String>),
    Ran(Result<(), EngineError>),
}

/// The operations that make the repo forget a workspace.
pub open spec fn forget_ops(name: Seq<char>) -> Seq<OpView> {
    seq![
        OpView::Begin,
        OpView::RemoveWorkingCopy { workspace: name },
        OpView::Rebase,
        OpView::Commit("forget workspace "@ + name),
        OpView::ForgetInStore { workspace: name },
    ]
}

/// Makes the repo forget a workspace: takes its working-copy commit out of the view
/// and its entry out of the store.
pub fn forget_workspace_tx(name: &str) -> (r: Vec<Op>)
    ensures
        ops_view(r@) == forget_ops(name@),
{
    let mut ops: Vec<Op> = Vec::new();
    ops.push(Op::Begin);
    ops.push(Op::RemoveWorkingCopy { workspace: name.to_string() });
    ops.push(Op::Rebase);
    ops.push(Op::Commit("forget workspace ".to_string().concat(name)));
    ops.push(Op::ForgetInStore { workspace: name.to_string() });
    assert(ops_view(ops@) =~= forget_ops(name@));
    ops
}

/// The rollback ends with this failure.
pub open spec fn rollback_ends(
    post: Rollback,
    action: RollbackAction,
    why: (ErrorKind, Seq<char>),
) -> bool {
    &&& post.phase == RollbackPhase::Over
    &&& action matches RollbackAction::Finish(e)
    &&& e@ == why
}

/// With the clone gone, the repo forgets the workspace where it knows it.
pub open spec fn rollback_forgets(
    engine: RepoEngine,
    pre: Rollback,
    post: Rollback,
    action: RollbackAction,
) -> bool {
    if first_where(engine.view.working_copies@, working_copy_of(pre.name@)) is Some {
        &&& post.phase == RollbackPhase::Forgetting
        &&& action matches RollbackAction::Run(ops)
        &&& ops_view(ops@) == forget_ops(pre.name@)
    } else {
        rollback_ends(post, action, pre.failure@)
    }
}

/// One step of a rollback. The first step drops the workspace; no other step
/// changes the engine.
pub open spec fn rollback_step(
    before: RepoEngine,
    pre: Rollback,
    reply: RollbackReply,
    after: RepoEngine,
    post: Rollback,
    action: RollbackAction,
) -> bool {
    let name = pre.name@;
    let why = pre.failure@;
    &&& post.name == pre.name
    &&& post.dest == pre.dest
    &&& post.phase != RollbackPhase::Over ==> post.failure == pre.failure
    &&& after.root == before.root
    &&& after.view == before.view
    &&& if pre.phase == RollbackPhase::Start && reply is Begin {
        after.workspaces@ == without(before.workspaces@, name)
    } else {
        after == before
    }
    &&& match (pre.phase, reply) {
        (RollbackPhase::Start, RollbackReply::Begin) => {
            &&& post.phase == RollbackPhase::LookAtDest
            &&& action matches RollbackAction::LookFor(path)
            &&& path@ == pre.dest@
        },
        (RollbackPhase::LookAtDest, RollbackReply::Exists(there)) => if there {
            &&& post.phase == RollbackPhase::Removing
            &&& action matches RollbackAction::Remove(path)
            &&& path@ == pre.dest@
        } else {
            rollback_forgets(before, pre, post, action)
        },
        (RollbackPhase::Removing, RollbackReply::Removed(r)) => match r {
            Err(said) => rollback_ends(
                post,
                action,
                (
                    why.0,
                    "rollback also failed: could not remove clone "@ + pre.dest@ + ": "@ + said@
                        + ": "@ + why.1,
                ),
            ),
            Ok(_) => rollback_forgets(before, pre, post, action),
        },
        (RollbackPhase::Forgetting, RollbackReply::Ran(r)) => match r {
            Err(e) => rollback_ends(
                post,
                action,
                (
                    why.0,
                    "rollback also failed: could not forget half-registered workspace "@
                        + debug_text(name) + " (recover with `jj workspace forget "@ + name + "`): "@
                        + e@.1 + ": "@ + why.1,
                ),
            ),
            Ok(_) => rollback_ends(post, action, why),
        },
        _ => rollback_ends(
            post,
            action,
            (why.0, "rollback also failed: unexpected reply"@ + ": "@ + why.1),
        ),
    }
}

impl RepoEngine {
    /// The rollback of a workspace that failed half-way.
    pub fn rollback_failed_workspace(
        &self,
        name: String,
        dest: String,
        failure: EngineError,
    ) -> (r: Rollback)
        ensures
            r.name == name,
            r.dest == dest,
            r.failure == failure,
            r.phase == RollbackPhase::Start,
    {
        Rollback { name, dest, failure, phase: RollbackPhase::Start }
    }
}

impl Rollback {
    fn end(&mut self, outer: Option<String>) -> (action: RollbackAction)
        ensures
            final(self).name == old(self).name,
            final(self).dest == old(self).dest,
            rollback_ends(
                *final(self),
                action,
                match outer {
                    None => old(self).failure@,
                    Some(said) => (
                        old(self).failure@.0,
                        said@ + ": "@ + old(self).failure@.1,
                    ),
                },
            ),
    {
        self.phase = RollbackPhase::Over;
        let mut e = EngineError::Internal(String::new());
        std::mem::swap(&mut e, &mut self.failure);
        match outer {
            None => RollbackAction::Finish(e),
            Some(said) => RollbackAction::Finish(e.context(said.as_str())),
        }
    }

    fn forget(&mut self, engine: &RepoEngine) -> (action: RollbackAction)
        ensures
            final(self).name == old(self).name,
            final(self).dest == old(self).dest,
            final(self).phase != RollbackPhase::Over ==> final(self).failure == old(self).failure,
            rollback_forgets(*engine, *old(self), *final(self), action),
    {
        if engine.view.working_copy(self.name.as_str()).is_some() {
            self.phase = RollbackPhase::Forgetting;
            RollbackAction::Run(forget_workspace_tx(self.name.as_str()))
        } else {
            self.end(None)
        }
    }

    /// Takes the reply to the last action and says what has to be done next.
    pub fn step(&mut self, engine: &mut RepoEngine, reply: RollbackReply) -> (action: RollbackAction)
        ensures
            old(engine).wf() ==> final(engine).wf(),
            rollback_step(
                *old(engine),
                *old(self),
                reply,
                *final(engine),
                *final(self),
                action,
            ),
    {
        match (self.phase, reply) {
            (RollbackPhase::Start, RollbackReply::Begin) => {
                engine.remove_workspace(self.name.as_str());
                self.phase = RollbackPhase::LookAtDest;
                RollbackAction::LookFor(self.dest.clone())
            },
            (RollbackPhase::LookAtDest, RollbackReply::Exists(there)) => {
                if there {
                    self.phase = RollbackPhase::Removing;
                    RollbackAction::Remove(self.dest.clone())
                } else {
                    self.forget(engine)
                }
            },
            (RollbackPhase::Removing, RollbackReply::Removed(r)) => match r {
                Err(said) => {
                    let outer = "rollback also failed: could not remove clone ".to_string().concat(
                        self.dest.as_str(),
                    ).concat(": ").concat(said.as_str());
                    self.end(Some(outer))
                },
                Ok(_) => self.forget(engine),
            },
            (RollbackPhase::Forgetting, RollbackReply::Ran(r)) => match r {
                Err(e) => {
                    let outer =
                        "rollback also failed: could not forget half-registered workspace ".to_string().concat(
                    quoted(self.name.as_str()).as_str()).concat(
                        " (recover with `jj workspace forget ",
                    ).concat(self.name.as_str()).concat("`): ").concat(e.message());
                    self.end(Some(outer))
                },
                Ok(_) => self.end(None),
            },
            _ => self.end(Some("rollback also failed: unexpected reply".to_string())),
        }
    }
}

/// A registration that fails and is rolled back leaves the open workspaces as they
/// were, where the name was new.
pub proof fn rollback_restores_workspaces(
    start: RepoEngine,
    registering: RegisterClone,
    root: String,
    opened_engine: RepoEngine,
    registered: RegisterClone,
    register_action: RegisterAction,
    rolling: Rollback,
    end: RepoEngine,
    rolled: Rollback,
    rollback_action: RollbackAction,
)
    requires
        start.entry(registering.name@) is None,
        registering.phase == RegisterPhase::Initializing,
        register_step(
            start,
            registering,
            RegisterReply::Initialized(Ok(root)),
            opened_engine,
            registered,
            register_action,
        ),
        rolling.phase == RollbackPhase::Start,
        rolling.name@ == registering.name@,
        rollback_step(
            opened_engine,
            rolling,
            RollbackReply::Begin,
            end,
            rolled,
            rollback_action,
        ),
    ensures
        end.workspaces@ == start.workspaces@,
{
    let entry = opened_engine.workspaces@.last();
    assert(entry.name@ == registering.name@);
    removal_undoes_insertion(start.workspaces@, entry);
    assert(opened_engine.workspaces@ =~= without(start.workspaces@, entry.name@).push(entry));
}

/// A rollback never hides the failure that it was for: what it reports ends with
/// it, and is of its kind.
pub proof fn rollback_keeps_the_failure(
    before: RepoEngine,
    pre: Rollback,
    reply: RollbackReply,
    after: RepoEngine,
    post: Rollback,
    action: RollbackAction,
)
    requires
        rollback_step(before, pre, reply, after, post, action),
        action is Finish,
    ensures
        action->Finish_0@.0 == pre.failure@.0,
        pre.failure@.1.is_suffix_of(action->Finish_0@.1),
{
    let said = action->Finish_0@.1;
    let why = pre.failure@.1;
    assert(said.len() >= why.len());
    assert(said.skip(said.len() - why.len()) =~= why);
}

} // verus!
