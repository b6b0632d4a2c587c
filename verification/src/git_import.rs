//! Keeping up with git: its HEAD, its refs, and the first look at a git repo.

use vstd::prelude::*;
use vstd::string::*;

use crate::commits::RepoView;
use crate::engine::{RepoEngine, WorkspaceEntry};
#[allow(unused_imports)]
use crate::engine::{entry_named, working_copy_of};
use crate::error::EngineError;
#[allow(unused_imports)]
use crate::error::ErrorKind;
use crate::ids::CommitId;
#[allow(unused_imports)]
use crate::lists::{first_where, only_one_is_found};
use crate::ops::Op;
#[allow(unused_imports)]
use crate::ops::{describes, ops_view, starts_change, takes_tree, OpView};
use crate::paths::join_path;
#[allow(unused_imports)]
use crate::paths::joined_path;
#[allow(unused_imports)]
use crate::workspace_ops::without;

verus! {

/// What an import waits for.
#[derive(Debug, Clone, Copy, PartialEq, Eq, Structural)]
pub enum ImportPhase {
    Start,
    Importing,
    Writing,
    Syncing,
    Over,
}

/// What the import of the git HEAD found.
#[derive(Debug, Clone, PartialEq)]
pub struct ImportedHead {
    /// The repo's view differs from what it was.
    pub changed: bool,
    /// The commit at HEAD, where HEAD is at one commit.
    pub head: Option<CommitId>,
}

/// An import of the git HEAD: where it moved, it becomes the parent of the
/// working-copy commit of the workspace, without touching files.
pub struct HeadImport {
    pub ws: String,
    /// The name that the repo knows the workspace under.
    pub jj_name: String,
    pub phase: ImportPhase,
}

/// What has to be done next for an import of HEAD.
pub enum HeadAction {
    /// Begin a transaction and import HEAD in it.
    Import,
    /// Perform these operations.
    Run(Vec<Op>),
    /// Drop what is open and answer whether anything changed.
    Finish(Result<bool, EngineError>),
}

/// What came of an action.
pub enum HeadReply {
    Begin,
    Imported(Result<ImportedHead, EngineError>),
    Ran(Result<(), EngineError>),
}

/// The operations after HEAD has changed.
pub open spec fn head_ops(ws: Seq<char>, jj_name: Seq<char>, head: Option<CommitId>) -> Seq<
    OpView,
> {
    match head {
        None => seq![OpView::Rebase, OpView::Commit("import git head"@)],
        Some(id) => seq![
            OpView::CheckOut { workspace: jj_name, commit: id@ },
            OpView::Lock(ws),
            OpView::ResetToCheckedOut,
            OpView::Rebase,
            OpView::Commit("import git head"@),
            OpView::Unlock,
        ],
    }
}

pub open spec fn head_answers(
    post: HeadImport,
    action: HeadAction,
    answer: Result<bool, (ErrorKind, Seq<char>)>,
) -> bool {
    &&& post.phase == ImportPhase::Over
    &&& action matches HeadAction::Finish(r)
    &&& match r {
        Ok(changed) => answer == Ok::<_, (ErrorKind, Seq<char>)>(changed),
        Err(e) => answer == Err::<bool, _>(e@),
    }
}

/// One step of an import of HEAD.
pub open spec fn head_step(
    pre: HeadImport,
    reply: HeadReply,
    post: HeadImport,
    action: HeadAction,
) -> bool {
    &&& post.ws == pre.ws
    &&& post.jj_name == pre.jj_name
    &&& match (pre.phase, reply) {
        (ImportPhase::Start, HeadReply::Begin) => post.phase == ImportPhase::Importing
            && action is Import,
        (ImportPhase::Importing, HeadReply::Imported(r)) => match r {
            Err(e) => head_answers(post, action, Err(e@)),
            Ok(found) => if !found.changed {
                head_answers(post, action, Ok(false))
            } else {
                &&& post.phase == ImportPhase::Writing
                &&& action matches HeadAction::Run(ops)
                &&& ops_view(ops@) == head_ops(pre.ws@, pre.jj_name@, found.head)
            },
        },
        (ImportPhase::Writing, HeadReply::Ran(r)) => match r {
            Err(e) => head_answers(post, action, Err(e@)),
            Ok(_) => head_answers(post, action, Ok(true)),
        },
        _ => head_answers(post, action, Err((ErrorKind::Internal, "unexpected reply"@))),
    }
}

impl HeadImport {
    pub fn start(ws: String, jj_name: String) -> (r: HeadImport)
        ensures
            r.ws == ws,
            r.jj_name == jj_name,
            r.phase == ImportPhase::Start,
    {
        HeadImport { ws, jj_name, phase: ImportPhase::Start }
    }

    fn answer(&mut self, r: Result<bool, EngineError>) -> (action: HeadAction)
        ensures
            final(self).ws == old(self).ws,
            final(self).jj_name == old(self).jj_name,
            final(self).phase == ImportPhase::Over,
            action == HeadAction::Finish(r),
    {
        self.phase = ImportPhase::Over;
        HeadAction::Finish(r)
    }

    /// Takes the reply to the last action and says what has to be done next.
    pub fn step(&mut self, reply: HeadReply) -> (action: HeadAction)
        ensures
            head_step(*old(self), reply, *final(self), action),
    {
        match (self.phase, reply) {
            (ImportPhase::Start, HeadReply::Begin) => {
                self.phase = ImportPhase::Importing;
                HeadAction::Import
            },
            (ImportPhase::Importing, HeadReply::Imported(r)) => match r {
                Err(e) => self.answer(Err(e)),
                Ok(found) => {
                    if !found.changed {
                        return self.answer(Ok(false));
                    }
                    self.phase = ImportPhase::Writing;
                    let ghost head = found.head;
                    let mut ops: Vec<Op> = Vec::new();
                    match found.head {
                        None => {
                            ops.push(Op::Rebase);
                            ops.push(Op::Commit("import git head".to_string()));
                        },
                        Some(id) => {
                            ops.push(
                                Op::CheckOut { workspace: self.jj_name.clone(), commit: id },
                            );
                            ops.push(Op::Lock(self.ws.clone()));
                            ops.push(Op::ResetToCheckedOut);
                            ops.push(Op::Rebase);
                            ops.push(Op::Commit("import git head".to_string()));
                            ops.push(Op::Unlock);
                        },
                    }
                    assert(ops_view(ops@) =~= head_ops(self.ws@, self.jj_name@, head));
                    HeadAction::Run(ops)
                },
            },
            (ImportPhase::Writing, HeadReply::Ran(r)) => match r {
                Err(e) => self.answer(Err(e)),
                Ok(_) => self.answer(Ok(true)),
            },
            _ => self.answer(Err(EngineError::Internal("unexpected reply".to_string()))),
        }
    }
}

impl RepoEngine {
    /// An import of the git HEAD into the default workspace.
    pub fn import_head_from_git(&self) -> (r: Result<HeadImport, EngineError>)
        ensures
            match r {
                Ok(m) => self.entry("default"@) is Some && m.ws@ == "default"@ && m.jj_name
                    == self.entry("default"@)->0.jj_name && m.phase == ImportPhase::Start,
                Err(e) => self.entry("default"@) is None && e@ == (
                    ErrorKind::NotFound,
                    "no workspace default"@,
                ),
            },
    {
        match self.find("default") {
            Some(entry) => Ok(HeadImport::start("default".to_string(), entry.jj_name.clone())),
            None => Err(EngineError::NotFound("no workspace default".to_string())),
        }
    }
}

/// Where git did not move HEAD, nothing is committed.
pub proof fn unmoved_head_writes_nothing(
    pre: HeadImport,
    found: ImportedHead,
    post: HeadImport,
    action: HeadAction,
)
    requires
        pre.phase == ImportPhase::Importing,
        head_step(pre, HeadReply::Imported(Ok(found)), post, action),
        !found.changed,
    ensures
        head_answers(post, action, Ok(false)),
        !(action is Run),
{
}

/// An import of the git refs. Refs that moved may rewrite commits, so descendants
/// are rebased, and the default workspace is synced where one is open already.
pub struct RefsImport {
    /// The repo is open, with its default workspace.
    pub open: bool,
    pub phase: ImportPhase,
}

/// What has to be done next for an import of refs.
pub enum RefsAction {
    /// Begin a transaction and import branches and tags in it; say whether the
    /// repo's view changed.
    Import {
        abandon_unreachable_commits: bool,
        record_synthetic_predecessors: bool,
        /// The remotes to whose bookmarks local ones are attached.
        track_remote_bookmarks: Vec<String>,
    },
    /// Perform these operations.
    Run(Vec<Op>),
    /// Point the on-disk state of the workspace at its working-copy commit.
    SyncWorkingCopy(String),
    /// Drop what is open and answer whether anything changed.
    Finish(Result<bool, EngineError>),
}

/// What came of an action.
pub enum RefsReply {
    Begin,
    Imported(Result<bool, EngineError>),
    Ran(Result<(), EngineError>),
    Synced(Result<(), EngineError>),
}

pub open spec fn refs_answers(
    post: RefsImport,
    action: RefsAction,
    answer: Result<bool, (ErrorKind, Seq<char>)>,
) -> bool {
    &&& post.phase == ImportPhase::Over
    &&& action matches RefsAction::Finish(r)
    &&& match r {
        Ok(changed) => answer == Ok::<_, (ErrorKind, Seq<char>)>(changed),
        Err(e) => answer == Err::<bool, _>(e@),
    }
}

/// One step of an import of refs.
pub open spec fn refs_step(
    pre: RefsImport,
    reply: RefsReply,
    post: RefsImport,
    action: RefsAction,
) -> bool {
    &&& post.open == pre.open
    &&& match (pre.phase, reply) {
        (ImportPhase::Start, RefsReply::Begin) => {
            &&& post.phase == ImportPhase::Importing
            &&& action matches RefsAction::Import {
                abandon_unreachable_commits,
                record_synthetic_predecessors,
                track_remote_bookmarks,
            }
            &&& !abandon_unreachable_commits
            &&& !record_synthetic_predecessors
            &&& track_remote_bookmarks@.len() == 0
        },
        (ImportPhase::Importing, RefsReply::Imported(r)) => match r {
            Err(e) => refs_answers(post, action, Err(e@)),
            Ok(false) => refs_answers(post, action, Ok(false)),
            Ok(true) => {
                &&& post.phase == ImportPhase::Writing
                &&& action matches RefsAction::Run(ops)
                &&& ops_view(ops@) == seq![OpView::Rebase, OpView::Commit("import git refs"@)]
            },
        },
        (ImportPhase::Writing, RefsReply::Ran(r)) => match r {
            Err(e) => refs_answers(post, action, Err(e@)),
            Ok(_) => if pre.open {
                &&& post.phase == ImportPhase::Syncing
                &&& action matches RefsAction::SyncWorkingCopy(ws)
                &&& ws@ == "default"@
            } else {
                refs_answers(post, action, Ok(true))
            },
        },
        (ImportPhase::Syncing, RefsReply::Synced(r)) => match r {
            Err(e) => refs_answers(post, action, Err(e@)),
            Ok(_) => refs_answers(post, action, Ok(true)),
        },
        _ => refs_answers(post, action, Err((ErrorKind::Internal, "unexpected reply"@))),
    }
}

impl RepoEngine {
    /// An import of the git refs into the open repo.
    pub fn import_refs_from_git(&self) -> (r: RefsImport)
        ensures
            r.open,
            r.phase == ImportPhase::Start,
    {
        RefsImport::start(true)
    }
}

impl RefsImport {
    pub fn start(open: bool) -> (r: RefsImport)
        ensures
            r.open == open,
            r.phase == ImportPhase::Start,
    {
        RefsImport { open, phase: ImportPhase::Start }
    }

    fn answer(&mut self, r: Result<bool, EngineError>) -> (action: RefsAction)
        ensures
            final(self).open == old(self).open,
            final(self).phase == ImportPhase::Over,
            action == RefsAction::Finish(r),
    {
        self.phase = ImportPhase::Over;
        RefsAction::Finish(r)
    }

    /// Takes the reply to the last action and says what has to be done next.
    pub fn step(&mut self, reply: RefsReply) -> (action: RefsAction)
        ensures
            refs_step(*old(self), reply, *final(self), action),
    {
        match (self.phase, reply) {
            (ImportPhase::Start, RefsReply::Begin) => {
                self.phase = ImportPhase::Importing;
                RefsAction::Import {
                    abandon_unreachable_commits: false,
                    record_synthetic_predecessors: false,
                    track_remote_bookmarks: Vec::new(),
                }
            },
            (ImportPhase::Importing, RefsReply::Imported(r)) => match r {
                Err(e) => self.answer(Err(e)),
                Ok(changed) => {
                    if !changed {
                        return self.answer(Ok(false));
                    }
                    self.phase = ImportPhase::Writing;
                    let mut ops: Vec<Op> = Vec::new();
                    ops.push(Op::Rebase);
                    ops.push(Op::Commit("import git refs".to_string()));
                    assert(ops_view(ops@) =~= seq![
                        OpView::Rebase,
                        OpView::Commit("import git refs"@),
                    ]);
                    RefsAction::Run(ops)
                },
            },
            (ImportPhase::Writing, RefsReply::Ran(r)) => match r {
                Err(e) => self.answer(Err(e)),
                Ok(_) => {
                    if self.open {
                        self.phase = ImportPhase::Syncing;
                        RefsAction::SyncWorkingCopy("default".to_string())
                    } else {
                        self.answer(Ok(true))
                    }
                },
            },
            (ImportPhase::Syncing, RefsReply::Synced(r)) => match r {
                Err(e) => self.answer(Err(e)),
                Ok(_) => self.answer(Ok(true)),
            },
            _ => self.answer(Err(EngineError::Internal("unexpected reply".to_string()))),
        }
    }
}

/// No import attaches a change to a branch of a remote.
pub proof fn imports_never_track(
    pre: RefsImport,
    reply: RefsReply,
    post: RefsImport,
    action: RefsAction,
)
    requires
        refs_step(pre, reply, post, action),
        action is Import,
    ensures
        action->track_remote_bookmarks@.len() == 0,
        !action->abandon_unreachable_commits,
{
}

/// What the opening of a repo waits for.
#[derive(Debug, Clone, Copy, PartialEq, Eq, Structural)]
pub enum OpenPhase {
    Start,
    LookForGit,
    LookForJj,
    Loading,
    Initializing,
    Refs,
    Head,
    LookForIgnore,
    WritingIgnore,
    Others,
    Over,
}

/// The opening of the git repo at `root`, which is prepared on the first look.
pub struct OpenOrInit {
    pub root: String,
    pub phase: OpenPhase,
}

/// What has to be done next to open a repo.
pub enum OpenAction {
    /// Say whether there is anything at the path.
    LookFor(String),
    /// Load the workspace at the root, and its repo at its head operation.
    Load(String),
    /// Set up a workspace at the root, on top of the git repo.
    Init { root: String, git_dir: String },
    ImportRefs,
    ImportHead,
    /// Write the file.
    Write { path: String, text: String },
    /// Load the other workspaces of the repo.
    LoadOthers,
    Finish(Result<(), EngineError>),
}

/// What came of an action.
pub enum OpenReply {
    Begin,
    Exists(bool),
    Done(Result<(), EngineError>),
}

/// What hides a `.jj` directory from git.
pub open spec fn ignore_path(root: Seq<char>) -> Seq<char> {
    joined_path(joined_path(root, ".jj"@), ".gitignore"@)
}

/// Where the file is that hides the `.jj` directory of a workspace from git.
pub fn ignore_path_of(root: &str) -> (r: String)
    ensures
        r@ == ignore_path(root@),
{
    join_path(join_path(root, ".jj").as_str(), ".gitignore")
}

pub open spec fn open_fails(
    post: OpenOrInit,
    action: OpenAction,
    why: (ErrorKind, Seq<char>),
) -> bool {
    &&& post.phase == OpenPhase::Over
    &&& action matches OpenAction::Finish(r)
    &&& r matches Err(e)
    &&& e@ == why
}

/// The next thing is to see whether `path` is there.
pub open spec fn open_looks_for(
    post: OpenOrInit,
    phase: OpenPhase,
    path: Seq<char>,
    action: OpenAction,
) -> bool {
    &&& post.phase == phase
    &&& action matches OpenAction::LookFor(asked)
    &&& asked@ == path
}

/// One step of opening a repo.
pub open spec fn open_step(
    pre: OpenOrInit,
    reply: OpenReply,
    post: OpenOrInit,
    action: OpenAction,
) -> bool {
    let root = pre.root@;
    &&& post.root == pre.root
    &&& match (pre.phase, reply) {
        (OpenPhase::Start, OpenReply::Begin) => open_looks_for(
            post,
            OpenPhase::LookForGit,
            joined_path(root, ".git"@),
            action,
        ),
        (OpenPhase::LookForGit, OpenReply::Exists(there)) => if there {
            open_looks_for(post, OpenPhase::LookForJj, joined_path(root, ".jj"@), action)
        } else {
            open_fails(post, action, (ErrorKind::Internal, "not a git repo: "@ + root))
        },
        (OpenPhase::LookForJj, OpenReply::Exists(there)) => if there {
            &&& post.phase == OpenPhase::Loading
            &&& action matches OpenAction::Load(asked)
            &&& asked@ == root
        } else {
            &&& post.phase == OpenPhase::Initializing
            &&& action matches OpenAction::Init { root: asked, git_dir }
            &&& asked@ == root
            &&& git_dir@ == joined_path(root, ".git"@)
        },
        (OpenPhase::LookForIgnore, OpenReply::Exists(there)) => if there {
            post.phase == OpenPhase::Others && action is LoadOthers
        } else {
            &&& post.phase == OpenPhase::WritingIgnore
            &&& action matches OpenAction::Write { path, text }
            &&& path@ == ignore_path(root)
            &&& text@ == "/*\n"@
        },
        (
            OpenPhase::Loading
            | OpenPhase::Initializing
            | OpenPhase::Refs
            | OpenPhase::Head
            | OpenPhase::WritingIgnore
            | OpenPhase::Others,
            OpenReply::Done(r),
        ) => match r {
            Err(e) => open_fails(post, action, e@),
            Ok(_) => match pre.phase {
                OpenPhase::Initializing => post.phase == OpenPhase::Refs && action is ImportRefs,
                OpenPhase::Refs => post.phase == OpenPhase::Head && action is ImportHead,
                OpenPhase::WritingIgnore => post.phase == OpenPhase::Others
                    && action is LoadOthers,
                OpenPhase::Others => post.phase == OpenPhase::Over && action
                    == OpenAction::Finish(Ok(())),
                _ => open_looks_for(post, OpenPhase::LookForIgnore, ignore_path(root), action),
            },
        },
        _ => open_fails(post, action, (ErrorKind::Internal, "unexpected reply"@)),
    }
}

impl RepoEngine {
    /// The opening of the git repo at `root`.
    pub fn open_or_init(root: String) -> (r: OpenOrInit)
        ensures
            r.root == root,
            r.phase == OpenPhase::Start,
    {
        OpenOrInit { root, phase: OpenPhase::Start }
    }
}

impl OpenOrInit {
    fn fail(&mut self, e: EngineError) -> (action: OpenAction)
        ensures
            final(self).root == old(self).root,
            open_fails(*final(self), action, e@),
    {
        self.phase = OpenPhase::Over;
        OpenAction::Finish(Err(e))
    }

    fn unexpected(&mut self) -> (action: OpenAction)
        ensures
            final(self).root == old(self).root,
            open_fails(*final(self), action, (ErrorKind::Internal, "unexpected reply"@)),
    {
        self.fail(EngineError::Internal("unexpected reply".to_string()))
    }

    /// Takes the reply to the last action and says what has to be done next.
    pub fn step(&mut self, reply: OpenReply) -> (action: OpenAction)
        ensures
            open_step(*old(self), reply, *final(self), action),
    {
        match reply {
            OpenReply::Begin => {
                if self.phase != OpenPhase::Start {
                    return self.unexpected();
                }
                self.phase = OpenPhase::LookForGit;
                OpenAction::LookFor(join_path(self.root.as_str(), ".git"))
            },
            OpenReply::Exists(there) => match self.phase {
                OpenPhase::LookForGit => {
                    if there {
                        self.phase = OpenPhase::LookForJj;
                        OpenAction::LookFor(join_path(self.root.as_str(), ".jj"))
                    } else {
                        let message = "not a git repo: ".to_string().concat(self.root.as_str());
                        self.fail(EngineError::Internal(message))
                    }
                },
                OpenPhase::LookForJj => {
                    if there {
                        self.phase = OpenPhase::Loading;
                        OpenAction::Load(self.root.clone())
                    } else {
                        self.phase = OpenPhase::Initializing;
                        OpenAction::Init {
                            root: self.root.clone(),
                            git_dir: join_path(self.root.as_str(), ".git"),
                        }
                    }
                },
                OpenPhase::LookForIgnore => {
                    if there {
                        self.phase = OpenPhase::Others;
                        OpenAction::LoadOthers
                    } else {
                        self.phase = OpenPhase::WritingIgnore;
                        OpenAction::Write {
                            path: ignore_path_of(self.root.as_str()),
                            text: "/*\n".to_string(),
                        }
                    }
                },
                _ => self.unexpected(),
            },
            OpenReply::Done(r) => {
                let waits = match self.phase {
                    OpenPhase::Loading
                    | OpenPhase::Initializing
                    | OpenPhase::Refs
                    | OpenPhase::Head
                    | OpenPhase::WritingIgnore
                    | OpenPhase::Others => true,
                    _ => false,
                };
                if !waits {
                    return self.unexpected();
                }
                if let Err(e) = r {
                    return self.fail(e);
                }
                match self.phase {
                    OpenPhase::Initializing => {
                        self.phase = OpenPhase::Refs;
                        OpenAction::ImportRefs
                    },
                    OpenPhase::Refs => {
                        self.phase = OpenPhase::Head;
                        OpenAction::ImportHead
                    },
                    OpenPhase::WritingIgnore => {
                        self.phase = OpenPhase::Others;
                        OpenAction::LoadOthers
                    },
                    OpenPhase::Others => {
                        self.phase = OpenPhase::Over;
                        OpenAction::Finish(Ok(()))
                    },
                    _ => {
                        self.phase = OpenPhase::LookForIgnore;
                        OpenAction::LookFor(ignore_path_of(self.root.as_str()))
                    },
                }
            },
        }
    }
}

/// A file that is there is never written over: the only file that is written is
/// the one that hides `.jj` from git, when it is absent.
pub proof fn ignore_file_is_never_clobbered(
    pre: OpenOrInit,
    reply: OpenReply,
    post: OpenOrInit,
    action: OpenAction,
)
    requires
        open_step(pre, reply, post, action),
        action is Write,
    ensures
        pre.phase == OpenPhase::LookForIgnore,
        reply == OpenReply::Exists(false),
        action->path@ == ignore_path(pre.root@),
{
}

/// A directory that is no git repo is left as it is: nothing is loaded, set up or
/// written before `.git` was seen.
pub proof fn only_git_repos_are_opened(
    pre: OpenOrInit,
    post: OpenOrInit,
    action: OpenAction,
)
    requires
        pre.phase == OpenPhase::LookForGit,
        open_step(pre, OpenReply::Exists(false), post, action),
    ensures
        open_fails(post, action, (ErrorKind::Internal, "not a git repo: "@ + pre.root@)),
{
}

/// The opening of a repo from its start on: the states that it went through, the
/// reply that each was given, and the action that followed.
pub open spec fn is_open_run(
    states: Seq<OpenOrInit>,
    replies: Seq<OpenReply>,
    actions: Seq<OpenAction>,
) -> bool {
    &&& states.len() == replies.len() + 1
    &&& actions.len() == replies.len()
    &&& states[0].phase == OpenPhase::Start
    &&& forall|i: int|
        0 <= i < replies.len() ==> open_step(
            states[i],
            #[trigger] replies[i],
            states[i + 1],
            actions[i],
        )
}

/// The action asked whether `path` is there, and the reply says so.
pub open spec fn was_seen(asked: OpenAction, reply: OpenReply, path: Seq<char>, there: bool) -> bool {
    &&& asked matches OpenAction::LookFor(looked)
    &&& looked@ == path
    &&& reply == OpenReply::Exists(there)
}

/// The action was done.
pub open spec fn was_done(reply: OpenReply) -> bool {
    reply matches OpenReply::Done(r) && r is Ok
}

proof fn open_run_shows(
    states: Seq<OpenOrInit>,
    replies: Seq<OpenReply>,
    actions: Seq<OpenAction>,
    i: int,
)
    requires
        is_open_run(states, replies, actions),
        0 <= i < states.len(),
        states[i].phase != OpenPhase::Over,
    ensures
        states[i].root == states[0].root,
        match states[i].phase {
            OpenPhase::Start => i == 0,
            OpenPhase::LookForGit => i == 1 && (actions[0] matches OpenAction::LookFor(p) && p@
                == joined_path(states[0].root@, ".git"@)),
            _ => i >= 2 && was_seen(
                actions[0],
                replies[1],
                joined_path(states[0].root@, ".git"@),
                true,
            ) && (actions[1] matches OpenAction::LookFor(p) && p@ == joined_path(
                states[0].root@,
                ".jj"@,
            )),
        },
        states[i].phase == OpenPhase::LookForJj ==> i == 2,
        states[i].phase == OpenPhase::Loading ==> i == 3 && actions[2] is Load && replies[2]
            == OpenReply::Exists(true),
        states[i].phase == OpenPhase::Initializing ==> i == 3 && actions[2] is Init && replies[2]
            == OpenReply::Exists(false),
        states[i].phase == OpenPhase::Refs ==> i == 4 && actions[2] is Init && was_done(replies[3])
            && replies[2] == OpenReply::Exists(false),
        states[i].phase == OpenPhase::Head ==> i == 5 && actions[2] is Init && was_done(replies[3])
            && was_done(replies[4]) && replies[2] == OpenReply::Exists(false),
        states[i].phase == OpenPhase::LookForIgnore || states[i].phase == OpenPhase::WritingIgnore
            || states[i].phase == OpenPhase::Others ==> i >= 4 && was_done(replies[3]) && (
        actions[2] is Load && replies[2] == OpenReply::Exists(true) || actions[2] is Init
            && replies[2] == OpenReply::Exists(false)),
        states[i].phase == OpenPhase::LookForIgnore ==> i >= 4 && (
        actions[i - 1] matches OpenAction::LookFor(p) && p@ == ignore_path(states[0].root@)),
        states[i].phase == OpenPhase::WritingIgnore ==> i >= 5 && actions[i - 1] is Write
            && was_seen(actions[i - 2], replies[i - 1], ignore_path(states[0].root@), false),
        states[i].phase == OpenPhase::Others ==> ignore_file_is_there(
            states[0].root@,
            replies,
            actions,
            i,
        ),
    decreases i,
{
    if i > 0 {
        assert(open_step(states[i - 1], replies[i - 1], states[i], actions[i - 1]));
        open_run_shows(states, replies, actions, i - 1);
    }
}

/// Just before step `i` the file that hides `.jj` was seen, or else written.
pub open spec fn ignore_file_is_there(
    root: Seq<char>,
    replies: Seq<OpenReply>,
    actions: Seq<OpenAction>,
    i: int,
) -> bool {
    ||| i >= 2 && was_seen(actions[i - 2], replies[i - 1], ignore_path(root), true)
    ||| i >= 2 && was_done(replies[i - 1]) && (actions[i - 2] matches OpenAction::Write {
        path,
        text,
    } && path@ == ignore_path(root))
}

/// An opening that goes well leaves a repo that is set up: `.git` was seen, what is in
/// `.jj` was loaded or else `.jj` was set up, and the file that hides it from git is
/// there.
pub proof fn opened_repos_are_set_up(
    states: Seq<OpenOrInit>,
    replies: Seq<OpenReply>,
    actions: Seq<OpenAction>,
    i: int,
)
    requires
        is_open_run(states, replies, actions),
        0 <= i < actions.len(),
        actions[i] == OpenAction::Finish(Ok(())),
    ensures
        i >= 4,
        was_seen(actions[0], replies[1], joined_path(states[0].root@, ".git"@), true),
        was_done(replies[3]),
        ({
            ||| actions[2] is Load && was_seen(
                actions[1],
                replies[2],
                joined_path(states[0].root@, ".jj"@),
                true,
            )
            ||| actions[2] is Init && was_seen(
                actions[1],
                replies[2],
                joined_path(states[0].root@, ".jj"@),
                false,
            )
        }),
        ignore_file_is_there(states[0].root@, replies, actions, i),
{
    open_run_shows(states, replies, actions, i);
    assert(open_step(states[i], replies[i], states[i + 1], actions[i]));
}

/// A second opening changes nothing: where `.jj` is there, nothing is set up and
/// nothing is imported, and where the file that hides it is there too, nothing is
/// written. What is in `.jj` is loaded as it is.
pub proof fn second_opening_changes_nothing(
    states: Seq<OpenOrInit>,
    replies: Seq<OpenReply>,
    actions: Seq<OpenAction>,
    i: int,
)
    requires
        is_open_run(states, replies, actions),
        0 <= i < actions.len(),
        forall|j: int|
            0 < j < replies.len() ==> !was_seen(
                actions[j - 1],
                #[trigger] replies[j],
                joined_path(states[0].root@, ".jj"@),
                false,
            ),
    ensures
        !(actions[i] is Init),
        !(actions[i] is ImportRefs),
        !(actions[i] is ImportHead),
        actions[i] is Write ==> i > 0 && was_seen(
            actions[i - 1],
            replies[i],
            ignore_path(states[0].root@),
            false,
        ),
{
    assert(open_step(states[i], replies[i], states[i + 1], actions[i]));
    if states[i].phase != OpenPhase::Over {
        open_run_shows(states, replies, actions, i);
        if i >= 2 {
            assert(!was_seen(
                actions[1],
                replies[2],
                joined_path(states[0].root@, ".jj"@),
                false,
            ));
        }
    }
}

/// Nothing is loaded, set up, imported or written where `.git` is not seen.
pub proof fn nothing_is_done_without_git(
    states: Seq<OpenOrInit>,
    replies: Seq<OpenReply>,
    actions: Seq<OpenAction>,
    i: int,
)
    requires
        is_open_run(states, replies, actions),
        0 <= i < actions.len(),
        forall|j: int|
            0 < j < replies.len() ==> !was_seen(
                actions[j - 1],
                #[trigger] replies[j],
                joined_path(states[0].root@, ".git"@),
                true,
            ),
    ensures
        actions[i] is LookFor || (actions[i] matches OpenAction::Finish(r) && r is Err),
{
    assert(open_step(states[i], replies[i], states[i + 1], actions[i]));
    if states[i].phase != OpenPhase::Over {
        open_run_shows(states, replies, actions, i);
        if i >= 1 {
            assert(!was_seen(
                actions[0],
                replies[1],
                joined_path(states[0].root@, ".git"@),
                true,
            ));
        }
    }
}

/// No operation of an import of HEAD describes a commit or gives it another tree.
pub proof fn head_imports_keep_commits(
    pre: HeadImport,
    reply: HeadReply,
    post: HeadImport,
    action: HeadAction,
)
    requires
        head_step(pre, reply, post, action),
        action is Run,
    ensures
        !describes(ops_view(action->Run_0@)),
        !takes_tree(ops_view(action->Run_0@)),
{
}

/// No operation of an import of refs describes a commit, gives it another tree, or
/// starts a change.
pub proof fn refs_imports_keep_commits(
    pre: RefsImport,
    reply: RefsReply,
    post: RefsImport,
    action: RefsAction,
)
    requires
        refs_step(pre, reply, post, action),
        action is Run,
    ensures
        !describes(ops_view(action->Run_0@)),
        !takes_tree(ops_view(action->Run_0@)),
        !starts_change(ops_view(action->Run_0@)),
{
}

/// An import of HEAD from its start on: the states that it went through, the reply
/// that each was given, and the action that followed.
pub open spec fn is_head_run(
    states: Seq<HeadImport>,
    replies: Seq<HeadReply>,
    actions: Seq<HeadAction>,
) -> bool {
    &&& states.len() == replies.len() + 1
    &&& actions.len() == replies.len()
    &&& states[0].phase == ImportPhase::Start
    &&& forall|i: int|
        0 <= i < replies.len() ==> head_step(
            states[i],
            #[trigger] replies[i],
            states[i + 1],
            actions[i],
        )
}

proof fn head_run_shows(
    states: Seq<HeadImport>,
    replies: Seq<HeadReply>,
    actions: Seq<HeadAction>,
    i: int,
)
    requires
        is_head_run(states, replies, actions),
        0 <= i < states.len(),
        states[i].phase != ImportPhase::Over,
    ensures
        states[i].phase == ImportPhase::Start ==> i == 0,
        states[i].phase == ImportPhase::Importing ==> i == 1,
        states[i].phase == ImportPhase::Writing ==> i == 2 && (
        replies[1] matches HeadReply::Imported(r) && r matches Ok(found) && found.changed),
        states[i].phase != ImportPhase::Syncing,
    decreases i,
{
    if i > 0 {
        assert(head_step(states[i - 1], replies[i - 1], states[i], actions[i - 1]));
        head_run_shows(states, replies, actions, i - 1);
    }
}

/// An import of HEAD that goes well answers whether git moved it, and performs
/// operations only where it did.
pub proof fn head_runs_answer_for_head(
    states: Seq<HeadImport>,
    replies: Seq<HeadReply>,
    actions: Seq<HeadAction>,
    i: int,
)
    requires
        is_head_run(states, replies, actions),
        0 <= i < actions.len(),
        actions[i] matches HeadAction::Finish(r) && r is Ok,
    ensures
        i >= 1,
        replies[1] matches HeadReply::Imported(r) && r matches Ok(found) && found.changed
            == actions[i]->Finish_0->Ok_0,
        !actions[i]->Finish_0->Ok_0 ==> forall|k: int|
            0 <= k <= i ==> !((#[trigger] actions[k]) is Run),
{
    assert(head_step(states[i], replies[i], states[i + 1], actions[i]));
    head_run_shows(states, replies, actions, i);
    if !actions[i]->Finish_0->Ok_0 {
        assert(i == 1);
        assert(head_step(states[0], replies[0], states[1], actions[0]));
    }
}

/// HEAD was looked at, and git had not moved it.
pub open spec fn head_is_quiet(phase: ImportPhase, reply: HeadReply) -> bool {
    match phase {
        ImportPhase::Start => reply is Begin,
        ImportPhase::Importing => reply matches HeadReply::Imported(r) && r matches Ok(found)
            && !found.changed,
        _ => false,
    }
}

/// Where git did not move HEAD, an import of it goes well and answers that nothing
/// changed.
pub proof fn quiet_head_runs_go_well(
    states: Seq<HeadImport>,
    replies: Seq<HeadReply>,
    actions: Seq<HeadAction>,
    i: int,
)
    requires
        is_head_run(states, replies, actions),
        0 <= i < actions.len(),
        actions[i] is Finish,
        forall|k: int|
            0 <= k < replies.len() ==> head_is_quiet((#[trigger] states[k]).phase, replies[k]),
    ensures
        actions[i] == HeadAction::Finish(Ok(false)),
{
    assert(head_is_quiet(states[i].phase, replies[i]));
    assert(head_step(states[i], replies[i], states[i + 1], actions[i]));
}

/// An import of refs from its start on: the states that it went through, the reply
/// that each was given, and the action that followed.
pub open spec fn is_refs_run(
    states: Seq<RefsImport>,
    replies: Seq<RefsReply>,
    actions: Seq<RefsAction>,
) -> bool {
    &&& states.len() == replies.len() + 1
    &&& actions.len() == replies.len()
    &&& states[0].phase == ImportPhase::Start
    &&& forall|i: int|
        0 <= i < replies.len() ==> refs_step(
            states[i],
            #[trigger] replies[i],
            states[i + 1],
            actions[i],
        )
}

proof fn refs_run_shows(
    states: Seq<RefsImport>,
    replies: Seq<RefsReply>,
    actions: Seq<RefsAction>,
    i: int,
)
    requires
        is_refs_run(states, replies, actions),
        0 <= i < states.len(),
        states[i].phase != ImportPhase::Over,
    ensures
        states[i].phase == ImportPhase::Start ==> i == 0,
        states[i].phase == ImportPhase::Importing ==> i == 1,
        states[i].phase == ImportPhase::Writing || states[i].phase == ImportPhase::Syncing ==> i
            >= 2 && replies[1] == RefsReply::Imported(Ok(true)),
    decreases i,
{
    if i > 0 {
        assert(refs_step(states[i - 1], replies[i - 1], states[i], actions[i - 1]));
        refs_run_shows(states, replies, actions, i - 1);
    }
}

/// An import of refs that goes well answers whether the repo's view changed, and
/// performs operations and syncs only where it did.
pub proof fn refs_runs_answer_for_refs(
    states: Seq<RefsImport>,
    replies: Seq<RefsReply>,
    actions: Seq<RefsAction>,
    i: int,
)
    requires
        is_refs_run(states, replies, actions),
        0 <= i < actions.len(),
        actions[i] matches RefsAction::Finish(r) && r is Ok,
    ensures
        i >= 1,
        replies[1] == RefsReply::Imported(Ok(actions[i]->Finish_0->Ok_0)),
        !actions[i]->Finish_0->Ok_0 ==> forall|k: int|
            0 <= k <= i ==> !((#[trigger] actions[k]) is Run) && !(actions[k] is SyncWorkingCopy),
{
    assert(refs_step(states[i], replies[i], states[i + 1], actions[i]));
    refs_run_shows(states, replies, actions, i);
    if !actions[i]->Finish_0->Ok_0 {
        assert(i == 1);
        assert(refs_step(states[0], replies[0], states[1], actions[0]));
    }
}

/// The refs were imported, and the repo's view is what it was.
pub open spec fn refs_are_quiet(phase: ImportPhase, reply: RefsReply) -> bool {
    match phase {
        ImportPhase::Start => reply is Begin,
        ImportPhase::Importing => reply == RefsReply::Imported(Ok(false)),
        _ => false,
    }
}

/// Where git did not move refs, an import of them goes well and answers that nothing
/// changed.
pub proof fn quiet_refs_runs_go_well(
    states: Seq<RefsImport>,
    replies: Seq<RefsReply>,
    actions: Seq<RefsAction>,
    i: int,
)
    requires
        is_refs_run(states, replies, actions),
        0 <= i < actions.len(),
        actions[i] is Finish,
        forall|k: int|
            0 <= k < replies.len() ==> refs_are_quiet((#[trigger] states[k]).phase, replies[k]),
    ensures
        actions[i] == RefsAction::Finish(Ok(false)),
{
    assert(refs_are_quiet(states[i].phase, replies[i]));
    assert(refs_step(states[i], replies[i], states[i + 1], actions[i]));
}

/// The workspaces after each of `entries` was opened in turn, a later one in place of
/// an earlier one of its name.
pub open spec fn all_opened(entries: Seq<WorkspaceEntry>) -> Seq<WorkspaceEntry>
    decreases entries.len(),
{
    if entries.len() == 0 {
        Seq::empty()
    } else {
        let last = entries.last();
        without(all_opened(entries.drop_last()), last.name@).push(last)
    }
}

/// `r` is the repo at `root` with this view, opened: the workspace that was loaded or
/// set up is the default one, in place of any other of that name, beside the others.
pub open spec fn is_opened(
    r: RepoEngine,
    root: Seq<char>,
    view: RepoView,
    jj_name: Seq<char>,
    default_root: Seq<char>,
    others: Seq<WorkspaceEntry>,
) -> bool {
    &&& r.wf()
    &&& r.root@ == root
    &&& r.view == view
    &&& r.workspaces@.len() > 0
    &&& r.workspaces@.drop_last() == without(all_opened(others), "default"@)
    &&& r.workspaces@.last().name@ == "default"@
    &&& r.workspaces@.last().jj_name@ == jj_name
    &&& r.workspaces@.last().root@ == default_root
    &&& r.entry("default"@) == Some(r.workspaces@.last())
}

impl RepoEngine {
    /// The repo at `root` with this view, opened. `jj_name` and `default_root` are of
    /// the workspace that was loaded or set up.
    pub fn opened(
        root: String,
        view: RepoView,
        jj_name: String,
        default_root: String,
        others: Vec<WorkspaceEntry>,
    ) -> (r: RepoEngine)
        ensures
            is_opened(r, root@, view, jj_name@, default_root@, others@),
    {
        let mut r = RepoEngine { root, view, workspaces: Vec::new() };
        for i in 0..others.len()
            invariant
                r.wf(),
                r.root == root,
                r.view == view,
                r.workspaces@ == all_opened(others@.take(i as int)),
        {
            proof {
                assert(others@.take(i + 1).drop_last() =~= others@.take(i as int));
                assert(others@.take(i + 1).last() == others@[i as int]);
            }
            r.insert_workspace(others[i].copy());
        }
        assert(others@.take(others@.len() as int) =~= others@);
        let entry = WorkspaceEntry { name: "default".to_string(), jj_name, root: default_root };
        let ghost before = r.workspaces@;
        r.insert_workspace(entry);
        proof {
            let all = r.workspaces@;
            let n = all.len() - 1;
            assert(all.drop_last() =~= without(before, "default"@));
            assert(entry_named("default"@)(all[n]));
            assert forall|i: int| 0 <= i < all.len() && entry_named("default"@)(
                #[trigger] all[i],
            ) implies i == n by {
                if i < n {
                    assert(all[i].name@ != all[n].name@);
                }
            }
            only_one_is_found(all, entry_named("default"@), n);
        }
        r
    }
}

/// A repo that was opened has its default workspace, whose working-copy commit is the
/// one that the view has for the workspace that was loaded or set up.
pub proof fn opened_repos_have_their_default(
    r: RepoEngine,
    root: Seq<char>,
    view: RepoView,
    jj_name: Seq<char>,
    default_root: Seq<char>,
    others: Seq<WorkspaceEntry>,
)
    requires
        is_opened(r, root, view, jj_name, default_root, others),
    ensures
        match first_where(view.working_copies@, working_copy_of(jj_name)) {
            Some(w) => r.wc_id("default"@) == Ok::<_, (ErrorKind, Seq<char>)>(w.commit@),
            None => r.wc_id("default"@) is Err,
        },
{
}

/// A repo that is opened again, with the view that it had, has the working-copy commit
/// that it had, and the same history to show.
pub proof fn opening_again_gives_the_same(
    first: RepoEngine,
    second: RepoEngine,
    root: Seq<char>,
    view: RepoView,
    jj_name: Seq<char>,
    default_root: Seq<char>,
    others: Seq<WorkspaceEntry>,
    others_again: Seq<WorkspaceEntry>,
)
    requires
        is_opened(first, root, view, jj_name, default_root, others),
        is_opened(second, root, view, jj_name, default_root, others_again),
    ensures
        second.wc_id("default"@) == first.wc_id("default"@),
        second.view.roots() == first.view.roots(),
{
    opened_repos_have_their_default(first, root, view, jj_name, default_root, others);
    opened_repos_have_their_default(second, root, view, jj_name, default_root, others_again);
}

} // verus!
