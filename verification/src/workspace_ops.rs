//! Workspaces: adding one as a clone of the default workspace, taking a failed one
//! back, and loading those of an earlier life.
//!
//! A clone keeps the files of the default workspace. Its working copy is never
//! checked out: its on-disk state is pointed at the new working-copy commit, and one
//! snapshot makes the cloned files the content of the new change.

use vstd::prelude::*;
use vstd::string::*;

use crate::commits::Commit;
use crate::engine::{RepoEngine, WorkspaceEntry};
#[allow(unused_imports)]
use crate::engine::{entry_named, working_copy_of};
use crate::error::EngineError;
#[allow(unused_imports)]
use crate::error::ErrorKind;
use crate::ids::CommitId;
#[allow(unused_imports)]
use crate::ids::hex_text;
#[allow(unused_imports)]
use crate::lists::{first_where, first_where_is_there};
use crate::paths::lies_within;
#[allow(unused_imports)]
use crate::paths::within;
use crate::proto::WorkspaceInfo;
use crate::text::{has_char, quoted, same};
#[allow(unused_imports)]
use crate::text::debug_text;

verus! {

/// The workspaces but for the one of this name.
pub open spec fn without(workspaces: Seq<WorkspaceEntry>, name: Seq<char>) -> Seq<
    WorkspaceEntry,
> {
    workspaces.filter(|e: WorkspaceEntry| e.name@ != name)
}

impl WorkspaceEntry {
    /// A copy of the entry.
    pub fn copy(&self) -> (r: WorkspaceEntry)
        ensures
            r == *self,
    {
        WorkspaceEntry {
            name: self.name.clone(),
            jj_name: self.jj_name.clone(),
            root: self.root.clone(),
        }
    }
}

proof fn without_is_distinct(workspaces: Seq<WorkspaceEntry>, name: Seq<char>)
    requires
        forall|i: int, j: int|
            0 <= i < j < workspaces.len() ==> (#[trigger] workspaces[i]).name@ != (
            #[trigger] workspaces[j]).name@,
    ensures
        forall|i: int, j: int|
            0 <= i < j < without(workspaces, name).len() ==> (#[trigger] without(
                workspaces,
                name,
            )[i]).name@ != (#[trigger] without(workspaces, name)[j]).name@,
        forall|i: int|
            0 <= i < without(workspaces, name).len() ==> (#[trigger] without(
                workspaces,
                name,
            )[i]).name@ != name && workspaces.contains(without(workspaces, name)[i]),
    decreases workspaces.len(),
{
    reveal(Seq::filter);
    if workspaces.len() > 0 {
        let front = workspaces.drop_last();
        let last = workspaces.last();
        without_is_distinct(front, name);
        let kept = without(front, name);
        assert forall|i: int| 0 <= i < kept.len() implies (#[trigger] kept[i]).name@ != last.name@
            && workspaces.contains(kept[i]) by {
            let k = choose|k: int| 0 <= k < front.len() && front[k] == kept[i];
            assert(workspaces[k] == kept[i]);
        }
        assert(workspaces[workspaces.len() - 1] == last);
    }
}

impl RepoEngine {
    /// Drops the workspace of this name.
    pub fn remove_workspace(&mut self, name: &str)
        ensures
            final(self).root == old(self).root,
            final(self).view == old(self).view,
            final(self).workspaces@ == without(old(self).workspaces@, name@),
            old(self).wf() ==> final(self).wf(),
            final(self).entry(name@) is None,
    {
        let ghost others = |e: WorkspaceEntry| e.name@ != name@;
        let mut kept: Vec<WorkspaceEntry> = Vec::new();
        for i in 0..self.workspaces.len()
            invariant
                others == (|e: WorkspaceEntry| e.name@ != name@),
                kept@ == self.workspaces@.take(i as int).filter(others),
                *self == *old(self),
        {
            let ghost upto = self.workspaces@.take(i + 1);
            proof {
                reveal(Seq::filter);
                assert(upto.drop_last() =~= self.workspaces@.take(i as int));
                assert(upto.last() == self.workspaces@[i as int]);
            }
            if !same(self.workspaces[i].name.as_str(), name) {
                kept.push(self.workspaces[i].copy());
            }
        }
        proof {
            assert(self.workspaces@.take(self.workspaces@.len() as int) =~= self.workspaces@);
            first_where_is_there(kept@, entry_named(name@));
            assert forall|i: int| 0 <= i < kept@.len() implies (#[trigger] kept@[i]).name@
                != name@ by {
                self.workspaces@.lemma_filter_pred(others, i);
            }
            if first_where(kept@, entry_named(name@)) is Some {
                let x = first_where(kept@, entry_named(name@))->0;
                let i = choose|i: int| 0 <= i < kept@.len() && kept@[i] == x;
                assert(kept@[i].name@ != name@);
            }
            if self.wf() {
                without_is_distinct(self.workspaces@, name@);
            }
        }
        self.workspaces = kept;
    }

    /// Opens a workspace, in place of the one of its name where there is one.
    pub fn insert_workspace(&mut self, entry: WorkspaceEntry)
        ensures
            final(self).root == old(self).root,
            final(self).view == old(self).view,
            final(self).workspaces@ == without(old(self).workspaces@, entry.name@).push(entry),
            old(self).wf() ==> final(self).wf(),
    {
        let ghost before = self.workspaces@;
        self.remove_workspace(entry.name.as_str());
        proof {
            if old(self).wf() {
                without_is_distinct(before, entry.name@);
            }
        }
        self.workspaces.push(entry);
    }
}

proof fn without_a_stranger(workspaces: Seq<WorkspaceEntry>, name: Seq<char>)
    requires
        forall|i: int| 0 <= i < workspaces.len() ==> (#[trigger] workspaces[i]).name@ != name,
    ensures
        without(workspaces, name) == workspaces,
    decreases workspaces.len(),
{
    reveal(Seq::filter);
    if workspaces.len() > 0 {
        without_a_stranger(workspaces.drop_last(), name);
        assert(workspaces.drop_last().push(workspaces.last()) =~= workspaces);
    } else {
        assert(without(workspaces, name) =~= workspaces);
    }
}

/// Dropping a workspace that was opened under a new name leaves the workspaces as
/// they were.
pub proof fn removal_undoes_insertion(workspaces: Seq<WorkspaceEntry>, entry: WorkspaceEntry)
    requires
        first_where(workspaces, entry_named(entry.name@)) is None,
    ensures
        without(without(workspaces, entry.name@).push(entry), entry.name@) == workspaces,
{
    first_where_is_there(workspaces, entry_named(entry.name@));
    assert forall|i: int| 0 <= i < workspaces.len() implies (#[trigger] workspaces[i]).name@
        != entry.name@ by {
        assert(!entry_named(entry.name@)(workspaces[i]));
    }
    without_a_stranger(workspaces, entry.name@);
    reveal(Seq::filter);
    assert(workspaces.push(entry).drop_last() =~= workspaces);
}

/// Why a name for a new workspace is refused, where it is.
pub open spec fn name_refusal(engine: RepoEngine, name: Seq<char>) -> Option<Seq<char>> {
    if name.len() == 0 {
        Some("workspace name cannot be empty"@)
    } else if name == "."@ || name == ".."@ || name.contains('/') {
        Some("invalid workspace name: "@ + debug_text(name))
    } else if engine.entry(name) is Some || first_where(
        engine.view.working_copies@,
        working_copy_of(name),
    ) is Some {
        Some("workspace "@ + debug_text(name) + " already exists"@)
    } else {
        None
    }
}

/// Why a place for a new workspace is refused, where it is. Paths are compared as
/// they are written.
pub open spec fn dest_refusal(root: Seq<char>, dest: Seq<char>, exists: bool) -> Option<
    Seq<char>,
> {
    if exists {
        Some("destination exists: "@ + dest)
    } else if within(dest, root) || within(root, dest) {
        Some("destination "@ + dest + " must not nest with the repo root "@ + root)
    } else {
        None
    }
}

impl RepoEngine {
    /// Refuses empty names, names with a separator, `.` and `..`, and names that are
    /// taken, by an open workspace or in the repo's view.
    pub fn validate_new_workspace_name(&self, name: &str) -> (r: Result<(), EngineError>)
        ensures
            match name_refusal(*self, name@) {
                None => r is Ok,
                Some(said) => r matches Err(e) && e@ == (ErrorKind::Invalid, said),
            },
    {
        if name.is_empty() {
            return Err(EngineError::Invalid("workspace name cannot be empty".to_string()));
        }
        if same(name, ".") || same(name, "..") || has_char(name, '/') {
            return Err(
                EngineError::Invalid(
                    "invalid workspace name: ".to_string().concat(quoted(name).as_str()),
                ),
            );
        }
        if self.find(name).is_some() || self.view.working_copy(name).is_some() {
            return Err(
                EngineError::Invalid(
                    "workspace ".to_string().concat(quoted(name).as_str()).concat(
                        " already exists",
                    ),
                ),
            );
        }
        Ok(())
    }

    /// Refuses a place that exists, or that lies in the repo root or around it.
    pub fn validate_dest(&self, dest: &str, exists: bool) -> (r: Result<(), EngineError>)
        ensures
            match dest_refusal(self.root@, dest@, exists) {
                None => r is Ok,
                Some(said) => r matches Err(e) && e@ == (ErrorKind::Invalid, said),
            },
    {
        if exists {
            return Err(EngineError::Invalid("destination exists: ".to_string().concat(dest)));
        }
        if lies_within(dest, self.root.as_str()) || lies_within(self.root.as_str(), dest) {
            return Err(
                EngineError::Invalid(
                    "destination ".to_string().concat(dest).concat(
                        " must not nest with the repo root ",
                    ).concat(self.root.as_str()),
                ),
            );
        }
        Ok(())
    }
}

/// What an added workspace waits for.
#[derive(Debug, Clone, Copy, PartialEq, Eq, Structural)]
pub enum AddPhase {
    Start,
    LookAtDest,
    Finding,
    FindingDefault,
    ReadingParent,
    Cloning,
    Registering,
    RollingBack,
    Over,
}

/// A new workspace at `dest`, whose working-copy commit is a child of `at_change`,
/// or else of the first parent of the default workspace's working-copy commit.
pub struct AddWorkspace {
    pub name: String,
    pub dest: String,
    pub at_change: Option<String>,
    pub phase: AddPhase,
    /// The commit that the new workspace starts from, once it is known.
    pub parent: Option<CommitId>,
}

/// What has to be done next to add a workspace.
pub enum AddAction {
    /// Say whether there is anything at the path.
    LookFor(String),
    /// Resolve the prefix against the visible commits.
    FindChange(String),
    /// Read the working-copy commit of the workspace.
    FindWorkingCopy(String),
    /// Read the commit.
    Read(CommitId),
    /// Clone the directory.
    Clone { src: String, dest: String },
    /// Make the clone a workspace of the repo.
    Register { name: String, dest: String, parent: CommitId },
    /// Take back what was done, because of this failure.
    RollBack { name: String, dest: String, error: EngineError },
    Finish(Result<WorkspaceInfo, EngineError>),
}

/// What came of an action.
pub enum AddReply {
    Begin,
    Exists(bool),
    Found(Result<Commit, EngineError>),
    Cloned(Result<(), EngineError>),
    Registered(Result<WorkspaceInfo, EngineError>),
    /// The failure that is left to report.
    RolledBack(EngineError),
}

pub open spec fn add_fails(
    post: AddWorkspace,
    action: AddAction,
    why: (ErrorKind, Seq<char>),
) -> bool {
    &&& post.phase == AddPhase::Over
    &&& action matches AddAction::Finish(r)
    &&& r matches Err(e)
    &&& e@ == why
}

/// The workspace starts from `parent`: the files are cloned.
pub open spec fn add_clones(
    engine: RepoEngine,
    pre: AddWorkspace,
    parent: Seq<u8>,
    post: AddWorkspace,
    action: AddAction,
) -> bool {
    &&& post.phase == AddPhase::Cloning
    &&& post.parent is Some
    &&& post.parent->0@ == parent
    &&& action matches AddAction::Clone { src, dest }
    &&& src@ == engine.root@
    &&& dest@ == pre.dest@
}

/// One step of adding a workspace.
pub open spec fn add_step(
    engine: RepoEngine,
    pre: AddWorkspace,
    reply: AddReply,
    post: AddWorkspace,
    action: AddAction,
) -> bool {
    &&& post.name == pre.name
    &&& post.dest == pre.dest
    &&& post.at_change == pre.at_change
    &&& match (pre.phase, reply) {
        (AddPhase::Start, AddReply::Begin) => match name_refusal(engine, pre.name@) {
            Some(said) => add_fails(post, action, (ErrorKind::Invalid, said)),
            None => {
                &&& post.phase == AddPhase::LookAtDest
                &&& action matches AddAction::LookFor(path)
                &&& path@ == pre.dest@
            },
        },
        (AddPhase::LookAtDest, AddReply::Exists(exists)) => match dest_refusal(
            engine.root@,
            pre.dest@,
            exists,
        ) {
            Some(said) => add_fails(post, action, (ErrorKind::Invalid, said)),
            None => match pre.at_change {
                Some(prefix) => {
                    &&& post.phase == AddPhase::Finding
                    &&& action matches AddAction::FindChange(p)
                    &&& p@ == prefix@
                },
                None => {
                    &&& post.phase == AddPhase::FindingDefault
                    &&& action matches AddAction::FindWorkingCopy(ws)
                    &&& ws@ == "default"@
                },
            },
        },
        (AddPhase::Finding, AddReply::Found(r)) => match r {
            Err(e) => add_fails(post, action, e@),
            Ok(c) => add_clones(engine, pre, c.id@, post, action),
        },
        (AddPhase::FindingDefault, AddReply::Found(r)) => match r {
            Err(e) => add_fails(post, action, e@),
            Ok(c) => if c.parents@.len() == 0 {
                add_fails(
                    post,
                    action,
                    (
                        ErrorKind::Internal,
                        "working-copy commit "@ + hex_text(c.id@) + " has no parents"@,
                    ),
                )
            } else {
                &&& post.phase == AddPhase::ReadingParent
                &&& action matches AddAction::Read(id)
                &&& id@ == c.parents@[0]@
            },
        },
        (AddPhase::ReadingParent, AddReply::Found(r)) => match r {
            Err(e) => add_fails(post, action, e@),
            Ok(c) => add_clones(engine, pre, c.id@, post, action),
        },
        (AddPhase::Cloning, AddReply::Cloned(r)) => match r {
            Err(e) => add_fails(post, action, e@),
            Ok(_) => {
                &&& post.phase == AddPhase::Registering
                &&& action matches AddAction::Register { name, dest, parent }
                &&& name@ == pre.name@
                &&& dest@ == pre.dest@
                &&& parent@ == pre.parent->0@
            },
        },
        (AddPhase::Registering, AddReply::Registered(r)) => match r {
            Err(e) => {
                &&& post.phase == AddPhase::RollingBack
                &&& action matches AddAction::RollBack { name, dest, error }
                &&& name@ == pre.name@
                &&& dest@ == pre.dest@
                &&& error == e
            },
            Ok(info) => {
                &&& post.phase == AddPhase::Over
                &&& action == AddAction::Finish(Ok(info))
            },
        },
        (AddPhase::RollingBack, AddReply::RolledBack(e)) => add_fails(post, action, e@),
        _ => add_fails(post, action, (ErrorKind::Internal, "unexpected reply"@)),
    }
}

impl RepoEngine {
    /// A new workspace at `dest`.
    pub fn add_workspace(&self, name: String, dest: String, at_change: Option<String>) -> (r: AddWorkspace)
        ensures
            r.wf(),
            r.name == name,
            r.dest == dest,
            r.at_change == at_change,
            r.phase == AddPhase::Start,
    {
        AddWorkspace { name, dest, at_change, phase: AddPhase::Start, parent: None }
    }
}

impl AddWorkspace {
    pub open spec fn wf(self) -> bool {
        self.phase == AddPhase::Cloning ==> self.parent is Some
    }

    fn fail(&mut self, e: EngineError) -> (action: AddAction)
        ensures
            final(self).name == old(self).name,
            final(self).dest == old(self).dest,
            final(self).at_change == old(self).at_change,
            final(self).wf(),
            add_fails(*final(self), action, e@),
    {
        self.phase = AddPhase::Over;
        AddAction::Finish(Err(e))
    }

    fn clone_from(&mut self, engine: &RepoEngine, parent: CommitId) -> (action: AddAction)
        ensures
            final(self).name == old(self).name,
            final(self).dest == old(self).dest,
            final(self).at_change == old(self).at_change,
            final(self).wf(),
            add_clones(*engine, *old(self), parent@, *final(self), action),
    {
        self.parent = Some(parent);
        self.phase = AddPhase::Cloning;
        AddAction::Clone { src: engine.root.clone(), dest: self.dest.clone() }
    }

    /// Takes the reply to the last action and says what has to be done next.
    pub fn step(&mut self, engine: &RepoEngine, reply: AddReply) -> (action: AddAction)
        requires
            old(self).wf(),
        ensures
            final(self).wf(),
            add_step(*engine, *old(self), reply, *final(self), action),
    {
        match (self.phase, reply) {
            (AddPhase::Start, AddReply::Begin) => {
                match engine.validate_new_workspace_name(self.name.as_str()) {
                    Err(e) => self.fail(e),
                    Ok(_) => {
                        self.phase = AddPhase::LookAtDest;
                        AddAction::LookFor(self.dest.clone())
                    },
                }
            },
            (AddPhase::LookAtDest, AddReply::Exists(exists)) => {
                match engine.validate_dest(self.dest.as_str(), exists) {
                    Err(e) => self.fail(e),
                    Ok(_) => match &self.at_change {
                        Some(prefix) => {
                            let prefix = prefix.clone();
                            self.phase = AddPhase::Finding;
                            AddAction::FindChange(prefix)
                        },
                        None => {
                            self.phase = AddPhase::FindingDefault;
                            AddAction::FindWorkingCopy("default".to_string())
                        },
                    },
                }
            },
            (AddPhase::Finding, AddReply::Found(r)) => match r {
                Err(e) => self.fail(e),
                Ok(c) => self.clone_from(engine, c.id),
            },
            (AddPhase::FindingDefault, AddReply::Found(r)) => match r {
                Err(e) => self.fail(e),
                Ok(c) => {
                    if c.parents.len() == 0 {
                        let message = "working-copy commit ".to_string().concat(
                            c.id.hex().as_str(),
                        ).concat(" has no parents");
                        return self.fail(EngineError::Internal(message));
                    }
                    self.phase = AddPhase::ReadingParent;
                    AddAction::Read(c.parents[0].copy())
                },
            },
            (AddPhase::ReadingParent, AddReply::Found(r)) => match r {
                Err(e) => self.fail(e),
                Ok(c) => self.clone_from(engine, c.id),
            },
            (AddPhase::Cloning, AddReply::Cloned(r)) => match r {
                Err(e) => self.fail(e),
                Ok(_) => match &self.parent {
                    Some(parent) => {
                        let parent = parent.copy();
                        self.phase = AddPhase::Registering;
                        AddAction::Register {
                            name: self.name.clone(),
                            dest: self.dest.clone(),
                            parent,
                        }
                    },
                    None => self.fail(EngineError::Internal("unexpected reply".to_string())),
                },
            },
            (AddPhase::Registering, AddReply::Registered(r)) => match r {
                Err(error) => {
                    self.phase = AddPhase::RollingBack;
                    AddAction::RollBack {
                        name: self.name.clone(),
                        dest: self.dest.clone(),
                        error,
                    }
                },
                Ok(info) => {
                    self.phase = AddPhase::Over;
                    AddAction::Finish(Ok(info))
                },
            },
            (AddPhase::RollingBack, AddReply::RolledBack(e)) => self.fail(e),
            _ => self.fail(EngineError::Internal("unexpected reply".to_string())),
        }
    }
}

/// Nothing is cloned and nothing is registered for a name or a place that is
/// refused.
pub proof fn refused_workspaces_are_not_cloned(
    engine: RepoEngine,
    pre: AddWorkspace,
    reply: AddReply,
    post: AddWorkspace,
    action: AddAction,
)
    requires
        add_step(engine, pre, reply, post, action),
    ensures
        pre.phase == AddPhase::Start ==> !(action is Clone) && !(action is Register),
        pre.phase == AddPhase::LookAtDest ==> !(action is Clone) && !(action is Register),
        pre.phase == AddPhase::Start && name_refusal(engine, pre.name@) is Some ==> post.phase
            == AddPhase::Over,
        pre.phase == AddPhase::LookAtDest && reply == AddReply::Exists(true) ==> post.phase
            == AddPhase::Over,
{
}

/// The reply is one to what the new workspace waits for.
pub open spec fn add_expects(phase: AddPhase, reply: AddReply) -> bool {
    match phase {
        AddPhase::Start => reply is Begin,
        AddPhase::LookAtDest => reply is Exists,
        AddPhase::Finding | AddPhase::FindingDefault | AddPhase::ReadingParent => reply is Found,
        AddPhase::Cloning => reply is Cloned,
        AddPhase::Registering => reply is Registered,
        AddPhase::RollingBack => reply is RolledBack,
        AddPhase::Over => false,
    }
}

/// A new workspace from its start on, each action of which was answered: the engine
/// at each step, the states, the replies, and the action that followed each.
pub open spec fn is_add_run(
    engines: Seq<RepoEngine>,
    states: Seq<AddWorkspace>,
    replies: Seq<AddReply>,
    actions: Seq<AddAction>,
) -> bool {
    &&& states.len() == replies.len() + 1
    &&& engines.len() == replies.len()
    &&& actions.len() == replies.len()
    &&& states[0].phase == AddPhase::Start
    &&& forall|i: int|
        0 <= i < replies.len() ==> add_expects(states[i].phase, #[trigger] replies[i]) && add_step(
            engines[i],
            states[i],
            replies[i],
            states[i + 1],
            actions[i],
        )
}

/// The files were cloned.
pub open spec fn was_cloned(reply: AddReply) -> bool {
    reply matches AddReply::Cloned(r) && r is Ok
}

proof fn add_run_shows(
    engines: Seq<RepoEngine>,
    states: Seq<AddWorkspace>,
    replies: Seq<AddReply>,
    actions: Seq<AddAction>,
    i: int,
)
    requires
        is_add_run(engines, states, replies, actions),
        0 <= i < states.len(),
    ensures
        states[i].name == states[0].name,
        states[i].dest == states[0].dest,
        states[i].phase != AddPhase::Registering && states[i].phase != AddPhase::RollingBack
            && states[i].phase != AddPhase::Over ==> forall|j: int|
            0 <= j < i ==> !was_cloned(#[trigger] replies[j]),
        states[i].phase == AddPhase::Registering ==> i > 0 && was_cloned(replies[i - 1]),
        states[i].phase == AddPhase::RollingBack ==> i > 0 && (
        actions[i - 1] matches AddAction::RollBack { name, dest, error } && name@ == states[0].name@
            && dest@ == states[0].dest@ && replies[i - 1] == AddReply::Registered(Err(error))),
    decreases i,
{
    if i > 0 {
        add_run_shows(engines, states, replies, actions, i - 1);
        assert(add_expects(states[i - 1].phase, replies[i - 1]));
        assert(add_step(
            engines[i - 1],
            states[i - 1],
            replies[i - 1],
            states[i],
            actions[i - 1],
        ));
    }
}

/// A new workspace is there whole or not at all. One that goes well was cloned and
/// then registered. One that fails was not cloned, or what was done for it is taken
/// back before the failure is reported.
pub proof fn workspaces_are_all_or_nothing(
    engines: Seq<RepoEngine>,
    states: Seq<AddWorkspace>,
    replies: Seq<AddReply>,
    actions: Seq<AddAction>,
    i: int,
)
    requires
        is_add_run(engines, states, replies, actions),
        0 <= i < actions.len(),
        actions[i] is Finish,
    ensures
        match actions[i]->Finish_0 {
            Ok(info) => i > 0 && was_cloned(replies[i - 1]) && replies[i] == AddReply::Registered(
                Ok(info),
            ),
            Err(_) => {
                ||| forall|j: int| 0 <= j < i ==> !was_cloned(#[trigger] replies[j])
                ||| {
                    &&& i > 0
                    &&& actions[i - 1] matches AddAction::RollBack { name, dest, error }
                    &&& name@ == states[0].name@
                    &&& dest@ == states[0].dest@
                    &&& replies[i - 1] == AddReply::Registered(Err(error))
                }
            },
        },
{
    add_run_shows(engines, states, replies, actions, i);
    assert(add_expects(states[i].phase, replies[i]));
    assert(add_step(engines[i], states[i], replies[i], states[i + 1], actions[i]));
}

} // verus!
