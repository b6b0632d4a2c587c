//! The status of a repo: every workspace, what it is based on, and the files that
//! differ from that.

use vstd::prelude::*;
use vstd::string::*;

use crate::commits::Commit;
use crate::engine::{workspace_info, RepoEngine};
#[allow(unused_imports)]
use crate::engine::is_workspace_info;
use crate::error::EngineError;
#[allow(unused_imports)]
use crate::error::ErrorKind;
use crate::files::{changed_files, DiffEntry};
#[allow(unused_imports)]
use crate::files::are_file_changes;
use crate::ids::{short_change_id, CommitId};
#[allow(unused_imports)]
use crate::ids::{hex_text, reverse_hex_text};
use crate::proto::{RepoId, RepoInfo, StatusResponse, WorkspaceStatus};
#[allow(unused_imports)]
use crate::sort::sorts;
#[allow(unused_imports)]
use crate::text::head;

verus! {

/// What a status waits for.
#[derive(Debug, Clone, Copy, PartialEq, Eq, Structural)]
pub enum StatusPhase {
    Start,
    WorkingCopy,
    Parent,
    Trees,
    Over,
}

/// The status of a repo in the making.
pub struct Status {
    pub repo_id: String,
    /// The workspaces, sorted by name.
    pub names: Vec<String>,
    /// The rows that are done, one for each of the first names.
    pub rows: Vec<WorkspaceStatus>,
    pub phase: StatusPhase,
    /// The working-copy commit of the workspace that is being looked at.
    pub wc: Option<Commit>,
    /// Its first parent.
    pub parent: Option<Commit>,
}

/// What has to be done next for a status.
pub enum StatusAction {
    /// Read the commit.
    Read(CommitId),
    /// List the paths at which the trees of the two commits differ.
    Diff { before: CommitId, after: CommitId },
    Finish(Result<StatusResponse, EngineError>),
}

/// What came of an action.
pub enum StatusReply {
    Begin,
    Commit(Result<Commit, EngineError>),
    Differences(Result<Vec<DiffEntry>, EngineError>),
}

/// The row of one workspace.
pub open spec fn is_status_row(
    row: WorkspaceStatus,
    name: Seq<char>,
    root: Seq<char>,
    wc: Commit,
    parent: Commit,
    diff: Seq<DiffEntry>,
) -> bool {
    &&& is_workspace_info(row.info, name, root, Some(wc))
    &&& row.parent_change_id@ == head(reverse_hex_text(parent.change_id@), 12)
    &&& are_file_changes(row.changed_files@, diff)
}

pub open spec fn status_fails(
    post: Status,
    action: StatusAction,
    why: (ErrorKind, Seq<char>),
) -> bool {
    &&& post.phase == StatusPhase::Over
    &&& action matches StatusAction::Finish(r)
    &&& r matches Err(e)
    &&& e@ == why
}

/// With `rows` done, the next workspace is looked at, or the answer is given.
pub open spec fn status_goes_on(
    engine: RepoEngine,
    pre: Status,
    rows: Seq<WorkspaceStatus>,
    post: Status,
    action: StatusAction,
) -> bool {
    if rows.len() < pre.names@.len() {
        match engine.wc_id(pre.names@[rows.len() as int]@) {
            Err(e) => status_fails(post, action, e),
            Ok(id) => {
                &&& post.phase == StatusPhase::WorkingCopy
                &&& post.rows@ == rows
                &&& action matches StatusAction::Read(asked)
                &&& asked@ == id
            },
        }
    } else {
        &&& post.phase == StatusPhase::Over
        &&& action matches StatusAction::Finish(r)
        &&& r matches Ok(answer)
        &&& answer.repo.id.0@ == pre.repo_id@
        &&& answer.repo.root@ == engine.root@
        &&& answer.workspaces@ == rows
    }
}

/// One step of a status. `engine` is the repo that is looked at.
pub open spec fn status_step(
    engine: RepoEngine,
    pre: Status,
    reply: StatusReply,
    post: Status,
    action: StatusAction,
) -> bool {
    &&& post.repo_id == pre.repo_id
    &&& post.names == pre.names
    &&& match (pre.phase, reply) {
        (StatusPhase::Start, StatusReply::Begin) => status_goes_on(
            engine,
            pre,
            pre.rows@,
            post,
            action,
        ),
        (StatusPhase::WorkingCopy, StatusReply::Commit(r)) => match r {
            Err(e) => status_fails(post, action, e@),
            Ok(c) => if c.parents@.len() == 0 {
                status_fails(
                    post,
                    action,
                    (
                        ErrorKind::Internal,
                        "working-copy commit "@ + hex_text(c.id@) + " has no parents"@,
                    ),
                )
            } else {
                &&& post.phase == StatusPhase::Parent
                &&& post.rows == pre.rows
                &&& post.wc == Some(c)
                &&& action matches StatusAction::Read(asked)
                &&& asked@ == c.parents@[0]@
            },
        },
        (StatusPhase::Parent, StatusReply::Commit(r)) => match r {
            Err(e) => status_fails(post, action, e@),
            Ok(c) => {
                &&& post.phase == StatusPhase::Trees
                &&& post.rows == pre.rows
                &&& post.wc == pre.wc
                &&& post.parent == Some(c)
                &&& action matches StatusAction::Diff { before, after }
                &&& before@ == c.id@
                &&& after@ == pre.wc->0.id@
            },
        },
        (StatusPhase::Trees, StatusReply::Differences(r)) => match r {
            Err(e) => status_fails(post, action, e@),
            Ok(diff) => {
                let name = pre.names@[pre.rows@.len() as int]@;
                match engine.entry(name) {
                    None => status_fails(
                        post,
                        action,
                        (ErrorKind::NotFound, "no workspace "@ + name),
                    ),
                    Some(entry) => exists|row: WorkspaceStatus| #[trigger]
                        is_status_row(
                            row,
                            name,
                            entry.root@,
                            pre.wc->0,
                            pre.parent->0,
                            diff@,
                        ) && status_goes_on(engine, pre, pre.rows@.push(row), post, action),
                }
            },
        },
        _ => status_fails(post, action, (ErrorKind::Internal, "unexpected reply"@)),
    }
}

impl RepoEngine {
    /// The status of the repo, under the id that it is registered by.
    pub fn status(&self, repo_id: String) -> (r: Status)
        ensures
            r.wf(),
            r.repo_id == repo_id,
            sorts(self.names(), r.names@),
            r.rows@.len() == 0,
            r.phase == StatusPhase::Start,
    {
        Status {
            repo_id,
            names: self.sorted_names(),
            rows: Vec::new(),
            phase: StatusPhase::Start,
            wc: None,
            parent: None,
        }
    }
}

impl Status {
    pub open spec fn wf(self) -> bool {
        &&& self.rows@.len() <= self.names@.len()
        &&& self.phase == StatusPhase::WorkingCopy || self.phase == StatusPhase::Parent
            || self.phase == StatusPhase::Trees ==> self.rows@.len() < self.names@.len()
        &&& self.phase == StatusPhase::Parent || self.phase == StatusPhase::Trees
            ==> self.wc is Some
        &&& self.phase == StatusPhase::Trees ==> self.parent is Some
    }

    fn fail(&mut self, e: EngineError) -> (action: StatusAction)
        requires
            old(self).rows@.len() <= old(self).names@.len(),
        ensures
            final(self).repo_id == old(self).repo_id,
            final(self).names == old(self).names,
            final(self).wf(),
            status_fails(*final(self), action, e@),
    {
        self.phase = StatusPhase::Over;
        StatusAction::Finish(Err(e))
    }

    fn go_on(&mut self, engine: &RepoEngine) -> (action: StatusAction)
        requires
            old(self).rows@.len() <= old(self).names@.len(),
        ensures
            final(self).repo_id == old(self).repo_id,
            final(self).names == old(self).names,
            final(self).wf(),
            status_goes_on(*engine, *old(self), old(self).rows@, *final(self), action),
    {
        if self.rows.len() < self.names.len() {
            match engine.wc_commit(self.names[self.rows.len()].as_str()) {
                Err(e) => self.fail(e),
                Ok(id) => {
                    self.phase = StatusPhase::WorkingCopy;
                    StatusAction::Read(id)
                },
            }
        } else {
            self.phase = StatusPhase::Over;
            let mut workspaces: Vec<WorkspaceStatus> = Vec::new();
            workspaces.append(&mut self.rows);
            assert(workspaces@ =~= old(self).rows@);
            StatusAction::Finish(
                Ok(
                    StatusResponse {
                        repo: RepoInfo {
                            id: RepoId(self.repo_id.clone()),
                            root: engine.root.clone(),
                        },
                        workspaces,
                    },
                ),
            )
        }
    }

    /// Takes the reply to the last action and says what has to be done next.
    pub fn step(&mut self, engine: &RepoEngine, reply: StatusReply) -> (action: StatusAction)
        requires
            old(self).wf(),
        ensures
            final(self).wf(),
            status_step(*engine, *old(self), reply, *final(self), action),
    {
        match (self.phase, reply) {
            (StatusPhase::Start, StatusReply::Begin) => self.go_on(engine),
            (StatusPhase::WorkingCopy, StatusReply::Commit(r)) => match r {
                Err(e) => self.fail(e),
                Ok(c) => {
                    if c.parents.len() == 0 {
                        let message = "working-copy commit ".to_string().concat(
                            c.id.hex().as_str(),
                        ).concat(" has no parents");
                        return self.fail(EngineError::Internal(message));
                    }
                    let parent = c.parents[0].copy();
                    self.phase = StatusPhase::Parent;
                    self.wc = Some(c);
                    StatusAction::Read(parent)
                },
            },
            (StatusPhase::Parent, StatusReply::Commit(r)) => match r {
                Err(e) => self.fail(e),
                Ok(c) => {
                    let before = c.id.copy();
                    self.phase = StatusPhase::Trees;
                    self.parent = Some(c);
                    match &self.wc {
                        Some(wc) => StatusAction::Diff { before, after: wc.id.copy() },
                        None => self.fail(EngineError::Internal("unexpected reply".to_string())),
                    }
                },
            },
            (StatusPhase::Trees, StatusReply::Differences(r)) => match r {
                Err(e) => self.fail(e),
                Ok(diff) => {
                    let name = self.names[self.rows.len()].as_str();
                    let root = match engine.find(name) {
                        Some(entry) => entry.root.clone(),
                        None => {
                            let message = "no workspace ".to_string().concat(name);
                            return self.fail(EngineError::NotFound(message));
                        },
                    };
                    match (&self.wc, &self.parent) {
                        (Some(wc), Some(parent)) => {
                            let row = WorkspaceStatus {
                                info: workspace_info(name, root.as_str(), wc),
                                parent_change_id: short_change_id(&parent.change_id),
                                changed_files: changed_files(&diff),
                            };
                            let ghost done = row;
                            self.rows.push(row);
                            let action = self.go_on(engine);
                            assert(status_goes_on(
                                *engine,
                                *old(self),
                                old(self).rows@.push(done),
                                *self,
                                action,
                            ));
                            assert(is_status_row(
                                done,
                                old(self).names@[old(self).rows@.len() as int]@,
                                engine.entry(name@)->0.root@,
                                old(self).wc->0,
                                old(self).parent->0,
                                diff@,
                            ));
                            action
                        },
                        _ => self.fail(EngineError::Internal("unexpected reply".to_string())),
                    }
                },
            },
            _ => self.fail(EngineError::Internal("unexpected reply".to_string())),
        }
    }
}

/// A status from its start on: the states that it went through, the reply that each
/// was given, and the action that followed.
pub open spec fn is_status_run(
    engine: RepoEngine,
    states: Seq<Status>,
    replies: Seq<StatusReply>,
    actions: Seq<StatusAction>,
) -> bool {
    &&& states.len() == replies.len() + 1
    &&& actions.len() == replies.len()
    &&& states[0].phase == StatusPhase::Start
    &&& states[0].rows@.len() == 0
    &&& forall|i: int|
        0 <= i < replies.len() ==> status_step(
            engine,
            states[i],
            #[trigger] replies[i],
            states[i + 1],
            actions[i],
        )
}

/// The row of the workspace `name`, as it came out of the run: its working-copy
/// commit was read, then the first parent of that, then what differs from the parent
/// to it. The replies stand from `at` on.
pub open spec fn row_was_read(
    engine: RepoEngine,
    replies: Seq<StatusReply>,
    actions: Seq<StatusAction>,
    at: int,
    name: Seq<char>,
    row: WorkspaceStatus,
) -> bool {
    &&& 0 < at
    &&& at + 2 < replies.len()
    &&& replies[at] matches StatusReply::Commit(r) && r matches Ok(wc) && replies[at
        + 1] matches StatusReply::Commit(q) && q matches Ok(parent) && replies[at
        + 2] matches StatusReply::Differences(d) && d matches Ok(diff) && {
        &&& actions[at - 1] matches StatusAction::Read(asked) && engine.wc_id(name) == Ok::<
            _,
            (ErrorKind, Seq<char>),
        >(asked@)
        &&& wc.parents@.len() > 0
        &&& actions[at] matches StatusAction::Read(first) && first@ == wc.parents@[0]@
        &&& actions[at + 1] matches StatusAction::Diff { before, after } && before@ == parent.id@
            && after@ == wc.id@
        &&& engine.entry(name) is Some
        &&& is_status_row(row, name, engine.entry(name)->0.root@, wc, parent, diff@)
    }
}

pub(crate) proof fn status_run_shows(
    engine: RepoEngine,
    states: Seq<Status>,
    replies: Seq<StatusReply>,
    actions: Seq<StatusAction>,
    i: int,
)
    requires
        is_status_run(engine, states, replies, actions),
        0 <= i < states.len(),
        states[i].phase != StatusPhase::Over,
    ensures
        states[i].names == states[0].names,
        states[i].repo_id == states[0].repo_id,
        states[i].phase == StatusPhase::Start ==> i == 0,
        i > 0 ==> states[i].rows@.len() < states[0].names@.len(),
        forall|k: int|
            0 <= k < states[i].rows@.len() ==> row_was_read(
                engine,
                replies,
                actions,
                3 * k + 1,
                states[0].names@[k]@,
                #[trigger] states[i].rows@[k],
            ),
        match states[i].phase {
            StatusPhase::Start => states[i].rows@.len() == 0,
            StatusPhase::WorkingCopy => {
                &&& i == 3 * states[i].rows@.len() + 1
                &&& actions[i - 1] matches StatusAction::Read(asked) && engine.wc_id(
                    states[0].names@[states[i].rows@.len() as int]@,
                ) == Ok::<_, (ErrorKind, Seq<char>)>(asked@)
            },
            StatusPhase::Parent => {
                &&& i == 3 * states[i].rows@.len() + 2
                &&& states[i].wc is Some
                &&& replies[i - 1] == StatusReply::Commit(Ok(states[i].wc->0))
                &&& states[i].wc->0.parents@.len() > 0
                &&& actions[i - 1] matches StatusAction::Read(first) && first@
                    == states[i].wc->0.parents@[0]@
                &&& actions[i - 2] matches StatusAction::Read(asked) && engine.wc_id(
                    states[0].names@[states[i].rows@.len() as int]@,
                ) == Ok::<_, (ErrorKind, Seq<char>)>(asked@)
            },
            StatusPhase::Trees => {
                &&& i == 3 * states[i].rows@.len() + 3
                &&& states[i].wc is Some
                &&& states[i].parent is Some
                &&& replies[i - 2] == StatusReply::Commit(Ok(states[i].wc->0))
                &&& replies[i - 1] == StatusReply::Commit(Ok(states[i].parent->0))
                &&& states[i].wc->0.parents@.len() > 0
                &&& actions[i - 2] matches StatusAction::Read(first) && first@
                    == states[i].wc->0.parents@[0]@
                &&& actions[i - 3] matches StatusAction::Read(asked) && engine.wc_id(
                    states[0].names@[states[i].rows@.len() as int]@,
                ) == Ok::<_, (ErrorKind, Seq<char>)>(asked@)
                &&& actions[i - 1] matches StatusAction::Diff { before, after } && before@
                    == states[i].parent->0.id@ && after@ == states[i].wc->0.id@
            },
            StatusPhase::Over => true,
        },
    decreases i, 0int,
{
    if i > 0 {
        assert(status_step(engine, states[i - 1], replies[i - 1], states[i], actions[i - 1]));
        status_run_shows(engine, states, replies, actions, i - 1);
        let pre = states[i - 1];
        let post = states[i];
        if pre.phase == StatusPhase::Trees {
            row_is_added(engine, states, replies, actions, i - 1, post.rows@);
        }
        assert forall|k: int| 0 <= k < post.rows@.len() implies row_was_read(
            engine,
            replies,
            actions,
            3 * k + 1,
            states[0].names@[k]@,
            #[trigger] post.rows@[k],
        ) by {
            if k < pre.rows@.len() {
                assert(post.rows@[k] == pre.rows@[k]);
            }
        }
    }
}

/// The differences complete a row.
pub(crate) proof fn row_is_added(
    engine: RepoEngine,
    states: Seq<Status>,
    replies: Seq<StatusReply>,
    actions: Seq<StatusAction>,
    i: int,
    rows: Seq<WorkspaceStatus>,
)
    requires
        is_status_run(engine, states, replies, actions),
        0 <= i < replies.len(),
        states[i].phase == StatusPhase::Trees,
        states[i + 1].phase == StatusPhase::WorkingCopy && rows == states[i + 1].rows@ || (
        actions[i] matches StatusAction::Finish(r) && r matches Ok(answer) && rows
            == answer.workspaces@),
    ensures
        rows.len() == states[i].rows@.len() + 1,
        rows.drop_last() == states[i].rows@,
        row_was_read(
            engine,
            replies,
            actions,
            3 * (rows.len() - 1) + 1,
            states[0].names@[rows.len() - 1]@,
            rows.last(),
        ),
    decreases i, 1int,
{
    status_run_shows(engine, states, replies, actions, i);
    let pre = states[i];
    let post = states[i + 1];
    assert(status_step(engine, pre, replies[i], post, actions[i]));
    let diff = replies[i]->Differences_0->Ok_0;
    let name = pre.names@[pre.rows@.len() as int]@;
    let row = choose|row: WorkspaceStatus| #[trigger]
        is_status_row(
            row,
            name,
            engine.entry(name)->0.root@,
            pre.wc->0,
            pre.parent->0,
            diff@,
        ) && status_goes_on(engine, pre, pre.rows@.push(row), post, actions[i]);
    assert(rows == pre.rows@.push(row));
    assert(rows.drop_last() =~= pre.rows@);
    assert(rows.last() == row);
}

/// A whole answer: it is of the repo that was asked for, it has one row for every
/// workspace in the order of their names, and each row shows the working-copy commit
/// of its workspace, the first parent of that, and what differs between them.
pub proof fn every_workspace_has_its_row(
    engine: RepoEngine,
    states: Seq<Status>,
    replies: Seq<StatusReply>,
    actions: Seq<StatusAction>,
    i: int,
)
    requires
        is_status_run(engine, states, replies, actions),
        0 <= i < actions.len(),
        actions[i] matches StatusAction::Finish(r) && r is Ok,
    ensures
        ({
            let answer = actions[i]->Finish_0->Ok_0;
            &&& answer.repo.id.0@ == states[0].repo_id@
            &&& answer.repo.root@ == engine.root@
            &&& answer.workspaces@.len() == states[0].names@.len()
            &&& forall|k: int|
                0 <= k < answer.workspaces@.len() ==> row_was_read(
                    engine,
                    replies,
                    actions,
                    3 * k + 1,
                    states[0].names@[k]@,
                    #[trigger] answer.workspaces@[k],
                )
        }),
{
    assert(status_step(engine, states[i], replies[i], states[i + 1], actions[i]));
    status_run_shows(engine, states, replies, actions, i);
    let pre = states[i];
    let rows = actions[i]->Finish_0->Ok_0.workspaces@;
    if pre.phase == StatusPhase::Trees {
        row_is_added(engine, states, replies, actions, i, rows);
        assert forall|k: int| 0 <= k < rows.len() implies row_was_read(
            engine,
            replies,
            actions,
            3 * k + 1,
            states[0].names@[k]@,
            #[trigger] rows[k],
        ) by {
            if k < pre.rows@.len() {
                assert(rows.drop_last()[k] == rows[k]);
                assert(pre.rows@[k] == rows[k]);
            }
        }
    }
}

} // verus!
