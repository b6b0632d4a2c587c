//! Loading the workspaces that a repo has beside the one that it was opened by.

use vstd::prelude::*;
use vstd::string::*;

use crate::commits::RepoView;
#[allow(unused_imports)]
use crate::commits::WorkingCopy;
use crate::engine::WorkspaceEntry;
use crate::error::EngineError;
#[allow(unused_imports)]
use crate::error::ErrorKind;
use crate::paths::{is_absolute, join_path};
#[allow(unused_imports)]
use crate::paths::{absolute, joined_path};
use crate::text::{quoted, same, trim};
#[allow(unused_imports)]
use crate::text::{debug_text, texts, trimmed};

verus! {

/// What the loading waits for.
#[derive(Debug, Clone, Copy, PartialEq, Eq, Structural)]
pub enum OthersPhase {
    Start,
    OpeningStore,
    Asking,
    Looking,
    Loading,
    Over,
}

/// The loading of the other workspaces that the repo's view knows. One whose entry
/// in the workspace store or whose directory has vanished, or that does not load,
/// is passed over; the view keeps it.
pub struct LoadOthers {
    /// The directory of the repo, which the store's paths are relative to.
    pub repo_path: String,
    /// The workspaces to load.
    pub names: Vec<String>,
    /// How many of them are done.
    pub at: usize,
    pub phase: OthersPhase,
    /// Where the workspace that is being loaded is.
    pub root: String,
    pub loaded: Vec<WorkspaceEntry>,
}

/// What has to be done next to load the other workspaces.
pub enum OthersAction {
    /// Open the workspace store of the repo.
    OpenStore(String),
    /// Ask the store where the workspace is.
    Ask(String),
    /// Say whether the directory is there.
    Look(String),
    /// Load the workspace, on the store of the one that is open; say under which
    /// name the repo knows it.
    Load { name: String, root: String },
    /// The workspaces that were loaded.
    Finish(Result<Vec<WorkspaceEntry>, EngineError>),
}

/// What came of an action.
pub enum OthersReply {
    Begin,
    Opened(Result<(), EngineError>),
    Path(Result<Option<String>, EngineError>),
    IsDirectory(bool),
    Loaded(Result<String, EngineError>),
}

/// The workspaces in a view but for the one of this name, in the view's order.
pub open spec fn other_names(working_copies: Seq<WorkingCopy>, primary: Seq<char>) -> Seq<
    Seq<char>,
> {
    working_copies.map_values(|w: WorkingCopy| w.workspace@).filter(
        |n: Seq<char>| n != primary,
    )
}

/// Where the store says a workspace is: as seen from the directory of the repo.
pub open spec fn stored_root(repo_path: Seq<char>, path: Seq<char>) -> Seq<char> {
    if absolute(path) {
        path
    } else {
        joined_path(repo_path, path)
    }
}

pub open spec fn others_fails(
    post: LoadOthers,
    action: OthersAction,
    why: (ErrorKind, Seq<char>),
) -> bool {
    &&& post.phase == OthersPhase::Over
    &&& action matches OthersAction::Finish(r)
    &&& r matches Err(e)
    &&& e@ == why
}

/// `at` workspaces are done and `loaded` came of them: the next one is asked for,
/// or the answer is given.
pub open spec fn others_goes_on(
    post: LoadOthers,
    at: int,
    loaded: Seq<WorkspaceEntry>,
    action: OthersAction,
) -> bool {
    &&& post.at == at
    &&& if at < post.names@.len() {
        &&& post.phase == OthersPhase::Asking
        &&& post.loaded@ == loaded
        &&& action matches OthersAction::Ask(name)
        &&& name@ == post.names@[at]@
    } else {
        &&& post.phase == OthersPhase::Over
        &&& action matches OthersAction::Finish(r)
        &&& r matches Ok(answer)
        &&& answer@ == loaded
    }
}

/// One step of loading the other workspaces.
pub open spec fn others_step(
    pre: LoadOthers,
    reply: OthersReply,
    post: LoadOthers,
    action: OthersAction,
) -> bool {
    let name = pre.names@[pre.at as int]@;
    &&& post.repo_path == pre.repo_path
    &&& post.names == pre.names
    &&& match (pre.phase, reply) {
        (OthersPhase::Start, OthersReply::Begin) => {
            &&& post.phase == OthersPhase::OpeningStore
            &&& post.at == pre.at
            &&& post.loaded == pre.loaded
            &&& action matches OthersAction::OpenStore(path)
            &&& path@ == pre.repo_path@
        },
        (OthersPhase::OpeningStore, OthersReply::Opened(r)) => match r {
            Err(e) => others_fails(post, action, e@),
            Ok(_) => others_goes_on(post, pre.at as int, pre.loaded@, action),
        },
        (OthersPhase::Asking, OthersReply::Path(r)) => match r {
            Ok(Some(path)) => {
                &&& post.phase == OthersPhase::Looking
                &&& post.at == pre.at
                &&& post.loaded == pre.loaded
                &&& post.root@ == stored_root(pre.repo_path@, path@)
                &&& action matches OthersAction::Look(root)
                &&& root@ == stored_root(pre.repo_path@, path@)
            },
            _ => others_goes_on(post, pre.at + 1, pre.loaded@, action),
        },
        (OthersPhase::Looking, OthersReply::IsDirectory(there)) => if there {
            &&& post.phase == OthersPhase::Loading
            &&& post.at == pre.at
            &&& post.loaded == pre.loaded
            &&& post.root == pre.root
            &&& action matches OthersAction::Load { name: asked, root }
            &&& asked@ == name
            &&& root@ == pre.root@
        } else {
            others_goes_on(post, pre.at + 1, pre.loaded@, action)
        },
        (OthersPhase::Loading, OthersReply::Loaded(r)) => match r {
            Err(_) => others_goes_on(post, pre.at + 1, pre.loaded@, action),
            Ok(jj_name) => exists|entry: WorkspaceEntry| #[trigger]
                is_loaded(entry, name, jj_name@, pre.root@) && others_goes_on(
                    post,
                    pre.at + 1,
                    pre.loaded@.push(entry),
                    action,
                ),
        },
        _ => others_fails(post, action, (ErrorKind::Internal, "unexpected reply"@)),
    }
}

/// The workspace that was loaded.
pub open spec fn is_loaded(
    entry: WorkspaceEntry,
    name: Seq<char>,
    jj_name: Seq<char>,
    root: Seq<char>,
) -> bool {
    entry.name@ == name && entry.jj_name@ == jj_name && entry.root@ == root
}

/// The loading of all workspaces of a view but the one that is open.
pub fn load_extra_workspaces(view: &RepoView, primary: &str, repo_path: String) -> (r: LoadOthers)
    ensures
        r.wf(),
        r.repo_path == repo_path,
        texts(r.names@) == other_names(view.working_copies@, primary@),
        r.at == 0,
        r.phase == OthersPhase::Start,
        r.loaded@.len() == 0,
{
    let ghost all = view.working_copies@.map_values(|w: WorkingCopy| w.workspace@);
    let ghost others = |n: Seq<char>| n != primary@;
    let mut names: Vec<String> = Vec::new();
    for i in 0..view.working_copies.len()
        invariant
            all == view.working_copies@.map_values(|w: WorkingCopy| w.workspace@),
            others == (|n: Seq<char>| n != primary@),
            texts(names@) == all.take(i as int).filter(others),
    {
        let ghost upto = all.take(i + 1);
        let ghost before = names@;
        proof {
            reveal(Seq::filter);
            assert(upto.drop_last() =~= all.take(i as int));
            assert(upto.last() == view.working_copies@[i as int].workspace@);
        }
        if !same(view.working_copies[i].workspace.as_str(), primary) {
            names.push(view.working_copies[i].workspace.clone());
            assert(texts(names@) =~= texts(before).push(upto.last()));
        }
    }
    assert(all.take(all.len() as int) =~= all);
    LoadOthers {
        repo_path,
        names,
        at: 0,
        phase: OthersPhase::Start,
        root: String::new(),
        loaded: Vec::new(),
    }
}

impl LoadOthers {
    pub open spec fn wf(self) -> bool {
        &&& self.at <= self.names@.len()
        &&& self.phase == OthersPhase::Asking || self.phase == OthersPhase::Looking || self.phase
            == OthersPhase::Loading ==> self.at < self.names@.len()
    }

    fn go_on(&mut self) -> (action: OthersAction)
        requires
            old(self).at <= old(self).names@.len(),
        ensures
            final(self).wf(),
            final(self).repo_path == old(self).repo_path,
            final(self).names == old(self).names,
            others_goes_on(*final(self), old(self).at as int, old(self).loaded@, action),
    {
        if self.at < self.names.len() {
            self.phase = OthersPhase::Asking;
            OthersAction::Ask(self.names[self.at].clone())
        } else {
            self.phase = OthersPhase::Over;
            let mut answer: Vec<WorkspaceEntry> = Vec::new();
            answer.append(&mut self.loaded);
            assert(answer@ =~= old(self).loaded@);
            OthersAction::Finish(Ok(answer))
        }
    }

    fn pass_over(&mut self) -> (action: OthersAction)
        requires
            old(self).at < old(self).names@.len(),
        ensures
            final(self).wf(),
            final(self).repo_path == old(self).repo_path,
            final(self).names == old(self).names,
            others_goes_on(*final(self), old(self).at + 1, old(self).loaded@, action),
    {
        let n: usize = self.names.len();
        assert(self.at < n);
        self.at = self.at + 1;
        self.go_on()
    }

    fn fail(&mut self, e: EngineError) -> (action: OthersAction)
        requires
            old(self).wf(),
        ensures
            final(self).wf(),
            final(self).repo_path == old(self).repo_path,
            final(self).names == old(self).names,
            others_fails(*final(self), action, e@),
    {
        self.phase = OthersPhase::Over;
        OthersAction::Finish(Err(e))
    }

    /// Takes the reply to the last action and says what has to be done next.
    pub fn step(&mut self, reply: OthersReply) -> (action: OthersAction)
        requires
            old(self).wf(),
        ensures
            final(self).wf(),
            others_step(*old(self), reply, *final(self), action),
    {
        match (self.phase, reply) {
            (OthersPhase::Start, OthersReply::Begin) => {
                self.phase = OthersPhase::OpeningStore;
                OthersAction::OpenStore(self.repo_path.clone())
            },
            (OthersPhase::OpeningStore, OthersReply::Opened(r)) => match r {
                Err(e) => self.fail(e),
                Ok(_) => self.go_on(),
            },
            (OthersPhase::Asking, OthersReply::Path(r)) => match r {
                Ok(Some(path)) => {
                    let root = if is_absolute(path.as_str()) {
                        path
                    } else {
                        join_path(self.repo_path.as_str(), path.as_str())
                    };
                    self.phase = OthersPhase::Looking;
                    self.root = root.clone();
                    OthersAction::Look(root)
                },
                _ => self.pass_over(),
            },
            (OthersPhase::Looking, OthersReply::IsDirectory(there)) => {
                if there {
                    self.phase = OthersPhase::Loading;
                    OthersAction::Load {
                        name: self.names[self.at].clone(),
                        root: self.root.clone(),
                    }
                } else {
                    self.pass_over()
                }
            },
            (OthersPhase::Loading, OthersReply::Loaded(r)) => match r {
                Err(_) => self.pass_over(),
                Ok(jj_name) => {
                    let entry = WorkspaceEntry {
                        name: self.names[self.at].clone(),
                        jj_name,
                        root: self.root.clone(),
                    };
                    let ghost was = entry;
                    self.loaded.push(entry);
                    let action = self.pass_over();
                    assert(is_loaded(
                        was,
                        old(self).names@[old(self).at as int]@,
                        jj_name@,
                        old(self).root@,
                    ));
                    action
                },
            },
            _ => self.fail(EngineError::Internal("unexpected reply".to_string())),
        }
    }
}

/// A workspace that cannot be found or loaded does not stop the others.
pub proof fn broken_workspaces_are_passed_over(
    pre: LoadOthers,
    reply: OthersReply,
    post: LoadOthers,
    action: OthersAction,
)
    requires
        pre.wf(),
        others_step(pre, reply, post, action),
        pre.phase == OthersPhase::Asking && reply is Path || pre.phase == OthersPhase::Looking
            && reply is IsDirectory || pre.phase == OthersPhase::Loading && reply is Loaded,
    ensures
        action matches OthersAction::Finish(r) ==> r is Ok,
{
}

/// Where the state of the working copy at `root` is.
pub open spec fn state_path(root: Seq<char>) -> Seq<char> {
    joined_path(joined_path(root, ".jj"@), "working_copy"@)
}

/// Where the state of the working copy at `root` is.
pub fn state_path_of(root: &str) -> (r: String)
    ensures
        r@ == state_path(root@),
{
    join_path(join_path(root, ".jj").as_str(), "working_copy")
}

/// Where the type of the working copy at `root` is written.
pub fn type_path_of(root: &str) -> (r: String)
    ensures
        r@ == joined_path(state_path(root@), "type"@),
{
    join_path(state_path_of(root).as_str(), "type")
}

/// The type of a working copy, from what its type file holds. Only `known` types
/// can be loaded.
pub fn working_copy_type(known: &Vec<String>, read: &str) -> (r: Result<String, EngineError>)
    ensures
        match r {
            Ok(t) => t@ == trimmed(read@) && texts(known@).contains(trimmed(read@)),
            Err(e) => !texts(known@).contains(trimmed(read@)) && e@ == (
                ErrorKind::Internal,
                "unsupported working copy type "@ + debug_text(trimmed(read@)),
            ),
        },
{
    let found = trim(read);
    for i in 0..known.len()
        invariant
            found@ == trimmed(read@),
            forall|j: int| 0 <= j < i ==> (#[trigger] known@[j])@ != found@,
    {
        if same(known[i].as_str(), found.as_str()) {
            assert(texts(known@)[i as int] == found@);
            return Ok(found);
        }
    }
    proof {
        if texts(known@).contains(found@) {
            let j = choose|j: int| 0 <= j < texts(known@).len() && texts(known@)[j] == found@;
            assert(known@[j]@ == found@);
        }
    }
    Err(
        EngineError::Internal(
            "unsupported working copy type ".to_string().concat(quoted(found.as_str()).as_str()),
        ),
    )
}

/// A load of the other workspaces from its start on: the states that it went
/// through, the reply that each was given, and the action that followed.
pub open spec fn is_others_run(
    states: Seq<LoadOthers>,
    replies: Seq<OthersReply>,
    actions: Seq<OthersAction>,
) -> bool {
    &&& states.len() == replies.len() + 1
    &&& actions.len() == replies.len()
    &&& states[0].phase == OthersPhase::Start
    &&& states[0].at == 0
    &&& states[0].loaded@.len() == 0
    &&& forall|i: int|
        0 <= i < replies.len() ==> others_step(
            states[i],
            #[trigger] replies[i],
            states[i + 1],
            actions[i],
        )
}

/// What came of one workspace: the name that the repo knows it under and where it
/// is, or nothing where it was passed over.
pub struct Fate {
    pub jj_name: Seq<char>,
    pub root: Seq<char>,
}

/// What the first `i` replies make of the workspaces, one by one. A workspace is
/// loaded where the store says where it is, the directory is there, and it loads from
/// it; else it is passed over.
pub open spec fn fates(
    repo_path: Seq<char>,
    states: Seq<LoadOthers>,
    replies: Seq<OthersReply>,
    i: int,
) -> Seq<Option<Fate>>
    decreases i,
{
    if i <= 0 {
        Seq::empty()
    } else {
        let before = fates(repo_path, states, replies, i - 1);
        match (states[i - 1].phase, replies[i - 1]) {
            (OthersPhase::Asking, OthersReply::Path(r)) => match r {
                Ok(Some(_)) => before,
                _ => before.push(None),
            },
            (OthersPhase::Looking, OthersReply::IsDirectory(there)) => if there {
                before
            } else {
                before.push(None)
            },
            (OthersPhase::Loading, OthersReply::Loaded(r)) => match (r, replies[i - 3]) {
                (Ok(jj_name), OthersReply::Path(Ok(Some(path)))) => before.push(
                    Some(Fate { jj_name: jj_name@, root: stored_root(repo_path, path@) }),
                ),
                _ => before.push(None),
            },
            _ => before,
        }
    }
}

/// `loaded` are the workspaces that were not passed over, in their order.
pub open spec fn are_loaded(
    loaded: Seq<WorkspaceEntry>,
    names: Seq<String>,
    fates: Seq<Option<Fate>>,
) -> bool
    decreases fates.len(),
{
    if fates.len() == 0 {
        loaded.len() == 0
    } else {
        match fates.last() {
            None => are_loaded(loaded, names, fates.drop_last()),
            Some(fate) => {
                &&& loaded.len() > 0
                &&& is_loaded(
                    loaded.last(),
                    names[fates.len() - 1]@,
                    fate.jj_name,
                    fate.root,
                )
                &&& are_loaded(loaded.drop_last(), names, fates.drop_last())
            },
        }
    }
}

proof fn others_run_shows(
    states: Seq<LoadOthers>,
    replies: Seq<OthersReply>,
    actions: Seq<OthersAction>,
    i: int,
)
    requires
        is_others_run(states, replies, actions),
        0 <= i < states.len(),
        states[i].phase != OthersPhase::Over,
    ensures
        states[i].names == states[0].names,
        states[i].repo_path == states[0].repo_path,
        fates(states[0].repo_path@, states, replies, i).len() == states[i].at,
        are_loaded(
            states[i].loaded@,
            states[0].names@,
            fates(states[0].repo_path@, states, replies, i),
        ),
        states[i].phase == OthersPhase::Asking || states[i].phase == OthersPhase::Looking
            || states[i].phase == OthersPhase::Loading ==> states[i].at < states[0].names@.len(),
        states[i].phase == OthersPhase::Start || states[i].phase == OthersPhase::OpeningStore
            ==> states[i].at == 0,
        states[i].phase == OthersPhase::Looking ==> i >= 1 && (
        replies[i - 1] matches OthersReply::Path(r) && r matches Ok(found)
            && found matches Some(path) && states[i].root@ == stored_root(
            states[0].repo_path@,
            path@,
        )),
        states[i].phase == OthersPhase::Loading ==> i >= 2 && replies[i - 1]
            == OthersReply::IsDirectory(true) && (replies[i - 2] matches OthersReply::Path(r)
            && r matches Ok(found) && found matches Some(path) && states[i].root@ == stored_root(
            states[0].repo_path@,
            path@,
        )),
    decreases i,
{
    if i > 0 {
        assert(others_step(states[i - 1], replies[i - 1], states[i], actions[i - 1]));
        others_run_shows(states, replies, actions, i - 1);
        let pre = states[i - 1];
        let before = fates(states[0].repo_path@, states, replies, i - 1);
        let now = fates(states[0].repo_path@, states, replies, i);
        if now.len() > before.len() {
            assert(now.drop_last() =~= before);
        }
        if pre.phase == OthersPhase::Loading && replies[i - 1]->Loaded_0 is Ok {
            let name = pre.names@[pre.at as int]@;
            let jj_name = replies[i - 1]->Loaded_0->Ok_0;
            let entry = choose|entry: WorkspaceEntry| #[trigger]
                is_loaded(entry, name, jj_name@, pre.root@) && others_goes_on(
                    states[i],
                    pre.at + 1,
                    pre.loaded@.push(entry),
                    actions[i - 1],
                );
            assert(states[i].loaded@.drop_last() =~= pre.loaded@);
        }
    }
}

/// A load of the other workspaces that goes well has gone through all of them, and
/// gives exactly those that the store knows, whose directory is there and that load,
/// each with its name and where it is.
pub proof fn loaded_workspaces_are_those_that_load(
    states: Seq<LoadOthers>,
    replies: Seq<OthersReply>,
    actions: Seq<OthersAction>,
    i: int,
)
    requires
        is_others_run(states, replies, actions),
        0 <= i < actions.len(),
        actions[i] matches OthersAction::Finish(r) && r is Ok,
    ensures
        fates(states[0].repo_path@, states, replies, i + 1).len() == states[0].names@.len(),
        are_loaded(
            actions[i]->Finish_0->Ok_0@,
            states[0].names@,
            fates(states[0].repo_path@, states, replies, i + 1),
        ),
{
    assert(others_step(states[i], replies[i], states[i + 1], actions[i]));
    others_run_shows(states, replies, actions, i);
    let pre = states[i];
    let answer = actions[i]->Finish_0->Ok_0@;
    let before = fates(states[0].repo_path@, states, replies, i);
    let now = fates(states[0].repo_path@, states, replies, i + 1);
    if now.len() > before.len() {
        assert(now.drop_last() =~= before);
    }
    if pre.phase == OthersPhase::Loading && replies[i]->Loaded_0 is Ok {
        let name = pre.names@[pre.at as int]@;
        let jj_name = replies[i]->Loaded_0->Ok_0;
        let entry = choose|entry: WorkspaceEntry| #[trigger]
            is_loaded(entry, name, jj_name@, pre.root@) && others_goes_on(
                states[i + 1],
                pre.at + 1,
                pre.loaded@.push(entry),
                actions[i],
            );
        assert(answer.drop_last() =~= pre.loaded@);
    }
}

} // verus!
