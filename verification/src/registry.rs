//! Loading the registry, adding to it, and snapshotting what is in it.

use vstd::prelude::*;
use vstd::string::*;

use crate::error::{EngineError, RegisterError};
#[allow(unused_imports)]
use crate::error::ErrorKind;
#[allow(unused_imports)]
use crate::lists::{first_where, first_where_is_there, only_one_is_found};
use crate::paths::{file_name_of, join_path};
#[allow(unused_imports)]
use crate::paths::{file_name, same_path};
use crate::proto::{RepoId, RepoInfo, WorkspaceInfo};
use crate::state::{DaemonState, Persist};
#[allow(unused_imports)]
use crate::state::{
    ids_differ, is_fresh_id, of_root, others, persists, registry_path, roots_differ, taken,
};
use crate::text::join;
#[allow(unused_imports)]
use crate::text::{joined, texts};

verus! {

/// What the loading of the registry waits for.
#[derive(Debug, Clone, Copy, PartialEq, Eq, Structural)]
pub enum LoadPhase {
    Start,
    LookForRegistry,
    Reading,
    Looking,
    Opening,
    Persisting,
    Over,
}

/// The loading of the registry: a repo whose root has vanished or that no
/// longer opens is dropped, and what is left is written back.
pub struct Load {
    pub phase: LoadPhase,
    /// What the registry holds.
    pub infos: Vec<RepoInfo>,
    /// How many of them are done.
    pub at: usize,
    /// The repos that were opened.
    pub state: DaemonState,
    pub dropped: bool,
}

/// What has to be done next to load the registry.
pub enum LoadAction {
    /// Say whether there is anything at the path.
    LookFor(String),
    /// Read the registry.
    Read(String),
    /// Say whether the directory is there.
    Look(String),
    /// Open an engine for the repo.
    Open(RepoInfo),
    /// Rewrite the registry.
    Persist(Persist),
    /// The registry is loaded, or why it is not.
    Finish(Result<(), EngineError>),
}

/// What came of an action.
pub enum LoadReply {
    Begin,
    Exists(bool),
    Registry(Result<Vec<RepoInfo>, EngineError>),
    IsDirectory(bool),
    Opened(Result<(), EngineError>),
    Persisted(Result<(), EngineError>),
}

pub open spec fn load_fails(post: Load, action: LoadAction, why: (ErrorKind, Seq<char>)) -> bool {
    &&& post.phase == LoadPhase::Over
    &&& action matches LoadAction::Finish(r)
    &&& r matches Err(e)
    &&& e@ == why
}

/// `at` entries are done and `repos` came of them: the next one is looked at, or
/// the registry is written back where something was dropped.
pub open spec fn load_goes_on(
    pre: Load,
    infos: Seq<RepoInfo>,
    at: int,
    repos: Seq<RepoInfo>,
    dropped: bool,
    post: Load,
    action: LoadAction,
) -> bool {
    &&& post.infos@ == infos
    &&& post.at == at
    &&& post.state.repos@ == repos
    &&& post.dropped == dropped
    &&& if at < infos.len() {
        &&& post.phase == LoadPhase::Looking
        &&& action matches LoadAction::Look(root)
        &&& root@ == infos[at].root@
    } else if dropped {
        &&& post.phase == LoadPhase::Persisting
        &&& action matches LoadAction::Persist(p)
        &&& persists(p, pre.state.dir@, repos)
    } else {
        post.phase == LoadPhase::Over && action == LoadAction::Finish(Ok(()))
    }
}

/// One step of loading the registry.
pub open spec fn load_step(pre: Load, reply: LoadReply, post: Load, action: LoadAction) -> bool {
    let info = pre.infos@[pre.at as int];
    let repos = pre.state.repos@;
    &&& post.state.dir == pre.state.dir
    &&& match (pre.phase, reply) {
        (LoadPhase::Start, LoadReply::Begin) => {
            &&& post.phase == LoadPhase::LookForRegistry
            &&& post.state == pre.state
            &&& action matches LoadAction::LookFor(path)
            &&& path@ == registry_path(pre.state.dir@)
        },
        (LoadPhase::LookForRegistry, LoadReply::Exists(there)) => if there {
            &&& post.phase == LoadPhase::Reading
            &&& post.state == pre.state
            &&& action matches LoadAction::Read(path)
            &&& path@ == registry_path(pre.state.dir@)
        } else {
            &&& post.phase == LoadPhase::Over
            &&& post.state == pre.state
            &&& action == LoadAction::Finish(Ok(()))
        },
        (LoadPhase::Reading, LoadReply::Registry(r)) => match r {
            Err(e) => load_fails(post, action, e@),
            Ok(infos) => load_goes_on(pre, infos@, 0, repos, false, post, action),
        },
        (LoadPhase::Looking, LoadReply::IsDirectory(there)) => if there {
            &&& post.phase == LoadPhase::Opening
            &&& post.infos == pre.infos
            &&& post.at == pre.at
            &&& post.state == pre.state
            &&& post.dropped == pre.dropped
            &&& action == LoadAction::Open(info)
        } else {
            load_goes_on(pre, pre.infos@, pre.at + 1, repos, true, post, action)
        },
        (LoadPhase::Opening, LoadReply::Opened(r)) => match r {
            Err(_) => load_goes_on(pre, pre.infos@, pre.at + 1, repos, true, post, action),
            Ok(_) => load_goes_on(
                pre,
                pre.infos@,
                pre.at + 1,
                others(repos, info.id.0@).push(info),
                pre.dropped,
                post,
                action,
            ),
        },
        (LoadPhase::Persisting, LoadReply::Persisted(r)) => match r {
            Err(e) => load_fails(post, action, e@),
            Ok(_) => {
                &&& post.phase == LoadPhase::Over
                &&& post.state == pre.state
                &&& action == LoadAction::Finish(Ok(()))
            },
        },
        _ => load_fails(post, action, (ErrorKind::Internal, "unexpected reply"@)),
    }
}

impl DaemonState {
    /// The loading of the registry in `dir`.
    pub fn load(dir: String) -> (r: Load)
        ensures
            r.wf(),
            r.phase == LoadPhase::Start,
            r.state.dir == dir,
            r.state.repos@.len() == 0,
            !r.dropped,
    {
        Load {
            phase: LoadPhase::Start,
            infos: Vec::new(),
            at: 0,
            state: DaemonState::new(dir),
            dropped: false,
        }
    }
}

impl Load {
    pub open spec fn wf(self) -> bool {
        &&& self.state.wf()
        &&& self.at <= self.infos@.len()
        &&& self.phase == LoadPhase::Looking || self.phase == LoadPhase::Opening ==> self.at
            < self.infos@.len()
    }

    fn fail(&mut self, e: EngineError) -> (action: LoadAction)
        requires
            old(self).wf(),
        ensures
            final(self).state.dir == old(self).state.dir,
            final(self).wf(),
            load_fails(*final(self), action, e@),
    {
        self.phase = LoadPhase::Over;
        LoadAction::Finish(Err(e))
    }

    fn go_on(&mut self) -> (action: LoadAction)
        requires
            old(self).state.wf(),
            old(self).at <= old(self).infos@.len(),
        ensures
            final(self).state.dir == old(self).state.dir,
            final(self).wf(),
            load_goes_on(
                *old(self),
                old(self).infos@,
                old(self).at as int,
                old(self).state.repos@,
                old(self).dropped,
                *final(self),
                action,
            ),
    {
        if self.at < self.infos.len() {
            self.phase = LoadPhase::Looking;
            LoadAction::Look(self.infos[self.at].root.clone())
        } else if self.dropped {
            self.phase = LoadPhase::Persisting;
            LoadAction::Persist(self.state.persist())
        } else {
            self.phase = LoadPhase::Over;
            LoadAction::Finish(Ok(()))
        }
    }

    /// Takes the reply to the last action and says what has to be done next.
    pub fn step(&mut self, reply: LoadReply) -> (action: LoadAction)
        requires
            old(self).wf(),
        ensures
            final(self).wf(),
            load_step(*old(self), reply, *final(self), action),
    {
        let n: usize = self.infos.len();
        match (self.phase, reply) {
            (LoadPhase::Start, LoadReply::Begin) => {
                self.phase = LoadPhase::LookForRegistry;
                LoadAction::LookFor(join_path(self.state.dir.as_str(), "repos.json"))
            },
            (LoadPhase::LookForRegistry, LoadReply::Exists(there)) => {
                if there {
                    self.phase = LoadPhase::Reading;
                    LoadAction::Read(join_path(self.state.dir.as_str(), "repos.json"))
                } else {
                    self.phase = LoadPhase::Over;
                    LoadAction::Finish(Ok(()))
                }
            },
            (LoadPhase::Reading, LoadReply::Registry(r)) => match r {
                Err(e) => self.fail(e),
                Ok(infos) => {
                    self.infos = infos;
                    self.at = 0;
                    self.dropped = false;
                    self.go_on()
                },
            },
            (LoadPhase::Looking, LoadReply::IsDirectory(there)) => {
                if there {
                    self.phase = LoadPhase::Opening;
                    LoadAction::Open(self.infos[self.at].copy())
                } else {
                    assert(self.at < n);
                    self.dropped = true;
                    self.at = self.at + 1;
                    self.go_on()
                }
            },
            (LoadPhase::Opening, LoadReply::Opened(r)) => {
                match r {
                    Err(_) => {
                        self.dropped = true;
                    },
                    Ok(_) => {
                        let info = self.infos[self.at].copy();
                        self.state.insert(info);
                    },
                }
                assert(self.at < n);
                self.at = self.at + 1;
                self.go_on()
            },
            (LoadPhase::Persisting, LoadReply::Persisted(r)) => match r {
                Err(e) => self.fail(e),
                Ok(_) => {
                    self.phase = LoadPhase::Over;
                    LoadAction::Finish(Ok(()))
                },
            },
            _ => self.fail(EngineError::Internal("unexpected reply".to_string())),
        }
    }
}

/// A repo that was dropped does not come back: the load does not end well before
/// the registry was written without it.
pub proof fn dropped_repos_are_written_out(
    pre: Load,
    reply: LoadReply,
    post: Load,
    action: LoadAction,
)
    requires
        pre.wf(),
        load_step(pre, reply, post, action),
        pre.dropped,
        pre.phase == LoadPhase::Looking || pre.phase == LoadPhase::Opening || pre.phase
            == LoadPhase::Persisting,
        action == LoadAction::Finish(Ok(())),
    ensures
        pre.phase == LoadPhase::Persisting,
        post.state == pre.state,
{
}

/// One repo that cannot be opened does not keep the others from being loaded.
pub proof fn broken_repos_are_dropped(
    pre: Load,
    e: EngineError,
    post: Load,
    action: LoadAction,
)
    requires
        pre.wf(),
        pre.phase == LoadPhase::Opening,
        load_step(pre, LoadReply::Opened(Err(e)), post, action),
    ensures
        post.state.repos@ == pre.state.repos@,
        post.at == pre.at + 1,
        post.dropped,
        !(action is Finish),
{
}

/// A load from its start on: the states that it went through, the reply that each
/// was given, and the action that followed.
pub open spec fn is_load_run(
    states: Seq<Load>,
    replies: Seq<LoadReply>,
    actions: Seq<LoadAction>,
) -> bool {
    &&& states.len() == replies.len() + 1
    &&& actions.len() == replies.len()
    &&& states[0].phase == LoadPhase::Start
    &&& states[0].state.repos@.len() == 0
    &&& states[0].wf()
    &&& forall|i: int|
        0 <= i < replies.len() ==> load_step(
            states[i],
            #[trigger] replies[i],
            states[i + 1],
            actions[i],
        )
}

/// What the first `i` replies say of the entries of the registry, one by one:
/// whether the root is there and opened.
pub open spec fn outcomes(states: Seq<Load>, replies: Seq<LoadReply>, i: int) -> Seq<bool>
    decreases i,
{
    if i <= 0 {
        Seq::empty()
    } else {
        let before = outcomes(states, replies, i - 1);
        match (states[i - 1].phase, replies[i - 1]) {
            (LoadPhase::Looking, LoadReply::IsDirectory(there)) => if there {
                before
            } else {
                before.push(false)
            },
            (LoadPhase::Opening, LoadReply::Opened(r)) => before.push(r is Ok),
            _ => before,
        }
    }
}

/// The entries of the registry that are there and opened. Of two with one id, the
/// later is kept.
pub open spec fn kept(infos: Seq<RepoInfo>, opened: Seq<bool>) -> Seq<RepoInfo>
    decreases opened.len(),
{
    if opened.len() == 0 {
        Seq::empty()
    } else {
        let before = kept(infos, opened.drop_last());
        let info = infos[opened.len() - 1];
        if opened.last() {
            others(before, info.id.0@).push(info)
        } else {
            before
        }
    }
}

/// The registry was read, and held `infos`.
pub open spec fn read_from_registry(replies: Seq<LoadReply>, i: int, infos: Seq<RepoInfo>) -> bool {
    exists|j: int|
        0 <= j < i && ((#[trigger] replies[j]) matches LoadReply::Registry(r) && r matches Ok(read)
            && read@ == infos)
}

/// The phases in which the entries of the registry are gone through.
pub open spec fn has_entries(phase: LoadPhase) -> bool {
    phase == LoadPhase::Looking || phase == LoadPhase::Opening || phase == LoadPhase::Persisting
}

pub(crate) proof fn load_run_shows(
    states: Seq<Load>,
    replies: Seq<LoadReply>,
    actions: Seq<LoadAction>,
    i: int,
)
    requires
        is_load_run(states, replies, actions),
        0 <= i < states.len(),
    ensures
        states[i].state.dir == states[0].state.dir,
        !has_entries(states[i].phase) && states[i].phase != LoadPhase::Over ==> {
            &&& states[i].state.repos@ == Seq::<RepoInfo>::empty()
            &&& outcomes(states, replies, i) == Seq::<bool>::empty()
        },
        states[i].phase == LoadPhase::Looking || states[i].phase == LoadPhase::Opening
            ==> states[i].at < states[i].infos@.len(),
        has_entries(states[i].phase) ==> {
            let opened = outcomes(states, replies, i);
            &&& read_from_registry(replies, i, states[i].infos@)
            &&& opened.len() == states[i].at
            &&& states[i].at <= states[i].infos@.len()
            &&& states[i].state.repos@ == kept(states[i].infos@, opened)
            &&& states[i].dropped == opened.contains(false)
        },
        states[i].phase == LoadPhase::Persisting ==> {
            &&& states[i].at == states[i].infos@.len()
            &&& i > 0
            &&& actions[i - 1] matches LoadAction::Persist(p)
            &&& persists(p, states[0].state.dir@, states[i].state.repos@)
        },
    decreases i,
{
    if i == 0 {
        assert(states[0].state.repos@ =~= Seq::empty());
    } else {
        load_run_shows(states, replies, actions, i - 1);
        let pre = states[i - 1];
        let post = states[i];
        assert(load_step(pre, replies[i - 1], post, actions[i - 1]));
        let before = outcomes(states, replies, i - 1);
        let opened = outcomes(states, replies, i);
        if has_entries(pre.phase) {
            let j = choose|j: int|
                0 <= j < i - 1 && ((#[trigger] replies[j]) matches LoadReply::Registry(r)
                    && r matches Ok(read) && read@ == pre.infos@);
            assert(replies[j] is Registry);
        } else if pre.phase == LoadPhase::Reading && has_entries(post.phase) {
            assert(replies[i - 1] is Registry);
        }
        if opened.len() > before.len() {
            assert(opened.drop_last() =~= before);
            assert(opened.last() == opened[opened.len() - 1]);
            if before.contains(false) {
                let k = choose|k: int| 0 <= k < before.len() && before[k] == false;
                assert(opened[k] == false);
            }
        }
    }
}

/// A load that goes well leaves exactly the repos of the registry that are there and
/// open: none where there is no registry, and else those that the replies speak well
/// of. Where one was dropped, the registry was written without it.
pub proof fn loading_keeps_what_opens(
    states: Seq<Load>,
    replies: Seq<LoadReply>,
    actions: Seq<LoadAction>,
    i: int,
)
    requires
        is_load_run(states, replies, actions),
        0 <= i < actions.len(),
        actions[i] == LoadAction::Finish(Ok(())),
    ensures
        states[i].phase == LoadPhase::LookForRegistry ==> {
            &&& replies[i] == LoadReply::Exists(false)
            &&& states[i + 1].state.repos@.len() == 0
        },
        states[i].phase != LoadPhase::LookForRegistry ==> {
            let infos = if states[i].phase == LoadPhase::Reading {
                states[i + 1].infos@
            } else {
                states[i].infos@
            };
            let opened = outcomes(states, replies, i + 1);
            &&& read_from_registry(replies, i + 1, infos)
            &&& opened.len() == infos.len()
            &&& states[i + 1].state.repos@ == kept(infos, opened)
            &&& opened.contains(false) ==> {
                &&& i > 0
                &&& actions[i - 1] matches LoadAction::Persist(p)
                &&& persists(p, states[0].state.dir@, states[i + 1].state.repos@)
                &&& replies[i] matches LoadReply::Persisted(r)
                &&& r is Ok
            }
        },
{
    load_run_shows(states, replies, actions, i);
    let pre = states[i];
    let post = states[i + 1];
    assert(load_step(pre, replies[i], post, actions[i]));
    let before = outcomes(states, replies, i);
    let opened = outcomes(states, replies, i + 1);
    if has_entries(pre.phase) {
        let j = choose|j: int|
            0 <= j < i && ((#[trigger] replies[j]) matches LoadReply::Registry(r) && r matches Ok(
                read,
            ) && read@ == pre.infos@);
        assert(replies[j] is Registry);
    } else if pre.phase == LoadPhase::Reading {
        assert(replies[i] is Registry);
    }
    if opened.len() > before.len() {
        assert(opened.drop_last() =~= before);
        if opened.contains(false) {
            let k = choose|k: int| 0 <= k < opened.len() && opened[k] == false;
            if k < before.len() {
                assert(before[k] == false);
            }
        }
    }
}

/// Where the ids of the registry differ, an entry is kept if and only if it is there
/// and opened.
pub proof fn kept_repos_are_those_that_open(infos: Seq<RepoInfo>, opened: Seq<bool>, x: RepoInfo)
    requires
        ids_differ(infos),
        opened.len() <= infos.len(),
    ensures
        kept(infos, opened).contains(x) <==> exists|k: int|
            0 <= k < opened.len() && opened[k] && #[trigger] infos[k] == x,
    decreases opened.len(),
{
    if opened.len() > 0 {
        let n = opened.len() - 1;
        let front = opened.drop_last();
        let before = kept(infos, front);
        kept_repos_are_those_that_open(infos, front, x);
        if opened.last() {
            if taken(before, infos[n].id.0@) {
                let m = choose|m: int|
                    0 <= m < before.len() && (#[trigger] before[m]).id.0@ == infos[n].id.0@;
                kept_repos_are_those_that_open(infos, front, before[m]);
                assert(before.contains(before[m]));
            }
            crate::state::others_of_a_stranger(before, infos[n].id.0@);
            let all = kept(infos, opened);
            assert(all == before.push(infos[n]));
            if all.contains(x) {
                let m = choose|m: int| 0 <= m < all.len() && all[m] == x;
                if m < before.len() {
                    assert(before[m] == x);
                    let k = choose|k: int|
                        0 <= k < front.len() && front[k] && #[trigger] infos[k] == x;
                    assert(opened[k] && infos[k] == x);
                } else {
                    assert(opened[n] && infos[n] == x);
                }
            }
            if exists|k: int| 0 <= k < opened.len() && opened[k] && #[trigger] infos[k] == x {
                let k = choose|k: int|
                    0 <= k < opened.len() && opened[k] && #[trigger] infos[k] == x;
                if k < n {
                    assert(front[k] && infos[k] == x);
                    let m = choose|m: int| 0 <= m < before.len() && before[m] == x;
                    assert(all[m] == x);
                } else {
                    assert(all[before.len() as int] == x);
                }
            }
        } else {
            assert(forall|k: int| 0 <= k < front.len() ==> front[k] == opened[k]);
            if exists|k: int| 0 <= k < opened.len() && opened[k] && #[trigger] infos[k] == x {
                let k = choose|k: int|
                    0 <= k < opened.len() && opened[k] && #[trigger] infos[k] == x;
                assert(front[k] && infos[k] == x);
            }
            if exists|k: int| 0 <= k < front.len() && front[k] && #[trigger] infos[k] == x {
                let k = choose|k: int|
                    0 <= k < front.len() && front[k] && #[trigger] infos[k] == x;
                assert(opened[k] && infos[k] == x);
            }
        }
    }
}

/// What a registration waits for.
#[derive(Debug, Clone, Copy, PartialEq, Eq, Structural)]
pub enum RegisterRepoPhase {
    Start,
    Canonicalizing,
    Opening,
    Persisting,
    Watching,
    Over,
}

/// The registration of the repo at `path`: once per canonical root, under an id
/// that is the name of the directory, with a number where that is taken.
pub struct RegisterRepo {
    pub path: String,
    pub phase: RegisterRepoPhase,
    /// The registration, once it is planned.
    pub info: Option<RepoInfo>,
}

/// What has to be done next to register a repo.
pub enum RegisterRepoAction {
    /// Make the path canonical.
    Canonicalize(String),
    /// Open an engine for the repo.
    Open(RepoInfo),
    /// Rewrite the registry.
    Persist(Persist),
    /// Watch the root of the repo, where there is a watcher. A failure is logged.
    Watch(RepoInfo),
    Finish(Result<RepoInfo, RegisterError>),
}

/// What came of an action.
pub enum RegisterRepoReply {
    Begin,
    /// The canonical path, or what went wrong.
    Canonical(Result<String, String>),
    Opened(Result<(), EngineError>),
    Persisted(Result<(), EngineError>),
    Watched,
}

/// The request was bad.
pub open spec fn register_is_invalid(
    post: RegisterRepo,
    action: RegisterRepoAction,
    said: Seq<char>,
) -> bool {
    &&& post.phase == RegisterRepoPhase::Over
    &&& action matches RegisterRepoAction::Finish(r)
    &&& r matches Err(e)
    &&& e matches RegisterError::Invalid(m)
    &&& m@ == said
}

/// Something else went wrong.
pub open spec fn register_breaks(
    post: RegisterRepo,
    action: RegisterRepoAction,
    said: Seq<char>,
) -> bool {
    &&& post.phase == RegisterRepoPhase::Over
    &&& action matches RegisterRepoAction::Finish(r)
    &&& r matches Err(e)
    &&& e matches RegisterError::Internal(m)
    &&& m@ == said
}

/// A registration of `root`: new, under an id that is free.
pub open spec fn plans(repos: Seq<RepoInfo>, root: Seq<char>, info: RepoInfo) -> bool {
    &&& info.root@ == root
    &&& file_name(root) is Some
    &&& is_fresh_id(repos, file_name(root)->0, info.id.0@)
}

/// One step of a registration. `dir` is where the registry is kept, `before` and
/// `after` are the registered repos.
pub open spec fn register_repo_step(
    dir: Seq<char>,
    before: Seq<RepoInfo>,
    pre: RegisterRepo,
    reply: RegisterRepoReply,
    after: Seq<RepoInfo>,
    post: RegisterRepo,
    action: RegisterRepoAction,
) -> bool {
    let info = pre.info->0;
    &&& post.path == pre.path
    &&& match (pre.phase, reply) {
        (RegisterRepoPhase::Opening, RegisterRepoReply::Opened(Ok(_))) => after == others(
            before,
            info.id.0@,
        ).push(info),
        (RegisterRepoPhase::Persisting, RegisterRepoReply::Persisted(Err(_))) => after == others(
            before,
            info.id.0@,
        ),
        _ => after == before,
    }
    &&& match (pre.phase, reply) {
        (RegisterRepoPhase::Start, RegisterRepoReply::Begin) => {
            &&& post.phase == RegisterRepoPhase::Canonicalizing
            &&& action matches RegisterRepoAction::Canonicalize(path)
            &&& path@ == pre.path@
        },
        (RegisterRepoPhase::Canonicalizing, RegisterRepoReply::Canonical(r)) => match r {
            Err(said) => register_is_invalid(
                post,
                action,
                "path "@ + pre.path@ + ": "@ + said@,
            ),
            Ok(root) => match first_where(before, of_root(root@)) {
                Some(known) => {
                    &&& post.phase == RegisterRepoPhase::Over
                    &&& action == RegisterRepoAction::Finish(Ok(known))
                },
                None => if file_name(root@) is None {
                    register_is_invalid(
                        post,
                        action,
                        "cannot derive a repo id from "@ + root@,
                    )
                } else {
                    &&& post.phase == RegisterRepoPhase::Opening
                    &&& post.info is Some
                    &&& plans(before, root@, post.info->0)
                    &&& action == RegisterRepoAction::Open(post.info->0)
                },
            },
        },
        (RegisterRepoPhase::Opening, RegisterRepoReply::Opened(r)) => match r {
            Err(e) => register_is_invalid(post, action, e@.1),
            Ok(_) => {
                &&& post.phase == RegisterRepoPhase::Persisting
                &&& post.info == pre.info
                &&& action matches RegisterRepoAction::Persist(p)
                &&& persists(p, dir, after)
            },
        },
        (RegisterRepoPhase::Persisting, RegisterRepoReply::Persisted(r)) => match r {
            Err(e) => register_breaks(post, action, e@.1),
            Ok(_) => {
                &&& post.phase == RegisterRepoPhase::Watching
                &&& post.info == pre.info
                &&& action == RegisterRepoAction::Watch(info)
            },
        },
        (RegisterRepoPhase::Watching, RegisterRepoReply::Watched) => {
            &&& post.phase == RegisterRepoPhase::Over
            &&& action == RegisterRepoAction::Finish(Ok(info))
        },
        _ => register_breaks(post, action, "unexpected reply"@),
    }
}

impl DaemonState {
    /// The registration of the repo at `path`.
    pub fn register(&self, path: String) -> (r: RegisterRepo)
        ensures
            r.wf(),
            r.path == path,
            r.phase == RegisterRepoPhase::Start,
    {
        RegisterRepo { path, phase: RegisterRepoPhase::Start, info: None }
    }
}

impl RegisterRepo {
    pub open spec fn wf(self) -> bool {
        self.phase == RegisterRepoPhase::Opening || self.phase == RegisterRepoPhase::Persisting
            || self.phase == RegisterRepoPhase::Watching ==> self.info is Some
    }

    fn invalid(&mut self, said: String) -> (action: RegisterRepoAction)
        ensures
            final(self).path == old(self).path,
            final(self).wf(),
            register_is_invalid(*final(self), action, said@),
    {
        self.phase = RegisterRepoPhase::Over;
        RegisterRepoAction::Finish(Err(RegisterError::Invalid(said)))
    }

    fn broken(&mut self, said: String) -> (action: RegisterRepoAction)
        ensures
            final(self).path == old(self).path,
            final(self).wf(),
            register_breaks(*final(self), action, said@),
    {
        self.phase = RegisterRepoPhase::Over;
        RegisterRepoAction::Finish(Err(RegisterError::Internal(said)))
    }

    fn plan(&mut self, state: &DaemonState, root: String) -> (action: RegisterRepoAction)
        requires
            old(self).phase == RegisterRepoPhase::Canonicalizing,
        ensures
            final(self).wf(),
            register_repo_step(
                state.dir@,
                state.repos@,
                *old(self),
                RegisterRepoReply::Canonical(Ok(root)),
                state.repos@,
                *final(self),
                action,
            ),
    {
        if let Some(known) = state.at_root(root.as_str()) {
            self.phase = RegisterRepoPhase::Over;
            return RegisterRepoAction::Finish(Ok(known.copy()));
        }
        match file_name_of(root.as_str()) {
            None => self.invalid(
                "cannot derive a repo id from ".to_string().concat(root.as_str()),
            ),
            Some(name) => {
                let info = RepoInfo { id: RepoId(state.fresh_id(name.as_str())), root };
                let open = info.copy();
                self.phase = RegisterRepoPhase::Opening;
                self.info = Some(info);
                RegisterRepoAction::Open(open)
            },
        }
    }

    /// Takes the reply to the last action and says what has to be done next.
    pub fn step(&mut self, state: &mut DaemonState, reply: RegisterRepoReply) -> (action:
        RegisterRepoAction)
        requires
            old(self).wf(),
        ensures
            final(self).wf(),
            old(state).wf() ==> final(state).wf(),
            final(state).dir == old(state).dir,
            register_repo_step(
                old(state).dir@,
                old(state).repos@,
                *old(self),
                reply,
                final(state).repos@,
                *final(self),
                action,
            ),
    {
        match (self.phase, reply) {
            (RegisterRepoPhase::Start, RegisterRepoReply::Begin) => {
                self.phase = RegisterRepoPhase::Canonicalizing;
                RegisterRepoAction::Canonicalize(self.path.clone())
            },
            (RegisterRepoPhase::Canonicalizing, RegisterRepoReply::Canonical(r)) => match r {
                Err(said) => {
                    let message = "path ".to_string().concat(self.path.as_str()).concat(
                        ": ",
                    ).concat(said.as_str());
                    self.invalid(message)
                },
                Ok(root) => self.plan(state, root),
            },
            (RegisterRepoPhase::Opening, RegisterRepoReply::Opened(r)) => match r {
                Err(e) => self.invalid(e.message().to_string()),
                Ok(_) => match &self.info {
                    Some(info) => {
                        state.insert(info.copy());
                        self.phase = RegisterRepoPhase::Persisting;
                        RegisterRepoAction::Persist(state.persist())
                    },
                    None => self.broken("unexpected reply".to_string()),
                },
            },
            (RegisterRepoPhase::Persisting, RegisterRepoReply::Persisted(r)) => match r {
                Err(e) => {
                    if let Some(info) = &self.info {
                        state.remove(info.id.0.as_str());
                    }
                    self.broken(e.message().to_string())
                },
                Ok(_) => match &self.info {
                    Some(info) => {
                        let watched = info.copy();
                        self.phase = RegisterRepoPhase::Watching;
                        RegisterRepoAction::Watch(watched)
                    },
                    None => self.broken("unexpected reply".to_string()),
                },
            },
            (RegisterRepoPhase::Watching, RegisterRepoReply::Watched) => match &self.info {
                Some(info) => {
                    let answer = info.copy();
                    self.phase = RegisterRepoPhase::Over;
                    RegisterRepoAction::Finish(Ok(answer))
                },
                None => self.broken("unexpected reply".to_string()),
            },
            _ => self.broken("unexpected reply".to_string()),
        }
    }
}

/// Registering a root that is registered gives back its registration, and changes
/// nothing: where the roots differ, the very one.
pub proof fn registering_is_idempotent(
    dir: Seq<char>,
    before: Seq<RepoInfo>,
    pre: RegisterRepo,
    root: String,
    after: Seq<RepoInfo>,
    post: RegisterRepo,
    action: RegisterRepoAction,
    k: int,
)
    requires
        pre.phase == RegisterRepoPhase::Canonicalizing,
        register_repo_step(
            dir,
            before,
            pre,
            RegisterRepoReply::Canonical(Ok(root)),
            after,
            post,
            action,
        ),
        0 <= k < before.len(),
        same_path(before[k].root@, root@),
    ensures
        after == before,
        action matches RegisterRepoAction::Finish(r) && r matches Ok(known) && before.contains(
            known,
        ) && same_path(known.root@, root@) && (roots_differ(before) ==> known == before[k]),
{
    first_where_is_there(before, of_root(root@));
    assert(of_root(root@)(before[k]));
    if roots_differ(before) {
        assert forall|i: int| 0 <= i < before.len() && of_root(root@)(#[trigger] before[i]) implies i
            == k by {
            if i < k {
                assert(same_path(before[i].root@, before[k].root@));
            } else if k < i {
                assert(same_path(before[k].root@, before[i].root@));
            }
        }
        only_one_is_found(before, of_root(root@), k);
    }
}

/// A registration that cannot be written down is taken back: the registered repos
/// are what they were before it.
pub proof fn failed_registration_is_taken_back(
    dir: Seq<char>,
    before: Seq<RepoInfo>,
    pre: RegisterRepo,
    inserted: Seq<RepoInfo>,
    mid: RegisterRepo,
    persist: RegisterRepoAction,
    e: EngineError,
    after: Seq<RepoInfo>,
    post: RegisterRepo,
    action: RegisterRepoAction,
)
    requires
        pre.wf(),
        pre.phase == RegisterRepoPhase::Opening,
        !taken(before, pre.info->0.id.0@),
        register_repo_step(
            dir,
            before,
            pre,
            RegisterRepoReply::Opened(Ok(())),
            inserted,
            mid,
            persist,
        ),
        register_repo_step(
            dir,
            inserted,
            mid,
            RegisterRepoReply::Persisted(Err(e)),
            after,
            post,
            action,
        ),
    ensures
        after == before,
{
    let id = pre.info->0.id.0@;
    crate::state::others_of_a_stranger(before, id);
    reveal(Seq::filter);
    assert(inserted == before.push(pre.info->0));
    assert(inserted.drop_last() =~= before);
}

/// Nothing is registered for a root that does not open.
pub proof fn unopened_repos_are_not_registered(
    dir: Seq<char>,
    before: Seq<RepoInfo>,
    pre: RegisterRepo,
    reply: RegisterRepoReply,
    after: Seq<RepoInfo>,
    post: RegisterRepo,
    action: RegisterRepoAction,
)
    requires
        register_repo_step(dir, before, pre, reply, after, post, action),
        after.len() > before.len(),
    ensures
        pre.phase == RegisterRepoPhase::Opening,
        reply matches RegisterRepoReply::Opened(r) && r is Ok,
{
    if pre.phase == RegisterRepoPhase::Persisting {
        broadcast use vstd::seq_lib::group_filter_ensures;

        before.lemma_filter_len(|i: RepoInfo| i.id.0@ != pre.info->0.id.0@);
    }
}

/// The snapshot of every registered repo. All of them are tried; where one or more
/// failed, the whole fails, and says of each what went wrong.
pub struct SnapshotRepos {
    pub ids: Vec<String>,
    /// How many of them are done.
    pub at: usize,
    /// What went wrong, for each that failed.
    pub failures: Vec<String>,
    pub over: bool,
}

/// What has to be done next to snapshot every repo.
pub enum SnapshotReposAction {
    /// Snapshot all workspaces of the repo.
    Snapshot(String),
    Finish(Result<(), EngineError>),
}

/// What is said of a repo that failed.
pub open spec fn snapshot_failure(id: Seq<char>, said: Seq<char>) -> Seq<char> {
    "snapshot of repo "@ + id + " failed: "@ + said
}

/// `at` repos are done and `failures` came of them.
pub open spec fn repos_goes_on(
    post: SnapshotRepos,
    at: int,
    failures: Seq<Seq<char>>,
    action: SnapshotReposAction,
) -> bool {
    &&& post.at == at
    &&& texts(post.failures@) == failures
    &&& if at < post.ids@.len() {
        &&& !post.over
        &&& action matches SnapshotReposAction::Snapshot(id)
        &&& id@ == post.ids@[at]@
    } else {
        &&& post.over
        &&& action matches SnapshotReposAction::Finish(r)
        &&& match r {
            Ok(_) => failures.len() == 0,
            Err(e) => failures.len() > 0 && e@ == (
                ErrorKind::Internal,
                joined(failures, "; "@),
            ),
        }
    }
}

/// One step of the snapshot of every repo.
pub open spec fn repos_step(
    pre: SnapshotRepos,
    reply: Result<bool, EngineError>,
    post: SnapshotRepos,
    action: SnapshotReposAction,
) -> bool {
    &&& post.ids == pre.ids
    &&& repos_goes_on(
        post,
        pre.at + 1,
        match reply {
            Ok(_) => texts(pre.failures@),
            Err(e) => texts(pre.failures@).push(
                snapshot_failure(pre.ids@[pre.at as int]@, e@.1),
            ),
        },
        action,
    )
}

impl SnapshotRepos {
    pub open spec fn wf(self) -> bool {
        &&& self.at <= self.ids@.len()
        &&& !self.over ==> self.at < self.ids@.len()
    }

    fn go_on(&mut self) -> (action: SnapshotReposAction)
        requires
            old(self).at <= old(self).ids@.len(),
        ensures
            final(self).wf(),
            final(self).ids == old(self).ids,
            repos_goes_on(
                *final(self),
                old(self).at as int,
                texts(old(self).failures@),
                action,
            ),
    {
        if self.at < self.ids.len() {
            self.over = false;
            SnapshotReposAction::Snapshot(self.ids[self.at].clone())
        } else {
            self.over = true;
            if self.failures.len() == 0 {
                SnapshotReposAction::Finish(Ok(()))
            } else {
                SnapshotReposAction::Finish(
                    Err(EngineError::Internal(join(&self.failures, "; "))),
                )
            }
        }
    }

    /// Takes what came of the last snapshot and says what has to be done next.
    pub fn step(&mut self, reply: Result<bool, EngineError>) -> (action: SnapshotReposAction)
        requires
            old(self).wf(),
            !old(self).over,
        ensures
            final(self).wf(),
            repos_step(*old(self), reply, *final(self), action),
    {
        let n: usize = self.ids.len();
        if let Err(e) = reply {
            let said = "snapshot of repo ".to_string().concat(
                self.ids[self.at].as_str(),
            ).concat(" failed: ").concat(e.message());
            self.failures.push(said);
            assert(texts(self.failures@) =~= texts(old(self).failures@).push(said@));
        }
        assert(self.at < n);
        self.at = self.at + 1;
        self.go_on()
    }
}

impl DaemonState {
    /// A snapshot of everything that is registered, and what has to be done first.
    pub fn snapshot_all_repos(&self) -> (r: (SnapshotRepos, SnapshotReposAction))
        ensures
            r.0.wf(),
            r.0.ids@ == self.repos@.map_values(|i: RepoInfo| i.id.0),
            repos_goes_on(r.0, 0, Seq::empty(), r.1),
    {
        let ghost all = self.repos@.map_values(|i: RepoInfo| i.id.0);
        let mut ids: Vec<String> = Vec::new();
        for i in 0..self.repos.len()
            invariant
                all == self.repos@.map_values(|i: RepoInfo| i.id.0),
                ids@ == all.take(i as int),
        {
            ids.push(self.repos[i].id.0.clone());
            assert(ids@ =~= all.take(i + 1));
        }
        assert(ids@ =~= all);
        let mut m = SnapshotRepos { ids, at: 0, failures: Vec::new(), over: true };
        assert(texts(m.failures@) =~= Seq::empty());
        let action = m.go_on();
        (m, action)
    }
}

/// A root that is watched, and the repo that it belongs to.
#[derive(Debug, Clone, PartialEq)]
pub struct WatchedRoot {
    pub id: RepoId,
    pub root: String,
}

/// A repo and its workspaces.
pub struct ListedRepo {
    pub id: RepoId,
    pub workspaces: Vec<WorkspaceInfo>,
}

/// The roots of the workspaces of one repo.
pub open spec fn roots_of(repo: ListedRepo) -> Seq<(Seq<char>, Seq<char>)> {
    repo.workspaces@.map_values(|w: WorkspaceInfo| (repo.id.0@, w.path@))
}

/// The roots of the workspaces of all repos, repo by repo.
pub open spec fn all_roots(repos: Seq<ListedRepo>) -> Seq<(Seq<char>, Seq<char>)>
    decreases repos.len(),
{
    if repos.len() == 0 {
        Seq::empty()
    } else {
        all_roots(repos.drop_last()) + roots_of(repos.last())
    }
}

/// Watched roots without the memory that holds them.
pub open spec fn roots_view(roots: Seq<WatchedRoot>) -> Seq<(Seq<char>, Seq<char>)> {
    roots.map_values(|r: WatchedRoot| (r.id.0@, r.root@))
}

impl DaemonState {
    /// Every root that the watcher has to cover: the workspaces of every repo.
    pub fn workspace_roots(repos: &Vec<ListedRepo>) -> (r: Vec<WatchedRoot>)
        ensures
            roots_view(r@) == all_roots(repos@),
    {
        let mut out: Vec<WatchedRoot> = Vec::new();
        assert(roots_view(out@) =~= all_roots(repos@.take(0)));
        for i in 0..repos.len()
            invariant
                roots_view(out@) == all_roots(repos@.take(i as int)),
        {
            let repo = &repos[i];
            let ghost base = roots_view(out@);
            assert(roots_of(*repo).take(0) =~= Seq::empty());
            for j in 0..repo.workspaces.len()
                invariant
                    roots_view(out@) == base + roots_of(*repo).take(j as int),
            {
                let ghost before = out@;
                out.push(
                    WatchedRoot {
                        id: RepoId(repo.id.0.clone()),
                        root: repo.workspaces[j].path.clone(),
                    },
                );
                assert(roots_view(out@) =~= roots_view(before).push(roots_of(*repo)[j as int]));
                assert(roots_view(out@) =~= base + roots_of(*repo).take(j + 1));
            }
            assert(roots_of(*repo).take(repo.workspaces@.len() as int) =~= roots_of(*repo));
            assert(repos@.take(i + 1).drop_last() =~= repos@.take(i as int));
        }
        assert(repos@.take(repos@.len() as int) =~= repos@);
        out
    }
}

/// What is said of the repos whose snapshots failed, in the order of the repos.
pub open spec fn failures_of(
    ids: Seq<String>,
    replies: Seq<Result<bool, EngineError>>,
) -> Seq<Seq<char>>
    decreases replies.len(),
{
    if replies.len() == 0 {
        Seq::empty()
    } else {
        let before = failures_of(ids, replies.drop_last());
        match replies.last() {
            Ok(_) => before,
            Err(e) => before.push(snapshot_failure(ids[replies.len() - 1]@, e@.1)),
        }
    }
}

proof fn failures_come_of_errors(ids: Seq<String>, replies: Seq<Result<bool, EngineError>>)
    ensures
        failures_of(ids, replies).len() == 0 <==> forall|k: int|
            0 <= k < replies.len() ==> (#[trigger] replies[k]) is Ok,
    decreases replies.len(),
{
    if replies.len() > 0 {
        let front = replies.drop_last();
        failures_come_of_errors(ids, front);
        assert(forall|k: int| 0 <= k < front.len() ==> front[k] == replies[k]);
        assert(replies.last() == replies[replies.len() - 1]);
        if failures_of(ids, replies).len() == 0 {
            assert forall|k: int| 0 <= k < replies.len() implies (#[trigger] replies[k]) is Ok by {
                if k < front.len() {
                    assert(front[k] is Ok);
                }
            }
        }
    }
}

/// A snapshot of every repo from its start on: `actions[0]` comes before any reply.
pub open spec fn is_repos_run(
    states: Seq<SnapshotRepos>,
    replies: Seq<Result<bool, EngineError>>,
    actions: Seq<SnapshotReposAction>,
) -> bool {
    &&& states.len() == replies.len() + 1
    &&& actions.len() == replies.len() + 1
    &&& repos_goes_on(states[0], 0, Seq::empty(), actions[0])
    &&& forall|i: int|
        0 <= i < replies.len() ==> !states[i].over && repos_step(
            states[i],
            #[trigger] replies[i],
            states[i + 1],
            actions[i + 1],
        )
}

proof fn repos_run_counts(
    states: Seq<SnapshotRepos>,
    replies: Seq<Result<bool, EngineError>>,
    actions: Seq<SnapshotReposAction>,
    i: int,
)
    requires
        is_repos_run(states, replies, actions),
        0 <= i < states.len(),
    ensures
        states[i].ids == states[0].ids,
        repos_goes_on(
            states[i],
            i,
            failures_of(states[0].ids@, replies.take(i)),
            actions[i],
        ),
    decreases i,
{
    if i > 0 {
        repos_run_counts(states, replies, actions, i - 1);
        assert(repos_step(states[i - 1], replies[i - 1], states[i], actions[i]));
        assert(replies.take(i).drop_last() =~= replies.take(i - 1));
    } else {
        assert(replies.take(0) =~= Seq::empty());
    }
}

/// Every repo is tried, in turn and whatever came of the others. The whole goes well
/// only where every one did, and else says of each that failed what went wrong.
pub proof fn every_repo_is_tried(
    states: Seq<SnapshotRepos>,
    replies: Seq<Result<bool, EngineError>>,
    actions: Seq<SnapshotReposAction>,
    i: int,
)
    requires
        is_repos_run(states, replies, actions),
        0 <= i < actions.len(),
    ensures
        i < states[0].ids@.len() ==> (actions[i] matches SnapshotReposAction::Snapshot(id) && id@
            == states[0].ids@[i]@),
        i >= states[0].ids@.len() ==> (actions[i] matches SnapshotReposAction::Finish(r) && match r {
            Ok(_) => forall|k: int| 0 <= k < i ==> (#[trigger] replies[k]) is Ok,
            Err(e) => (exists|k: int| 0 <= k < i && (#[trigger] replies[k]) is Err) && e@ == (
                ErrorKind::Internal,
                joined(failures_of(states[0].ids@, replies.take(i)), "; "@),
            ),
        }),
{
    repos_run_counts(states, replies, actions, i);
    failures_come_of_errors(states[0].ids@, replies.take(i));
    assert(forall|k: int| 0 <= k < i ==> replies.take(i)[k] == replies[k]);
    if i >= states[0].ids@.len() && actions[i]->Finish_0 is Err {
        let k = choose|k: int| 0 <= k < i && !((#[trigger] replies.take(i)[k]) is Ok);
        assert(replies[k] is Err);
    }
}

/// The reply is one to what the registration waits for.
pub open spec fn register_expects(phase: RegisterRepoPhase, reply: RegisterRepoReply) -> bool {
    match phase {
        RegisterRepoPhase::Start => reply is Begin,
        RegisterRepoPhase::Canonicalizing => reply is Canonical,
        RegisterRepoPhase::Opening => reply is Opened,
        RegisterRepoPhase::Persisting => reply is Persisted,
        RegisterRepoPhase::Watching => reply is Watched,
        RegisterRepoPhase::Over => false,
    }
}

/// A registration from its start on, each action of which was answered: the states
/// that it and the registered repos went through, the replies, and the action that
/// followed each.
pub open spec fn is_register_run(
    dir: Seq<char>,
    repos: Seq<Seq<RepoInfo>>,
    states: Seq<RegisterRepo>,
    replies: Seq<RegisterRepoReply>,
    actions: Seq<RegisterRepoAction>,
) -> bool {
    &&& states.len() == replies.len() + 1
    &&& repos.len() == replies.len() + 1
    &&& actions.len() == replies.len()
    &&& states[0].phase == RegisterRepoPhase::Start
    &&& forall|i: int|
        0 <= i < replies.len() ==> register_expects(states[i].phase, #[trigger] replies[i])
            && register_repo_step(
            dir,
            repos[i],
            states[i],
            replies[i],
            repos[i + 1],
            states[i + 1],
            actions[i],
        )
}

/// Neither the id nor the root of the registration is registered.
pub open spec fn is_new(repos: Seq<RepoInfo>, info: RepoInfo) -> bool {
    &&& !taken(repos, info.id.0@)
    &&& forall|k: int|
        0 <= k < repos.len() ==> !same_path((#[trigger] repos[k]).root@, info.root@)
}

pub(crate) proof fn register_run_shows(
    dir: Seq<char>,
    repos: Seq<Seq<RepoInfo>>,
    states: Seq<RegisterRepo>,
    replies: Seq<RegisterRepoReply>,
    actions: Seq<RegisterRepoAction>,
    i: int,
)
    requires
        is_register_run(dir, repos, states, replies, actions),
        0 <= i < states.len(),
    ensures
        states[i].phase == RegisterRepoPhase::Start || states[i].phase
            == RegisterRepoPhase::Canonicalizing ==> repos[i] == repos[0],
        states[i].phase == RegisterRepoPhase::Opening ==> {
            &&& repos[i] == repos[0]
            &&& is_new(repos[0], states[i].info->0)
        },
        states[i].phase == RegisterRepoPhase::Persisting || states[i].phase
            == RegisterRepoPhase::Watching ==> {
            &&& repos[i] == repos[0].push(states[i].info->0)
            &&& is_new(repos[0], states[i].info->0)
        },
        states[i].phase == RegisterRepoPhase::Watching ==> i > 0 && (
        replies[i - 1] matches RegisterRepoReply::Persisted(r) && r is Ok),
    decreases i,
{
    if i > 0 {
        register_run_shows(dir, repos, states, replies, actions, i - 1);
        assert(register_repo_step(
            dir,
            repos[i - 1],
            states[i - 1],
            replies[i - 1],
            repos[i],
            states[i],
            actions[i - 1],
        ));
        assert(register_expects(states[i - 1].phase, replies[i - 1]));
        match (states[i - 1].phase, replies[i - 1]) {
            (RegisterRepoPhase::Opening, _) => {
                crate::state::others_of_a_stranger(repos[0], states[i - 1].info->0.id.0@);
            },
            (RegisterRepoPhase::Canonicalizing, RegisterRepoReply::Canonical(Ok(root))) => {
                first_where_is_there(repos[0], of_root(root@));
                assert(forall|k: int|
                    0 <= k < repos[0].len() && same_path(
                        (#[trigger] repos[0][k]).root@,
                        root@,
                    ) ==> of_root(root@)(repos[0][k]));
            },
            _ => {},
        }
    }
}

/// A registration is all or nothing. One that goes well gives a repo that is
/// registered: one that was, with nothing changed, or one that is new, of a root and
/// under an id that were free and with the registry written. One that fails leaves the registered
/// repos as they were.
pub proof fn registrations_are_all_or_nothing(
    dir: Seq<char>,
    repos: Seq<Seq<RepoInfo>>,
    states: Seq<RegisterRepo>,
    replies: Seq<RegisterRepoReply>,
    actions: Seq<RegisterRepoAction>,
    i: int,
)
    requires
        is_register_run(dir, repos, states, replies, actions),
        0 <= i < actions.len(),
        actions[i] is Finish,
    ensures
        match actions[i]->Finish_0 {
            Ok(info) => {
                ||| repos[i + 1] == repos[0] && repos[0].contains(info)
                ||| {
                    &&& repos[i + 1] == repos[0].push(info)
                    &&& is_new(repos[0], info)
                    &&& i > 0 && (replies[i - 1] matches RegisterRepoReply::Persisted(r) && r is Ok)
                }
            },
            Err(_) => repos[i + 1] == repos[0],
        },
{
    register_run_shows(dir, repos, states, replies, actions, i);
    assert(register_expects(states[i].phase, replies[i]));
    assert(register_repo_step(
        dir,
        repos[i],
        states[i],
        replies[i],
        repos[i + 1],
        states[i + 1],
        actions[i],
    ));
    match (states[i].phase, replies[i]) {
        (RegisterRepoPhase::Canonicalizing, RegisterRepoReply::Canonical(Ok(root))) => {
            first_where_is_there(repos[0], of_root(root@));
        },
        (RegisterRepoPhase::Persisting, RegisterRepoReply::Persisted(Err(_))) => {
            let info = states[i].info->0;
            crate::state::others_of_a_stranger(repos[0], info.id.0@);
            reveal(Seq::filter);
            assert(repos[0].push(info).drop_last() =~= repos[0]);
        },
        _ => {},
    }
}

} // verus!
