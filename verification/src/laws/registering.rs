//! The registry holds what was registered, and what changes in a root is seen there.

use vstd::prelude::*;
use vstd::string::*;

#[allow(unused_imports)]
use crate::error::{EngineError, ErrorKind, RegisterError};
#[allow(unused_imports)]
use crate::laws::texts::{order_is_by_first_difference, stands_before};
#[allow(unused_imports)]
use crate::laws::{fails, passes_on};
#[allow(unused_imports)]
use crate::lists::{first_where, first_where_is_there};
#[allow(unused_imports)]
use crate::paths::{components, file_name, joined_path, same_path, within};
#[allow(unused_imports)]
use crate::proto::RepoInfo;
#[allow(unused_imports)]
use crate::registry::{
    all_roots, is_load_run, is_register_run, is_repos_run, load_step, register_repo_step,
    repos_goes_on, repos_step, roots_view, ListedRepo, Load, LoadAction, LoadPhase, LoadReply,
    RegisterRepo, RegisterRepoAction, RegisterRepoPhase, RegisterRepoReply, SnapshotRepos,
    SnapshotReposAction, WatchedRoot,
};
#[allow(unused_imports)]
use crate::state::{is_fresh_id, of_id, of_root, others, taken, DaemonState, Persist, Resolution};
#[allow(unused_imports)]
use crate::text::{decimal, joined};

verus! {

/// A new repo is registered under the name of its directory, and where that is taken,
/// under the name with the first number from two on that is not.
pub proof fn new_ids_are_free(state: &DaemonState, name: &str, r: String, k: int) -> (n: nat)
    requires
        call_ensures(DaemonState::fresh_id, (state, name), r),
    ensures
        0 <= k < state.repos@.len() ==> state.repos@[k].id.0@ != r@,
        (forall|i: int| 0 <= i < state.repos@.len() ==> (#[trigger] state.repos@[i]).id.0@ != name@)
            ==> r@ == name@,
        (exists|i: int| 0 <= i < state.repos@.len() && (#[trigger] state.repos@[i]).id.0@ == name@)
            ==> n >= 2 && r@ == name@ + "-"@ + decimal(n) && forall|m: nat|
            2 <= m < n ==> exists|i: int|
                0 <= i < state.repos@.len() && (#[trigger] state.repos@[i]).id.0@ == name@ + "-"@
                    + #[trigger] decimal(m),
{
    fresh_ids_are_free(state.repos@, name@, r@, k)
}

proof fn fresh_ids_are_free(repos: Seq<RepoInfo>, name: Seq<char>, r: Seq<char>, k: int) -> (n: nat)
    requires
        is_fresh_id(repos, name, r),
    ensures
        0 <= k < repos.len() ==> repos[k].id.0@ != r,
        (forall|i: int| 0 <= i < repos.len() ==> (#[trigger] repos[i]).id.0@ != name) ==> r == name,
        (exists|i: int| 0 <= i < repos.len() && (#[trigger] repos[i]).id.0@ == name) ==> n >= 2 && r
            == name + "-"@ + decimal(n) && forall|m: nat|
            2 <= m < n ==> exists|i: int|
                0 <= i < repos.len() && (#[trigger] repos[i]).id.0@ == name + "-"@
                    + #[trigger] decimal(m),
{
    if taken(repos, name) {
        let n = choose|n: nat|
            n >= 2 && r == #[trigger] crate::state::numbered(name, n) && forall|m: nat|
                2 <= m < n ==> taken(repos, #[trigger] crate::state::numbered(name, m));
        assert forall|m: nat| 2 <= m < n implies exists|i: int|
            0 <= i < repos.len() && (#[trigger] repos[i]).id.0@ == name + "-"@
                + #[trigger] decimal(m) by {
            assert(taken(repos, crate::state::numbered(name, m)));
        }
        n
    } else {
        0
    }
}

/// A registration comes last, in place of the one of its id; one that is dropped is gone;
/// and the others stay.
pub proof fn registrations_come_and_go_by_id(
    state: &mut DaemonState,
    info: RepoInfo,
    id: &str,
    k: int,
) -> (j: int)
    requires
        0 <= k < old(state).repos@.len(),
    ensures
        call_ensures(DaemonState::remove, (state, id), ()) ==> {
            &&& final(state).dir == old(state).dir
            &&& forall|i: int|
                0 <= i < final(state).repos@.len() ==> (#[trigger] final(state).repos@[i]).id.0@
                    != id@ && old(state).repos@.contains(final(state).repos@[i])
            &&& old(state).repos@[k].id.0@ != id@ ==> 0 <= j < final(state).repos@.len()
                && final(state).repos@[j] == old(state).repos@[k]
        },
        call_ensures(DaemonState::insert, (state, info), ()) && id@ == info.id.0@ ==> {
            &&& final(state).dir == old(state).dir
            &&& final(state).repos@.len() > 0
            &&& final(state).repos@.last() == info
            &&& forall|i: int|
                0 <= i < final(state).repos@.len() - 1 ==> (#[trigger] final(state).repos@[i]).id.0@
                    != id@ && old(state).repos@.contains(final(state).repos@[i])
            &&& old(state).repos@[k].id.0@ != id@ ==> 0 <= j < final(state).repos@.len() - 1
                && final(state).repos@[j] == old(state).repos@[k]
        },
{
    let keep = |i: RepoInfo| i.id.0@ != id@;
    let before = old(state).repos@;
    let kept = before.filter(keep);
    assert forall|i: int| 0 <= i < kept.len() implies (#[trigger] kept[i]).id.0@ != id@
        && before.contains(kept[i]) by {
        let r = crate::files::filter_comes_from(before, keep, i, i);
        assert(before[r.0] == kept[i]);
    }
    if before[k].id.0@ != id@ {
        crate::files::filter_keeps_each(before, keep, k)
    } else {
        0
    }
}

/// A repo is found by its id; what is no id and begins at the root is a path, to be made
/// canonical; anything else is unknown.
pub proof fn repos_are_found_by_id(
    state: &DaemonState,
    asked: &str,
    found: Option<&RepoInfo>,
    r: Resolution,
    k: int,
)
    requires
        state.wf(),
        call_ensures(DaemonState::lookup, (state, asked), found),
        call_ensures(DaemonState::resolve, (state, asked), r),
    ensures
        0 <= k < state.repos@.len() && state.repos@[k].id.0@ == asked@ ==> found == Some(
            &state.repos@[k],
        ) && r == Resolution::Known(state.repos@[k]),
        (forall|i: int| 0 <= i < state.repos@.len() ==> (#[trigger] state.repos@[i]).id.0@ != asked@)
            ==> found is None && if asked@.len() > 0 && asked@[0] == '/' {
            r matches Resolution::Canonicalize(path) && path@ == asked@
        } else {
            r is Unknown
        },
{
    first_where_is_there(state.repos@, of_id(asked@));
    if 0 <= k < state.repos@.len() && state.repos@[k].id.0@ == asked@ {
        crate::state::registered_ids_resolve(*state, k);
    }
}

/// The repo that a path lies in is the one with the deepest root around it.
pub proof fn paths_belong_to_the_deepest_root(
    state: &DaemonState,
    path: &str,
    r: Option<RepoInfo>,
    k: int,
)
    requires
        call_ensures(DaemonState::containing, (state, path), r),
        0 <= k < state.repos@.len(),
    ensures
        r is None ==> !within(path@, state.repos@[k].root@),
        r matches Some(i) ==> state.repos@.contains(i) && within(path@, i.root@) && (within(
            path@,
            state.repos@[k].root@,
        ) ==> components(state.repos@[k].root@).len() <= components(i.root@).len()),
{
    if r is None {
        assert(crate::state::in_no_root(state.repos@, path@));
    }
}

/// The registrations are listed by id, and the registry is rewritten with that list: to a
/// file beside it that then takes its place.
pub proof fn registries_are_written_in_order(
    state: &DaemonState,
    dir: String,
    start: DaemonState,
    list: Vec<RepoInfo>,
    p: Persist,
    i: int,
    j: int,
)
    requires
        call_ensures(DaemonState::list, (state,), list),
        call_ensures(DaemonState::persist, (state,), p),
        call_ensures(DaemonState::new, (dir,), start),
    ensures
        start.dir == dir && start.repos@.len() == 0,
        lists(list@, state.repos@, i, j),
        writes(p, state.dir@, state.repos@, i, j),
{
    sorted_lists(state.repos@, list@, i, j);
    sorted_lists(state.repos@, p.infos@, i, j);
}

/// The list holds the registrations, each as often, by id: `i` and `j` are any two places.
pub open spec fn lists(list: Seq<RepoInfo>, repos: Seq<RepoInfo>, i: int, j: int) -> bool {
    &&& list.to_multiset() == repos.to_multiset()
    &&& list.len() == repos.len()
    &&& 0 <= i < j < list.len() ==> stands_before(list[i].id.0@, list[j].id.0@)
    &&& 0 <= i < repos.len() ==> list.contains(repos[i])
    &&& 0 <= i < list.len() ==> repos.contains(list[i])
}

/// The rewrite puts the registrations into the registry of the directory.
pub open spec fn writes(p: Persist, dir: Seq<char>, repos: Seq<RepoInfo>, i: int, j: int) -> bool {
    &&& p.tmp@ == joined_path(dir, "repos.json.tmp"@)
    &&& p.path@ == joined_path(dir, "repos.json"@)
    &&& lists(p.infos@, repos, i, j)
}

proof fn sorted_lists(repos: Seq<RepoInfo>, list: Seq<RepoInfo>, i: int, j: int)
    requires
        crate::sort::sorts(repos, list),
    ensures
        lists(list, repos, i, j),
{
    crate::commits::sorts_keeps_members(repos, list);
    if 0 <= i < j < list.len() {
        assert(crate::sort::Ordered::le(list[i], list[j]));
        order_is_by_first_difference(list[i].id.0@, list[j].id.0@);
    }
}

/// A registration is started for the path that is named, and goes by its steps.
pub proof fn registers_go_by_steps(
    state: &DaemonState,
    path: String,
    start: RegisterRepo,
    m: &mut RegisterRepo,
    changing: &mut DaemonState,
    reply: RegisterRepoReply,
    action: RegisterRepoAction,
)
    ensures
        call_requires(DaemonState::register, (state, path)),
        call_ensures(DaemonState::register, (state, path), start) ==> start.path == path
            && start.phase == RegisterRepoPhase::Start && start.wf(),
        old(m).wf() ==> call_requires(RegisterRepo::step, (m, changing, reply)),
        call_ensures(RegisterRepo::step, (m, changing, reply), action) ==> final(m).wf() && (old(
            changing,
        ).wf() ==> final(changing).wf()) && final(changing).dir == old(changing).dir
            && register_repo_step(
            old(changing).dir@,
            old(changing).repos@,
            *old(m),
            reply,
            final(changing).repos@,
            *final(m),
            action,
        ),
{
}

/// A registration, action by action: the path that was named is made canonical; where
/// that root is registered, its registration is the answer; else the repo is opened, put
/// beside the others under a free id made of the name of its directory, written down,
/// watched and answered.
pub proof fn register_run_in_full(
    dir: Seq<char>,
    repos: Seq<Seq<RepoInfo>>,
    states: Seq<RegisterRepo>,
    replies: Seq<RegisterRepoReply>,
    actions: Seq<RegisterRepoAction>,
    i: int,
    a: int,
    b: int,
)
    requires
        is_register_run(dir, repos, states, replies, actions),
        0 <= i < actions.len(),
    ensures
        i == 0 ==> (actions[0] matches RegisterRepoAction::Canonicalize(path) && path@
            == states[0].path@) && repos[1] == repos[0],
        i == 1 ==> repos[2] == repos[1] && match replies[1]->Canonical_0 {
            Err(said) => actions[1] matches RegisterRepoAction::Finish(r) && (
            r matches Err(RegisterError::Invalid(m)) && m@ == "path "@ + states[0].path@ + ": "@
                + said@),
            Ok(root) => if exists|k: int|
                0 <= k < repos[0].len() && same_path((#[trigger] repos[0][k]).root@, root@) {
                actions[1] matches RegisterRepoAction::Finish(r) && (r matches Ok(known)
                    && repos[0].contains(known) && same_path(known.root@, root@))
            } else if file_name(root@) is None {
                actions[1] matches RegisterRepoAction::Finish(r) && (
                r matches Err(RegisterError::Invalid(m)) && m@ == "cannot derive a repo id from "@
                    + root@)
            } else {
                actions[1] matches RegisterRepoAction::Open(info) && info.root@ == root@
                    && is_fresh_id(repos[0], file_name(root@)->0, info.id.0@)
            },
        },
        i == 2 ==> match replies[2]->Opened_0 {
            Err(e) => repos[3] == repos[0] && (actions[2] matches RegisterRepoAction::Finish(r) && (
            r matches Err(RegisterError::Invalid(m)) && m@ == e@.1)),
            Ok(_) => repos[3] == repos[0].push(actions[1]->Open_0) && (
            actions[2] matches RegisterRepoAction::Persist(p) && writes(p, dir, repos[3], a, b)),
        },
        i == 3 ==> match replies[3]->Persisted_0 {
            Err(e) => repos[4] == repos[0] && (actions[3] matches RegisterRepoAction::Finish(r) && (
            r matches Err(RegisterError::Internal(m)) && m@ == e@.1)),
            Ok(_) => repos[4] == repos[3] && (actions[3] matches RegisterRepoAction::Watch(info)
                && info == actions[1]->Open_0),
        },
        i == 4 ==> repos[5] == repos[4] && (actions[4] matches RegisterRepoAction::Finish(r) && (
        r matches Ok(info) && info == actions[1]->Open_0)),
        i <= 4,
{
    register_phases(dir, repos, states, replies, actions, i);
    crate::registry::register_run_shows(dir, repos, states, replies, actions, i);
    assert(crate::registry::register_expects(states[i].phase, replies[i]));
    assert(register_repo_step(
        dir,
        repos[i],
        states[i],
        replies[i],
        repos[i + 1],
        states[i + 1],
        actions[i],
    ));
    if i == 1 && replies[1]->Canonical_0 is Ok {
        let root = replies[1]->Canonical_0->Ok_0@;
        let p = of_root(root);
        first_where_is_there(repos[0], p);
        match first_where(repos[0], p) {
            Some(known) => {
                let k = choose|k: int| 0 <= k < repos[0].len() && repos[0][k] == known;
                assert(same_path(repos[0][k].root@, root));
            },
            None => {
                assert forall|k: int| 0 <= k < repos[0].len() implies !same_path(
                    (#[trigger] repos[0][k]).root@,
                    root,
                ) by {
                    assert(!p(repos[0][k]));
                }
            },
        }
    }
    if i == 2 {
        crate::state::others_of_a_stranger(repos[0], states[2].info->0.id.0@);
        if actions[2] is Persist {
            sorted_lists(repos[3], actions[2]->Persist_0.infos@, a, b);
        }
    }
    if i == 3 && replies[3]->Persisted_0 is Err {
        let info = states[3].info->0;
        crate::state::others_of_a_stranger(repos[0], info.id.0@);
        reveal(Seq::filter);
        assert(repos[0].push(info).drop_last() =~= repos[0]);
        assert(others(repos[3], info.id.0@) == others(repos[0], info.id.0@));
    }
}

proof fn register_phases(
    dir: Seq<char>,
    repos: Seq<Seq<RepoInfo>>,
    states: Seq<RegisterRepo>,
    replies: Seq<RegisterRepoReply>,
    actions: Seq<RegisterRepoAction>,
    i: int,
)
    requires
        is_register_run(dir, repos, states, replies, actions),
        0 <= i < states.len(),
    ensures
        states[i].path == states[0].path,
        i == 0 ==> states[i].phase == RegisterRepoPhase::Start,
        i < replies.len() ==> states[i].phase == (if i == 0 {
            RegisterRepoPhase::Start
        } else if i == 1 {
            RegisterRepoPhase::Canonicalizing
        } else if i == 2 {
            RegisterRepoPhase::Opening
        } else if i == 3 {
            RegisterRepoPhase::Persisting
        } else {
            RegisterRepoPhase::Watching
        }) && i <= 4,
        states[i].phase == RegisterRepoPhase::Canonicalizing ==> i == 1,
        states[i].phase == RegisterRepoPhase::Opening ==> i == 2,
        states[i].phase == RegisterRepoPhase::Persisting ==> i == 3,
        states[i].phase == RegisterRepoPhase::Watching ==> i == 4,
        states[i].phase == RegisterRepoPhase::Start ==> i == 0,
        2 <= i < replies.len() ==> states[i].info is Some && actions[1] == RegisterRepoAction::Open(
            states[i].info->0,
        ),
        i <= 2 ==> repos[i] == repos[0],
    decreases i,
{
    if i > 0 {
        register_phases(dir, repos, states, replies, actions, i - 1);
        assert(crate::registry::register_expects(states[i - 1].phase, replies[i - 1]));
        assert(register_repo_step(
            dir,
            repos[i - 1],
            states[i - 1],
            replies[i - 1],
            repos[i],
            states[i],
            actions[i - 1],
        ));
        if i < replies.len() {
            assert(crate::registry::register_expects(states[i].phase, replies[i]));
        }
    }
}

/// A load is started for the directory that is named, and goes by its steps.
pub proof fn loads_go_by_steps(
    dir: String,
    start: Load,
    m: &mut Load,
    reply: LoadReply,
    action: LoadAction,
)
    ensures
        call_requires(DaemonState::load, (dir,)),
        call_ensures(DaemonState::load, (dir,), start) ==> start.state.dir == dir
            && start.state.repos@.len() == 0 && start.phase == LoadPhase::Start && !start.dropped
            && start.wf(),
        old(m).wf() ==> call_requires(Load::step, (m, reply)),
        call_ensures(Load::step, (m, reply), action) ==> final(m).wf() && load_step(
            *old(m),
            reply,
            *final(m),
            action,
        ),
{
}

/// How many entries of the registry were dealt with: not there, or tried to open.
pub open spec fn gone_through(replies: Seq<LoadReply>, i: int) -> int
    decreases i,
{
    if i <= 0 {
        0
    } else {
        gone_through(replies, i - 1) + if replies[i - 1] == LoadReply::IsDirectory(false)
            || replies[i - 1] is Opened {
            1
        } else {
            0int
        }
    }
}

/// Some entry was not there or did not open.
pub open spec fn was_dropped(reply: LoadReply) -> bool {
    reply == LoadReply::IsDirectory(false) || (reply matches LoadReply::Opened(r) && r is Err)
}

/// A load, action by action: the registry of the directory is read where there is one;
/// every entry has its turn, in order, its own root being looked at and the entry itself
/// opened; what is written back is what was loaded.
pub proof fn load_run_in_full(
    states: Seq<Load>,
    replies: Seq<LoadReply>,
    actions: Seq<LoadAction>,
    i: int,
    a: int,
    b: int,
)
    requires
        is_load_run(states, replies, actions),
        0 <= i < actions.len(),
    ensures
        i == 0 && replies[0] is Begin ==> (actions[0] matches LoadAction::LookFor(path) && path@
            == joined_path(states[0].state.dir@, "repos.json"@)),
        i == 1 && actions[0] is LookFor && replies[1] is Exists ==> if replies[1]->Exists_0 {
            actions[1] matches LoadAction::Read(path) && path@ == joined_path(
                states[0].state.dir@,
                "repos.json"@,
            )
        } else {
            actions[1] matches LoadAction::Finish(r) && r is Ok
        },
        i == 2 && actions[1] is Read && (replies[2] matches LoadReply::Registry(r) && r is Err) ==> (
        actions[2] matches LoadAction::Finish(r) && passes_on(r, replies[2]->Registry_0->Err_0)),
        i == 2 && actions[1] is Read && (replies[2] matches LoadReply::Registry(r) && r is Ok) || i
            > 2 && actions[i - 1] is Look && replies[i] == LoadReply::IsDirectory(false) || i > 2
            && actions[i - 1] is Open && replies[i] is Opened ==> {
            let infos = replies[2]->Registry_0->Ok_0@;
            let k = gone_through(replies, i + 1);
            if k < infos.len() {
                actions[i] matches LoadAction::Look(root) && root@ == infos[k].root@
            } else if exists|j: int| 0 <= j <= i && was_dropped(#[trigger] replies[j]) {
                actions[i] matches LoadAction::Persist(p) && writes(
                    p,
                    states[0].state.dir@,
                    states[i + 1].state.repos@,
                    a,
                    b,
                )
            } else {
                actions[i] matches LoadAction::Finish(r) && r is Ok
            }
        },
        i > 2 && actions[i - 1] is Look && replies[i] == LoadReply::IsDirectory(true) ==> (
        actions[i] matches LoadAction::Open(info) && gone_through(replies, i)
            < replies[2]->Registry_0->Ok_0@.len() && info
            == replies[2]->Registry_0->Ok_0@[gone_through(replies, i)]),
        i > 2 && actions[i - 1] is Persist && replies[i] is Persisted ==> match replies[i]->Persisted_0 {
            Ok(_) => actions[i] matches LoadAction::Finish(r) && r is Ok,
            Err(e) => actions[i] matches LoadAction::Finish(r) && passes_on(r, e),
        },
        states[i + 1].state.dir == states[0].state.dir,
{
    load_phases(states, replies, actions, i);
    load_phases(states, replies, actions, i + 1);
    assert(load_step(states[i], replies[i], states[i + 1], actions[i]));
    let was = exists|j: int| 0 <= j < i && was_dropped(#[trigger] replies[j]);
    if was {
        let j = choose|j: int| 0 <= j < i && was_dropped(#[trigger] replies[j]);
        assert(was_dropped(replies[j]));
    }
    assert(was_dropped(replies[i]) == was_dropped(replies[i]));
    if actions[i] is Persist {
        sorted_lists(states[i + 1].state.repos@, actions[i]->Persist_0.infos@, a, b);
    }
}

proof fn load_phases(
    states: Seq<Load>,
    replies: Seq<LoadReply>,
    actions: Seq<LoadAction>,
    i: int,
)
    requires
        is_load_run(states, replies, actions),
        0 <= i < states.len(),
    ensures
        states[i].state.dir == states[0].state.dir,
        states[i].phase == LoadPhase::Start <==> i == 0,
        states[i].phase == LoadPhase::LookForRegistry <==> i > 0 && actions[i - 1] is LookFor,
        states[i].phase == LoadPhase::LookForRegistry ==> i == 1,
        states[i].phase == LoadPhase::Reading <==> i > 0 && actions[i - 1] is Read,
        states[i].phase == LoadPhase::Reading ==> i == 2,
        states[i].phase == LoadPhase::Looking <==> i > 0 && actions[i - 1] is Look,
        states[i].phase == LoadPhase::Opening <==> i > 0 && actions[i - 1] is Open,
        states[i].phase == LoadPhase::Persisting <==> i > 0 && actions[i - 1] is Persist,
        states[i].phase == LoadPhase::Over <==> i > 0 && actions[i - 1] is Finish,
        i > 0 && states[i].phase != LoadPhase::Over && i <= 2 ==> gone_through(replies, i) == 0 && (
        forall|j: int| 0 <= j < i ==> !was_dropped(#[trigger] replies[j])),
        states[i].phase == LoadPhase::Looking || states[i].phase == LoadPhase::Opening
            || states[i].phase == LoadPhase::Persisting ==> i > 2 && (
        replies[2] matches LoadReply::Registry(r) && (r matches Ok(infos) && infos@
            == states[i].infos@)) && states[i].at == gone_through(replies, i) && states[i].at
            <= states[i].infos@.len() && (states[i].dropped <==> exists|j: int|
            0 <= j < i && was_dropped(#[trigger] replies[j])),
        states[i].phase == LoadPhase::Looking || states[i].phase == LoadPhase::Opening
            ==> states[i].at < states[i].infos@.len(),
    decreases i,
{
    if i > 0 {
        load_phases(states, replies, actions, i - 1);
        assert(load_step(states[i - 1], replies[i - 1], states[i], actions[i - 1]));
        if exists|j: int| 0 <= j < i - 1 && was_dropped(#[trigger] replies[j]) {
            let j = choose|j: int| 0 <= j < i - 1 && was_dropped(#[trigger] replies[j]);
            assert(was_dropped(replies[j]));
        }
        assert(was_dropped(replies[i - 1]) == was_dropped(replies[i - 1]));
        if i <= 2 && states[i].phase != LoadPhase::Over {
            assert(states[i - 1].phase != LoadPhase::Over);
            assert(!was_dropped(replies[i - 1]));
            assert(gone_through(replies, i) == gone_through(replies, i - 1));
            assert forall|j: int| 0 <= j < i implies !was_dropped(#[trigger] replies[j]) by {
                if j < i - 1 {
                    assert(!was_dropped(replies[j]));
                }
            }
        }
    }
}

/// A snapshot of every repo is started with every registered repo, in the order of the
/// registrations, and goes by its steps.
pub proof fn repo_snapshots_go_by_steps(
    state: &DaemonState,
    r: (SnapshotRepos, SnapshotReposAction),
    m: &mut SnapshotRepos,
    reply: Result<bool, EngineError>,
    action: SnapshotReposAction,
    k: int,
)
    ensures
        call_ensures(DaemonState::snapshot_all_repos, (state,), r) ==> r.0.wf() && r.0.ids@.len()
            == state.repos@.len() && (0 <= k < r.0.ids@.len() ==> r.0.ids@[k]@
            == state.repos@[k].id.0@) && repos_goes_on(r.0, 0, Seq::empty(), r.1),
        old(m).wf() && !old(m).over ==> call_requires(SnapshotRepos::step, (m, reply)),
        call_ensures(SnapshotRepos::step, (m, reply), action) ==> final(m).wf() && repos_step(
            *old(m),
            reply,
            *final(m),
            action,
        ),
{
}

/// What is said of the repos that failed, each by its id.
pub open spec fn complaints(ids: Seq<String>, replies: Seq<Result<bool, EngineError>>, n: int) -> Seq<
    Seq<char>,
>
    decreases n,
{
    if n <= 0 {
        Seq::empty()
    } else {
        let before = complaints(ids, replies, n - 1);
        match replies[n - 1] {
            Ok(_) => before,
            Err(e) => before.push(
                "snapshot of repo "@ + ids[n - 1]@ + " failed: "@ + e@.1,
            ),
        }
    }
}

/// Every repo is tried, by its own id and in turn; a failure of some is told of each of
/// those, and the whole goes well where none failed.
pub proof fn failed_repos_are_told(
    states: Seq<SnapshotRepos>,
    replies: Seq<Result<bool, EngineError>>,
    actions: Seq<SnapshotReposAction>,
    i: int,
)
    requires
        is_repos_run(states, replies, actions),
        0 <= i < actions.len(),
    ensures
        i < states[0].ids@.len() ==> (actions[i] matches SnapshotReposAction::Snapshot(id) && id@
            == states[0].ids@[i]@),
        i >= states[0].ids@.len() ==> (actions[i] matches SnapshotReposAction::Finish(r) && (
        r is Ok <==> forall|k: int| 0 <= k < i ==> (#[trigger] replies[k]) is Ok) && (r is Err
            ==> fails(
            r,
            ErrorKind::Internal,
            joined(complaints(states[0].ids@, replies, i), "; "@),
        ))),
{
    crate::registry::every_repo_is_tried(states, replies, actions, i);
    complaints_are_failures(states[0].ids@, replies, i);
}

proof fn complaints_are_failures(
    ids: Seq<String>,
    replies: Seq<Result<bool, EngineError>>,
    n: int,
)
    requires
        0 <= n <= replies.len(),
    ensures
        complaints(ids, replies, n) == crate::registry::failures_of(ids, replies.take(n)),
    decreases n,
{
    if n > 0 {
        complaints_are_failures(ids, replies, n - 1);
        assert(replies.take(n).drop_last() =~= replies.take(n - 1));
        assert(replies.take(n).last() == replies[n - 1]);
    }
}

/// Every workspace of every repo is watched, at its own place and for its own repo, and
/// nothing else is.
pub proof fn every_workspace_is_watched(
    repos: &Vec<ListedRepo>,
    r: Vec<WatchedRoot>,
    k: int,
    w: int,
    n: int,
)
    requires
        call_ensures(DaemonState::workspace_roots, (repos,), r),
    ensures
        0 <= k < repos@.len() && 0 <= w < repos@[k].workspaces@.len() ==> exists|m: int|
            0 <= m < r@.len() && (#[trigger] r@[m]).id.0@ == repos@[k].id.0@ && r@[m].root@
                == repos@[k].workspaces@[w].path@,
        0 <= n < r@.len() ==> exists|a: int, b: int|
            0 <= a < repos@.len() && 0 <= b < repos@[a].workspaces@.len() && r@[n].id.0@ == (
            #[trigger] repos@[a]).id.0@ && r@[n].root@ == (
            #[trigger] repos@[a].workspaces@[b]).path@,
{
    let all = all_roots(repos@);
    assert(roots_view(r@).len() == r@.len());
    if 0 <= k < repos@.len() && 0 <= w < repos@[k].workspaces@.len() {
        let m = root_is_among(repos@, k, w);
        assert(roots_view(r@)[m] == (r@[m].id.0@, r@[m].root@));
    }
    if 0 <= n < r@.len() {
        let (a, b) = root_is_of(repos@, n);
        assert(roots_view(r@)[n] == (r@[n].id.0@, r@[n].root@));
        assert(repos@[a].workspaces@[b].path@ == r@[n].root@);
    }
}

proof fn root_is_among(repos: Seq<ListedRepo>, k: int, w: int) -> (m: int)
    requires
        0 <= k < repos.len(),
        0 <= w < repos[k].workspaces@.len(),
    ensures
        0 <= m < all_roots(repos).len(),
        all_roots(repos)[m] == (repos[k].id.0@, repos[k].workspaces@[w].path@),
    decreases repos.len(),
{
    let front = repos.drop_last();
    if k < front.len() {
        root_is_among(front, k, w)
    } else {
        all_roots(front).len() + w
    }
}

proof fn root_is_of(repos: Seq<ListedRepo>, n: int) -> (r: (int, int))
    requires
        0 <= n < all_roots(repos).len(),
    ensures
        0 <= r.0 < repos.len(),
        0 <= r.1 < repos[r.0].workspaces@.len(),
        all_roots(repos)[n] == (repos[r.0].id.0@, repos[r.0].workspaces@[r.1].path@),
    decreases repos.len(),
{
    let front = repos.drop_last();
    if n < all_roots(front).len() {
        root_is_of(front, n)
    } else {
        (repos.len() - 1, n - all_roots(front).len())
    }
}

} // verus!
