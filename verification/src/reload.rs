//! What the registry on disk comes to: it is never behind what is registered, so
//! that a daemon that is started again has the repos that the last one had.

use vstd::prelude::*;
use vstd::string::*;

#[allow(unused_imports)]
use crate::paths::same_path;
#[allow(unused_imports)]
use crate::proto::RepoInfo;
#[allow(unused_imports)]
use crate::registry::{
    has_entries, is_load_run, is_new, is_register_run, kept, load_run_shows, load_step,
    loading_keeps_what_opens, outcomes, register_expects, register_repo_step, register_run_shows,
    registering_is_idempotent, registrations_are_all_or_nothing, Load, LoadAction, LoadPhase,
    LoadReply, RegisterRepo, RegisterRepoAction, RegisterRepoPhase, RegisterRepoReply,
};
#[allow(unused_imports)]
use crate::sort::{ordered, sorts, Ordered};
#[allow(unused_imports)]
use crate::state::{
    ids_differ, others, others_differ, others_keep_roots_apart, others_of_a_stranger, persists,
    roots_differ, Persist,
};
#[allow(unused_imports)]
use crate::text::text_le_antisymmetric;

verus! {

/// Every one of `n` entries is there and opens.
pub open spec fn all_open(n: nat) -> Seq<bool> {
    Seq::new(n, |i: int| true)
}

/// What a load makes of a registry whose every entry is there and opens.
pub open spec fn reloaded(disk: Seq<RepoInfo>) -> Seq<RepoInfo> {
    kept(disk, all_open(disk.len()))
}

/// The registry on disk is one of the repos that are registered. No registry is one
/// without entries.
pub open spec fn stores(disk: Seq<RepoInfo>, repos: Seq<RepoInfo>) -> bool {
    &&& ids_differ(repos)
    &&& reloaded(disk).to_multiset() == repos.to_multiset()
}

proof fn distinct_entries_are_kept(disk: Seq<RepoInfo>, n: nat)
    requires
        ids_differ(disk),
        n <= disk.len(),
    ensures
        kept(disk, all_open(n)) == disk.take(n as int),
    decreases n,
{
    if n > 0 {
        let m = (n - 1) as nat;
        distinct_entries_are_kept(disk, m);
        assert(all_open(n).drop_last() =~= all_open(m));
        let before = disk.take(m as int);
        assert forall|k: int| 0 <= k < before.len() implies (#[trigger] before[k]).id.0@
            != disk[m as int].id.0@ by {
            assert(before[k] == disk[k]);
        }
        others_of_a_stranger(before, disk[m as int].id.0@);
        assert(disk.take(n as int) =~= before.push(disk[m as int]));
    } else {
        assert(disk.take(0) =~= Seq::empty());
    }
}

proof fn same_members<T>(a: Seq<T>, b: Seq<T>, x: T)
    requires
        a.to_multiset() == b.to_multiset(),
        a.contains(x),
    ensures
        b.contains(x),
{
    a.to_multiset_ensures();
    b.to_multiset_ensures();
    assert(a.to_multiset().count(x) > 0);
}

/// Registrations keep their ids apart in whatever order they stand.
proof fn reordering_keeps_ids_apart(a: Seq<RepoInfo>, b: Seq<RepoInfo>)
    requires
        a.to_multiset() == b.to_multiset(),
        ids_differ(a),
    ensures
        ids_differ(b),
{
    assert(a.no_duplicates()) by {
        assert forall|i: int, j: int| 0 <= i < a.len() && 0 <= j < a.len() && i != j implies a[i]
            != a[j] by {
            if i < j {
                assert(a[i].id.0@ != a[j].id.0@);
            } else {
                assert(a[j].id.0@ != a[i].id.0@);
            }
        }
    }
    a.lemma_multiset_has_no_duplicates();
    b.lemma_multiset_has_no_duplicates_conv();
    assert forall|i: int, j: int| 0 <= i < j < b.len() implies (#[trigger] b[i]).id.0@ != (
    #[trigger] b[j]).id.0@ by {
        assert(b.contains(b[i]) && b.contains(b[j]));
        same_members(b, a, b[i]);
        same_members(b, a, b[j]);
        let k = choose|k: int| 0 <= k < a.len() && a[k] == b[i];
        let l = choose|l: int| 0 <= l < a.len() && a[l] == b[j];
        assert(b[i] != b[j]);
        if k < l {
            assert(a[k].id.0@ != a[l].id.0@);
        } else if l < k {
            assert(a[l].id.0@ != a[k].id.0@);
        }
    }
}

/// A registry that was written holds what was registered.
proof fn written_registry_stores(p: Persist, dir: Seq<char>, repos: Seq<RepoInfo>)
    requires
        persists(p, dir, repos),
        ids_differ(repos),
    ensures
        stores(p.infos@, repos),
{
    reordering_keeps_ids_apart(repos, p.infos@);
    distinct_entries_are_kept(p.infos@, p.infos@.len());
    assert(p.infos@.take(p.infos@.len() as int) =~= p.infos@);
}

proof fn lists_agree(l: Seq<RepoInfo>, m: Seq<RepoInfo>)
    requires
        ordered(l),
        ordered(m),
        l.to_multiset() == m.to_multiset(),
        ids_differ(l),
    ensures
        l == m,
    decreases l.len(),
{
    l.to_multiset_ensures();
    m.to_multiset_ensures();
    assert(l.len() == m.len());
    if l.len() == 0 {
        assert(l =~= m);
    } else {
        reordering_keeps_ids_apart(l, m);
        let x = l.last();
        let y = m.last();
        assert(l.contains(x) && m.contains(y));
        same_members(l, m, x);
        same_members(m, l, y);
        let i = choose|i: int| 0 <= i < m.len() && m[i] == x;
        let j = choose|j: int| 0 <= j < l.len() && l[j] == y;
        if i < m.len() - 1 {
            assert(m[i].le(m[m.len() - 1]));
            if j < l.len() - 1 {
                assert(l[j].le(l[l.len() - 1]));
                text_le_antisymmetric(x.id.0@, y.id.0@);
                assert(l[j].id.0@ != l[l.len() - 1].id.0@);
            }
        }
        assert(x == y);
        let a = l.drop_last();
        let b = m.drop_last();
        a.to_multiset_ensures();
        b.to_multiset_ensures();
        assert(a.push(x) =~= l);
        assert(b.push(x) =~= m);
        assert(a.to_multiset() =~= b.to_multiset()) by {
            assert forall|z: RepoInfo| a.to_multiset().count(z) == b.to_multiset().count(z) by {
                assert(a.to_multiset().insert(x).count(z) == b.to_multiset().insert(x).count(z));
            }
        }
        lists_agree(a, b);
    }
}

/// What the registry holds after `i` replies: what was last handed out to be written
/// and was written.
pub open spec fn disk_after(
    disk: Seq<RepoInfo>,
    replies: Seq<RegisterRepoReply>,
    actions: Seq<RegisterRepoAction>,
    i: int,
) -> Seq<RepoInfo>
    decreases i,
{
    if i < 2 {
        disk
    } else {
        match (actions[i - 2], replies[i - 1]) {
            (RegisterRepoAction::Persist(p), RegisterRepoReply::Persisted(Ok(_))) => p.infos@,
            _ => disk_after(disk, replies, actions, i - 1),
        }
    }
}

proof fn new_repos_keep_apart(repos: Seq<RepoInfo>, info: RepoInfo)
    requires
        is_new(repos, info),
    ensures
        ids_differ(repos) ==> ids_differ(repos.push(info)),
        roots_differ(repos) ==> roots_differ(repos.push(info)),
{
    let all = repos.push(info);
    if ids_differ(repos) {
        assert forall|i: int, j: int| 0 <= i < j < all.len() implies (#[trigger] all[i]).id.0@ != (
        #[trigger] all[j]).id.0@ by {
            assert(all[i] == repos[i]);
            if j < repos.len() {
                assert(all[j] == repos[j]);
            }
        }
    }
    if roots_differ(repos) {
        assert forall|i: int, j: int| 0 <= i < j < all.len() implies !same_path(
            (#[trigger] all[i]).root@,
            (#[trigger] all[j]).root@,
        ) by {
            assert(all[i] == repos[i]);
            if j < repos.len() {
                assert(all[j] == repos[j]);
            }
        }
    }
}

proof fn register_run_writes(
    dir: Seq<char>,
    repos: Seq<Seq<RepoInfo>>,
    states: Seq<RegisterRepo>,
    replies: Seq<RegisterRepoReply>,
    actions: Seq<RegisterRepoAction>,
    disk: Seq<RepoInfo>,
    i: int,
)
    requires
        is_register_run(dir, repos, states, replies, actions),
        stores(disk, repos[0]),
        0 <= i < states.len(),
    ensures
        states[i].phase == RegisterRepoPhase::Persisting ==> i > 0 && (
        actions[i - 1] matches RegisterRepoAction::Persist(p) && persists(p, dir, repos[i])),
        states[i].phase == RegisterRepoPhase::Watching ==> stores(
            disk_after(disk, replies, actions, i),
            repos[i],
        ),
        states[i].phase != RegisterRepoPhase::Watching && states[i].phase
            != RegisterRepoPhase::Over ==> disk_after(disk, replies, actions, i) == disk,
    decreases i,
{
    if i > 0 {
        register_run_writes(dir, repos, states, replies, actions, disk, i - 1);
        register_run_shows(dir, repos, states, replies, actions, i - 1);
        register_run_shows(dir, repos, states, replies, actions, i);
        assert(register_expects(states[i - 1].phase, replies[i - 1]));
        assert(register_repo_step(
            dir,
            repos[i - 1],
            states[i - 1],
            replies[i - 1],
            repos[i],
            states[i],
            actions[i - 1],
        ));
        if states[i].phase == RegisterRepoPhase::Watching {
            new_repos_keep_apart(repos[0], states[i].info->0);
            written_registry_stores(actions[i - 2]->Persist_0, dir, repos[i]);
        }
    }
}

/// Whatever comes of a registration, the registry on disk is one of what is then
/// registered, where it was before.
pub proof fn registrations_keep_the_registry(
    dir: Seq<char>,
    repos: Seq<Seq<RepoInfo>>,
    states: Seq<RegisterRepo>,
    replies: Seq<RegisterRepoReply>,
    actions: Seq<RegisterRepoAction>,
    disk: Seq<RepoInfo>,
    i: int,
)
    requires
        is_register_run(dir, repos, states, replies, actions),
        stores(disk, repos[0]),
        0 <= i < actions.len(),
        actions[i] is Finish,
    ensures
        stores(disk_after(disk, replies, actions, i + 1), repos[i + 1]),
{
    register_run_writes(dir, repos, states, replies, actions, disk, i);
    register_run_shows(dir, repos, states, replies, actions, i);
    registrations_are_all_or_nothing(dir, repos, states, replies, actions, i);
    assert(register_expects(states[i].phase, replies[i]));
    assert(register_repo_step(
        dir,
        repos[i],
        states[i],
        replies[i],
        repos[i + 1],
        states[i + 1],
        actions[i],
    ));
    assert(disk_after(disk, replies, actions, i + 1) == disk_after(disk, replies, actions, i));
}

/// The registry on disk, and what is registered.
pub struct Registered {
    pub disk: Seq<RepoInfo>,
    pub repos: Seq<RepoInfo>,
}

/// A registration that was gone through to its end leads from one to the other,
/// whether it went well or not.
pub open spec fn registration_leads(dir: Seq<char>, from: Registered, to: Registered) -> bool {
    exists|
        repos: Seq<Seq<RepoInfo>>,
        states: Seq<RegisterRepo>,
        replies: Seq<RegisterRepoReply>,
        actions: Seq<RegisterRepoAction>,
    |
        #![trigger is_register_run(dir, repos, states, replies, actions)]
        {
            &&& is_register_run(dir, repos, states, replies, actions)
            &&& actions.len() > 0
            &&& actions.last() is Finish
            &&& repos[0] == from.repos
            &&& repos.last() == to.repos
            &&& disk_after(from.disk, replies, actions, actions.len() as int) == to.disk
        }
}

/// Registrations one after the other.
pub open spec fn are_registrations(dir: Seq<char>, history: Seq<Registered>) -> bool {
    forall|k: int|
        0 <= k < history.len() - 1 ==> registration_leads(
            dir,
            #[trigger] history[k],
            history[k + 1],
        )
}

/// After any number of registrations, some of which may have failed, the registry on
/// disk is one of what is registered.
pub proof fn registry_is_never_behind(dir: Seq<char>, history: Seq<Registered>, i: int)
    requires
        are_registrations(dir, history),
        0 <= i < history.len(),
        stores(history[0].disk, history[0].repos),
    ensures
        stores(history[i].disk, history[i].repos),
    decreases i,
{
    if i > 0 {
        registry_is_never_behind(dir, history, i - 1);
        let from = history[i - 1];
        let to = history[i];
        assert(registration_leads(dir, from, to));
        let (repos, states, replies, actions) = choose|
            repos: Seq<Seq<RepoInfo>>,
            states: Seq<RegisterRepo>,
            replies: Seq<RegisterRepoReply>,
            actions: Seq<RegisterRepoAction>,
        |
            #![trigger is_register_run(dir, repos, states, replies, actions)]
            {
                &&& is_register_run(dir, repos, states, replies, actions)
                &&& actions.len() > 0
                &&& actions.last() is Finish
                &&& repos[0] == from.repos
                &&& repos.last() == to.repos
                &&& disk_after(from.disk, replies, actions, actions.len() as int) == to.disk
            };
        registrations_keep_the_registry(
            dir,
            repos,
            states,
            replies,
            actions,
            from.disk,
            actions.len() - 1,
        );
    }
}

/// What is registered stays registered, and no two registrations ever share a root,
/// however many registrations follow, where none did at first.
pub proof fn registrations_are_for_good(
    dir: Seq<char>,
    history: Seq<Registered>,
    i: int,
    j: int,
    info: RepoInfo,
)
    requires
        are_registrations(dir, history),
        0 <= i <= j < history.len(),
        history[i].repos.contains(info),
        roots_differ(history[i].repos),
    ensures
        history[j].repos.contains(info),
        roots_differ(history[j].repos),
    decreases j - i,
{
    if i < j {
        registrations_are_for_good(dir, history, i, j - 1, info);
        let from = history[j - 1];
        let to = history[j];
        assert(registration_leads(dir, from, to));
        let (repos, states, replies, actions) = choose|
            repos: Seq<Seq<RepoInfo>>,
            states: Seq<RegisterRepo>,
            replies: Seq<RegisterRepoReply>,
            actions: Seq<RegisterRepoAction>,
        |
            #![trigger is_register_run(dir, repos, states, replies, actions)]
            {
                &&& is_register_run(dir, repos, states, replies, actions)
                &&& actions.len() > 0
                &&& actions.last() is Finish
                &&& repos[0] == from.repos
                &&& repos.last() == to.repos
                &&& disk_after(from.disk, replies, actions, actions.len() as int) == to.disk
            };
        let last = actions.len() - 1;
        registrations_are_all_or_nothing(dir, repos, states, replies, actions, last);
        if let Ok(new) = actions[last]->Finish_0 {
            if repos[last + 1] != repos[0] {
                new_repos_keep_apart(repos[0], new);
                let k = choose|k: int| 0 <= k < from.repos.len() && from.repos[k] == info;
                assert(to.repos[k] == info);
            }
        }
    }
}

/// Once a registration gave `info`, every later one of a path whose canonical form is
/// its root gives the same, registers nothing and writes nothing.
pub proof fn registering_again_gives_the_same(
    dir: Seq<char>,
    history: Seq<Registered>,
    a: int,
    b: int,
    info: RepoInfo,
    repos: Seq<Seq<RepoInfo>>,
    states: Seq<RegisterRepo>,
    replies: Seq<RegisterRepoReply>,
    actions: Seq<RegisterRepoAction>,
    root: String,
    i: int,
)
    requires
        are_registrations(dir, history),
        0 <= a <= b < history.len(),
        history[a].repos.contains(info),
        roots_differ(history[a].repos),
        is_register_run(dir, repos, states, replies, actions),
        repos[0] == history[b].repos,
        replies.len() > 1,
        replies[1] == RegisterRepoReply::Canonical(Ok(root)),
        same_path(info.root@, root@),
        0 <= i < actions.len(),
        actions[i] is Finish,
    ensures
        actions[i] == RegisterRepoAction::Finish(Ok(info)),
        repos[i + 1] == repos[0],
        forall|j: int| 0 <= j <= i ==> !((#[trigger] actions[j]) is Persist),
{
    registrations_are_for_good(dir, history, a, b, info);
    let k = choose|k: int| 0 <= k < repos[0].len() && repos[0][k] == info;
    assert(register_expects(states[0].phase, replies[0]));
    assert(register_repo_step(
        dir,
        repos[0],
        states[0],
        replies[0],
        repos[1],
        states[1],
        actions[0],
    ));
    assert(register_expects(states[1].phase, replies[1]));
    assert(register_repo_step(
        dir,
        repos[1],
        states[1],
        replies[1],
        repos[2],
        states[2],
        actions[1],
    ));
    registering_is_idempotent(
        dir,
        repos[1],
        states[1],
        root,
        repos[2],
        states[2],
        actions[1],
        k,
    );
    if i >= 2 {
        assert(register_expects(states[2].phase, replies[2]));
    }
    assert(i == 1);
}

/// The reply that a load of `disk` gets in this phase where every entry is there and
/// opens.
pub open spec fn all_is_well(disk: Seq<RepoInfo>, phase: LoadPhase, reply: LoadReply) -> bool {
    match phase {
        LoadPhase::Start => reply is Begin,
        LoadPhase::LookForRegistry => reply == LoadReply::Exists(true) || disk.len() == 0 && reply
            == LoadReply::Exists(false),
        LoadPhase::Reading => reply matches LoadReply::Registry(r) && r matches Ok(read) && read@
            == disk,
        LoadPhase::Looking => reply == LoadReply::IsDirectory(true),
        LoadPhase::Opening => reply matches LoadReply::Opened(r) && r is Ok,
        LoadPhase::Persisting | LoadPhase::Over => false,
    }
}

proof fn all_outcomes_are_well(
    states: Seq<Load>,
    replies: Seq<LoadReply>,
    actions: Seq<LoadAction>,
    disk: Seq<RepoInfo>,
    i: int,
)
    requires
        is_load_run(states, replies, actions),
        forall|k: int|
            0 <= k < replies.len() ==> all_is_well(
                disk,
                (#[trigger] states[k]).phase,
                replies[k],
            ),
        0 <= i < states.len(),
    ensures
        outcomes(states, replies, i) == all_open(outcomes(states, replies, i).len()),
        !outcomes(states, replies, i).contains(false),
        has_entries(states[i].phase) ==> states[i].infos@ == disk && states[i].phase
            != LoadPhase::Persisting,
    decreases i,
{
    let now = outcomes(states, replies, i);
    if i > 0 {
        all_outcomes_are_well(states, replies, actions, disk, i - 1);
        load_run_shows(states, replies, actions, i - 1);
        load_run_shows(states, replies, actions, i);
        assert(all_is_well(disk, states[i - 1].phase, replies[i - 1]));
        assert(load_step(states[i - 1], replies[i - 1], states[i], actions[i - 1]));
    }
    assert(now =~= all_open(now.len()));
    assert(!now.contains(false));
}

/// A load of a registry of what is registered, where every root is still there and
/// opens, goes well, writes nothing, and lists the same registrations.
pub proof fn reloading_gives_what_was_registered(
    states: Seq<Load>,
    replies: Seq<LoadReply>,
    actions: Seq<LoadAction>,
    registered: Registered,
    i: int,
    list: Seq<RepoInfo>,
    again: Seq<RepoInfo>,
)
    requires
        is_load_run(states, replies, actions),
        stores(registered.disk, registered.repos),
        forall|k: int|
            0 <= k < replies.len() ==> all_is_well(
                registered.disk,
                (#[trigger] states[k]).phase,
                replies[k],
            ),
        0 <= i < actions.len(),
        actions[i] is Finish,
        sorts(registered.repos, list),
        sorts(states[i + 1].state.repos@, again),
    ensures
        actions[i] == LoadAction::Finish(Ok(())),
        again == list,
        forall|j: int| 0 <= j <= i ==> !((#[trigger] actions[j]) is Persist),
{
    let disk = registered.disk;
    load_run_shows(states, replies, actions, i);
    all_outcomes_are_well(states, replies, actions, disk, i);
    all_outcomes_are_well(states, replies, actions, disk, i + 1);
    assert(all_is_well(disk, states[i].phase, replies[i]));
    assert(load_step(states[i], replies[i], states[i + 1], actions[i]));
    loading_keeps_what_opens(states, replies, actions, i);
    assert(states[i + 1].state.repos@ == reloaded(disk)) by {
        if states[i].phase == LoadPhase::LookForRegistry {
            assert(states[i + 1].state.repos@ =~= reloaded(disk));
        }
    }
    reordering_keeps_ids_apart(registered.repos, list);
    lists_agree(list, again);
    assert forall|j: int| 0 <= j <= i implies !((#[trigger] actions[j]) is Persist) by {
        all_outcomes_are_well(states, replies, actions, disk, j);
        all_outcomes_are_well(states, replies, actions, disk, j + 1);
        load_run_shows(states, replies, actions, j);
        assert(load_step(states[j], replies[j], states[j + 1], actions[j]));
        assert(all_is_well(disk, states[j].phase, replies[j]));
    }
}

proof fn kept_repos_keep_apart(infos: Seq<RepoInfo>, opened: Seq<bool>)
    requires
        opened.len() <= infos.len(),
    ensures
        ids_differ(kept(infos, opened)),
        roots_differ(infos) ==> roots_differ(kept(infos, opened)),
        forall|x: RepoInfo| #[trigger]
            kept(infos, opened).contains(x) ==> exists|k: int|
                0 <= k < opened.len() && #[trigger] infos[k] == x,
    decreases opened.len(),
{
    if opened.len() > 0 {
        let n = opened.len() - 1;
        let front = opened.drop_last();
        let before = kept(infos, front);
        kept_repos_keep_apart(infos, front);
        if opened.last() {
            let info = infos[n];
            let rest = others(before, info.id.0@);
            let all = rest.push(info);
            others_differ(before, info.id.0@);
            assert forall|i: int, j: int| 0 <= i < j < all.len() implies (#[trigger] all[i]).id.0@
                != (#[trigger] all[j]).id.0@ by {
                assert(all[i] == rest[i]);
                if j < rest.len() {
                    assert(all[j] == rest[j]);
                }
            }
            assert forall|x: RepoInfo| #[trigger] all.contains(x) implies exists|k: int|
                0 <= k < opened.len() && #[trigger] infos[k] == x by {
                let m = choose|m: int| 0 <= m < all.len() && all[m] == x;
                if m < rest.len() {
                    assert(rest[m] == x);
                    assert(before.contains(rest[m]));
                } else {
                    assert(infos[n] == x);
                }
            }
            if roots_differ(infos) {
                others_keep_roots_apart(before, info.id.0@);
                assert forall|i: int, j: int| 0 <= i < j < all.len() implies !same_path(
                    (#[trigger] all[i]).root@,
                    (#[trigger] all[j]).root@,
                ) by {
                    assert(all[i] == rest[i]);
                    if j < rest.len() {
                        assert(all[j] == rest[j]);
                    } else {
                        assert(before.contains(rest[i]));
                        let k = choose|k: int|
                            0 <= k < front.len() && #[trigger] infos[k] == rest[i];
                        assert(!same_path(infos[k].root@, infos[n].root@));
                    }
                }
            }
        } else {
            assert forall|x: RepoInfo| #[trigger] before.contains(x) implies exists|k: int|
                0 <= k < opened.len() && #[trigger] infos[k] == x by {
                let k = choose|k: int| 0 <= k < front.len() && #[trigger] infos[k] == x;
                assert(infos[k] == x);
            }
        }
    }
}

/// The registry that a load leaves: what it wrote, or else what it read.
pub open spec fn left_registry(states: Seq<Load>, actions: Seq<LoadAction>, i: int) -> Seq<RepoInfo> {
    if states[i].phase == LoadPhase::Persisting {
        actions[i - 1]->Persist_0.infos@
    } else if states[i].phase == LoadPhase::Reading {
        states[i + 1].infos@
    } else if states[i].phase == LoadPhase::LookForRegistry {
        Seq::empty()
    } else {
        states[i].infos@
    }
}

/// A load that goes well leaves a registry of what is then registered, and where no
/// two entries of the registry share a root, no two registrations do.
pub proof fn loading_leaves_the_registry(
    states: Seq<Load>,
    replies: Seq<LoadReply>,
    actions: Seq<LoadAction>,
    i: int,
)
    requires
        is_load_run(states, replies, actions),
        0 <= i < actions.len(),
        actions[i] == LoadAction::Finish(Ok(())),
    ensures
        stores(left_registry(states, actions, i), states[i + 1].state.repos@),
        !has_entries(states[i].phase) ==> roots_differ(states[i + 1].state.repos@),
        has_entries(states[i].phase) && roots_differ(states[i].infos@) ==> roots_differ(
            states[i + 1].state.repos@,
        ),
{
    load_run_shows(states, replies, actions, i);
    loading_keeps_what_opens(states, replies, actions, i);
    assert(load_step(states[i], replies[i], states[i + 1], actions[i]));
    let repos = states[i + 1].state.repos@;
    let left = left_registry(states, actions, i);
    let opened = outcomes(states, replies, i + 1);
    if states[i].phase == LoadPhase::LookForRegistry {
        assert(repos =~= reloaded(left));
    } else {
        let infos = if states[i].phase == LoadPhase::Reading {
            states[i + 1].infos@
        } else {
            states[i].infos@
        };
        kept_repos_keep_apart(infos, opened);
        if states[i].phase == LoadPhase::Persisting {
            written_registry_stores(actions[i - 1]->Persist_0, states[0].state.dir@, repos);
        } else {
            assert(!opened.contains(false));
            assert forall|k: int| 0 <= k < opened.len() implies opened[k] by {
                if !opened[k] {
                    assert(opened.contains(false));
                }
            }
            assert(opened =~= all_open(infos.len()));
        }
    }
}

/// A daemon that is started again has the repos that the last one had: after a load
/// that went well and any number of registrations, some of which may have failed, a
/// load of the registry that is then on disk, with every root still there and opening,
/// goes well and lists the same registrations.
pub proof fn registrations_survive_a_restart(
    states: Seq<Load>,
    replies: Seq<LoadReply>,
    actions: Seq<LoadAction>,
    i: int,
    history: Seq<Registered>,
    states_again: Seq<Load>,
    replies_again: Seq<LoadReply>,
    actions_again: Seq<LoadAction>,
    j: int,
    list: Seq<RepoInfo>,
    list_again: Seq<RepoInfo>,
)
    requires
        is_load_run(states, replies, actions),
        0 <= i < actions.len(),
        actions[i] == LoadAction::Finish(Ok(())),
        history.len() > 0,
        history[0].disk == left_registry(states, actions, i),
        history[0].repos == states[i + 1].state.repos@,
        are_registrations(states[0].state.dir@, history),
        sorts(history.last().repos, list),
        is_load_run(states_again, replies_again, actions_again),
        forall|k: int|
            0 <= k < replies_again.len() ==> all_is_well(
                history.last().disk,
                (#[trigger] states_again[k]).phase,
                replies_again[k],
            ),
        0 <= j < actions_again.len(),
        actions_again[j] is Finish,
        sorts(states_again[j + 1].state.repos@, list_again),
    ensures
        actions_again[j] == LoadAction::Finish(Ok(())),
        list_again == list,
{
    loading_leaves_the_registry(states, replies, actions, i);
    registry_is_never_behind(states[0].state.dir@, history, history.len() - 1);
    reloading_gives_what_was_registered(
        states_again,
        replies_again,
        actions_again,
        history.last(),
        j,
        list,
        list_again,
    );
}

} // verus!
