//! The log of a repo is its history, all of it and nothing else, newest first.

use vstd::prelude::*;

#[allow(unused_imports)]
use crate::commits::{is_log, reached_in, Commit, LogWalk, RepoView};
#[allow(unused_imports)]
use crate::error::EngineError;
#[allow(unused_imports)]
use crate::ids::CommitId;

verus! {

/// A walk starts at every head and at every working-copy commit, and nowhere else.
pub proof fn walks_start_at_heads_and_working_copies(view: &RepoView, w: LogWalk, i: int)
    requires
        call_ensures(LogWalk::start, (view,), w),
    ensures
        w.wf(),
        0 <= i < view.heads@.len() ==> w.roots@.contains(view.heads@[i]@),
        0 <= i < view.working_copies@.len() ==> w.roots@.contains(
            view.working_copies@[i].commit@,
        ),
        0 <= i < w.roots@.len() ==> is_start(*view, w.roots@[i]),
{
    let heads = crate::commits::ids(view.heads@);
    let copies = view.working_copies@.map_values(|w: crate::commits::WorkingCopy| w.commit@);
    assert(w.roots@ == heads + copies);
    if 0 <= i < view.heads@.len() {
        assert(w.roots@[i] == view.heads@[i]@);
    }
    if 0 <= i < view.working_copies@.len() {
        assert(w.roots@[heads.len() + i] == view.working_copies@[i].commit@);
    }
    if 0 <= i < w.roots@.len() {
        if i < heads.len() {
            assert(view.heads@[i]@ == w.roots@[i]);
        } else {
            assert(view.working_copies@[i - heads.len()].commit@ == w.roots@[i]);
        }
    }
}

/// The id is that of a head or of a working-copy commit.
pub open spec fn is_start(view: RepoView, id: Seq<u8>) -> bool {
    ||| exists|h: int| 0 <= h < view.heads@.len() && (#[trigger] view.heads@[h])@ == id
    ||| exists|w: int|
        0 <= w < view.working_copies@.len() && (#[trigger] view.working_copies@[w]).commit@ == id
}

/// A walk asks for what it was not given, takes only what it asked for, and keeps what it
/// was given.
pub proof fn walks_take_what_they_ask_for(
    w: &mut LogWalk,
    asked: Option<CommitId>,
    commit: Commit,
    r: Result<(), EngineError>,
)
    ensures
        old(w).wf() ==> call_requires(LogWalk::next, (w,)) && call_requires(
            LogWalk::supply,
            (w, commit),
        ),
        call_ensures(LogWalk::next, (w,), asked) ==> final(w).wf() && final(w).roots
            == old(w).roots && final(w).fetched == old(w).fetched && (asked is None
            ==> final(w).done()) && (asked matches Some(id) ==> (
        final(w).awaiting matches Some(a) && a@ == id@)) && (old(w).awaiting is None
            && asked is Some ==> !has_commit(old(w).fetched@, asked->0@)) && (old(w).awaiting is Some
            ==> *final(w) == *old(w)),
        call_ensures(LogWalk::supply, (w, commit), r) ==> final(w).wf() && final(w).roots
            == old(w).roots && (r is Ok <==> (old(w).awaiting matches Some(a) && a@ == commit.id@))
            && (r is Ok ==> final(w).fetched@ == old(w).fetched@.push(commit)),
{
}

/// A set of ids to which the roots belong, and with every commit of the log its parents.
pub open spec fn is_closed(
    log: Seq<Commit>,
    roots: Seq<Seq<u8>>,
    holds: spec_fn(Seq<u8>) -> bool,
) -> bool {
    &&& forall|r: int| 0 <= r < roots.len() ==> holds(#[trigger] roots[r])
    &&& forall|k: int, p: int|
        0 <= k < log.len() && holds(log[k].id@) && 0 <= p < log[k].parents@.len() ==> holds(
            (#[trigger] log[k].parents@[p])@,
        )
}

/// The log has every root, and with every commit its parents; it has nothing that is not
/// reached so, nothing twice, nothing but what was handed in; and it goes from the newest
/// to the oldest.
pub proof fn logs_are_whole_histories(
    w: LogWalk,
    log: Vec<Commit>,
    i: int,
    j: int,
    holds: spec_fn(Seq<u8>) -> bool,
)
    requires
        call_ensures(LogWalk::visible, (w,), log),
    ensures
        0 <= i < w.roots@.len() ==> has_commit(log@, w.roots@[i]),
        0 <= i < log@.len() && 0 <= j < log@[i].parents@.len() ==> has_commit(
            log@,
            log@[i].parents@[j]@,
        ),
        0 <= i < log@.len() && is_closed(log@, w.roots@, holds) ==> holds(log@[i].id@),
        0 <= i < j < log@.len() ==> log@[i].id@ != log@[j].id@,
        0 <= i < j < log@.len() ==> log@[i].committer_ms >= log@[j].committer_ms,
        0 <= i < log@.len() ==> w.fetched@.contains(log@[i]),
        log@.len() == w.fetched@.len(),
{
    let roots = w.roots@;
    assert(is_log(log@, roots));
    if 0 <= i < roots.len() {
        assert(roots.contains(roots[i]));
        assert(reached_in(log@, roots, roots[i], 0));
        assert(crate::commits::visible(log@, roots, roots[i]));
        assert(crate::commits::has_id(log@, roots[i]));
    }
    if 0 <= i < log@.len() {
        let id = log@[i].id@;
        assert(crate::commits::has_id(log@, id));
        assert(crate::commits::visible(log@, roots, id));
        if 0 <= j < log@[i].parents@.len() {
            crate::commits::parent_visible(log@, roots, i, j);
            assert(crate::commits::has_id(log@, log@[i].parents@[j]@));
        }
        if is_closed(log@, roots, holds) {
            let n = choose|n: nat| reached_in(log@, roots, id, n);
            reached_is_held(log@, roots, id, n, holds);
        }
        broadcast use vstd::seq_lib::group_to_multiset_ensures;
        assert(log@.to_multiset().count(log@[i]) > 0);
        assert(w.fetched@.to_multiset().count(log@[i]) > 0);
    }
    if 0 <= i < j < log@.len() {
        let history = choose|history: Seq<Commit>| #[trigger]
            crate::sort::sorts(history, log@) && (crate::commits::acyclic(log@)
                ==> crate::commits::child_first(history));
        assert(crate::sort::sorts(history, log@));
        assert(crate::sort::Ordered::le(log@[i], log@[j]));
    }
    broadcast use vstd::seq_lib::group_to_multiset_ensures;
    assert(log@.to_multiset().len() == w.fetched@.to_multiset().len());
}

/// A commit with this id is in the log.
pub open spec fn has_commit(log: Seq<Commit>, id: Seq<u8>) -> bool {
    exists|k: int| 0 <= k < log.len() && (#[trigger] log[k]).id@ == id
}

proof fn reached_is_held(
    log: Seq<Commit>,
    roots: Seq<Seq<u8>>,
    id: Seq<u8>,
    n: nat,
    holds: spec_fn(Seq<u8>) -> bool,
)
    requires
        is_closed(log, roots, holds),
        reached_in(log, roots, id, n),
    ensures
        holds(id),
    decreases n,
{
    if n == 0 {
        let r = choose|r: int| 0 <= r < roots.len() && roots[r] == id;
        assert(holds(roots[r]));
    } else {
        let k = choose|k: int|
            0 <= k < log.len() && reached_in(log, roots, (#[trigger] log[k]).id@, (n - 1) as nat)
                && log[k].parent_ids().contains(id);
        reached_is_held(log, roots, log[k].id@, (n - 1) as nat, holds);
        let p = choose|p: int|
            0 <= p < log[k].parent_ids().len() && log[k].parent_ids()[p] == id;
        assert(log[k].parents@[p]@ == id);
    }
}

} // verus!
