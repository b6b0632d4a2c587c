//! Commits, the view of a repo, and the walk that collects what a log shows.

use vstd::hash_set::StringHashSet;
use vstd::prelude::*;
use vstd::string::*;

use crate::error::EngineError;
use crate::ids::{ChangeId, CommitId};
#[allow(unused_imports)]
use crate::ids::{hex_is_injective, hex_text};
use crate::sort::{reversed, sort, Ordered};
#[allow(unused_imports)]
use crate::sort::{sorts, tied, ties};

verus! {

/// What the library reads of a commit.
#[derive(Debug, Clone, PartialEq)]
pub struct Commit {
    pub id: CommitId,
    pub change_id: ChangeId,
    pub parents: Vec<CommitId>,
    pub description: String,
    pub author_name: String,
    pub author_email: String,
    /// When the commit was made, in milliseconds since the epoch.
    pub committer_ms: i64,
    pub has_conflict: bool,
}

/// A local bookmark and the commits that it points at.
#[derive(Debug, Clone, PartialEq)]
pub struct Bookmark {
    pub name: String,
    pub targets: Vec<CommitId>,
}

/// The working-copy commit of a workspace, by the name that the repo knows the
/// workspace under.
#[derive(Debug, Clone, PartialEq)]
pub struct WorkingCopy {
    pub workspace: String,
    pub commit: CommitId,
}

/// What the library reads of a repo at an operation.
#[derive(Debug, Clone, PartialEq)]
pub struct RepoView {
    pub heads: Vec<CommitId>,
    pub working_copies: Vec<WorkingCopy>,
    pub bookmarks: Vec<Bookmark>,
}

/// The ids that a list holds.
pub open spec fn ids(list: Seq<CommitId>) -> Seq<Seq<u8>> {
    list.map_values(|i: CommitId| i@)
}

impl Commit {
    /// The ids of the parents, the first parent first.
    pub open spec fn parent_ids(self) -> Seq<Seq<u8>> {
        ids(self.parents@)
    }
}

impl RepoView {
    /// Where visible history starts: the heads, then the working-copy commits.
    pub open spec fn roots(self) -> Seq<Seq<u8>> {
        ids(self.heads@) + self.working_copies@.map_values(|w: WorkingCopy| w.commit@)
    }
}

/// Newest first; commits of the same moment tie.
impl Ordered for Commit {
    open spec fn le(self, other: Commit) -> bool {
        self.committer_ms >= other.committer_ms
    }

    proof fn le_total(a: Commit, b: Commit) {
    }

    proof fn le_transitive(a: Commit, b: Commit, c: Commit) {
    }

    fn before(&self, other: &Commit) -> (r: bool) {
        self.committer_ms >= other.committer_ms
    }
}

/// A commit with this id is among `commits`.
pub open spec fn has_id(commits: Seq<Commit>, id: Seq<u8>) -> bool {
    exists|k: int| 0 <= k < commits.len() && (#[trigger] commits[k]).id@ == id
}

/// No two commits have the same id.
pub open spec fn distinct_ids(commits: Seq<Commit>) -> bool {
    forall|i: int, j: int|
        0 <= i < j < commits.len() ==> (#[trigger] commits[i]).id@ != (#[trigger] commits[j]).id@
}

/// `id` is reached from a root by `n` steps from a commit of `commits` to one of
/// its parents.
pub open spec fn reached_in(
    commits: Seq<Commit>,
    roots: Seq<Seq<u8>>,
    id: Seq<u8>,
    n: nat,
) -> bool
    decreases n,
{
    if n == 0 {
        roots.contains(id)
    } else {
        exists|k: int|
            0 <= k < commits.len() && reached_in(
                commits,
                roots,
                (#[trigger] commits[k]).id@,
                (n - 1) as nat,
            ) && commits[k].parent_ids().contains(id)
    }
}

/// `id` is a root or an ancestor of one.
pub open spec fn visible(commits: Seq<Commit>, roots: Seq<Seq<u8>>, id: Seq<u8>) -> bool {
    exists|n: nat| reached_in(commits, roots, id, n)
}

/// Exactly the visible commits, each once.
pub open spec fn is_history(commits: Seq<Commit>, roots: Seq<Seq<u8>>) -> bool {
    &&& distinct_ids(commits)
    &&& forall|id: Seq<u8>| has_id(commits, id) <==> visible(commits, roots, id)
}

/// `rank` grows from parent to child: there is no cycle.
pub open spec fn ranks(rank: spec_fn(Seq<u8>) -> nat, commits: Seq<Commit>) -> bool {
    forall|k: int, p: int|
        0 <= k < commits.len() && 0 <= p < commits[k].parents@.len() ==> rank(
            (#[trigger] commits[k].parents@[p])@,
        ) < rank(commits[k].id@)
}

/// No commit is its own ancestor.
pub open spec fn acyclic(commits: Seq<Commit>) -> bool {
    exists|rank: spec_fn(Seq<u8>) -> nat| ranks(rank, commits)
}

/// Every commit stands before each of its parents.
pub open spec fn child_first(commits: Seq<Commit>) -> bool {
    forall|i: int, p: int|
        0 <= i < commits.len() && 0 <= p < commits[i].parents@.len() ==> has_id(
            commits.skip(i + 1),
            (#[trigger] commits[i].parents@[p])@,
        )
}

/// `log` is the history of `roots`, newest first; where times are equal, in an
/// order that puts children before their parents.
pub open spec fn is_log(log: Seq<Commit>, roots: Seq<Seq<u8>>) -> bool {
    &&& is_history(log, roots)
    &&& exists|history: Seq<Commit>| #[trigger]
        sorts(history, log) && (acyclic(log) ==> child_first(history))
}

/// A step that the walk has put off.
pub enum Step {
    Visit(CommitId),
    Emit(Commit),
}

/// The id that a step is about.
pub open spec fn step_id(step: Step) -> Seq<u8> {
    match step {
        Step::Visit(id) => id@,
        Step::Emit(c) => c.id@,
    }
}

/// A depth-first walk over the visible commits. Commits come out of the store one
/// by one: `next` names the one that is needed, `supply` hands it in.
pub struct LogWalk {
    /// Where the walk started.
    pub roots: Ghost<Seq<Seq<u8>>>,
    /// The commits that were handed in.
    pub fetched: Ghost<Seq<Commit>>,
    pub stack: Vec<Step>,
    pub seen: StringHashSet,
    pub emitted: Vec<Commit>,
    pub awaiting: Option<CommitId>,
}

/// A step about `id` is on the stack at `from` or above.
pub open spec fn on_stack(stack: Seq<Step>, id: Seq<u8>, from: int) -> bool {
    exists|j: int| from <= j < stack.len() && step_id(#[trigger] stack[j]) == id
}

pub open spec fn awaits(awaiting: Option<CommitId>, id: Seq<u8>) -> bool {
    awaiting matches Some(a) && a@ == id
}

/// `id` was handed in, is awaited, or will be looked at.
pub open spec fn known(w: LogWalk, id: Seq<u8>) -> bool {
    has_id(w.fetched@, id) || awaits(w.awaiting, id) || on_stack(w.stack@, id, 0)
}

/// The order that the walk keeps, for a rank under which there is no cycle.
pub open spec fn rank_kept(rank: spec_fn(Seq<u8>) -> nat, w: LogWalk) -> bool {
    let stack = w.stack@;
    let emitted = w.emitted@;
    &&& forall|i: int, j: int|
        0 <= i < j < stack.len() && stack[i] is Emit ==> rank(step_id(#[trigger] stack[j])) < rank(
            step_id(#[trigger] stack[i]),
        )
    &&& forall|i: int|
        0 <= i < stack.len() && stack[i] is Emit && w.awaiting is Some ==> rank(w.awaiting->0@)
            < rank(step_id(#[trigger] stack[i]))
    &&& forall|i: int, p: int|
        0 <= i < emitted.len() && 0 <= p < emitted[i].parents@.len() ==> has_id(
            emitted.take(i),
            (#[trigger] emitted[i].parents@[p])@,
        )
    &&& forall|i: int, p: int|
        0 <= i < stack.len() && stack[i] is Emit && 0 <= p < stack[i]->Emit_0.parents@.len() ==> {
            let id = (#[trigger] stack[i]->Emit_0.parents@[p])@;
            has_id(emitted, id) || on_stack(stack, id, i + 1) || awaits(w.awaiting, id)
        }
}

impl LogWalk {
    /// Nothing is left to look at.
    pub open spec fn done(self) -> bool {
        self.stack@.len() == 0 && self.awaiting is None
    }

    /// What holds of every walk.
    pub open spec fn wf(self) -> bool {
        let stack = self.stack@;
        let emitted = self.emitted@;
        let fetched = self.fetched@;
        &&& distinct_ids(fetched)
        &&& distinct_ids(emitted)
        &&& forall|i: int| 0 <= i < emitted.len() ==> fetched.contains(#[trigger] emitted[i])
        &&& forall|j: int|
            0 <= j < stack.len() && (#[trigger] stack[j]) is Emit ==> fetched.contains(
                stack[j]->Emit_0,
            ) && !has_id(emitted, step_id(stack[j]))
        &&& forall|i: int, j: int|
            0 <= i < j < stack.len() && (#[trigger] stack[i]) is Emit && (#[trigger] stack[j]) is Emit
                ==> step_id(stack[i]) != step_id(stack[j])
        &&& forall|k: int|
            0 <= k < fetched.len() ==> emitted.contains(#[trigger] fetched[k]) || exists|j: int|
                0 <= j < stack.len() && #[trigger] stack[j] == Step::Emit(fetched[k])
        &&& forall|id: Seq<u8>|
            self.seen@.contains(#[trigger] hex_text(id)) <==> has_id(fetched, id) || awaits(
                self.awaiting,
                id,
            )
        &&& self.awaiting is Some ==> !has_id(fetched, self.awaiting->0@)
        &&& forall|r: int| 0 <= r < self.roots@.len() ==> known(self, #[trigger] self.roots@[r])
        &&& forall|k: int, p: int|
            0 <= k < fetched.len() && 0 <= p < fetched[k].parents@.len() ==> known(
                self,
                (#[trigger] fetched[k].parents@[p])@,
            )
        &&& forall|j: int|
            0 <= j < stack.len() ==> visible(fetched, self.roots@, step_id(#[trigger] stack[j]))
        &&& self.awaiting is Some ==> visible(fetched, self.roots@, self.awaiting->0@)
        &&& forall|k: int|
            0 <= k < fetched.len() ==> visible(fetched, self.roots@, (#[trigger] fetched[k]).id@)
        &&& forall|rank: spec_fn(Seq<u8>) -> nat| #[trigger]
            ranks(rank, fetched) ==> rank_kept(rank, self)
    }
}

/// What is reached through some commits is reached through more of them.
proof fn reached_in_more(
    a: Seq<Commit>,
    b: Seq<Commit>,
    roots: Seq<Seq<u8>>,
    id: Seq<u8>,
    n: nat,
)
    requires
        forall|k: int| 0 <= k < a.len() ==> b.contains(#[trigger] a[k]),
        reached_in(a, roots, id, n),
    ensures
        reached_in(b, roots, id, n),
    decreases n,
{
    if n > 0 {
        let k = choose|k: int|
            0 <= k < a.len() && reached_in(a, roots, (#[trigger] a[k]).id@, (n - 1) as nat)
                && a[k].parent_ids().contains(id);
        reached_in_more(a, b, roots, a[k].id@, (n - 1) as nat);
        let m = choose|m: int| 0 <= m < b.len() && b[m] == a[k];
        assert(b[m].id@ == a[k].id@);
    }
}

proof fn visible_in_more(a: Seq<Commit>, b: Seq<Commit>, roots: Seq<Seq<u8>>, id: Seq<u8>)
    requires
        forall|k: int| 0 <= k < a.len() ==> b.contains(#[trigger] a[k]),
        visible(a, roots, id),
    ensures
        visible(b, roots, id),
{
    let n = choose|n: nat| reached_in(a, roots, id, n);
    reached_in_more(a, b, roots, id, n);
}

pub(crate) proof fn parent_visible(commits: Seq<Commit>, roots: Seq<Seq<u8>>, k: int, p: int)
    requires
        0 <= k < commits.len(),
        0 <= p < commits[k].parents@.len(),
        visible(commits, roots, commits[k].id@),
    ensures
        visible(commits, roots, commits[k].parents@[p]@),
{
    let n = choose|n: nat| reached_in(commits, roots, commits[k].id@, n);
    assert(commits[k].parent_ids()[p] == commits[k].parents@[p]@);
    assert(((n + 1) - 1) as nat == n);
    assert(reached_in(commits, roots, commits[k].parents@[p]@, n + 1));
}

proof fn ranks_of_fewer(rank: spec_fn(Seq<u8>) -> nat, a: Seq<Commit>, b: Seq<Commit>)
    requires
        forall|k: int| 0 <= k < a.len() ==> b.contains(#[trigger] a[k]),
        ranks(rank, b),
    ensures
        ranks(rank, a),
{
    assert forall|k: int, p: int|
        0 <= k < a.len() && 0 <= p < a[k].parents@.len() implies rank((#[trigger] a[k].parents@[p])@)
        < rank(a[k].id@) by {
        let m = choose|m: int| 0 <= m < b.len() && b[m] == a[k];
        assert(rank(b[m].parents@[p]@) < rank(b[m].id@));
    }
}

/// The walk after the top step, an emission, is done.
#[verifier::spinoff_prover]
#[verifier::rlimit(60)]
proof fn emit_step(old_w: LogWalk, w: LogWalk, c: Commit)
    requires
        old_w.wf(),
        old_w.awaiting is None,
        old_w.stack@.len() > 0,
        old_w.stack@.last() == Step::Emit(c),
        w.stack@ == old_w.stack@.drop_last(),
        w.emitted@ == old_w.emitted@.push(c),
        w.fetched == old_w.fetched,
        w.roots == old_w.roots,
        w.seen == old_w.seen,
        w.awaiting == old_w.awaiting,
    ensures
        w.wf(),
{
    let (s0, s1) = (old_w.stack@, w.stack@);
    let (e0, e1) = (old_w.emitted@, w.emitted@);
    let f = w.fetched@;
    let top = s0.len() - 1;
    assert(s0[top] == Step::Emit(c));
    assert(step_id(s0[top]) == c.id@);
    assert(e1[e0.len() as int] == c);
    assert forall|id: Seq<u8>| #[trigger] has_id(e0, id) implies has_id(e1, id) by {
        let k = choose|k: int| 0 <= k < e0.len() && (#[trigger] e0[k]).id@ == id;
        assert(e1[k].id@ == id);
    }
    assert forall|i: int, j: int| 0 <= i < j < e1.len() implies (#[trigger] e1[i]).id@ != (#[trigger] e1[j]).id@ by {
        if j == e0.len() {
            assert(e0[i].id@ == e1[i].id@);
        }
    }
    assert forall|j: int| 0 <= j < s1.len() && (#[trigger] s1[j]) is Emit implies f.contains(s1[j]->Emit_0)
        && !has_id(e1, step_id(s1[j])) by {
        assert(s1[j] == s0[j]);
        assert(step_id(s0[j]) != step_id(s0[top]));
        if has_id(e1, step_id(s1[j])) {
            let k = choose|k: int| 0 <= k < e1.len() && (#[trigger] e1[k]).id@ == step_id(s1[j]);
            if k < e0.len() {
                assert(e0[k].id@ == step_id(s0[j]));
            }
        }
    }
    assert forall|k: int| 0 <= k < f.len() implies e1.contains(#[trigger] f[k]) || exists|j: int|
        0 <= j < s1.len() && #[trigger] s1[j] == Step::Emit(f[k]) by {
        if e0.contains(f[k]) {
            let m = choose|m: int| 0 <= m < e0.len() && e0[m] == f[k];
            assert(e1[m] == f[k]);
        } else {
            let j = choose|j: int| 0 <= j < s0.len() && #[trigger] s0[j] == Step::Emit(f[k]);
            if j == top {
                assert(e1[e0.len() as int] == f[k]);
            } else {
                assert(s1[j] == Step::Emit(f[k]));
            }
        }
    }
    assert forall|id: Seq<u8>| known(old_w, id) implies known(w, id) by {
        if on_stack(s0, id, 0) && !has_id(f, id) {
            let j = choose|j: int| 0 <= j < s0.len() && step_id(#[trigger] s0[j]) == id;
            if j == top {
                let m = choose|m: int| 0 <= m < f.len() && f[m] == c;
                assert(f[m].id@ == id);
            } else {
                assert(s1[j] == s0[j]);
            }
        }
    }
    assert forall|j: int| 0 <= j < s1.len() implies visible(f, w.roots@, step_id(#[trigger] s1[j])) by {
        assert(s1[j] == s0[j]);
    }
    assert forall|rank: spec_fn(Seq<u8>) -> nat| #[trigger] ranks(rank, f) implies rank_kept(rank, w) by {
        assert(rank_kept(rank, old_w));
        assert forall|i: int, p: int| 0 <= i < e1.len() && 0 <= p < e1[i].parents@.len() implies has_id(
            e1.take(i),
            (#[trigger] e1[i].parents@[p])@,
        ) by {
            let id = e1[i].parents@[p]@;
            if i < e0.len() {
                assert(has_id(e0.take(i), e0[i].parents@[p]@));
                assert(e1.take(i) =~= e0.take(i));
            } else {
                assert(s0[top]->Emit_0.parents@[p]@ == id);
                assert(e1.take(i) =~= e0);
            }
        }
        assert forall|i: int, p: int|
            0 <= i < s1.len() && s1[i] is Emit && 0 <= p < s1[i]->Emit_0.parents@.len() implies {
            let id = (#[trigger] s1[i]->Emit_0.parents@[p])@;
            has_id(e1, id) || on_stack(s1, id, i + 1) || awaits(w.awaiting, id)
        } by {
            let id = s1[i]->Emit_0.parents@[p]@;
            assert(s1[i] == s0[i]);
            assert(s0[i]->Emit_0.parents@[p]@ == id);
            if !has_id(e0, id) {
                let j = choose|j: int| i + 1 <= j < s0.len() && step_id(#[trigger] s0[j]) == id;
                if j == top {
                    assert(e1[e0.len() as int].id@ == id);
                } else {
                    assert(s1[j] == s0[j]);
                }
            }
        }
    }
}

/// The walk after the top step, a visit to a commit that is known already.
#[verifier::spinoff_prover]
#[verifier::rlimit(60)]
proof fn skip_step(old_w: LogWalk, w: LogWalk, id: CommitId)
    requires
        old_w.wf(),
        old_w.awaiting is None,
        old_w.stack@.len() > 0,
        old_w.stack@.last() == Step::Visit(id),
        has_id(old_w.fetched@, id@),
        w.stack@ == old_w.stack@.drop_last(),
        w.emitted == old_w.emitted,
        w.fetched == old_w.fetched,
        w.roots == old_w.roots,
        w.seen == old_w.seen,
        w.awaiting == old_w.awaiting,
    ensures
        w.wf(),
{
    let (s0, s1) = (old_w.stack@, w.stack@);
    let e = w.emitted@;
    let f = w.fetched@;
    let top = s0.len() - 1;
    assert(s0[top] == Step::Visit(id));
    assert forall|k: int| 0 <= k < f.len() implies e.contains(#[trigger] f[k]) || exists|j: int|
        0 <= j < s1.len() && #[trigger] s1[j] == Step::Emit(f[k]) by {
        if !e.contains(f[k]) {
            let j = choose|j: int| 0 <= j < s0.len() && #[trigger] s0[j] == Step::Emit(f[k]);
            assert(s1[j] == Step::Emit(f[k]));
        }
    }
    assert forall|x: Seq<u8>| known(old_w, x) implies known(w, x) by {
        if on_stack(s0, x, 0) && !has_id(f, x) {
            let j = choose|j: int| 0 <= j < s0.len() && step_id(#[trigger] s0[j]) == x;
            assert(s1[j] == s0[j]);
        }
    }
    assert forall|j: int| 0 <= j < s1.len() implies visible(f, w.roots@, step_id(#[trigger] s1[j])) by {
        assert(s1[j] == s0[j]);
    }
    assert forall|rank: spec_fn(Seq<u8>) -> nat| #[trigger] ranks(rank, f) implies rank_kept(rank, w) by {
        assert(rank_kept(rank, old_w));
        assert(has_id(e, id@)) by {
            let k = choose|k: int| 0 <= k < f.len() && (#[trigger] f[k]).id@ == id@;
            if e.contains(f[k]) {
                let m = choose|m: int| 0 <= m < e.len() && e[m] == f[k];
                assert(e[m].id@ == id@);
            } else {
                let j = choose|j: int| 0 <= j < s0.len() && #[trigger] s0[j] == Step::Emit(f[k]);
                assert(rank(step_id(s0[top])) < rank(step_id(s0[j])));
            }
        }
        assert forall|i: int, p: int|
            0 <= i < s1.len() && s1[i] is Emit && 0 <= p < s1[i]->Emit_0.parents@.len() implies {
            let x = (#[trigger] s1[i]->Emit_0.parents@[p])@;
            has_id(e, x) || on_stack(s1, x, i + 1) || awaits(w.awaiting, x)
        } by {
            let x = s1[i]->Emit_0.parents@[p]@;
            assert(s1[i] == s0[i]);
            assert(s0[i]->Emit_0.parents@[p]@ == x);
            if !has_id(e, x) {
                let j = choose|j: int| i + 1 <= j < s0.len() && step_id(#[trigger] s0[j]) == x;
                assert(s1[j] == s0[j]);
            }
        }
    }
}

/// The walk after the top step, a visit to a commit that is now asked for.
#[verifier::spinoff_prover]
#[verifier::rlimit(60)]
proof fn ask_step(old_w: LogWalk, w: LogWalk, id: CommitId)
    requires
        old_w.wf(),
        old_w.awaiting is None,
        old_w.stack@.len() > 0,
        step_id(old_w.stack@.last()) == id@,
        old_w.stack@.last() is Visit,
        !has_id(old_w.fetched@, id@),
        w.stack@ == old_w.stack@.drop_last(),
        w.emitted == old_w.emitted,
        w.fetched == old_w.fetched,
        w.roots == old_w.roots,
        w.seen@ == old_w.seen@.insert(hex_text(id@)),
        w.awaiting == Some(id),
    ensures
        w.wf(),
{
    let (s0, s1) = (old_w.stack@, w.stack@);
    let e = w.emitted@;
    let f = w.fetched@;
    let top = s0.len() - 1;
    assert forall|x: Seq<u8>| w.seen@.contains(#[trigger] hex_text(x)) <==> has_id(f, x) || awaits(
        w.awaiting,
        x,
    ) by {
        if hex_text(x) == hex_text(id@) {
            hex_is_injective(x, id@);
        }
        assert(old_w.seen@.contains(hex_text(x)) <==> has_id(f, x));
    }
    assert forall|k: int| 0 <= k < f.len() implies e.contains(#[trigger] f[k]) || exists|j: int|
        0 <= j < s1.len() && #[trigger] s1[j] == Step::Emit(f[k]) by {
        if !e.contains(f[k]) {
            let j = choose|j: int| 0 <= j < s0.len() && #[trigger] s0[j] == Step::Emit(f[k]);
            assert(s1[j] == Step::Emit(f[k]));
        }
    }
    assert forall|x: Seq<u8>| known(old_w, x) implies known(w, x) by {
        if on_stack(s0, x, 0) && !has_id(f, x) {
            let j = choose|j: int| 0 <= j < s0.len() && step_id(#[trigger] s0[j]) == x;
            if j < top {
                assert(s1[j] == s0[j]);
            }
        }
    }
    assert forall|j: int| 0 <= j < s1.len() implies visible(f, w.roots@, step_id(#[trigger] s1[j])) by {
        assert(s1[j] == s0[j]);
    }
    assert(visible(f, w.roots@, step_id(s0[top])));
    assert forall|rank: spec_fn(Seq<u8>) -> nat| #[trigger] ranks(rank, f) implies rank_kept(rank, w) by {
        assert(rank_kept(rank, old_w));
        assert forall|i: int| 0 <= i < s1.len() && s1[i] is Emit && w.awaiting is Some implies rank(
            w.awaiting->0@,
        ) < rank(step_id(#[trigger] s1[i])) by {
            assert(s1[i] == s0[i]);
            assert(rank(step_id(s0[top])) < rank(step_id(s0[i])));
        }
        assert forall|i: int, p: int|
            0 <= i < s1.len() && s1[i] is Emit && 0 <= p < s1[i]->Emit_0.parents@.len() implies {
            let x = (#[trigger] s1[i]->Emit_0.parents@[p])@;
            has_id(e, x) || on_stack(s1, x, i + 1) || awaits(w.awaiting, x)
        } by {
            let x = s1[i]->Emit_0.parents@[p]@;
            assert(s1[i] == s0[i]);
            assert(s0[i]->Emit_0.parents@[p]@ == x);
            if !has_id(e, x) {
                let j = choose|j: int| i + 1 <= j < s0.len() && step_id(#[trigger] s0[j]) == x;
                if j < top {
                    assert(s1[j] == s0[j]);
                }
            }
        }
    }
}

/// The walk after the commit that it asked for was handed in.
#[verifier::spinoff_prover]
#[verifier::rlimit(60)]
proof fn supply_step(old_w: LogWalk, w: LogWalk, c: Commit, visits: Seq<Step>)
    requires
        old_w.wf(),
        awaits(old_w.awaiting, c.id@),
        visits.len() == c.parents@.len(),
        forall|p: int|
            0 <= p < visits.len() ==> (#[trigger] visits[p]) is Visit && step_id(visits[p])
                == c.parents@[p]@,
        w.stack@ == old_w.stack@.push(Step::Emit(c)) + visits,
        w.emitted == old_w.emitted,
        w.fetched@ == old_w.fetched@.push(c),
        w.roots == old_w.roots,
        w.seen == old_w.seen,
        w.awaiting is None,
    ensures
        w.wf(),
{
    let (s0, s1) = (old_w.stack@, w.stack@);
    let e = w.emitted@;
    let (f0, f1) = (old_w.fetched@, w.fetched@);
    let n = s0.len() as int;
    assert(f1[f0.len() as int] == c);
    assert forall|k: int| 0 <= k < f0.len() implies f1.contains(#[trigger] f0[k]) by {
        assert(f1[k] == f0[k]);
    }
    assert forall|j: int| 0 <= j < n implies s1[j] == s0[j] by {}
    assert(s1[n] == Step::Emit(c));
    assert forall|j: int| n < j < s1.len() implies s1[j] == visits[j - n - 1] by {}
    assert forall|i: int, j: int| 0 <= i < j < f1.len() implies (#[trigger] f1[i]).id@ != (#[trigger] f1[j]).id@ by {
        if j == f0.len() {
            assert(f0[i].id@ == f1[i].id@);
        }
    }
    assert forall|x: Seq<u8>| #[trigger] has_id(f0, x) implies has_id(f1, x) by {
        let k = choose|k: int| 0 <= k < f0.len() && (#[trigger] f0[k]).id@ == x;
        assert(f1[k].id@ == x);
    }
    assert(has_id(f1, c.id@));
    assert forall|x: Seq<u8>| has_id(f1, x) implies has_id(f0, x) || x == c.id@ by {
        let k = choose|k: int| 0 <= k < f1.len() && (#[trigger] f1[k]).id@ == x;
        if k < f0.len() {
            assert(f0[k].id@ == x);
        }
    }
    assert forall|x: Seq<u8>| w.seen@.contains(#[trigger] hex_text(x)) <==> has_id(f1, x) || awaits(
        w.awaiting,
        x,
    ) by {
        assert(old_w.seen@.contains(hex_text(x)) <==> has_id(f0, x) || awaits(old_w.awaiting, x));
    }
    assert forall|i: int| 0 <= i < e.len() implies f1.contains(#[trigger] e[i]) by {
        let k = choose|k: int| 0 <= k < f0.len() && f0[k] == e[i];
        assert(f1[k] == e[i]);
    }
    assert(!has_id(e, c.id@)) by {
        if has_id(e, c.id@) {
            let i = choose|i: int| 0 <= i < e.len() && (#[trigger] e[i]).id@ == c.id@;
            let k = choose|k: int| 0 <= k < f0.len() && f0[k] == e[i];
            assert(f0[k].id@ == c.id@);
        }
    }
    assert forall|j: int| 0 <= j < s1.len() && (#[trigger] s1[j]) is Emit implies f1.contains(s1[j]->Emit_0)
        && !has_id(e, step_id(s1[j])) by {
        if j < n {
            let k = choose|k: int| 0 <= k < f0.len() && f0[k] == s0[j]->Emit_0;
            assert(f1[k] == s1[j]->Emit_0);
        } else {
            assert(j == n);
        }
    }
    assert forall|i: int, j: int|
        0 <= i < j < s1.len() && (#[trigger] s1[i]) is Emit && (#[trigger] s1[j]) is Emit implies step_id(s1[i])
        != step_id(s1[j]) by {
        assert(j <= n);
        if j == n {
            let k = choose|k: int| 0 <= k < f0.len() && f0[k] == s0[i]->Emit_0;
            assert(f0[k].id@ == step_id(s0[i]));
        }
    }
    assert forall|k: int| 0 <= k < f1.len() implies e.contains(#[trigger] f1[k]) || exists|j: int|
        0 <= j < s1.len() && #[trigger] s1[j] == Step::Emit(f1[k]) by {
        if k < f0.len() {
            assert(f1[k] == f0[k]);
            if !e.contains(f0[k]) {
                let j = choose|j: int| 0 <= j < s0.len() && #[trigger] s0[j] == Step::Emit(f0[k]);
                assert(s1[j] == Step::Emit(f1[k]));
            }
        } else {
            assert(s1[n] == Step::Emit(f1[k]));
        }
    }
    assert forall|x: Seq<u8>| known(old_w, x) implies known(w, x) by {
        if !has_id(f1, x) {
            let j = choose|j: int| 0 <= j < s0.len() && step_id(#[trigger] s0[j]) == x;
            assert(s1[j] == s0[j]);
        }
    }
    assert forall|k: int, p: int| 0 <= k < f1.len() && 0 <= p < f1[k].parents@.len() implies known(
        w,
        (#[trigger] f1[k].parents@[p])@,
    ) by {
        if k < f0.len() {
            assert(f0[k].parents@[p]@ == f1[k].parents@[p]@);
        } else {
            assert(step_id(s1[n + 1 + p]) == c.parents@[p]@);
        }
    }
    assert forall|x: Seq<u8>| visible(f0, w.roots@, x) implies visible(f1, w.roots@, x) by {
        visible_in_more(f0, f1, w.roots@, x);
    }
    assert(visible(f1, w.roots@, c.id@));
    assert forall|j: int| 0 <= j < s1.len() implies visible(f1, w.roots@, step_id(#[trigger] s1[j])) by {
        if j > n {
            parent_visible(f1, w.roots@, f0.len() as int, j - n - 1);
            assert(step_id(s1[j]) == c.parents@[j - n - 1]@);
        } else if j < n {
            assert(visible(f0, w.roots@, step_id(s0[j])));
        }
    }
    assert forall|k: int| 0 <= k < f1.len() implies visible(f1, w.roots@, (#[trigger] f1[k]).id@) by {
        if k < f0.len() {
            assert(visible(f0, w.roots@, f0[k].id@));
        }
    }
    assert forall|rank: spec_fn(Seq<u8>) -> nat| #[trigger] ranks(rank, f1) implies rank_kept(rank, w) by {
        ranks_of_fewer(rank, f0, f1);
        assert(rank_kept(rank, old_w));
        assert forall|p: int| 0 <= p < visits.len() implies rank(step_id(#[trigger] visits[p])) < rank(c.id@) by {
            assert(rank(f1[f0.len() as int].parents@[p]@) < rank(c.id@));
        }
        assert forall|i: int, j: int| 0 <= i < j < s1.len() && s1[i] is Emit implies rank(
            step_id(#[trigger] s1[j]),
        ) < rank(step_id(#[trigger] s1[i])) by {
            if j > n {
                assert(s1[j] == visits[j - n - 1]);
            }
            if i < n {
                assert(s1[i] == s0[i]);
                assert(rank(c.id@) < rank(step_id(s0[i])));
                if j < n {
                    assert(s1[j] == s0[j]);
                }
            }
        }
        assert forall|i: int, p: int|
            0 <= i < s1.len() && s1[i] is Emit && 0 <= p < s1[i]->Emit_0.parents@.len() implies {
            let x = (#[trigger] s1[i]->Emit_0.parents@[p])@;
            has_id(e, x) || on_stack(s1, x, i + 1) || awaits(w.awaiting, x)
        } by {
            let x = s1[i]->Emit_0.parents@[p]@;
            if i == n {
                assert(step_id(s1[n + 1 + p]) == x);
            } else {
                assert(s1[i] == s0[i]);
                assert(s0[i]->Emit_0.parents@[p]@ == x);
                if !has_id(e, x) {
                    if awaits(old_w.awaiting, x) {
                        assert(step_id(s1[n]) == x);
                    } else {
                        let j = choose|j: int| i + 1 <= j < s0.len() && step_id(#[trigger] s0[j]) == x;
                        assert(s1[j] == s0[j]);
                    }
                }
            }
        }
    }
}

impl LogWalk {
    /// A walk over what `view` makes visible.
    pub fn start(view: &RepoView) -> (w: LogWalk)
        ensures
            w.wf(),
            w.roots@ == view.roots(),
    {
        let mut stack: Vec<Step> = Vec::new();
        let ghost all = view.roots();
        for i in 0..view.heads.len()
            invariant
                all == view.roots(),
                stack@.len() == i,
                forall|j: int|
                    0 <= j < i ==> (#[trigger] stack@[j]) is Visit && step_id(stack@[j]) == all[j],
        {
            stack.push(Step::Visit(view.heads[i].copy()));
        }
        let h: usize = view.heads.len();
        for i in 0..view.working_copies.len()
            invariant
                all == view.roots(),
                h == view.heads@.len(),
                stack@.len() == h + i,
                forall|j: int|
                    0 <= j < h + i ==> (#[trigger] stack@[j]) is Visit && step_id(stack@[j]) == all[j],
        {
            stack.push(Step::Visit(view.working_copies[i].commit.copy()));
        }
        let w = LogWalk {
            roots: Ghost(all),
            fetched: Ghost(Seq::empty()),
            stack,
            seen: StringHashSet::new(),
            emitted: Vec::new(),
            awaiting: None,
        };
        proof {
            assert forall|j: int| 0 <= j < w.stack@.len() implies visible(
                w.fetched@,
                w.roots@,
                step_id(#[trigger] w.stack@[j]),
            ) by {
                assert(reached_in(w.fetched@, w.roots@, w.roots@[j], 0));
            }
            assert forall|r: int| 0 <= r < w.roots@.len() implies known(w, #[trigger] w.roots@[r]) by {
                assert(step_id(w.stack@[r]) == w.roots@[r]);
            }
        }
        w
    }

    /// The commit that is needed next, or `None` when the walk is done.
    pub fn next(&mut self) -> (r: Option<CommitId>)
        requires
            old(self).wf(),
        ensures
            final(self).wf(),
            final(self).roots == old(self).roots,
            final(self).fetched == old(self).fetched,
            match r {
                Some(id) => awaits(final(self).awaiting, id@),
                None => final(self).done(),
            },
            old(self).awaiting is Some ==> *final(self) == *old(self),
            old(self).awaiting is None && r is Some ==> !has_id(old(self).fetched@, r->0@),
    {
        if let Some(id) = &self.awaiting {
            return Some(id.copy());
        }
        while self.stack.len() > 0
            invariant
                self.wf(),
                self.awaiting is None,
                self.roots == old(self).roots,
                self.fetched == old(self).fetched,
                old(self).awaiting is None,
            decreases self.stack@.len(),
        {
            let ghost before = *self;
            if let Some(step) = self.stack.pop() {
                match step {
                    Step::Emit(c) => {
                        self.emitted.push(c);
                        proof {
                            emit_step(before, *self, c);
                        }
                    },
                    Step::Visit(id) => {
                        let key = id.hex();
                        if self.seen.contains(key.as_str()) {
                            proof {
                                skip_step(before, *self, id);
                            }
                        } else {
                            self.seen.insert(key);
                            let asked = id.copy();
                            self.awaiting = Some(id);
                            proof {
                                ask_step(before, *self, id);
                            }
                            return Some(asked);
                        }
                    },
                }
            }
        }
        None
    }

    /// Hands in the commit that the walk asked for. Any other is refused.
    pub fn supply(&mut self, commit: Commit) -> (r: Result<(), EngineError>)
        requires
            old(self).wf(),
        ensures
            final(self).wf(),
            final(self).roots == old(self).roots,
            r is Ok <==> awaits(old(self).awaiting, commit.id@),
            r is Ok ==> final(self).fetched@ == old(self).fetched@.push(commit)
                && final(self).awaiting is None,
            r is Err ==> *final(self) == *old(self),
    {
        let asked = match &self.awaiting {
            Some(id) => id.is(&commit.id),
            None => false,
        };
        if !asked {
            return Err(EngineError::Internal("the store gave another commit".to_string()));
        }
        let ghost before = *self;
        let mut visits: Vec<Step> = Vec::new();
        for p in 0..commit.parents.len()
            invariant
                visits@.len() == p,
                forall|j: int|
                    0 <= j < p ==> (#[trigger] visits@[j]) is Visit && step_id(visits@[j])
                        == commit.parents@[j]@,
        {
            visits.push(Step::Visit(commit.parents[p].copy()));
        }
        let ghost pushed = visits@;
        self.fetched = Ghost(self.fetched@.push(commit));
        self.awaiting = None;
        self.stack.push(Step::Emit(commit));
        self.stack.append(&mut visits);
        proof {
            supply_step(before, *self, commit, pushed);
        }
        Ok(())
    }

    /// What a walk that is done has collected, as a log shows it.
    pub fn visible(self) -> (r: Vec<Commit>)
        requires
            self.wf(),
            self.done(),
        ensures
            is_log(r@, self.roots@),
            r@.to_multiset() == self.fetched@.to_multiset(),
    {
        let history = reversed(self.emitted);
        let ghost h = history@;
        let r = sort(history);
        proof {
            walk_makes_log(self, h, r@);
        }
        r
    }
}

proof fn has_id_in_more(a: Seq<Commit>, b: Seq<Commit>, id: Seq<u8>)
    requires
        forall|k: int| 0 <= k < a.len() ==> b.contains(#[trigger] a[k]),
        has_id(a, id),
    ensures
        has_id(b, id),
{
    let k = choose|k: int| 0 <= k < a.len() && (#[trigger] a[k]).id@ == id;
    let m = choose|m: int| 0 <= m < b.len() && b[m] == a[k];
    assert(b[m].id@ == id);
}

/// Sorting changes neither which values there are nor how often.
pub proof fn sorts_keeps_members<T: Ordered>(s: Seq<T>, r: Seq<T>)
    requires
        sorts(s, r),
    ensures
        r.len() == s.len(),
        forall|i: int| 0 <= i < s.len() ==> r.contains(#[trigger] s[i]),
        forall|i: int| 0 <= i < r.len() ==> s.contains(#[trigger] r[i]),
        s.no_duplicates() ==> r.no_duplicates(),
{
    broadcast use vstd::seq_lib::group_to_multiset_ensures;
    assert(r.to_multiset().len() == s.to_multiset().len());
    assert forall|i: int| 0 <= i < s.len() implies r.contains(#[trigger] s[i]) by {
        assert(s.to_multiset().contains(s[i]));
    }
    assert forall|i: int| 0 <= i < r.len() implies s.contains(#[trigger] r[i]) by {
        assert(r.to_multiset().contains(r[i]));
    }
    if s.no_duplicates() {
        s.lemma_multiset_has_no_duplicates();
        assert(forall|x: T| r.to_multiset().contains(x) ==> r.to_multiset().count(x) == 1);
        r.lemma_multiset_has_no_duplicates_conv();
    }
}

proof fn all_reached_are_there(commits: Seq<Commit>, roots: Seq<Seq<u8>>, id: Seq<u8>, n: nat)
    requires
        forall|r: int| 0 <= r < roots.len() ==> has_id(commits, #[trigger] roots[r]),
        forall|k: int, p: int|
            0 <= k < commits.len() && 0 <= p < commits[k].parents@.len() ==> has_id(
                commits,
                (#[trigger] commits[k].parents@[p])@,
            ),
        reached_in(commits, roots, id, n),
    ensures
        has_id(commits, id),
{
    if n == 0 {
        let r = choose|r: int| 0 <= r < roots.len() && roots[r] == id;
        assert(has_id(commits, roots[r]));
    } else {
        let k = choose|k: int|
            0 <= k < commits.len() && reached_in(
                commits,
                roots,
                (#[trigger] commits[k]).id@,
                (n - 1) as nat,
            ) && commits[k].parent_ids().contains(id);
        let p = choose|p: int|
            0 <= p < commits[k].parent_ids().len() && commits[k].parent_ids()[p] == id;
        assert(commits[k].parents@[p]@ == id);
    }
}

#[verifier::spinoff_prover]
#[verifier::rlimit(60)]
proof fn walk_makes_log(w: LogWalk, h: Seq<Commit>, r: Seq<Commit>)
    requires
        w.wf(),
        w.done(),
        h == w.emitted@.reverse(),
        sorts(h, r),
    ensures
        is_log(r, w.roots@),
        r.to_multiset() == w.fetched@.to_multiset(),
{
    let e = w.emitted@;
    let f = w.fetched@;
    let roots = w.roots@;
    sorts_keeps_members(h, r);
    assert forall|k: int| 0 <= k < e.len() implies h.contains(#[trigger] e[k]) by {
        assert(h[e.len() - 1 - k] == e[k]);
    }
    assert forall|k: int| 0 <= k < h.len() implies e.contains(#[trigger] h[k]) by {
        assert(e[e.len() - 1 - k] == h[k]);
    }
    assert forall|k: int| 0 <= k < f.len() implies r.contains(#[trigger] f[k]) by {
        let m = choose|m: int| 0 <= m < e.len() && e[m] == f[k];
        assert(h[e.len() - 1 - m] == f[k]);
    }
    assert forall|k: int| 0 <= k < r.len() implies f.contains(#[trigger] r[k]) by {
        let m = choose|m: int| 0 <= m < h.len() && h[m] == r[k];
        assert(e[e.len() - 1 - m] == r[k]);
    }
    assert(h.no_duplicates()) by {
        assert forall|i: int, j: int| 0 <= i < j < h.len() implies h[i] != h[j] by {
            assert(e[e.len() - 1 - j].id@ != e[e.len() - 1 - i].id@);
        }
    }
    assert(f.no_duplicates()) by {
        assert forall|i: int, j: int| 0 <= i < j < f.len() implies f[i] != f[j] by {
            assert(f[i].id@ != f[j].id@);
        }
    }
    assert forall|i: int, j: int| 0 <= i < j < r.len() implies (#[trigger] r[i]).id@ != (#[trigger] r[j]).id@ by {
        let a = choose|a: int| 0 <= a < f.len() && f[a] == r[i];
        let b = choose|b: int| 0 <= b < f.len() && f[b] == r[j];
        assert(a != b);
        if a < b {
            assert(f[a].id@ != f[b].id@);
        } else {
            assert(f[b].id@ != f[a].id@);
        }
    }
    // Closed under parents, and holding the roots.
    assert forall|x: Seq<u8>| known(w, x) implies has_id(r, x) by {
        has_id_in_more(f, r, x);
    }
    assert forall|k: int, p: int| 0 <= k < r.len() && 0 <= p < r[k].parents@.len() implies has_id(
        r,
        (#[trigger] r[k].parents@[p])@,
    ) by {
        let m = choose|m: int| 0 <= m < f.len() && f[m] == r[k];
        assert(known(w, f[m].parents@[p]@));
    }
    assert forall|x: Seq<u8>| has_id(r, x) <==> visible(r, roots, x) by {
        if has_id(r, x) {
            let k = choose|k: int| 0 <= k < r.len() && (#[trigger] r[k]).id@ == x;
            let m = choose|m: int| 0 <= m < f.len() && f[m] == r[k];
            assert(visible(f, roots, f[m].id@));
            visible_in_more(f, r, roots, x);
        }
        if visible(r, roots, x) {
            let n = choose|n: nat| reached_in(r, roots, x, n);
            all_reached_are_there(r, roots, x, n);
        }
    }
    if acyclic(r) {
        let rank = choose|rank: spec_fn(Seq<u8>) -> nat| ranks(rank, r);
        ranks_of_fewer(rank, f, r);
        assert(rank_kept(rank, w));
        assert forall|i: int, p: int| 0 <= i < h.len() && 0 <= p < h[i].parents@.len() implies has_id(
            h.skip(i + 1),
            (#[trigger] h[i].parents@[p])@,
        ) by {
            let m = e.len() - 1 - i;
            let x = h[i].parents@[p]@;
            assert(e[m].parents@[p]@ == x);
            let q = choose|q: int| 0 <= q < e.take(m).len() && (#[trigger] e.take(m)[q]).id@ == x;
            assert(h.skip(i + 1)[e.len() - 1 - q - i - 1] == e[q]);
        }
    }
    assert(r.to_multiset() =~= f.to_multiset()) by {
        broadcast use vstd::seq_lib::group_to_multiset_ensures;
        f.lemma_multiset_has_no_duplicates();
        r.lemma_multiset_has_no_duplicates();
        assert forall|x: Commit| r.to_multiset().count(x) == f.to_multiset().count(x) by {
            if r.contains(x) {
                assert(f.contains(x));
            }
            if f.contains(x) {
                assert(r.contains(x));
            }
            assert(r.to_multiset().contains(x) <==> r.contains(x));
            assert(f.to_multiset().contains(x) <==> f.contains(x));
        }
    }
}

/// What a filter keeps stands in the order that it had.
proof fn filter_keeps_order<T>(s: Seq<T>, keep: spec_fn(T) -> bool, i: int, j: int)
    requires
        0 <= i < j < s.len(),
        keep(s[i]),
        keep(s[j]),
    ensures
        exists|a: int, b: int|
            0 <= a < b < s.filter(keep).len() && #[trigger] s.filter(keep)[a] == s[i]
                && #[trigger] s.filter(keep)[b] == s[j],
    decreases s.len(),
{
    reveal(Seq::filter);
    let front = s.drop_last();
    let kept = front.filter(keep);
    if j < s.len() - 1 {
        filter_keeps_order(front, keep, i, j);
        let (a, b) = choose|a: int, b: int|
            0 <= a < b < kept.len() && #[trigger] kept[a] == front[i] && #[trigger] kept[b]
                == front[j];
        assert(s.filter(keep)[a] == s[i] && s.filter(keep)[b] == s[j]);
    } else {
        broadcast use vstd::seq_lib::group_filter_ensures;

        assert(front[i] == s[i]);
        assert(kept.contains(front[i]));
        let a = choose|a: int| 0 <= a < kept.len() && kept[a] == s[i];
        assert(s.filter(keep) == kept.push(s[j]));
        assert(s.filter(keep)[a] == s[i] && s.filter(keep)[kept.len() as int] == s[j]);
    }
}

/// What a filter has kept was there.
proof fn filter_keeps_members<T>(s: Seq<T>, keep: spec_fn(T) -> bool, a: int)
    requires
        0 <= a < s.filter(keep).len(),
    ensures
        s.contains(s.filter(keep)[a]),
    decreases s.len(),
{
    reveal(Seq::filter);
    let front = s.drop_last();
    if a < front.filter(keep).len() {
        filter_keeps_members(front, keep, a);
        let i = choose|i: int| 0 <= i < front.len() && front[i] == front.filter(keep)[a];
        assert(s[i] == s.filter(keep)[a]);
    } else {
        assert(s[s.len() - 1] == s.filter(keep)[a]);
    }
}

/// What a filter has kept stood in the order that it stands in now.
proof fn filter_shows_order<T>(s: Seq<T>, keep: spec_fn(T) -> bool, a: int, b: int)
    requires
        0 <= a < b < s.filter(keep).len(),
    ensures
        exists|i: int, j: int|
            0 <= i < j < s.len() && #[trigger] s[i] == s.filter(keep)[a] && #[trigger] s[j]
                == s.filter(keep)[b],
    decreases s.len(),
{
    reveal(Seq::filter);
    let front = s.drop_last();
    let kept = front.filter(keep);
    if b < kept.len() {
        filter_shows_order(front, keep, a, b);
        let (i, j) = choose|i: int, j: int|
            0 <= i < j < front.len() && #[trigger] front[i] == kept[a] && #[trigger] front[j]
                == kept[b];
        assert(s[i] == s.filter(keep)[a] && s[j] == s.filter(keep)[b]);
    } else {
        filter_keeps_members(front, keep, a);
        let i = choose|i: int| 0 <= i < front.len() && front[i] == kept[a];
        assert(s[i] == s.filter(keep)[a] && s[s.len() - 1] == s.filter(keep)[b]);
    }
}

/// A line of descent in `commits`: each commit of the line is a parent of the one
/// before it.
pub open spec fn is_line(commits: Seq<Commit>, line: Seq<Commit>) -> bool {
    &&& forall|k: int| 0 <= k < line.len() ==> commits.contains(#[trigger] line[k])
    &&& forall|k: int|
        0 <= k < line.len() - 1 ==> is_parent((#[trigger] line[k]), line[k + 1])
}

/// `parent` is a parent of `child`.
pub open spec fn is_parent(child: Commit, parent: Commit) -> bool {
    exists|p: int| 0 <= p < child.parents@.len() && (#[trigger] child.parents@[p])@ == parent.id@
}

/// In a history with children first, all ancestors of a commit come after it.
proof fn ancestors_come_later(log: Seq<Commit>, history: Seq<Commit>, line: Seq<Commit>, a: int) -> (b:
    int)
    requires
        distinct_ids(log),
        sorts(history, log),
        child_first(history),
        is_line(log, line),
        line.len() > 1,
        0 <= a < history.len(),
        history[a] == line[0],
    ensures
        a < b < history.len(),
        history[b] == line.last(),
    decreases line.len(),
{
    sorts_keeps_members(history, log);
    assert(is_parent(line[0], line[1]));
    let p = choose|p: int|
        0 <= p < line[0].parents@.len() && (#[trigger] line[0].parents@[p])@ == line[1].id@;
    assert(has_id(history.skip(a + 1), history[a].parents@[p]@));
    let rest = history.skip(a + 1);
    let q = choose|q: int| 0 <= q < rest.len() && (#[trigger] rest[q]).id@ == line[1].id@;
    let b = a + 1 + q;
    assert(history[b].id@ == line[1].id@);
    let m = choose|m: int| 0 <= m < log.len() && log[m] == history[b];
    assert(log.contains(line[1]));
    let n = choose|n: int| 0 <= n < log.len() && log[n] == line[1];
    assert(m == n);
    if line.len() == 2 {
        b
    } else {
        let tail = line.skip(1);
        assert forall|k: int| 0 <= k < tail.len() implies log.contains(#[trigger] tail[k]) by {
            assert(log.contains(line[k + 1]));
        }
        assert forall|k: int| 0 <= k < tail.len() - 1 implies is_parent(
            (#[trigger] tail[k]),
            tail[k + 1],
        ) by {
            assert(is_parent(line[k + 1], line[k + 2]));
        }
        ancestors_come_later(log, history, tail, b)
    }
}

/// In a log, of two commits of the same moment a descendant stands above its
/// ancestor, whatever the times of those between them.
pub proof fn equal_times_keep_descendants_first(
    log: Seq<Commit>,
    roots: Seq<Seq<u8>>,
    line: Seq<Commit>,
    i: int,
    j: int,
)
    requires
        is_log(log, roots),
        acyclic(log),
        is_line(log, line),
        line.len() > 1,
        0 <= i < log.len(),
        0 <= j < log.len(),
        line[0] == log[i],
        line.last() == log[j],
        log[j].committer_ms == log[i].committer_ms,
    ensures
        i < j,
{
    let history = choose|history: Seq<Commit>| #[trigger]
        sorts(history, log) && child_first(history);
    sorts_keeps_members(history, log);
    let k = log[i];
    let keep = |x: Commit| ties(x, k);
    let a = choose|a: int| 0 <= a < history.len() && history[a] == log[i];
    let b = ancestors_come_later(log, history, line, a);
    filter_keeps_order(history, keep, a, b);
    assert(tied(log, k) == tied(history, k));
    let (x, y) = choose|x: int, y: int|
        0 <= x < y < history.filter(keep).len() && #[trigger] history.filter(keep)[x]
            == history[a] && #[trigger] history.filter(keep)[y] == history[b];
    filter_shows_order(log, keep, x, y);
    let (u, v) = choose|u: int, v: int|
        0 <= u < v < log.len() && #[trigger] log[u] == log.filter(keep)[x] && #[trigger] log[v]
            == log.filter(keep)[y];
    assert(log[u].id@ == log[i].id@);
    assert(log[v].id@ == log[j].id@);
    assert(u == i);
    assert(v == j);
}

/// In a log, of two commits of the same moment a child stands above its parent.
pub proof fn equal_times_keep_child_first(
    log: Seq<Commit>,
    roots: Seq<Seq<u8>>,
    i: int,
    p: int,
    j: int,
)
    requires
        is_log(log, roots),
        acyclic(log),
        0 <= i < log.len(),
        0 <= p < log[i].parents@.len(),
        0 <= j < log.len(),
        log[j].id@ == log[i].parents@[p]@,
        log[j].committer_ms == log[i].committer_ms,
    ensures
        i < j,
{
    let line = seq![log[i], log[j]];
    assert(log[i].parents@[p]@ == log[j].id@);
    assert(is_parent(line[0], line[1]));
    assert(log.contains(log[i]) && log.contains(log[j]));
    equal_times_keep_descendants_first(log, roots, line, i, j);
}

/// Where no commit is older than one of its parents, a log shows every commit
/// above its parents.
pub proof fn log_is_child_first(log: Seq<Commit>, roots: Seq<Seq<u8>>)
    requires
        is_log(log, roots),
        acyclic(log),
        forall|i: int, p: int, j: int|
            0 <= i < log.len() && 0 <= p < log[i].parents@.len() && 0 <= j < log.len() && (
            #[trigger] log[j]).id@ == (#[trigger] log[i].parents@[p])@ ==> log[j].committer_ms
                <= log[i].committer_ms,
    ensures
        child_first(log),
{
    assert forall|i: int, p: int| 0 <= i < log.len() && 0 <= p < log[i].parents@.len() implies has_id(
        log.skip(i + 1),
        (#[trigger] log[i].parents@[p])@,
    ) by {
        let id = log[i].parents@[p]@;
        assert(has_id(log, log[i].id@));
        parent_visible(log, roots, i, p);
        assert(has_id(log, id));
        let j = choose|j: int| 0 <= j < log.len() && (#[trigger] log[j]).id@ == id;
        if log[j].committer_ms == log[i].committer_ms {
            equal_times_keep_child_first(log, roots, i, p, j);
        } else if j < i {
            let history = choose|history: Seq<Commit>| #[trigger] sorts(history, log);
            assert(log[j].le(log[i]));
        } else {
            assert(i != j);
        }
        assert(log.skip(i + 1)[j - i - 1].id@ == id);
    }
}

} // verus!
