//! The registry of repos that the daemon owns.

use vstd::prelude::*;
use vstd::string::*;

#[allow(unused_imports)]
use crate::lists::{first_where, only_one_is_found, search_goes_on};
use crate::paths::{depth_of, is_absolute, is_same_path, join_path, lies_within};
#[allow(unused_imports)]
use crate::paths::{
    absolute, components, equally_deep_roots_agree, joined_path, same_path, within,
};
use crate::proto::RepoInfo;
use crate::sort::{sort, Ordered};
#[allow(unused_imports)]
use crate::sort::sorts;
use crate::text::{decimal_of, same, text_before};
#[allow(unused_imports)]
use crate::text::{decimal, decimal_is_injective, text_le, text_le_total, text_le_transitive};

verus! {

/// The registered repos, and the directory that the registry is kept in. An engine
/// stands behind each repo.
pub struct DaemonState {
    pub dir: String,
    pub repos: Vec<RepoInfo>,
}

/// Registrations in the order of their ids.
impl Ordered for RepoInfo {
    open spec fn le(self, other: RepoInfo) -> bool {
        text_le(self.id.0@, other.id.0@)
    }

    proof fn le_total(a: RepoInfo, b: RepoInfo) {
        text_le_total(a.id.0@, b.id.0@);
    }

    proof fn le_transitive(a: RepoInfo, b: RepoInfo, c: RepoInfo) {
        text_le_transitive(a.id.0@, b.id.0@, c.id.0@);
    }

    fn before(&self, other: &RepoInfo) -> (r: bool) {
        text_before(self.id.0.as_str(), other.id.0.as_str())
    }
}

pub open spec fn of_id(id: Seq<char>) -> spec_fn(RepoInfo) -> bool {
    |i: RepoInfo| i.id.0@ == id
}

pub open spec fn of_root(root: Seq<char>) -> spec_fn(RepoInfo) -> bool {
    |i: RepoInfo| same_path(i.root@, root)
}

/// A repo is registered under this id.
pub open spec fn taken(repos: Seq<RepoInfo>, id: Seq<char>) -> bool {
    exists|k: int| 0 <= k < repos.len() && (#[trigger] repos[k]).id.0@ == id
}

/// The registrations but for the one of this id.
pub open spec fn others(repos: Seq<RepoInfo>, id: Seq<char>) -> Seq<RepoInfo> {
    repos.filter(|i: RepoInfo| i.id.0@ != id)
}

/// No two registrations have the same id.
pub open spec fn ids_differ(repos: Seq<RepoInfo>) -> bool {
    forall|i: int, j: int|
        0 <= i < j < repos.len() ==> (#[trigger] repos[i]).id.0@ != (#[trigger] repos[j]).id.0@
}

/// No two registrations have the same root.
pub open spec fn roots_differ(repos: Seq<RepoInfo>) -> bool {
    forall|i: int, j: int|
        0 <= i < j < repos.len() ==> !same_path(
            (#[trigger] repos[i]).root@,
            (#[trigger] repos[j]).root@,
        )
}

/// Leaving registrations out keeps the roots of the others apart.
pub(crate) proof fn others_keep_roots_apart(repos: Seq<RepoInfo>, id: Seq<char>)
    requires
        roots_differ(repos),
    ensures
        roots_differ(others(repos, id)),
        forall|x: RepoInfo| #[trigger] others(repos, id).contains(x) ==> repos.contains(x),
    decreases repos.len(),
{
    reveal(Seq::filter);
    let rest = others(repos, id);
    if repos.len() > 0 {
        let front = repos.drop_last();
        let last = repos.last();
        others_keep_roots_apart(front, id);
        let before = others(front, id);
        assert forall|x: RepoInfo| #[trigger] rest.contains(x) implies repos.contains(x) by {
            let k = choose|k: int| 0 <= k < rest.len() && rest[k] == x;
            if k < before.len() {
                assert(before[k] == x);
                assert(before.contains(x));
                let m = choose|m: int| 0 <= m < front.len() && front[m] == x;
                assert(repos[m] == x);
            } else {
                assert(repos[repos.len() - 1] == x);
            }
        }
        assert forall|i: int, j: int| 0 <= i < j < rest.len() implies !same_path(
            (#[trigger] rest[i]).root@,
            (#[trigger] rest[j]).root@,
        ) by {
            assert(before[i] == rest[i]);
            if j < before.len() {
                assert(before[j] == rest[j]);
            } else {
                assert(before.contains(before[i]));
                let m = choose|m: int| 0 <= m < front.len() && front[m] == before[i];
                assert(repos[m] == rest[i] && repos[repos.len() - 1] == rest[j]);
            }
        }
    }
}

pub(crate) proof fn others_differ(repos: Seq<RepoInfo>, id: Seq<char>)
    requires
        ids_differ(repos),
    ensures
        ids_differ(others(repos, id)),
        forall|i: int|
            0 <= i < others(repos, id).len() ==> (#[trigger] others(repos, id)[i]).id.0@ != id
                && repos.contains(others(repos, id)[i]),
    decreases repos.len(),
{
    reveal(Seq::filter);
    if repos.len() > 0 {
        let front = repos.drop_last();
        let last = repos.last();
        others_differ(front, id);
        let kept = others(front, id);
        assert forall|i: int| 0 <= i < kept.len() implies (#[trigger] kept[i]).id.0@ != last.id.0@
            && repos.contains(kept[i]) by {
            let k = choose|k: int| 0 <= k < front.len() && front[k] == kept[i];
            assert(repos[k] == kept[i]);
        }
        assert(repos[repos.len() - 1] == last);
    }
}

pub(crate) proof fn others_of_a_stranger(repos: Seq<RepoInfo>, id: Seq<char>)
    requires
        !taken(repos, id),
    ensures
        others(repos, id) == repos,
    decreases repos.len(),
{
    reveal(Seq::filter);
    if repos.len() > 0 {
        let front = repos.drop_last();
        assert forall|k: int| 0 <= k < front.len() implies (#[trigger] front[k]).id.0@ != id by {
            assert(repos[k].id.0@ != id);
        }
        others_of_a_stranger(front, id);
        assert(repos[repos.len() - 1].id.0@ != id);
        assert(front.push(repos.last()) =~= repos);
    } else {
        assert(others(repos, id) =~= repos);
    }
}

/// `name` with a number behind it.
pub open spec fn numbered(name: Seq<char>, n: nat) -> Seq<char> {
    name + "-"@ + decimal(n)
}

/// The id for a repo in a directory `name`: the name itself where it is free, else
/// the name with the first number from two on that makes it free.
pub open spec fn is_fresh_id(repos: Seq<RepoInfo>, name: Seq<char>, id: Seq<char>) -> bool {
    &&& !taken(repos, id)
    &&& if taken(repos, name) {
        exists|n: nat|
            n >= 2 && id == #[trigger] numbered(name, n) && forall|m: nat|
                2 <= m < n ==> taken(repos, #[trigger] numbered(name, m))
    } else {
        id == name
    }
}

proof fn numbers_run_out(repos: Seq<RepoInfo>, name: Seq<char>, n: nat)
    requires
        n >= 2,
        forall|m: nat| 2 <= m < n ==> taken(repos, #[trigger] numbered(name, m)),
    ensures
        n <= repos.len() + 2,
{
    let at = Seq::new(
        (n - 2) as nat,
        |i: int|
            choose|k: int|
                0 <= k < repos.len() && (#[trigger] repos[k]).id.0@ == numbered(
                    name,
                    (i + 2) as nat,
                ),
    );
    assert forall|i: int| 0 <= i < at.len() implies 0 <= #[trigger] at[i] < repos.len()
        && repos[at[i]].id.0@ == numbered(name, (i + 2) as nat) by {
        assert(taken(repos, numbered(name, (i + 2) as nat)));
    }
    assert(at.no_duplicates()) by {
        assert forall|i: int, j: int| 0 <= i < j < at.len() implies at[i] != at[j] by {
            if at[i] == at[j] {
                let (a, b) = ((i + 2) as nat, (j + 2) as nat);
                assert(numbered(name, a) == numbered(name, b));
                assert(numbered(name, a).skip((name + "-"@).len() as int) =~= decimal(a));
                assert(numbered(name, b).skip((name + "-"@).len() as int) =~= decimal(b));
                decimal_is_injective(a, b);
            }
        }
    }
    let places = vstd::set_lib::set_int_range(0, repos.len() as int);
    vstd::set_lib::lemma_int_range(0, repos.len() as int);
    at.unique_seq_to_set();
    assert(at.to_set().subset_of(places)) by {
        assert forall|x: int| at.to_set().contains(x) implies places.contains(x) by {
            let i = choose|i: int| 0 <= i < at.len() && at[i] == x;
            assert(0 <= at[i] < repos.len());
        }
    }
    vstd::set_lib::lemma_len_subset(at.to_set(), places);
}

/// The deepest registered root that a path lies in.
pub open spec fn is_deepest(repos: Seq<RepoInfo>, path: Seq<char>, i: RepoInfo) -> bool {
    &&& repos.contains(i)
    &&& within(path, i.root@)
    &&& forall|k: int|
        0 <= k < repos.len() && within(path, (#[trigger] repos[k]).root@) ==> components(
            repos[k].root@,
        ).len() <= components(i.root@).len()
}

/// The path lies in no registered root.
pub open spec fn in_no_root(repos: Seq<RepoInfo>, path: Seq<char>) -> bool {
    forall|k: int| 0 <= k < repos.len() ==> !within(path, (#[trigger] repos[k]).root@)
}

/// What a name of a repo comes to, before a look at the disk.
pub enum Resolution {
    /// A registered id.
    Known(RepoInfo),
    /// An absolute path, which has to be made canonical first.
    Canonicalize(String),
    Unknown,
}

impl DaemonState {
    pub open spec fn wf(self) -> bool {
        ids_differ(self.repos@)
    }

    /// No repo is registered.
    pub fn new(dir: String) -> (r: DaemonState)
        ensures
            r.wf(),
            r.dir == dir,
            r.repos@.len() == 0,
    {
        DaemonState { dir, repos: Vec::new() }
    }

    fn is_taken(&self, id: &str) -> (r: bool)
        ensures
            r == taken(self.repos@, id@),
    {
        for i in 0..self.repos.len()
            invariant
                forall|j: int| 0 <= j < i ==> (#[trigger] self.repos@[j]).id.0@ != id@,
        {
            if same(self.repos[i].id.0.as_str(), id) {
                return true;
            }
        }
        false
    }

    /// The id for a repo in a directory of this name.
    pub fn fresh_id(&self, name: &str) -> (r: String)
        ensures
            is_fresh_id(self.repos@, name@, r@),
    {
        if !self.is_taken(name) {
            return name.to_string();
        }
        let count: usize = self.repos.len();
        let mut n: u128 = 2;
        loop
            invariant
                n >= 2,
                n <= self.repos@.len() + 2,
                self.repos@.len() == count,
                taken(self.repos@, name@),
                forall|m: nat| 2 <= m < n ==> taken(self.repos@, #[trigger] numbered(name@, m)),
            decreases self.repos@.len() + 2 - n,
        {
            let id = name.to_string().concat("-").concat(decimal_of(n).as_str());
            assert(id@ == numbered(name@, n as nat));
            if !self.is_taken(id.as_str()) {
                return id;
            }
            proof {
                assert forall|m: nat| 2 <= m < n + 1 implies taken(
                    self.repos@,
                    #[trigger] numbered(name@, m),
                ) by {
                    if m == n {
                    }
                }
                numbers_run_out(self.repos@, name@, (n + 1) as nat);
            }
            n = n + 1;
        }
    }

    /// Registers, in place of the registration of the same id where there is one.
    pub fn insert(&mut self, info: RepoInfo)
        ensures
            final(self).dir == old(self).dir,
            final(self).repos@ == others(old(self).repos@, info.id.0@).push(info),
            old(self).wf() ==> final(self).wf(),
    {
        let ghost before = self.repos@;
        self.remove(info.id.0.as_str());
        proof {
            if old(self).wf() {
                others_differ(before, info.id.0@);
            }
        }
        self.repos.push(info);
    }

    /// Drops the registration of this id.
    pub fn remove(&mut self, id: &str)
        ensures
            final(self).dir == old(self).dir,
            final(self).repos@ == others(old(self).repos@, id@),
            old(self).wf() ==> final(self).wf(),
    {
        let ghost keep = |i: RepoInfo| i.id.0@ != id@;
        let mut kept: Vec<RepoInfo> = Vec::new();
        for i in 0..self.repos.len()
            invariant
                keep == (|i: RepoInfo| i.id.0@ != id@),
                kept@ == self.repos@.take(i as int).filter(keep),
                *self == *old(self),
        {
            let ghost upto = self.repos@.take(i + 1);
            proof {
                reveal(Seq::filter);
                assert(upto.drop_last() =~= self.repos@.take(i as int));
                assert(upto.last() == self.repos@[i as int]);
            }
            if !same(self.repos[i].id.0.as_str(), id) {
                kept.push(self.repos[i].copy());
            }
        }
        proof {
            assert(self.repos@.take(self.repos@.len() as int) =~= self.repos@);
            if self.wf() {
                others_differ(self.repos@, id@);
            }
        }
        self.repos = kept;
    }

    /// The registration of this id.
    pub fn lookup(&self, id: &str) -> (r: Option<&RepoInfo>)
        ensures
            match r {
                Some(i) => first_where(self.repos@, of_id(id@)) == Some(*i),
                None => first_where(self.repos@, of_id(id@)) is None,
            },
    {
        let ghost p = of_id(id@);
        assert(self.repos@.skip(0) =~= self.repos@);
        for i in 0..self.repos.len()
            invariant
                p == of_id(id@),
                first_where(self.repos@, p) == first_where(self.repos@.skip(i as int), p),
        {
            proof {
                search_goes_on(self.repos@, p, i as int);
            }
            if same(self.repos[i].id.0.as_str(), id) {
                return Some(&self.repos[i]);
            }
        }
        None
    }

    pub(crate) fn at_root(&self, root: &str) -> (r: Option<&RepoInfo>)
        ensures
            match r {
                Some(i) => first_where(self.repos@, of_root(root@)) == Some(*i),
                None => first_where(self.repos@, of_root(root@)) is None,
            },
    {
        let ghost p = of_root(root@);
        assert(self.repos@.skip(0) =~= self.repos@);
        for i in 0..self.repos.len()
            invariant
                p == of_root(root@),
                first_where(self.repos@, p) == first_where(self.repos@.skip(i as int), p),
        {
            proof {
                search_goes_on(self.repos@, p, i as int);
            }
            if is_same_path(self.repos[i].root.as_str(), root) {
                return Some(&self.repos[i]);
            }
        }
        None
    }

    /// Looks up a repo by its id, or by an absolute path, which has to be made
    /// canonical before it can be compared with roots.
    pub fn resolve(&self, id_or_path: &str) -> (r: Resolution)
        ensures
            match first_where(self.repos@, of_id(id_or_path@)) {
                Some(i) => r == Resolution::Known(i),
                None => if absolute(id_or_path@) {
                    r matches Resolution::Canonicalize(path) && path@ == id_or_path@
                } else {
                    r == Resolution::Unknown
                },
            },
    {
        match self.lookup(id_or_path) {
            Some(info) => Resolution::Known(info.copy()),
            None => if is_absolute(id_or_path) {
                Resolution::Canonicalize(id_or_path.to_string())
            } else {
                Resolution::Unknown
            },
        }
    }

    /// The repo that a canonical path lies in: the one with the deepest root.
    pub fn containing(&self, path: &str) -> (r: Option<RepoInfo>)
        ensures
            match r {
                Some(i) => is_deepest(self.repos@, path@, i),
                None => forall|k: int|
                    0 <= k < self.repos@.len() ==> !within(path@, (#[trigger] self.repos@[k]).root@),
            },
            r is None <==> in_no_root(self.repos@, path@),
    {
        let mut best: Option<usize> = None;
        let mut depth: usize = 0;
        for i in 0..self.repos.len()
            invariant
                match best {
                    Some(b) => {
                        &&& b < i
                        &&& within(path@, self.repos@[b as int].root@)
                        &&& depth == components(self.repos@[b as int].root@).len()
                        &&& forall|k: int|
                            0 <= k < i && within(path@, (#[trigger] self.repos@[k]).root@)
                                ==> components(self.repos@[k].root@).len() <= depth
                    },
                    None => forall|k: int|
                        0 <= k < i ==> !within(path@, (#[trigger] self.repos@[k]).root@),
                },
        {
            if lies_within(path, self.repos[i].root.as_str()) {
                let d: usize = depth_of(self.repos[i].root.as_str());
                if best.is_none() || d >= depth {
                    best = Some(i);
                    depth = d;
                }
            }
        }
        match best {
            Some(b) => {
                assert(self.repos@.contains(self.repos@[b as int]));
                Some(self.repos[b].copy())
            },
            None => None,
        }
    }

    /// All registrations, sorted by id.
    pub fn list(&self) -> (r: Vec<RepoInfo>)
        ensures
            sorts(self.repos@, r@),
    {
        let mut all: Vec<RepoInfo> = Vec::new();
        for i in 0..self.repos.len()
            invariant
                all@ == self.repos@.take(i as int),
        {
            all.push(self.repos[i].copy());
            assert(all@ =~= self.repos@.take(i + 1));
        }
        assert(all@ =~= self.repos@);
        sort(all)
    }
}

/// A path has one deepest root: two that are as deep have the same components.
pub proof fn deepest_root_is_one(
    repos: Seq<RepoInfo>,
    path: Seq<char>,
    a: RepoInfo,
    b: RepoInfo,
)
    requires
        is_deepest(repos, path, a),
        is_deepest(repos, path, b),
    ensures
        components(a.root@) == components(b.root@),
{
    let i = choose|i: int| 0 <= i < repos.len() && repos[i] == a;
    let j = choose|j: int| 0 <= j < repos.len() && repos[j] == b;
    assert(within(path, repos[i].root@));
    assert(within(path, repos[j].root@));
    equally_deep_roots_agree(path, a.root@, b.root@);
}

/// A registration can be looked up by its id.
pub proof fn registered_ids_resolve(state: DaemonState, k: int)
    requires
        state.wf(),
        0 <= k < state.repos@.len(),
    ensures
        first_where(state.repos@, of_id(state.repos@[k].id.0@)) == Some(state.repos@[k]),
{
    let p = of_id(state.repos@[k].id.0@);
    assert forall|i: int| 0 <= i < state.repos@.len() && p(#[trigger] state.repos@[i]) implies i == k by {
        if i < k {
            assert(state.repos@[i].id.0@ != state.repos@[k].id.0@);
        } else if k < i {
            assert(state.repos@[k].id.0@ != state.repos@[i].id.0@);
        }
    }
    only_one_is_found(state.repos@, p, k);
}

/// Where the registry is kept.
pub open spec fn registry_path(dir: Seq<char>) -> Seq<char> {
    joined_path(dir, "repos.json"@)
}

/// Where the registry is written before it takes its place.
pub open spec fn registry_tmp_path(dir: Seq<char>) -> Seq<char> {
    joined_path(dir, "repos.json.tmp"@)
}

/// A rewrite of the registry: write `tmp`, then rename it to `path`, so that the
/// registry is never half-written.
pub struct Persist {
    pub infos: Vec<RepoInfo>,
    pub tmp: String,
    pub path: String,
}

/// The rewrite that makes the registry hold these repos.
pub open spec fn persists(p: Persist, dir: Seq<char>, repos: Seq<RepoInfo>) -> bool {
    &&& sorts(repos, p.infos@)
    &&& p.tmp@ == registry_tmp_path(dir)
    &&& p.path@ == registry_path(dir)
}

impl DaemonState {
    /// The rewrite that makes the registry hold what is registered.
    pub fn persist(&self) -> (r: Persist)
        ensures
            persists(r, self.dir@, self.repos@),
    {
        Persist {
            infos: self.list(),
            tmp: join_path(self.dir.as_str(), "repos.json.tmp"),
            path: join_path(self.dir.as_str(), "repos.json"),
        }
    }
}

} // verus!
