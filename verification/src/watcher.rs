//! The file system watcher: which repos a batch of events makes dirty.
//!
//! Events under `.jj` or `.git` are ignored. A snapshot writes to `.jj` itself, so
//! this is also what keeps one snapshot from causing the next.

use vstd::prelude::*;
use vstd::string::*;

use crate::error::EngineError;
use crate::paths::{components_of, depth_of, lies_within};
#[allow(unused_imports)]
use crate::paths::{components, within};
use crate::proto::RepoId;
use crate::registry::WatchedRoot;
use crate::text::same;
#[allow(unused_imports)]
use crate::text::texts;

verus! {

/// How long events are gathered before they are looked at.
pub const DEBOUNCE_MS: u64 = 500;

/// The path is one of jj's or git's own.
pub open spec fn internal(path: Seq<char>) -> bool {
    components(path).contains(".jj"@) || components(path).contains(".git"@)
}

/// Whether the path is one of jj's or git's own.
pub fn is_internal(path: &str) -> (r: bool)
    ensures
        r == internal(path@),
{
    let parts = components_of(path);
    for i in 0..parts.len()
        invariant
            texts(parts@) == components(path@),
            forall|j: int|
                0 <= j < i ==> (#[trigger] parts@[j])@ != ".jj"@ && parts@[j]@ != ".git"@,
    {
        if same(parts[i].as_str(), ".jj") || same(parts[i].as_str(), ".git") {
            assert(components(path@)[i as int] == parts@[i as int]@);
            return true;
        }
    }
    proof {
        assert forall|j: int| 0 <= j < components(path@).len() implies (#[trigger] components(
            path@,
        )[j]) != ".jj"@ && components(path@)[j] != ".git"@ by {
            assert(components(path@)[j] == parts@[j]@);
        }
    }
    false
}

/// The deepest root that a path lies in; of roots that are as deep, the last.
pub open spec fn deepest(roots: Seq<WatchedRoot>, path: Seq<char>) -> Option<WatchedRoot>
    decreases roots.len(),
{
    if roots.len() == 0 {
        None
    } else {
        let last = roots.last();
        match deepest(roots.drop_last(), path) {
            None => if within(path, last.root@) {
                Some(last)
            } else {
                None
            },
            Some(best) => if within(path, last.root@) && components(last.root@).len()
                >= components(best.root@).len() {
                Some(last)
            } else {
                Some(best)
            },
        }
    }
}

/// No root that a path lies in is deeper than the deepest, and there is none only if
/// the path lies in no root.
pub proof fn deepest_is_deepest(roots: Seq<WatchedRoot>, path: Seq<char>)
    ensures
        match deepest(roots, path) {
            Some(best) => roots.contains(best) && within(path, best.root@) && forall|k: int|
                0 <= k < roots.len() && within(path, (#[trigger] roots[k]).root@) ==> components(
                    roots[k].root@,
                ).len() <= components(best.root@).len(),
            None => forall|k: int|
                0 <= k < roots.len() ==> !within(path, (#[trigger] roots[k]).root@),
        },
    decreases roots.len(),
{
    if roots.len() > 0 {
        let front = roots.drop_last();
        deepest_is_deepest(front, path);
        assert forall|k: int| 0 <= k < front.len() implies #[trigger] roots[k] == front[k] by {}
        assert(roots[roots.len() - 1] == roots.last());
        if let Some(best) = deepest(front, path) {
            let k = choose|k: int| 0 <= k < front.len() && front[k] == best;
            assert(roots[k] == best);
        }
    }
}

/// The index of the deepest root that a path lies in.
fn deepest_of(roots: &Vec<WatchedRoot>, path: &str) -> (r: Option<usize>)
    ensures
        match r {
            Some(k) => k < roots@.len() && deepest(roots@, path@) == Some(roots@[k as int]),
            None => deepest(roots@, path@) is None,
        },
{
    let mut best: Option<usize> = None;
    for i in 0..roots.len()
        invariant
            match best {
                Some(k) => k < i && deepest(roots@.take(i as int), path@) == Some(
                    roots@[k as int],
                ),
                None => deepest(roots@.take(i as int), path@) is None,
            },
    {
        assert(roots@.take(i + 1).drop_last() =~= roots@.take(i as int));
        assert(roots@.take(i + 1).last() == roots@[i as int]);
        if lies_within(path, roots[i].root.as_str()) {
            let better = match best {
                None => true,
                Some(k) => depth_of(roots[i].root.as_str()) >= depth_of(roots[k].root.as_str()),
            };
            if better {
                best = Some(i);
            }
        }
    }
    assert(roots@.take(roots@.len() as int) =~= roots@);
    best
}

/// The repo that an event at a path makes dirty.
pub open spec fn dirtied_by(roots: Seq<WatchedRoot>, path: Seq<char>) -> Option<Seq<char>> {
    if internal(path) {
        None
    } else {
        match deepest(roots, path) {
            Some(best) => Some(best.id.0@),
            None => None,
        }
    }
}

/// An event among `paths` makes this repo dirty.
pub open spec fn is_dirty(
    roots: Seq<WatchedRoot>,
    paths: Seq<String>,
    id: Seq<char>,
) -> bool {
    exists|k: int| 0 <= k < paths.len() && dirtied_by(roots, (#[trigger] paths[k])@) == Some(id)
}

/// The repos that events at these paths make dirty, each once.
pub fn dirty_repos(roots: &Vec<WatchedRoot>, paths: &Vec<String>) -> (r: Vec<String>)
    ensures
        texts(r@).no_duplicates(),
        forall|id: Seq<char>| texts(r@).contains(id) <==> is_dirty(roots@, paths@, id),
{
    let mut dirty: Vec<String> = Vec::new();
    for i in 0..paths.len()
        invariant
            texts(dirty@).no_duplicates(),
            forall|id: Seq<char>| #[trigger]
                texts(dirty@).contains(id) <==> is_dirty(roots@, paths@.take(i as int), id),
    {
        let ghost before = dirty@;
        let path = paths[i].as_str();
        if !is_internal(path) {
            if let Some(k) = deepest_of(roots, path) {
                let id = &roots[k].id.0;
                if !has_text(&dirty, id.as_str()) {
                    dirty.push(id.clone());
                    assert(texts(dirty@) =~= texts(before).push(id@));
                }
            }
        }
        proof {
            dirty_grows(roots@, paths@, i as int, texts(before), texts(dirty@));
        }
    }
    assert(paths@.take(paths@.len() as int) =~= paths@);
    dirty
}

/// One more path makes at most its own repo dirty.
proof fn dirty_grows(
    roots: Seq<WatchedRoot>,
    paths: Seq<String>,
    i: int,
    before: Seq<Seq<char>>,
    after: Seq<Seq<char>>,
)
    requires
        0 <= i < paths.len(),
        forall|id: Seq<char>| #[trigger]
            before.contains(id) <==> is_dirty(roots, paths.take(i), id),
        match dirtied_by(roots, paths[i]@) {
            Some(id) => after == before && before.contains(id) || after == before.push(id),
            None => after == before,
        },
    ensures
        forall|id: Seq<char>| #[trigger]
            after.contains(id) <==> is_dirty(roots, paths.take(i + 1), id),
{
    let (a, b) = (paths.take(i), paths.take(i + 1));
    assert forall|id: Seq<char>| #[trigger] after.contains(id) <==> is_dirty(roots, b, id) by {
        if after.contains(id) {
            if before.contains(id) {
                let k = choose|k: int|
                    0 <= k < a.len() && dirtied_by(roots, (#[trigger] a[k])@) == Some(id);
                assert(b[k] == a[k]);
            } else {
                assert(b[i] == paths[i]);
                let m = choose|m: int| 0 <= m < after.len() && after[m] == id;
                assert(m == before.len()) by {
                    if m < before.len() {
                        assert(before[m] == id);
                    }
                }
                assert(dirtied_by(roots, b[i]@) == Some(id));
            }
        }
        if is_dirty(roots, b, id) {
            let k = choose|k: int|
                0 <= k < b.len() && dirtied_by(roots, (#[trigger] b[k])@) == Some(id);
            if k < i {
                assert(a[k] == b[k]);
                assert(is_dirty(roots, a, id));
                assert(before.contains(id));
                let m = choose|m: int| 0 <= m < before.len() && before[m] == id;
                assert(after[m] == id);
            } else {
                assert(b[i] == paths[i]);
                if after != before {
                    assert(after[before.len() as int] == id);
                } else {
                    assert(before.contains(id));
                }
            }
        }
    }
}

fn has_text(list: &Vec<String>, s: &str) -> (r: bool)
    ensures
        r == texts(list@).contains(s@),
{
    for i in 0..list.len()
        invariant
            forall|j: int| 0 <= j < i ==> (#[trigger] list@[j])@ != s@,
    {
        if same(list[i].as_str(), s) {
            assert(texts(list@)[i as int] == s@);
            return true;
        }
    }
    proof {
        if texts(list@).contains(s@) {
            let j = choose|j: int| 0 <= j < texts(list@).len() && texts(list@)[j] == s@;
            assert(list@[j]@ == s@);
        }
    }
    false
}

/// What jj or git does to its own files never makes a repo dirty.
pub proof fn own_writes_are_ignored(roots: Seq<WatchedRoot>, paths: Seq<String>, id: Seq<char>)
    requires
        forall|k: int| 0 <= k < paths.len() ==> internal((#[trigger] paths[k])@),
    ensures
        !is_dirty(roots, paths, id),
{
}

/// A batch of events, or what went wrong with the watcher.
pub enum Batch {
    /// The paths of each event.
    Events(Vec<Vec<String>>),
    Errors(Vec<String>),
}

/// What a batch comes to.
pub struct BatchPlan {
    /// The repos to snapshot.
    pub dirty: Vec<String>,
    /// What is logged.
    pub warnings: Vec<String>,
}

/// The paths of all events.
pub open spec fn all_paths(events: Seq<Vec<String>>) -> Seq<String>
    decreases events.len(),
{
    if events.len() == 0 {
        Seq::empty()
    } else {
        all_paths(events.drop_last()) + events.last()@
    }
}

/// Decides what a batch comes to: its events make repos dirty, its errors are
/// logged and make none dirty.
pub fn plan_batch(roots: &Vec<WatchedRoot>, batch: &Batch) -> (r: BatchPlan)
    ensures
        texts(r.dirty@).no_duplicates(),
        match batch {
            Batch::Events(events) => r.warnings@.len() == 0 && forall|id: Seq<char>|
                texts(r.dirty@).contains(id) <==> is_dirty(roots@, all_paths(events@), id),
            Batch::Errors(errors) => r.dirty@.len() == 0 && texts(r.warnings@)
                == errors@.map_values(|e: String| "watcher error: "@ + e@),
        },
{
    match batch {
        Batch::Events(events) => {
            let mut paths: Vec<String> = Vec::new();
            assert(paths@ =~= all_paths(events@.take(0)));
            for i in 0..events.len()
                invariant
                    paths@ == all_paths(events@.take(i as int)),
            {
                let ghost base = paths@;
                let event = &events[i];
                assert(event@.take(0) =~= Seq::empty());
                for j in 0..event.len()
                    invariant
                        paths@ == base + event@.take(j as int),
                {
                    paths.push(event[j].clone());
                    assert(paths@ =~= base + event@.take(j + 1));
                }
                assert(event@.take(event@.len() as int) =~= event@);
                assert(events@.take(i + 1).drop_last() =~= events@.take(i as int));
            }
            assert(events@.take(events@.len() as int) =~= events@);
            BatchPlan { dirty: dirty_repos(roots, &paths), warnings: Vec::new() }
        },
        Batch::Errors(errors) => {
            let ghost said = errors@.map_values(|e: String| "watcher error: "@ + e@);
            let mut warnings: Vec<String> = Vec::new();
            for i in 0..errors.len()
                invariant
                    said == errors@.map_values(|e: String| "watcher error: "@ + e@),
                    texts(warnings@) == said.take(i as int),
            {
                let ghost before = warnings@;
                warnings.push("watcher error: ".to_string().concat(errors[i].as_str()));
                assert(texts(warnings@) =~= texts(before).push(said[i as int]));
                assert(texts(warnings@) =~= said.take(i + 1));
            }
            assert(said.take(said.len() as int) =~= said);
            BatchPlan { dirty: Vec::new(), warnings }
        },
    }
}

/// The roots that are watched.
pub struct WatcherHandle {
    pub roots: Vec<WatchedRoot>,
}

/// The start of the watcher: the roots are watched one after the other, and the
/// first failure is the failure of the whole.
pub struct SpawnWatcher {
    pub roots: Vec<WatchedRoot>,
    /// How many of them were handed out.
    pub at: usize,
}

/// What has to be done next to start the watcher.
pub enum SpawnAction {
    /// Watch the directory and all that is in it.
    Watch(String),
    Finish(Result<WatcherHandle, EngineError>),
}

/// The start of a watcher on these roots.
pub fn spawn(roots: Vec<WatchedRoot>) -> (r: SpawnWatcher)
    ensures
        r.wf(),
        r.roots == roots,
        r.at == 0,
{
    SpawnWatcher { roots, at: 0 }
}

impl SpawnWatcher {
    pub open spec fn wf(self) -> bool {
        self.at <= self.roots@.len()
    }

    /// Takes what came of the last watch, `Ok` at the start, and says what has to be
    /// done next.
    pub fn step(&mut self, reply: Result<(), EngineError>) -> (action: SpawnAction)
        requires
            old(self).wf(),
        ensures
            final(self).wf(),
            match reply {
                Err(e) => action matches SpawnAction::Finish(r) && r == Err::<
                    WatcherHandle,
                    EngineError,
                >(e),
                Ok(_) => if old(self).at < old(self).roots@.len() {
                    &&& final(self).roots == old(self).roots
                    &&& final(self).at == old(self).at + 1
                    &&& action matches SpawnAction::Watch(root)
                    &&& root@ == old(self).roots@[old(self).at as int].root@
                } else {
                    &&& action matches SpawnAction::Finish(r)
                    &&& r matches Ok(handle)
                    &&& handle.roots@ == old(self).roots@
                },
            },
    {
        match reply {
            Err(e) => SpawnAction::Finish(Err(e)),
            Ok(_) => {
                if self.at < self.roots.len() {
                    let k: usize = self.at;
                    self.at = k + 1;
                    SpawnAction::Watch(self.roots[k].root.clone())
                } else {
                    let mut roots: Vec<WatchedRoot> = Vec::new();
                    roots.append(&mut self.roots);
                    assert(roots@ =~= old(self).roots@);
                    self.at = 0;
                    SpawnAction::Finish(Ok(WatcherHandle { roots }))
                }
            },
        }
    }
}

impl WatcherHandle {
    /// Takes note of a root that a repo has got, where watching it went well.
    pub fn watch_path(&mut self, id: RepoId, root: String, watched: Result<(), EngineError>) -> (r:
        Result<(), EngineError>)
        ensures
            r == watched,
            match watched {
                Ok(_) => final(self).roots@ == old(self).roots@.push(WatchedRoot { id, root }),
                Err(_) => final(self).roots@ == old(self).roots@,
            },
    {
        if watched.is_ok() {
            self.roots.push(WatchedRoot { id, root });
        }
        watched
    }
}

} // verus!
