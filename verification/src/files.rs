//! Files in trees: what changed between two trees, and what a file holds.

use vstd::prelude::*;
use vstd::string::*;

use crate::commits::Commit;
use crate::engine::RepoEngine;
use crate::error::EngineError;
#[allow(unused_imports)]
use crate::error::ErrorKind;
use crate::ids::CommitId;
use crate::proto::{ChangeKind, FileChange};
use crate::text::same;

verus! {

/// What a tree holds at a path.
#[derive(Debug, Clone, Copy, PartialEq, Eq, Structural)]
pub enum EntryKind {
    File,
    Tree,
    /// A link, a submodule, or anything else.
    Other,
}

/// What a tree that may be conflicted holds at a path: one side where there is no
/// conflict, more where there is. A side may hold nothing.
#[derive(Debug, Clone, PartialEq)]
pub struct MergedEntry {
    pub sides: Vec<Option<EntryKind>>,
}

impl MergedEntry {
    /// There is nothing at the path.
    pub open spec fn absent(self) -> bool {
        self.sides@.len() == 1 && self.sides@[0] is None
    }

    /// There is something at the path, on every side a directory or nothing.
    pub open spec fn is_tree(self) -> bool {
        !self.absent() && forall|i: int|
            0 <= i < self.sides@.len() ==> (#[trigger] self.sides@[i]) is None || self.sides@[i]
                == Some(EntryKind::Tree)
    }

    /// There is something at the path that is no directory.
    pub open spec fn is_file_like(self) -> bool {
        !self.absent() && !self.is_tree()
    }

    /// Whether there is something at the path that is no directory.
    pub fn file_like(&self) -> (r: bool)
        ensures
            r == self.is_file_like(),
    {
        if self.sides.len() == 1 && self.sides[0].is_none() {
            return false;
        }
        for i in 0..self.sides.len()
            invariant
                forall|j: int|
                    0 <= j < i ==> (#[trigger] self.sides@[j]) is None || self.sides@[j] == Some(
                        EntryKind::Tree,
                    ),
                !self.absent(),
        {
            match self.sides[i] {
                None => {},
                Some(EntryKind::Tree) => {},
                Some(_) => {
                    assert(self.sides@[i as int] is Some);
                    return true;
                },
            }
        }
        false
    }
}

/// A path at which two trees differ, and what each holds there.
#[derive(Debug, Clone, PartialEq)]
pub struct DiffEntry {
    pub path: String,
    pub before: MergedEntry,
    pub after: MergedEntry,
}

/// What happened to the file at a path, where it is one.
pub open spec fn change_at(d: DiffEntry) -> Option<ChangeKind> {
    match (d.before.is_file_like(), d.after.is_file_like()) {
        (false, true) => Some(ChangeKind::Added),
        (true, false) => Some(ChangeKind::Removed),
        (true, true) => Some(ChangeKind::Modified),
        (false, false) => None,
    }
}

/// The file change that a difference comes to.
pub open spec fn is_file_change(f: FileChange, d: DiffEntry) -> bool {
    f.path == d.path && change_at(d) == Some(f.kind)
}

/// `changes` are the changes of files in `diff`, in its order: directories do not
/// count as files, and where neither side is a file nothing is said.
pub open spec fn are_file_changes(changes: Seq<FileChange>, diff: Seq<DiffEntry>) -> bool {
    let shown = diff.filter(|d: DiffEntry| change_at(d) is Some);
    &&& changes.len() == shown.len()
    &&& forall|i: int| 0 <= i < changes.len() ==> is_file_change(#[trigger] changes[i], shown[i])
}

/// The changes of files between two trees.
pub fn changed_files(diff: &Vec<DiffEntry>) -> (r: Vec<FileChange>)
    ensures
        are_file_changes(r@, diff@),
{
    let ghost shows = |d: DiffEntry| change_at(d) is Some;
    let mut out: Vec<FileChange> = Vec::new();
    for i in 0..diff.len()
        invariant
            shows == (|d: DiffEntry| change_at(d) is Some),
            out@.len() == diff@.take(i as int).filter(shows).len(),
            forall|j: int|
                0 <= j < out@.len() ==> is_file_change(
                    #[trigger] out@[j],
                    diff@.take(i as int).filter(shows)[j],
                ),
    {
        let ghost upto = diff@.take(i + 1);
        proof {
            reveal(Seq::filter);
            assert(upto.drop_last() =~= diff@.take(i as int));
            assert(upto.last() == diff@[i as int]);
        }
        let d = &diff[i];
        let before = d.before.file_like();
        let after = d.after.file_like();
        if before || after {
            let kind = if !before {
                ChangeKind::Added
            } else if !after {
                ChangeKind::Removed
            } else {
                ChangeKind::Modified
            };
            out.push(FileChange { path: d.path.clone(), kind });
        }
    }
    assert(diff@.take(diff@.len() as int) =~= diff@);
    out
}

/// A path in a repo: components separated by `/`, none of them empty.
pub open spec fn repo_path(path: Seq<char>) -> bool {
    &&& path.len() > 0 ==> path[0] != '/' && path.last() != '/'
    &&& forall|i: int| 0 <= i < path.len() - 1 ==> !(#[trigger] path[i] == '/' && path[i + 1] == '/')
}

/// `RepoPath::from_internal_string` of jj-lib. The claim is that it accepts exactly
/// the texts without an empty component, where the whole of an empty text is the
/// root and no component, and what its error says of others.
#[verifier::external_body]
pub(crate) fn parse_repo_path(path: &str) -> (r: Result<(), String>)
    ensures
        r is Ok <==> repo_path(path@),
        r matches Err(said) ==> said@ == "Invalid repo path input \""@ + path@ + "\""@,
{
    match jj_lib::repo_path::RepoPath::from_internal_string(path) {
        Ok(_) => Ok(()),
        Err(err) => Err(err.to_string()),
    }
}

/// What the reading of a file waits for.
#[derive(Debug, Clone, Copy, PartialEq, Eq, Structural)]
pub enum ReadPhase {
    Start,
    Finding,
    Looking,
    Reading,
    Over,
}

/// The reading of the file at `path` in the tree of a revision: a prefix of a
/// change or commit id, or `@` for the working-copy commit of the default
/// workspace.
pub struct ReadFile {
    pub rev: String,
    pub path: String,
    pub phase: ReadPhase,
}

/// What has to be done next to read a file.
pub enum ReadAction {
    /// Read the working-copy commit of the workspace.
    FindWorkingCopy(String),
    /// Resolve the prefix against the visible commits.
    FindChange(String),
    /// Say what the tree of the commit holds at the path.
    Look { commit: CommitId, path: String },
    /// Read the file that was just looked at.
    Read,
    Finish(Result<Vec<u8>, EngineError>),
}

/// What came of an action.
pub enum ReadReply {
    Begin,
    Found(Result<Commit, EngineError>),
    Entry(Result<MergedEntry, EngineError>),
    Content(Result<Vec<u8>, EngineError>),
}

pub open spec fn read_fails(
    post: ReadFile,
    action: ReadAction,
    why: (ErrorKind, Seq<char>),
) -> bool {
    &&& post.phase == ReadPhase::Over
    &&& action matches ReadAction::Finish(r)
    &&& r matches Err(e)
    &&& e@ == why
}

/// One step of reading a file.
pub open spec fn read_step(
    pre: ReadFile,
    reply: ReadReply,
    post: ReadFile,
    action: ReadAction,
) -> bool {
    let path = pre.path@;
    &&& post.rev == pre.rev
    &&& post.path == pre.path
    &&& match (pre.phase, reply) {
        (ReadPhase::Start, ReadReply::Begin) => {
            &&& post.phase == ReadPhase::Finding
            &&& if pre.rev@ == "@"@ {
                action matches ReadAction::FindWorkingCopy(ws) && ws@ == "default"@
            } else {
                action matches ReadAction::FindChange(prefix) && prefix@ == pre.rev@
            }
        },
        (ReadPhase::Finding, ReadReply::Found(r)) => match r {
            Err(e) => read_fails(post, action, e@),
            Ok(c) => if repo_path(path) {
                &&& post.phase == ReadPhase::Looking
                &&& action matches ReadAction::Look { commit, path: asked }
                &&& commit@ == c.id@
                &&& asked@ == path
            } else {
                read_fails(
                    post,
                    action,
                    (ErrorKind::Internal, "Invalid repo path input \""@ + path + "\""@),
                )
            },
        },
        (ReadPhase::Looking, ReadReply::Entry(r)) => match r {
            Err(e) => read_fails(post, action, e@),
            Ok(entry) => if entry.sides@.len() != 1 {
                read_fails(post, action, (ErrorKind::Conflict, "path is conflicted: "@ + path))
            } else {
                match entry.sides@[0] {
                    None => read_fails(
                        post,
                        action,
                        (ErrorKind::NotFound, "not found: "@ + path),
                    ),
                    Some(EntryKind::File) => post.phase == ReadPhase::Reading && action is Read,
                    Some(_) => read_fails(
                        post,
                        action,
                        (ErrorKind::Invalid, "not a file: "@ + path),
                    ),
                }
            },
        },
        (ReadPhase::Reading, ReadReply::Content(r)) => match r {
            Err(e) => read_fails(post, action, e@),
            Ok(bytes) => {
                &&& post.phase == ReadPhase::Over
                &&& action == ReadAction::Finish(Ok(bytes))
            },
        },
        _ => read_fails(post, action, (ErrorKind::Internal, "unexpected reply"@)),
    }
}

impl RepoEngine {
    /// The reading of a file at a revision.
    pub fn read_file(&self, rev: String, path: String) -> (r: ReadFile)
        ensures
            r.rev == rev,
            r.path == path,
            r.phase == ReadPhase::Start,
    {
        ReadFile { rev, path, phase: ReadPhase::Start }
    }
}

impl ReadFile {
    fn fail(&mut self, e: EngineError) -> (action: ReadAction)
        ensures
            final(self).rev == old(self).rev,
            final(self).path == old(self).path,
            read_fails(*final(self), action, e@),
    {
        self.phase = ReadPhase::Over;
        ReadAction::Finish(Err(e))
    }

    /// Takes the reply to the last action and says what has to be done next.
    pub fn step(&mut self, reply: ReadReply) -> (action: ReadAction)
        ensures
            read_step(*old(self), reply, *final(self), action),
    {
        match (self.phase, reply) {
            (ReadPhase::Start, ReadReply::Begin) => {
                self.phase = ReadPhase::Finding;
                if same(self.rev.as_str(), "@") {
                    ReadAction::FindWorkingCopy("default".to_string())
                } else {
                    ReadAction::FindChange(self.rev.clone())
                }
            },
            (ReadPhase::Finding, ReadReply::Found(r)) => match r {
                Err(e) => self.fail(e),
                Ok(c) => match parse_repo_path(self.path.as_str()) {
                    Err(said) => self.fail(EngineError::Internal(said)),
                    Ok(_) => {
                        self.phase = ReadPhase::Looking;
                        ReadAction::Look { commit: c.id, path: self.path.clone() }
                    },
                },
            },
            (ReadPhase::Looking, ReadReply::Entry(r)) => match r {
                Err(e) => self.fail(e),
                Ok(entry) => {
                    if entry.sides.len() != 1 {
                        let message = "path is conflicted: ".to_string().concat(
                            self.path.as_str(),
                        );
                        return self.fail(EngineError::Conflict(message));
                    }
                    match entry.sides[0] {
                        None => {
                            let message = "not found: ".to_string().concat(self.path.as_str());
                            self.fail(EngineError::NotFound(message))
                        },
                        Some(EntryKind::File) => {
                            self.phase = ReadPhase::Reading;
                            ReadAction::Read
                        },
                        Some(_) => {
                            let message = "not a file: ".to_string().concat(self.path.as_str());
                            self.fail(EngineError::Invalid(message))
                        },
                    }
                },
            },
            (ReadPhase::Reading, ReadReply::Content(r)) => match r {
                Err(e) => self.fail(e),
                Ok(bytes) => {
                    self.phase = ReadPhase::Over;
                    ReadAction::Finish(Ok(bytes))
                },
            },
            _ => self.fail(EngineError::Internal("unexpected reply".to_string())),
        }
    }
}

/// The differences seen the other way round.
pub open spec fn exchanged(diff: Seq<DiffEntry>) -> Seq<DiffEntry> {
    diff.map_values(|d: DiffEntry| DiffEntry { path: d.path, before: d.after, after: d.before })
}

/// What a change is when it is seen the other way round.
pub open spec fn opposite(kind: ChangeKind) -> ChangeKind {
    match kind {
        ChangeKind::Added => ChangeKind::Removed,
        ChangeKind::Removed => ChangeKind::Added,
        ChangeKind::Modified => ChangeKind::Modified,
    }
}

proof fn exchanged_differences_are_shown_alike(diff: Seq<DiffEntry>)
    ensures
        exchanged(diff).filter(|d: DiffEntry| change_at(d) is Some) == exchanged(
            diff.filter(|d: DiffEntry| change_at(d) is Some),
        ),
    decreases diff.len(),
{
    reveal(Seq::filter);
    let shows = |d: DiffEntry| change_at(d) is Some;
    let all = exchanged(diff);
    if diff.len() > 0 {
        let front = diff.drop_last();
        exchanged_differences_are_shown_alike(front);
        assert(all.drop_last() =~= exchanged(front));
        assert(all.filter(shows) =~= exchanged(diff.filter(shows)));
    } else {
        assert(all.filter(shows) =~= exchanged(diff.filter(shows)));
    }
}

/// Exchanging the two trees exchanges what was added and what was removed, path by
/// path, and leaves what was modified.
pub proof fn exchanging_trees_exchanges_changes(
    changes: Seq<FileChange>,
    back: Seq<FileChange>,
    diff: Seq<DiffEntry>,
    i: int,
)
    requires
        are_file_changes(changes, diff),
        are_file_changes(back, exchanged(diff)),
        0 <= i < changes.len(),
    ensures
        back.len() == changes.len(),
        back[i].path == changes[i].path,
        back[i].kind == opposite(changes[i].kind),
{
    exchanged_differences_are_shown_alike(diff);
    let shown = diff.filter(|d: DiffEntry| change_at(d) is Some);
    assert(is_file_change(changes[i], shown[i]));
    assert(is_file_change(back[i], exchanged(shown)[i]));
}

/// Where nothing differs there are no changes.
pub proof fn no_differences_are_no_changes(changes: Seq<FileChange>, diff: Seq<DiffEntry>)
    requires
        are_file_changes(changes, diff),
        diff.len() == 0,
    ensures
        changes.len() == 0,
{
    reveal(Seq::filter);
}

/// What a tree holds at a path: what kind of thing, and which one.
pub struct Held {
    pub entry: MergedEntry,
    pub content: int,
}

/// A tree, by path.
pub type Tree = spec_fn(Seq<char>) -> Held;

/// `diff` names the paths at which two trees differ, each once, and what each holds
/// there.
pub open spec fn is_diff(before: Tree, after: Tree, diff: Seq<DiffEntry>) -> bool {
    &&& forall|i: int|
        0 <= i < diff.len() ==> {
            let d = #[trigger] diff[i];
            &&& before(d.path@) != after(d.path@)
            &&& d.before == before(d.path@).entry
            &&& d.after == after(d.path@).entry
        }
    &&& forall|i: int, j: int|
        0 <= i < j < diff.len() ==> (#[trigger] diff[i]).path@ != (#[trigger] diff[j]).path@
    &&& forall|path: Seq<char>|
        #![trigger before(path)]
        before(path) != after(path) ==> exists|i: int|
            0 <= i < diff.len() && (#[trigger] diff[i]).path@ == path
}

/// The change of the file at `path` is among the changes.
pub open spec fn lists_change(changes: Seq<FileChange>, path: Seq<char>, kind: ChangeKind) -> bool {
    exists|i: int|
        0 <= i < changes.len() && (#[trigger] changes[i]).path@ == path && changes[i].kind == kind
}

/// What happened to the file at a path between two trees, where it is one. A
/// directory counts as nothing.
pub open spec fn change_between(before: Tree, after: Tree, path: Seq<char>) -> Option<ChangeKind> {
    if before(path) == after(path) {
        None
    } else {
        match (before(path).entry.is_file_like(), after(path).entry.is_file_like()) {
            (false, true) => Some(ChangeKind::Added),
            (true, false) => Some(ChangeKind::Removed),
            (true, true) => Some(ChangeKind::Modified),
            (false, false) => None,
        }
    }
}

pub(crate) proof fn filter_keeps_each<T>(s: Seq<T>, keep: spec_fn(T) -> bool, i: int) -> (a: int)
    requires
        0 <= i < s.len(),
        keep(s[i]),
    ensures
        0 <= a < s.filter(keep).len(),
        s.filter(keep)[a] == s[i],
    decreases s.len(),
{
    reveal(Seq::filter);
    if i < s.len() - 1 {
        filter_keeps_each(s.drop_last(), keep, i)
    } else {
        s.filter(keep).len() - 1
    }
}

/// The places from which a filter took two values, in their order.
pub(crate) proof fn filter_comes_from<T>(s: Seq<T>, keep: spec_fn(T) -> bool, a: int, b: int) -> (r: (int, int))
    requires
        0 <= a <= b < s.filter(keep).len(),
    ensures
        0 <= r.0 <= r.1 < s.len(),
        a < b ==> r.0 < r.1,
        s[r.0] == s.filter(keep)[a],
        s[r.1] == s.filter(keep)[b],
        keep(s[r.0]),
    decreases s.len(),
{
    reveal(Seq::filter);
    let front = s.drop_last();
    let kept = front.filter(keep);
    if b < kept.len() {
        filter_comes_from(front, keep, a, b)
    } else if a < kept.len() {
        let r = filter_comes_from(front, keep, a, a);
        (r.0, s.len() - 1)
    } else {
        (s.len() - 1, s.len() - 1)
    }
}

/// The changes are exactly those between the two trees.
pub proof fn changes_are_those_between_trees(
    before: Tree,
    after: Tree,
    diff: Seq<DiffEntry>,
    changes: Seq<FileChange>,
    path: Seq<char>,
    kind: ChangeKind,
)
    requires
        is_diff(before, after, diff),
        are_file_changes(changes, diff),
    ensures
        lists_change(changes, path, kind) <==> change_between(before, after, path) == Some(kind),
{
    let shows = |d: DiffEntry| change_at(d) is Some;
    let shown = diff.filter(shows);
    if lists_change(changes, path, kind) {
        let i = choose|i: int|
            0 <= i < changes.len() && (#[trigger] changes[i]).path@ == path && changes[i].kind
                == kind;
        assert(is_file_change(changes[i], shown[i]));
        let r = filter_comes_from(diff, shows, i, i);
        assert(diff[r.0].path@ == path);
    }
    if change_between(before, after, path) == Some(kind) {
        assert(before(path) != after(path));
        let i = choose|i: int| 0 <= i < diff.len() && (#[trigger] diff[i]).path@ == path;
        let a = filter_keeps_each(diff, shows, i);
        assert(is_file_change(changes[a], shown[a]));
        assert(changes[a].path@ == path && changes[a].kind == kind);
    }
}

/// No path is listed twice.
pub proof fn changed_paths_are_listed_once(
    before: Tree,
    after: Tree,
    diff: Seq<DiffEntry>,
    changes: Seq<FileChange>,
    i: int,
    j: int,
)
    requires
        is_diff(before, after, diff),
        are_file_changes(changes, diff),
        0 <= i < j < changes.len(),
    ensures
        changes[i].path@ != changes[j].path@,
{
    let shows = |d: DiffEntry| change_at(d) is Some;
    let shown = diff.filter(shows);
    assert(is_file_change(changes[i], shown[i]));
    assert(is_file_change(changes[j], shown[j]));
    let r = filter_comes_from(diff, shows, i, j);
    assert(diff[r.0].path@ != diff[r.1].path@);
}

/// A tree has no changes against itself.
pub proof fn equal_trees_have_no_changes(
    tree: Tree,
    diff: Seq<DiffEntry>,
    changes: Seq<FileChange>,
)
    requires
        is_diff(tree, tree, diff),
        are_file_changes(changes, diff),
    ensures
        changes.len() == 0,
{
    if diff.len() > 0 {
        let d = diff[0];
        assert(d.before == tree(d.path@).entry);
    }
    no_differences_are_no_changes(changes, diff);
}

/// What one tree adds to another, the other takes from it: a file is added from
/// `before` to `after` if and only if it is removed from `after` to `before`, and
/// modified if and only if it is modified.
pub proof fn changes_turn_round(
    before: Tree,
    after: Tree,
    diff: Seq<DiffEntry>,
    changes: Seq<FileChange>,
    diff_back: Seq<DiffEntry>,
    back: Seq<FileChange>,
    path: Seq<char>,
    kind: ChangeKind,
)
    requires
        is_diff(before, after, diff),
        are_file_changes(changes, diff),
        is_diff(after, before, diff_back),
        are_file_changes(back, diff_back),
    ensures
        lists_change(changes, path, kind) <==> lists_change(back, path, opposite(kind)),
{
    changes_are_those_between_trees(before, after, diff, changes, path, kind);
    changes_are_those_between_trees(after, before, diff_back, back, path, opposite(kind));
}

} // verus!
