//! A repo as the engine sees it: its workspaces, their working-copy commits, and
//! what a prefix or a log row says.

use vstd::prelude::*;
use vstd::string::*;

use crate::commits::{Commit, RepoView};
#[allow(unused_imports)]
use crate::commits::{distinct_ids, Bookmark, WorkingCopy};
use crate::error::EngineError;
#[allow(unused_imports)]
use crate::error::ErrorKind;
#[allow(unused_imports)]
use crate::ids::{
    hex_digit, hex_is_injective, hex_text, reverse_hex_digit, reverse_hex_is_injective,
    reverse_hex_text,
};
use crate::ids::CommitId;
use crate::ids::{short_change_id, short_commit_id};
#[allow(unused_imports)]
use crate::lists::{first_where, search_goes_on};
use crate::proto::{LogEntry, WorkspaceInfo};
use crate::sort::sort;
#[allow(unused_imports)]
use crate::sort::sorts;
use crate::text::{decimal_of, quoted, same, starts_with};
#[allow(unused_imports)]
use crate::text::{debug_text, decimal, head, texts};

verus! {

/// A workspace that the engine has open.
#[derive(Debug, Clone, PartialEq)]
pub struct WorkspaceEntry {
    /// The name that the workspace is asked for by.
    pub name: String,
    /// The name that the repo knows it under.
    pub jj_name: String,
    /// Where its files are.
    pub root: String,
}

/// An open repo.
#[derive(Debug, Clone, PartialEq)]
pub struct RepoEngine {
    /// Where the default workspace is.
    pub root: String,
    /// The repo at its current operation.
    pub view: RepoView,
    pub workspaces: Vec<WorkspaceEntry>,
}

pub open spec fn entry_named(name: Seq<char>) -> spec_fn(WorkspaceEntry) -> bool {
    |e: WorkspaceEntry| e.name@ == name
}

pub open spec fn working_copy_of(jj_name: Seq<char>) -> spec_fn(WorkingCopy) -> bool {
    |w: WorkingCopy| w.workspace@ == jj_name
}

/// What a failure or a commit id comes to, without the memory that holds it.
pub open spec fn id_or_error(r: Result<CommitId, EngineError>) -> Result<
    Seq<u8>,
    (ErrorKind, Seq<char>),
> {
    match r {
        Ok(id) => Ok(id@),
        Err(e) => Err(e@),
    }
}

impl RepoEngine {
    /// No two open workspaces have the same name.
    pub open spec fn wf(self) -> bool {
        forall|i: int, j: int|
            0 <= i < j < self.workspaces@.len() ==> (#[trigger] self.workspaces@[i]).name@ != (
            #[trigger] self.workspaces@[j]).name@
    }

    /// The open workspace of this name.
    pub open spec fn entry(self, name: Seq<char>) -> Option<WorkspaceEntry> {
        first_where(self.workspaces@, entry_named(name))
    }

    /// The names of the open workspaces.
    pub open spec fn names(self) -> Seq<String> {
        self.workspaces@.map_values(|e: WorkspaceEntry| e.name)
    }

    /// The id of a workspace's working-copy commit, or why there is none.
    pub open spec fn wc_id(self, name: Seq<char>) -> Result<Seq<u8>, (ErrorKind, Seq<char>)> {
        match self.entry(name) {
            None => Err((ErrorKind::NotFound, "no workspace "@ + name)),
            Some(e) => match first_where(
                self.view.working_copies@,
                working_copy_of(e.jj_name@),
            ) {
                None => Err((ErrorKind::NotFound, "no working-copy commit for "@ + name)),
                Some(w) => Ok(w.commit@),
            },
        }
    }

    /// The open workspace of this name.
    pub fn find(&self, name: &str) -> (r: Option<&WorkspaceEntry>)
        ensures
            match r {
                Some(e) => self.entry(name@) == Some(*e),
                None => self.entry(name@) is None,
            },
    {
        let ghost p = entry_named(name@);
        assert(self.workspaces@.skip(0) =~= self.workspaces@);
        for i in 0..self.workspaces.len()
            invariant
                p == entry_named(name@),
                self.entry(name@) == first_where(self.workspaces@.skip(i as int), p),
        {
            proof {
                search_goes_on(self.workspaces@, p, i as int);
            }
            if same(self.workspaces[i].name.as_str(), name) {
                return Some(&self.workspaces[i]);
            }
        }
        None
    }

    /// The names of the open workspaces, sorted.
    pub fn sorted_names(&self) -> (r: Vec<String>)
        ensures
            sorts(self.names(), r@),
    {
        let mut names: Vec<String> = Vec::new();
        for i in 0..self.workspaces.len()
            invariant
                names@ == self.names().take(i as int),
        {
            names.push(self.workspaces[i].name.clone());
            assert(names@ =~= self.names().take(i + 1));
        }
        assert(names@ =~= self.names());
        sort(names)
    }

    /// The id of a workspace's working-copy commit.
    pub fn wc_commit(&self, ws: &str) -> (r: Result<CommitId, EngineError>)
        ensures
            id_or_error(r) == self.wc_id(ws@),
    {
        let entry = match self.find(ws) {
            Some(e) => e,
            None => {
                return Err(EngineError::NotFound("no workspace ".to_string().concat(ws)));
            },
        };
        match self.view.working_copy(entry.jj_name.as_str()) {
            Some(id) => Ok(id.copy()),
            None => Err(
                EngineError::NotFound("no working-copy commit for ".to_string().concat(ws)),
            ),
        }
    }
}

impl RepoView {
    /// The working-copy commit that the repo knows for a workspace.
    pub fn working_copy(&self, jj_name: &str) -> (r: Option<&CommitId>)
        ensures
            match r {
                Some(id) => first_where(self.working_copies@, working_copy_of(jj_name@)) matches Some(w)
                    && w.commit == *id,
                None => first_where(self.working_copies@, working_copy_of(jj_name@)) is None,
            },
    {
        let ghost p = working_copy_of(jj_name@);
        assert(self.working_copies@.skip(0) =~= self.working_copies@);
        for i in 0..self.working_copies.len()
            invariant
                p == working_copy_of(jj_name@),
                first_where(self.working_copies@, p) == first_where(
                    self.working_copies@.skip(i as int),
                    p,
                ),
        {
            proof {
                search_goes_on(self.working_copies@, p, i as int);
            }
            if same(self.working_copies[i].workspace.as_str(), jj_name) {
                return Some(&self.working_copies[i].commit);
            }
        }
        None
    }

    /// The commit is the working-copy commit of some workspace.
    pub open spec fn is_checked_out(self, id: Seq<u8>) -> bool {
        exists|k: int|
            0 <= k < self.working_copies@.len() && (#[trigger] self.working_copies@[k]).commit@
                == id
    }

    /// The names of the bookmarks that point at a commit.
    pub open spec fn bookmarks_at(self, id: Seq<u8>) -> Seq<Seq<char>> {
        bookmark_names(self.bookmarks@.filter(|b: Bookmark| points_at(b, id)))
    }
}

/// The names of bookmarks.
pub open spec fn bookmark_names(bookmarks: Seq<Bookmark>) -> Seq<Seq<char>> {
    bookmarks.map_values(|b: Bookmark| b.name@)
}

/// The bookmark points at this commit, perhaps among others.
pub open spec fn points_at(bookmark: Bookmark, id: Seq<u8>) -> bool {
    exists|k: int| 0 <= k < bookmark.targets@.len() && (#[trigger] bookmark.targets@[k])@ == id
}

fn bookmark_points_at(bookmark: &Bookmark, id: &CommitId) -> (r: bool)
    ensures
        r == points_at(*bookmark, id@),
{
    for k in 0..bookmark.targets.len()
        invariant
            forall|j: int| 0 <= j < k ==> (#[trigger] bookmark.targets@[j])@ != id@,
    {
        if bookmark.targets[k].is(id) {
            return true;
        }
    }
    false
}

/// The change id as it is shown, or the commit id in hexadecimal, starts with
/// `prefix`.
pub open spec fn id_starts_with(c: Commit, prefix: Seq<char>) -> bool {
    prefix.is_prefix_of(reverse_hex_text(c.change_id@)) || prefix.is_prefix_of(hex_text(c.id@))
}

/// The commits that a prefix may mean.
pub open spec fn meant_by(visible: Seq<Commit>, prefix: Seq<char>) -> Seq<Commit> {
    visible.filter(|c: Commit| id_starts_with(c, prefix))
}

/// What a prefix means: the one commit that it fits, or why there is none.
pub open spec fn resolution(visible: Seq<Commit>, prefix: Seq<char>) -> Result<
    Commit,
    (ErrorKind, Seq<char>),
> {
    let found = meant_by(visible, prefix);
    if prefix.len() == 0 {
        Err((ErrorKind::Invalid, "empty change/commit id prefix"@))
    } else if found.len() == 0 {
        Err((ErrorKind::NotFound, "no visible commit matches prefix "@ + debug_text(prefix)))
    } else if found.len() == 1 {
        Ok(found[0])
    } else {
        Err(
            (
                ErrorKind::Invalid,
                "prefix "@ + debug_text(prefix) + " is ambiguous: "@ + decimal(found.len())
                    + " visible commits match"@,
            ),
        )
    }
}

/// The row of a log that shows `c`.
pub open spec fn is_log_entry(row: LogEntry, view: RepoView, c: Commit) -> bool {
    &&& row.change_id@ == head(reverse_hex_text(c.change_id@), 12)
    &&& row.commit_id@ == head(hex_text(c.id@), 12)
    &&& row.description == c.description
    &&& row.author_name == c.author_name
    &&& row.author_email == c.author_email
    &&& row.timestamp_ms == if c.committer_ms < 0 {
        0
    } else {
        c.committer_ms as int
    }
    &&& texts(row.bookmarks@) == view.bookmarks_at(c.id@)
    &&& row.is_working_copy == view.is_checked_out(c.id@)
}

impl RepoEngine {
    /// Resolves a change-id prefix, as it is shown, or a commit-id prefix against
    /// the visible commits. It tells "not found" from "ambiguous".
    pub fn resolve_change<'a>(visible: &'a Vec<Commit>, prefix: &str) -> (r: Result<
        &'a Commit,
        EngineError,
    >)
        ensures
            match r {
                Ok(c) => resolution(visible@, prefix@) == Ok::<_, (ErrorKind, Seq<char>)>(*c),
                Err(e) => resolution(visible@, prefix@) == Err::<Commit, _>(e@),
            },
    {
        if prefix.is_empty() {
            return Err(EngineError::Invalid("empty change/commit id prefix".to_string()));
        }
        let ghost fits = |c: Commit| id_starts_with(c, prefix@);
        let mut count: usize = 0;
        let mut last: usize = 0;
        for i in 0..visible.len()
            invariant
                fits == (|c: Commit| id_starts_with(c, prefix@)),
                count == visible@.take(i as int).filter(fits).len(),
                count <= i,
                count > 0 ==> last < i && visible@.take(i as int).filter(fits).last()
                    == visible@[last as int],
        {
            let ghost upto = visible@.take(i + 1);
            proof {
                reveal(Seq::filter);
                assert(upto.drop_last() =~= visible@.take(i as int));
                assert(upto.last() == visible@[i as int]);
            }
            let c = &visible[i];
            if starts_with(c.change_id.reverse_hex().as_str(), prefix) || starts_with(
                c.id.hex().as_str(),
                prefix,
            ) {
                count = count + 1;
                last = i;
            }
        }
        assert(visible@.take(visible@.len() as int) =~= visible@);
        if count == 0 {
            Err(
                EngineError::NotFound(
                    "no visible commit matches prefix ".to_string().concat(quoted(prefix).as_str()),
                ),
            )
        } else if count == 1 {
            Ok(&visible[last])
        } else {
            Err(
                EngineError::Invalid(
                    "prefix ".to_string().concat(quoted(prefix).as_str()).concat(
                        " is ambiguous: ",
                    ).concat(decimal_of(count as u128).as_str()).concat(" visible commits match"),
                ),
            )
        }
    }

    /// The row of a log that shows a commit.
    pub fn log_entry_for(&self, commit: &Commit) -> (r: LogEntry)
        ensures
            is_log_entry(r, self.view, *commit),
    {
        let ghost at = |b: Bookmark| points_at(b, commit.id@);
        let mut bookmarks: Vec<String> = Vec::new();
        for i in 0..self.view.bookmarks.len()
            invariant
                at == (|b: Bookmark| points_at(b, commit.id@)),
                texts(bookmarks@) == bookmark_names(self.view.bookmarks@.take(i as int).filter(at)),
        {
            let ghost upto = self.view.bookmarks@.take(i + 1);
            proof {
                reveal(Seq::filter);
                assert(upto.drop_last() =~= self.view.bookmarks@.take(i as int));
                assert(upto.last() == self.view.bookmarks@[i as int]);
            }
            let ghost before = bookmarks@;
            let ghost kept = self.view.bookmarks@.take(i as int).filter(at);
            if bookmark_points_at(&self.view.bookmarks[i], &commit.id) {
                bookmarks.push(self.view.bookmarks[i].name.clone());
                assert(texts(bookmarks@) =~= texts(before).push(self.view.bookmarks@[i as int].name@));
                assert(upto.filter(at) == kept.push(upto.last()));
                assert(bookmark_names(upto.filter(at)) =~= bookmark_names(kept).push(
                    self.view.bookmarks@[i as int].name@,
                ));
            } else {
                assert(upto.filter(at) == kept);
            }
        }
        assert(self.view.bookmarks@.take(self.view.bookmarks@.len() as int)
            =~= self.view.bookmarks@);
        let mut is_working_copy = false;
        for k in 0..self.view.working_copies.len()
            invariant
                is_working_copy == exists|j: int|
                    0 <= j < k && (#[trigger] self.view.working_copies@[j]).commit@ == commit.id@,
        {
            if self.view.working_copies[k].commit.is(&commit.id) {
                is_working_copy = true;
            }
        }
        let timestamp_ms: u64 = if commit.committer_ms < 0 {
            0
        } else {
            commit.committer_ms as u64
        };
        LogEntry {
            change_id: short_change_id(&commit.change_id),
            commit_id: short_commit_id(&commit.id),
            description: commit.description.clone(),
            author_name: commit.author_name.clone(),
            author_email: commit.author_email.clone(),
            timestamp_ms,
            bookmarks,
            is_working_copy,
        }
    }

    /// The first `limit` rows of the log of `visible`.
    pub fn log(&self, visible: &Vec<Commit>, limit: usize) -> (r: Vec<LogEntry>)
        ensures
            r@.len() == if limit < visible@.len() {
                limit as int
            } else {
                visible@.len() as int
            },
            forall|i: int|
                0 <= i < r@.len() ==> is_log_entry(#[trigger] r@[i], self.view, visible@[i]),
    {
        let mut rows: Vec<LogEntry> = Vec::new();
        let n: usize = if limit < visible.len() {
            limit
        } else {
            visible.len()
        };
        for i in 0..n
            invariant
                n <= visible@.len(),
                rows@.len() == i,
                forall|j: int|
                    0 <= j < i ==> is_log_entry(#[trigger] rows@[j], self.view, visible@[j]),
        {
            rows.push(self.log_entry_for(&visible[i]));
        }
        rows
    }
}

/// What a listing says of the workspace at `root`. `wc` is its working-copy
/// commit, where that could be read.
pub open spec fn is_workspace_info(
    info: WorkspaceInfo,
    name: Seq<char>,
    root: Seq<char>,
    wc: Option<Commit>,
) -> bool {
    &&& info.name@ == name
    &&& info.path@ == root
    &&& match wc {
        Some(c) => {
            &&& info.change_id@ == head(reverse_hex_text(c.change_id@), 12)
            &&& info.commit_id@ == head(hex_text(c.id@), 12)
            &&& info.description@ == c.description@
        },
        None => {
            &&& info.change_id@.len() == 0
            &&& info.commit_id@.len() == 0
            &&& info.description@.len() == 0
        },
    }
}

/// What is shown of a workspace and its working-copy commit.
pub fn workspace_info(name: &str, root: &str, wc: &Commit) -> (r: WorkspaceInfo)
    ensures
        is_workspace_info(r, name@, root@, Some(*wc)),
{
    WorkspaceInfo {
        name: name.to_string(),
        path: root.to_string(),
        change_id: short_change_id(&wc.change_id),
        commit_id: short_commit_id(&wc.id),
        description: wc.description.clone(),
    }
}

pub open spec fn commit_of_id(id: Seq<u8>) -> spec_fn(Commit) -> bool {
    |c: Commit| c.id@ == id
}

impl RepoEngine {
    /// A workspace's working-copy commit, where the repo knows one and it is
    /// among `read`.
    pub open spec fn wc_among(self, name: Seq<char>, read: Seq<Commit>) -> Option<Commit> {
        match self.wc_id(name) {
            Ok(id) => first_where(read, commit_of_id(id)),
            Err(_) => None,
        }
    }

    /// What a listing says of the open workspace of this name.
    pub open spec fn is_listed(
        self,
        info: WorkspaceInfo,
        name: Seq<char>,
        read: Seq<Commit>,
    ) -> bool {
        &&& self.entry(name) matches Some(e) && is_workspace_info(
            info,
            name,
            e.root@,
            self.wc_among(name, read),
        )
    }

    /// Every open workspace, sorted by name. `read` holds the working-copy commits
    /// that could be read; one that is missing leaves the fields about it empty,
    /// so that a listing never fails over one broken workspace.
    pub fn list_workspaces(&self, read: &Vec<Commit>) -> (r: Vec<WorkspaceInfo>)
        ensures
            r@.len() == self.workspaces@.len(),
            exists|names: Seq<String>| #[trigger]
                sorts(self.names(), names) && forall|i: int|
                    0 <= i < names.len() ==> self.is_listed(#[trigger] r@[i], names[i]@, read@),
    {
        let names = self.sorted_names();
        proof {
            crate::commits::sorts_keeps_members(self.names(), names@);
        }
        let mut list: Vec<WorkspaceInfo> = Vec::new();
        for i in 0..names.len()
            invariant
                sorts(self.names(), names@),
                forall|k: int| 0 <= k < names@.len() ==> self.names().contains(#[trigger] names@[k]),
                list@.len() == i,
                forall|k: int|
                    0 <= k < i ==> self.is_listed(#[trigger] list@[k], names@[k]@, read@),
        {
            let name = names[i].as_str();
            proof {
                let k = choose|k: int|
                    0 <= k < self.names().len() && self.names()[k] == names@[i as int];
                crate::lists::first_where_is_there(self.workspaces@, entry_named(name@));
                assert(self.workspaces@[k].name == self.names()[k]);
                assert(entry_named(name@)(self.workspaces@[k]));
            }
            let entry = self.find(name);
            let mut info = WorkspaceInfo {
                name: name.to_string(),
                path: String::new(),
                change_id: String::new(),
                commit_id: String::new(),
                description: String::new(),
            };
            if let Some(e) = entry {
                info.path = e.root.clone();
            }
            if let Ok(id) = self.wc_commit(name) {
                if let Some(wc) = commit_among(read, &id) {
                    info = workspace_info(name, info.path.as_str(), wc);
                }
            }
            assert(self.is_listed(info, names@[i as int]@, read@));
            list.push(info);
        }
        list
    }
}

/// The commit of this id among `read`.
fn commit_among<'a>(read: &'a Vec<Commit>, id: &CommitId) -> (r: Option<&'a Commit>)
    ensures
        match r {
            Some(c) => first_where(read@, commit_of_id(id@)) == Some(*c),
            None => first_where(read@, commit_of_id(id@)) is None,
        },
{
    let ghost p = commit_of_id(id@);
    assert(read@.skip(0) =~= read@);
    for i in 0..read.len()
        invariant
            p == commit_of_id(id@),
            first_where(read@, p) == first_where(read@.skip(i as int), p),
    {
        proof {
            search_goes_on(read@, p, i as int);
        }
        if read[i].id.is(id) {
            return Some(&read[i]);
        }
    }
    None
}

pub(crate) proof fn filter_of_one<T>(s: Seq<T>, keep: spec_fn(T) -> bool, k: int)
    requires
        0 <= k < s.len(),
        forall|i: int| 0 <= i < s.len() ==> (keep(#[trigger] s[i]) <==> i == k),
    ensures
        s.filter(keep) == seq![s[k]],
    decreases s.len(),
{
    reveal(Seq::filter);
    let front = s.drop_last();
    if k < s.len() - 1 {
        filter_of_one(front, keep, k);
    } else {
        filter_of_none(front, keep);
        assert(s.filter(keep) =~= seq![s[k]]);
    }
}

pub(crate) proof fn filter_of_none<T>(s: Seq<T>, keep: spec_fn(T) -> bool)
    requires
        forall|i: int| 0 <= i < s.len() ==> !keep(#[trigger] s[i]),
    ensures
        s.filter(keep) == Seq::<T>::empty(),
    decreases s.len(),
{
    reveal(Seq::filter);
    if s.len() > 0 {
        filter_of_none(s.drop_last(), keep);
    }
}

proof fn alphabets_differ(a: Seq<u8>, b: Seq<u8>)
    requires
        a.len() > 0,
        b.len() > 0,
    ensures
        hex_text(a)[0] != reverse_hex_text(b)[0],
{
    let (x, y) = (a[0] as int, b[0] as int);
    assert(hex_text(a)[0] == hex_digit(x / 16));
    assert(reverse_hex_text(b)[0] == reverse_hex_digit(y / 16));
    assert(hex_digit(x / 16) as int <= 102);
    assert(reverse_hex_digit(y / 16) as int >= 107);
}

/// The full commit id of a visible commit names it, where all commit ids have the
/// same length: no other id starts with it, and no change id as it is shown does.
pub proof fn full_commit_id_resolves(visible: Seq<Commit>, k: int)
    requires
        distinct_ids(visible),
        0 <= k < visible.len(),
        visible[k].id@.len() > 0,
        forall|i: int| 0 <= i < visible.len() ==> (#[trigger] visible[i]).id@.len()
            == visible[k].id@.len(),
    ensures
        resolution(visible, hex_text(visible[k].id@)) == Ok::<_, (ErrorKind, Seq<char>)>(
            visible[k],
        ),
{
    let prefix = hex_text(visible[k].id@);
    let fits = |c: Commit| id_starts_with(c, prefix);
    assert forall|i: int| 0 <= i < visible.len() implies (fits(#[trigger] visible[i]) <==> i == k) by {
        let c = visible[i];
        assert(hex_text(c.id@).len() == prefix.len());
        if prefix.is_prefix_of(reverse_hex_text(c.change_id@)) {
            assert(c.change_id@.len() > 0);
            alphabets_differ(visible[k].id@, c.change_id@);
            assert(prefix[0] == reverse_hex_text(c.change_id@)[0]);
        }
        if prefix.is_prefix_of(hex_text(c.id@)) {
            assert(prefix =~= hex_text(c.id@));
            hex_is_injective(visible[k].id@, c.id@);
        }
    }
    filter_of_one(visible, fits, k);
}

/// The full change id of a visible commit, as it is shown, names it, where change
/// ids have the same length and no other visible commit has this one.
pub proof fn full_change_id_resolves(visible: Seq<Commit>, k: int)
    requires
        0 <= k < visible.len(),
        visible[k].change_id@.len() > 0,
        forall|i: int| 0 <= i < visible.len() ==> (#[trigger] visible[i]).change_id@.len()
            == visible[k].change_id@.len(),
        forall|i: int|
            0 <= i < visible.len() && (#[trigger] visible[i]).change_id@ == visible[k].change_id@
                ==> i == k,
    ensures
        resolution(visible, reverse_hex_text(visible[k].change_id@)) == Ok::<
            _,
            (ErrorKind, Seq<char>),
        >(visible[k]),
{
    let prefix = reverse_hex_text(visible[k].change_id@);
    let fits = |c: Commit| id_starts_with(c, prefix);
    assert forall|i: int| 0 <= i < visible.len() implies (fits(#[trigger] visible[i]) <==> i == k) by {
        let c = visible[i];
        assert(reverse_hex_text(c.change_id@).len() == prefix.len());
        if prefix.is_prefix_of(hex_text(c.id@)) {
            assert(c.id@.len() > 0);
            alphabets_differ(c.id@, visible[k].change_id@);
            assert(prefix[0] == hex_text(c.id@)[0]);
        }
        if prefix.is_prefix_of(reverse_hex_text(c.change_id@)) {
            assert(prefix =~= reverse_hex_text(c.change_id@));
            reverse_hex_is_injective(visible[k].change_id@, c.change_id@);
        }
    }
    filter_of_one(visible, fits, k);
}

/// What a row or a listing shows of a commit's ids are prefixes that fit it.
pub proof fn shown_ids_fit(c: Commit)
    ensures
        id_starts_with(c, head(reverse_hex_text(c.change_id@), 12)),
        id_starts_with(c, head(hex_text(c.id@), 12)),
{
}

} // verus!
