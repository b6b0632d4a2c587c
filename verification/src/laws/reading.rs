//! A file is read from the revision that was asked for, and what changed is told
//! truly.

use vstd::prelude::*;
use vstd::string::*;

#[allow(unused_imports)]
use crate::engine::RepoEngine;
#[allow(unused_imports)]
use crate::error::ErrorKind;
#[allow(unused_imports)]
use crate::files::{
    changed_files, read_step, repo_path, DiffEntry, EntryKind, MergedEntry, ReadAction, ReadFile,
    ReadPhase, ReadReply,
};
#[allow(unused_imports)]
use crate::laws::{fails, passes_on};
#[allow(unused_imports)]
use crate::proto::{ChangeKind, FileChange};

verus! {

/// The reading of a file from its start on.
pub open spec fn is_read_run(
    states: Seq<ReadFile>,
    replies: Seq<ReadReply>,
    actions: Seq<ReadAction>,
) -> bool {
    &&& states.len() == replies.len() + 1
    &&& actions.len() == replies.len()
    &&& states[0].phase == ReadPhase::Start
    &&& forall|i: int|
        0 <= i < replies.len() ==> read_step(
            states[i],
            #[trigger] replies[i],
            states[i + 1],
            actions[i],
        )
}

/// The reading of a file is started for the revision and the path that are asked for,
/// and goes by its steps.
pub proof fn reads_go_by_steps(
    engine: &RepoEngine,
    rev: String,
    path: String,
    start: ReadFile,
    m: &mut ReadFile,
    reply: ReadReply,
    action: ReadAction,
)
    ensures
        call_requires(RepoEngine::read_file, (engine, rev, path)),
        call_ensures(RepoEngine::read_file, (engine, rev, path), start) ==> start.rev == rev
            && start.path == path && start.phase == ReadPhase::Start,
        call_requires(ReadFile::step, (m, reply)),
        call_ensures(ReadFile::step, (m, reply), action) ==> read_step(
            *old(m),
            reply,
            *final(m),
            action,
        ),
{
}

/// The tree that is looked into is that of the commit that was found for the revision,
/// whatever the revision is, and the path is the one that was asked for.
pub proof fn files_are_read_at_their_revision(
    states: Seq<ReadFile>,
    replies: Seq<ReadReply>,
    actions: Seq<ReadAction>,
    i: int,
)
    requires
        is_read_run(states, replies, actions),
        0 <= i < actions.len(),
    ensures
        actions[i] matches ReadAction::FindChange(prefix) ==> i == 0 && prefix@ == states[0].rev@
            && prefix@ != "@"@,
        actions[i] matches ReadAction::FindWorkingCopy(ws) ==> i == 0 && ws@ == "default"@
            && states[0].rev@ == "@"@,
        actions[i] matches ReadAction::Look { commit, path } ==> i == 1 && path@ == states[0].path@
            && (replies[1] matches ReadReply::Found(r) && r is Ok && commit@ == r->Ok_0.id@),
        actions[i] is Read ==> i == 2 && actions[1] is Look && (
        replies[2] matches ReadReply::Entry(r) && (r matches Ok(entry) && entry.sides@.len() == 1
            && entry.sides@[0] == Some(EntryKind::File))),
        actions[i] matches ReadAction::Finish(Ok(bytes)) ==> i == 3 && actions[1] is Look
            && actions[2] is Read && (replies[3] matches ReadReply::Content(r) && (
        r matches Ok(read) && read@ == bytes@)),
{
    read_run_phases(states, replies, actions, i);
    assert(read_step(states[i], replies[i], states[i + 1], actions[i]));
}

/// The reading of a file, action by action: what is not there, not a file or in conflict
/// is told apart, and what fails is passed on.
pub proof fn read_run_in_full(
    states: Seq<ReadFile>,
    replies: Seq<ReadReply>,
    actions: Seq<ReadAction>,
    i: int,
)
    requires
        is_read_run(states, replies, actions),
        0 <= i < actions.len(),
    ensures
        i == 0 && replies[0] is Begin ==> if states[0].rev@ == "@"@ {
            actions[0] is FindWorkingCopy
        } else {
            actions[0] is FindChange
        },
        i == 1 && (actions[0] is FindWorkingCopy || actions[0] is FindChange) && replies[1] is Found
            ==> match replies[1]->Found_0 {
            Ok(c) => if repo_path(states[0].path@) {
                actions[1] is Look
            } else {
                actions[1] matches ReadAction::Finish(r) && fails(
                    r,
                    ErrorKind::Internal,
                    "Invalid repo path input \""@ + states[0].path@ + "\""@,
                )
            },
            Err(e) => actions[1] matches ReadAction::Finish(r) && passes_on(r, e),
        },
        i == 2 && actions[1] is Look && replies[2] is Entry ==> match replies[2]->Entry_0 {
            Ok(entry) => if entry.sides@.len() != 1 {
                actions[2] matches ReadAction::Finish(r) && fails(
                    r,
                    ErrorKind::Conflict,
                    "path is conflicted: "@ + states[0].path@,
                )
            } else if entry.sides@[0] is None {
                actions[2] matches ReadAction::Finish(r) && fails(
                    r,
                    ErrorKind::NotFound,
                    "not found: "@ + states[0].path@,
                )
            } else if entry.sides@[0] == Some(EntryKind::File) {
                actions[2] is Read
            } else {
                actions[2] matches ReadAction::Finish(r) && fails(
                    r,
                    ErrorKind::Invalid,
                    "not a file: "@ + states[0].path@,
                )
            },
            Err(e) => actions[2] matches ReadAction::Finish(r) && passes_on(r, e),
        },
        i == 3 && actions[2] is Read && replies[3] is Content ==> match replies[3]->Content_0 {
            Ok(bytes) => actions[3] matches ReadAction::Finish(r) && (r matches Ok(read) && read@
                == bytes@),
            Err(e) => actions[3] matches ReadAction::Finish(r) && passes_on(r, e),
        },
{
    read_run_phases(states, replies, actions, i);
    assert(read_step(states[i], replies[i], states[i + 1], actions[i]));
}

proof fn read_run_phases(
    states: Seq<ReadFile>,
    replies: Seq<ReadReply>,
    actions: Seq<ReadAction>,
    i: int,
)
    requires
        is_read_run(states, replies, actions),
        0 <= i < states.len(),
    ensures
        states[i].rev == states[0].rev,
        states[i].path == states[0].path,
        states[i].phase == ReadPhase::Start <==> i == 0,
        states[i].phase == ReadPhase::Finding <==> i == 1 && (actions[0] is FindWorkingCopy
            || actions[0] is FindChange),
        states[i].phase == ReadPhase::Looking <==> i == 2 && actions[1] is Look,
        states[i].phase == ReadPhase::Reading <==> i == 3 && actions[2] is Read,
        i > 2 && states[i].phase == ReadPhase::Reading ==> actions[1] is Look,
    decreases i,
{
    if i > 0 {
        read_run_phases(states, replies, actions, i - 1);
        assert(read_step(states[i - 1], replies[i - 1], states[i], actions[i - 1]));
    }
}

/// Some side of a conflict, or the one side where there is none, is something other than
/// a directory.
pub open spec fn holds_a_file(entry: MergedEntry) -> bool {
    exists|k: int|
        0 <= k < entry.sides@.len() && (#[trigger] entry.sides@[k] == Some(EntryKind::File)
            || entry.sides@[k] == Some(EntryKind::Other))
}

/// What counts as a file is anything but nothing and directories.
pub proof fn files_are_what_no_directory_is(entry: &MergedEntry, r: bool)
    requires
        call_ensures(MergedEntry::file_like, (entry,), r),
    ensures
        r == holds_a_file(*entry),
{
    file_like_is_holding_a_file(*entry);
}

proof fn file_like_is_holding_a_file(entry: MergedEntry)
    ensures
        entry.is_file_like() == holds_a_file(entry),
{
    if entry.is_file_like() {
        let k = choose|k: int|
            0 <= k < entry.sides@.len() && !((#[trigger] entry.sides@[k]) is None
                || entry.sides@[k] == Some(EntryKind::Tree));
        assert(entry.sides@[k] == Some(EntryKind::File) || entry.sides@[k] == Some(
            EntryKind::Other,
        ));
    }
    if holds_a_file(entry) {
        let k = choose|k: int|
            0 <= k < entry.sides@.len() && (#[trigger] entry.sides@[k] == Some(EntryKind::File)
                || entry.sides@[k] == Some(EntryKind::Other));
        assert(entry.sides@[k] is Some && entry.sides@[k] != Some(EntryKind::Tree));
    }
}

/// The change is what happened to the file at the path: added where there was none
/// before, removed where there is none after, and else modified.
pub open spec fn tells(f: FileChange, d: DiffEntry) -> bool {
    &&& f.path@ == d.path@
    &&& holds_a_file(d.before) || holds_a_file(d.after)
    &&& f.kind == if !holds_a_file(d.before) {
        ChangeKind::Added
    } else if !holds_a_file(d.after) {
        ChangeKind::Removed
    } else {
        ChangeKind::Modified
    }
}

/// Every difference that has a file on either side is told, and nothing else is.
pub open spec fn tells_all(changes: Seq<FileChange>, diff: Seq<DiffEntry>) -> bool {
    &&& forall|d: int|
        0 <= d < diff.len() && (holds_a_file((#[trigger] diff[d]).before) || holds_a_file(
            diff[d].after,
        )) ==> exists|f: int| 0 <= f < changes.len() && #[trigger] tells(changes[f], diff[d])
    &&& forall|f: int|
        0 <= f < changes.len() ==> is_told_of(#[trigger] changes[f], diff)
}

/// The change is what one of the differences comes to.
pub open spec fn is_told_of(f: FileChange, diff: Seq<DiffEntry>) -> bool {
    exists|d: int| 0 <= d < diff.len() && tells(f, #[trigger] diff[d])
}

/// The changes of files are those of the differences, all of them and in their order:
/// two that stand one behind the other come from differences that do.
pub proof fn changed_files_tell_the_difference(
    diff: &Vec<DiffEntry>,
    r: Vec<FileChange>,
    a: int,
    b: int,
) -> (from: (int, int))
    requires
        call_ensures(changed_files, (diff,), r),
    ensures
        tells_all(r@, diff@),
        0 <= a < b < r@.len() ==> 0 <= from.0 < from.1 < diff@.len() && tells(r@[a], diff@[from.0])
            && tells(r@[b], diff@[from.1]),
{
    file_changes_tell(r@, diff@);
    if 0 <= a < b < r@.len() {
        changes_come_in_order(r@, diff@, a, b)
    } else {
        (0, 0)
    }
}

/// Two changes, and the differences that they come from.
#[verifier::spinoff_prover]
proof fn changes_come_in_order(
    changes: Seq<FileChange>,
    diff: Seq<DiffEntry>,
    a: int,
    b: int,
) -> (from: (int, int))
    requires
        crate::files::are_file_changes(changes, diff),
        0 <= a < b < changes.len(),
    ensures
        0 <= from.0 < from.1 < diff.len(),
        tells(changes[a], diff[from.0]),
        tells(changes[b], diff[from.1]),
{
    let shows = |d: DiffEntry| crate::files::change_at(d) is Some;
    let shown = diff.filter(shows);
    let from = crate::files::filter_comes_from(diff, shows, a, b);
    assert(crate::files::is_file_change(changes[a], shown[a]));
    assert(crate::files::is_file_change(changes[b], shown[b]));
    change_is_told(changes[a], diff[from.0]);
    change_is_told(changes[b], diff[from.1]);
    from
}

proof fn change_is_told(f: FileChange, d: DiffEntry)
    requires
        crate::files::is_file_change(f, d),
    ensures
        tells(f, d),
{
    file_like_is_holding_a_file(d.before);
    file_like_is_holding_a_file(d.after);
}

#[verifier::spinoff_prover]
pub(crate) proof fn file_changes_tell(changes: Seq<FileChange>, diff: Seq<DiffEntry>)
    requires
        crate::files::are_file_changes(changes, diff),
    ensures
        tells_all(changes, diff),
{
    let shows = |d: DiffEntry| crate::files::change_at(d) is Some;
    let shown = diff.filter(shows);
    assert forall|d: int|
        0 <= d < diff.len() && (holds_a_file((#[trigger] diff[d]).before) || holds_a_file(
            diff[d].after,
        )) implies exists|f: int| 0 <= f < changes.len() && #[trigger] tells(changes[f], diff[d]) by {
        file_like_is_holding_a_file(diff[d].before);
        file_like_is_holding_a_file(diff[d].after);
        let f = crate::files::filter_keeps_each(diff, shows, d);
        assert(crate::files::is_file_change(changes[f], shown[f]));
        change_is_told(changes[f], diff[d]);
    }
    assert forall|f: int| 0 <= f < changes.len() implies is_told_of(#[trigger] changes[f], diff) by {
        let from = crate::files::filter_comes_from(diff, shows, f, f);
        assert(crate::files::is_file_change(changes[f], shown[f]));
        change_is_told(changes[f], diff[from.0]);
    }
}

} // verus!
