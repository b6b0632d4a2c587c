//! What the client asks for and what it prints, one command after the other.

use vstd::prelude::*;
use vstd::string::*;
use vstd::utf8::*;

use crate::client::encode_segment;
#[allow(unused_imports)]
use crate::client::encoded;
use crate::paths::{is_absolute, join_path};
#[allow(unused_imports)]
use crate::paths::{absolute, joined_path};
use crate::proto::{
    ChangeKind, FileChange, LogEntry, PushResponse, RepoInfo, StatusResponse, WorkspaceInfo,
    WorkspaceStatus,
};
use crate::text::{decimal_of, join, lines_of, trim};
#[allow(unused_imports)]
use crate::text::{decimal, joined, lines, split, split_is_not_empty, texts, trimmed, without_cr};

verus! {

/// A description without white space around it, or what stands for one.
pub open spec fn described(description: Seq<char>) -> Seq<char> {
    if trimmed(description).len() == 0 {
        "(no description)"@
    } else {
        trimmed(description)
    }
}

/// The first line of a description.
pub open spec fn summarized(description: Seq<char>) -> Seq<char> {
    let all = lines(described(description));
    if all.len() > 0 {
        all[0]
    } else {
        "(no description)"@
    }
}

/// A description without white space around it, or what stands for one.
pub fn describe_or_placeholder(description: &str) -> (r: String)
    ensures
        r@ == described(description@),
{
    let d = trim(description);
    if d.as_str().is_empty() {
        "(no description)".to_string()
    } else {
        d
    }
}

/// The first line of a description: rows are one line for each change.
pub fn summary(description: &str) -> (r: String)
    ensures
        r@ == summarized(description@),
{
    let all = lines_of(describe_or_placeholder(description).as_str());
    if all.len() > 0 {
        assert(texts(all@)[0] == all@[0]@);
        all[0].clone()
    } else {
        assert(texts(all@).len() == 0);
        "(no description)".to_string()
    }
}

proof fn pieces_hold_no_separator(s: Seq<char>, sep: char, i: int, j: int)
    requires
        0 <= i < split(s, sep).len(),
        0 <= j < split(s, sep)[i].len(),
    ensures
        split(s, sep)[i][j] != sep,
    decreases s.len(),
{
    if s.len() > 0 {
        let t = s.drop_last();
        split_is_not_empty(t, sep);
        let before = split(t, sep);
        if i < before.len() && j < before[i].len() {
            pieces_hold_no_separator(t, sep, i, j);
        }
        if i < before.len() - 1 {
            assert(split(s, sep)[i] == before[i]);
        } else if s.last() == sep {
            if i == before.len() - 1 {
                assert(split(s, sep)[i] == before[i]);
            }
        } else {
            assert(split(s, sep)[i] == before.last().push(s.last()));
        }
    }
}

/// A row is one line.
pub proof fn summaries_are_one_line(description: Seq<char>, j: int)
    requires
        0 <= j < summarized(description).len(),
    ensures
        summarized(description)[j] != '\n',
{
    let d = described(description);
    split_is_not_empty(d, '\n');
    let pieces = split(d, '\n');
    if lines(d).len() > 0 {
        if pieces.len() > 1 {
            assert(lines(d)[0] == without_cr(pieces[0]));
        } else {
            assert(lines(d)[0] == pieces[0]);
        }
        pieces_hold_no_separator(d, '\n', 0, j);
    } else {
        reveal_strlit("(no description)");
    }
}

/// What `register` prints.
pub fn register(info: &RepoInfo) -> (r: String)
    ensures
        r@ == "registered "@ + info.id.0@ + " at "@ + info.root@,
{
    "registered ".to_string().concat(info.id.0.as_str()).concat(" at ").concat(info.root.as_str())
}

/// The letter for a change of a file.
pub open spec fn kind_letter(kind: ChangeKind) -> Seq<char> {
    match kind {
        ChangeKind::Added => "A"@,
        ChangeKind::Modified => "M"@,
        ChangeKind::Removed => "D"@,
    }
}

/// The line for a change of a file.
pub open spec fn file_line(f: FileChange) -> Seq<char> {
    "  "@ + kind_letter(f.kind) + " "@ + f.path@
}

/// The line for a workspace, or for a change: its id and its summary.
pub open spec fn change_line(change_id: Seq<char>, description: Seq<char>) -> Seq<char> {
    change_id + " "@ + summarized(description)
}

/// The lines for workspaces and the files that changed in them.
pub open spec fn status_text(workspaces: Seq<WorkspaceStatus>) -> Seq<Seq<char>>
    decreases workspaces.len(),
{
    if workspaces.len() == 0 {
        Seq::empty()
    } else {
        let last = workspaces.last();
        status_text(workspaces.drop_last()) + seq![
            change_line(last.info.change_id@, last.info.description@),
        ] + last.changed_files@.map_values(|f: FileChange| file_line(f))
    }
}

fn line_of_change(change_id: &str, description: &str) -> (r: String)
    ensures
        r@ == change_line(change_id@, description@),
{
    change_id.to_string().concat(" ").concat(summary(description).as_str())
}

fn line_of_file(f: &FileChange) -> (r: String)
    ensures
        r@ == file_line(*f),
{
    let letter = match f.kind {
        ChangeKind::Added => "A",
        ChangeKind::Modified => "M",
        ChangeKind::Removed => "D",
    };
    "  ".to_string().concat(letter).concat(" ").concat(f.path.as_str())
}

/// What `st` prints.
pub fn status(resp: &StatusResponse) -> (r: Vec<String>)
    ensures
        texts(r@) == status_text(resp.workspaces@),
{
    let mut out: Vec<String> = Vec::new();
    assert(texts(out@) =~= status_text(resp.workspaces@.take(0)));
    for i in 0..resp.workspaces.len()
        invariant
            texts(out@) == status_text(resp.workspaces@.take(i as int)),
    {
        let ws = &resp.workspaces[i];
        let ghost upto = resp.workspaces@.take(i + 1);
        let ghost before = texts(out@);
        assert(upto.drop_last() =~= resp.workspaces@.take(i as int));
        out.push(line_of_change(ws.info.change_id.as_str(), ws.info.description.as_str()));
        let ghost base = texts(out@);
        assert(base =~= before + seq![change_line(ws.info.change_id@, ws.info.description@)]);
        let ghost files = ws.changed_files@.map_values(|f: FileChange| file_line(f));
        assert(files.take(0) =~= Seq::empty());
        for j in 0..ws.changed_files.len()
            invariant
                files == ws.changed_files@.map_values(|f: FileChange| file_line(f)),
                texts(out@) == base + files.take(j as int),
        {
            let ghost was = out@;
            out.push(line_of_file(&ws.changed_files[j]));
            assert(texts(out@) =~= texts(was).push(files[j as int]));
            assert(texts(out@) =~= base + files.take(j + 1));
        }
        assert(files.take(files.len() as int) =~= files);
        assert(texts(out@) =~= status_text(upto));
    }
    assert(resp.workspaces@.take(resp.workspaces@.len() as int) =~= resp.workspaces@);
    out
}

/// What a row of a log says behind its marker.
pub open spec fn log_parts(e: LogEntry) -> Seq<Seq<char>> {
    let shown = if e.bookmarks@.len() == 0 {
        seq![e.change_id@]
    } else {
        seq![e.change_id@, joined(texts(e.bookmarks@), " "@)]
    };
    shown.push(summarized(e.description@))
}

/// A row of a log: `@` marks a working copy.
pub open spec fn log_line(e: LogEntry) -> Seq<char> {
    (if e.is_working_copy {
        "@"@
    } else {
        " "@
    }) + " "@ + joined(log_parts(e), " "@)
}

fn line_of_log(e: &LogEntry) -> (r: String)
    ensures
        r@ == log_line(*e),
{
    let marker = if e.is_working_copy {
        "@"
    } else {
        " "
    };
    let mut parts: Vec<String> = Vec::new();
    parts.push(e.change_id.clone());
    if e.bookmarks.len() > 0 {
        parts.push(join(&e.bookmarks, " "));
    }
    parts.push(summary(e.description.as_str()));
    assert(texts(parts@) =~= log_parts(*e));
    marker.to_string().concat(" ").concat(join(&parts, " ").as_str())
}

/// What `log` prints: one line for each row.
pub fn log(entries: &Vec<LogEntry>) -> (r: Vec<String>)
    ensures
        texts(r@) == entries@.map_values(|e: LogEntry| log_line(e)),
{
    let ghost all = entries@.map_values(|e: LogEntry| log_line(e));
    let mut out: Vec<String> = Vec::new();
    for i in 0..entries.len()
        invariant
            all == entries@.map_values(|e: LogEntry| log_line(e)),
            texts(out@) == all.take(i as int),
    {
        let ghost before = out@;
        out.push(line_of_log(&entries[i]));
        assert(texts(out@) =~= texts(before).push(all[i as int]));
        assert(texts(out@) =~= all.take(i + 1));
    }
    assert(all.take(all.len() as int) =~= all);
    out
}

/// What `describe` prints.
pub fn describe(e: &LogEntry) -> (r: String)
    ensures
        r@ == change_line(e.change_id@, e.description@),
{
    line_of_change(e.change_id.as_str(), e.description.as_str())
}

/// What `ws new` prints.
pub fn workspace_new(ws: &WorkspaceInfo) -> (r: String)
    ensures
        r@ == "created workspace "@ + ws.name@ + " at "@ + ws.path@,
{
    "created workspace ".to_string().concat(ws.name.as_str()).concat(" at ").concat(
        ws.path.as_str(),
    )
}

/// The line for a workspace in a list.
pub open spec fn workspace_line(ws: WorkspaceInfo) -> Seq<char> {
    ws.name@ + " "@ + ws.path@ + " "@ + ws.change_id@ + " "@ + summarized(ws.description@)
}

/// What `ws list` prints: one line for each workspace.
pub fn workspace_list(list: &Vec<WorkspaceInfo>) -> (r: Vec<String>)
    ensures
        texts(r@) == list@.map_values(|w: WorkspaceInfo| workspace_line(w)),
{
    let ghost all = list@.map_values(|w: WorkspaceInfo| workspace_line(w));
    let mut out: Vec<String> = Vec::new();
    for i in 0..list.len()
        invariant
            all == list@.map_values(|w: WorkspaceInfo| workspace_line(w)),
            texts(out@) == all.take(i as int),
    {
        let ws = &list[i];
        let ghost before = out@;
        out.push(
            ws.name.clone().concat(" ").concat(ws.path.as_str()).concat(" ").concat(
                ws.change_id.as_str(),
            ).concat(" ").concat(summary(ws.description.as_str()).as_str()),
        );
        assert(texts(out@) =~= texts(before).push(all[i as int]));
        assert(texts(out@) =~= all.take(i + 1));
    }
    assert(all.take(all.len() as int) =~= all);
    out
}

/// What `push` prints: exactly where it went.
pub fn push(resp: &PushResponse) -> (r: String)
    ensures
        r@ == "pushed "@ + resp.commit_id@ + " to "@ + resp.remote@ + "/"@ + resp.bookmark@,
{
    "pushed ".to_string().concat(resp.commit_id.as_str()).concat(" to ").concat(
        resp.remote.as_str(),
    ).concat("/").concat(resp.bookmark.as_str())
}

/// The place of a new workspace as the daemon takes it: absolute, with a relative
/// one as seen from where the user typed it.
pub fn absolute_dest(cwd: &str, dest: Option<String>) -> (r: Option<String>)
    ensures
        match dest {
            Some(d) => r matches Some(a) && a@ == if absolute(d@) {
                d@
            } else {
                joined_path(cwd@, d@)
            },
            None => r is None,
        },
{
    match dest {
        Some(d) => {
            if is_absolute(d.as_str()) {
                Some(d)
            } else {
                Some(join_path(cwd, d.as_str()))
            }
        },
        None => None,
    }
}

/// An address below a repo.
pub open spec fn repo_address(segment: Seq<char>, rest: Seq<char>) -> Seq<char> {
    "/repos/"@ + segment + rest
}

/// An address below a repo: of its status, its workspaces, or whatever `rest` says.
pub fn repo_path(segment: &str, rest: &str) -> (r: String)
    ensures
        r@ == repo_address(segment@, rest@),
{
    "/repos/".to_string().concat(segment).concat(rest)
}

/// The address of the first rows of the log.
pub fn log_address(segment: &str, limit: usize) -> (r: String)
    ensures
        r@ == repo_address(segment@, "/log?limit="@ + decimal(limit as nat)),
{
    let rest = "/log?limit=".to_string().concat(decimal_of(limit as u128).as_str());
    repo_path(segment, rest.as_str())
}

/// The address of a file at a revision.
pub fn file(segment: &str, rev: &str, path: &str) -> (r: String)
    ensures
        r@ == repo_address(
            segment@,
            "/file?rev="@ + encoded(encode_utf8(rev@)) + "&path="@ + encoded(encode_utf8(path@)),
        ),
{
    let rest = "/file?rev=".to_string().concat(encode_segment(rev).as_str()).concat(
        "&path=",
    ).concat(encode_segment(path).as_str());
    repo_path(segment, rest.as_str())
}

} // verus!
