//! What the client prints says what it was told.

use vstd::prelude::*;
use vstd::string::*;
use vstd::utf8::*;

#[allow(unused_imports)]
use crate::client::encode_segment;
#[allow(unused_imports)]
use crate::commands::{
    absolute_dest, describe, describe_or_placeholder, file, file_line, log, log_address, log_line,
    log_parts, register, repo_path, status, summarized, summary, workspace_list, workspace_new,
};
#[allow(unused_imports)]
use crate::error::EngineError;
#[allow(unused_imports)]
use crate::laws::texts::lines_of_a_listing;
#[allow(unused_imports)]
use crate::paths::joined_path;
#[allow(unused_imports)]
use crate::proto::{
    ChangeKind, FileChange, LogEntry, PushResponse, RepoInfo, StatusResponse, WorkspaceInfo,
    WorkspaceStatus,
};
#[allow(unused_imports)]
use crate::settings::{make_settings, settings_strings};
#[allow(unused_imports)]
use crate::text::{
    decimal_of, join, joined, lines, split, split_is_not_empty, texts, trim, trimmed, without_cr,
};

verus! {

/// A description is shown without the white space around it, and where that leaves
/// nothing, something is said in its place.
pub proof fn descriptions_are_shown_trimmed(d: &str, t: String, r: String)
    requires
        call_ensures(trim, (d,), t),
        call_ensures(describe_or_placeholder, (d,), r),
    ensures
        r@ == if t@.len() == 0 {
            "(no description)"@
        } else {
            t@
        },
{
}

/// A summary is the first line of the description: it goes up to the first line feed, the
/// carriage return before that not counted, or to the end.
pub proof fn summaries_are_first_lines(d: &str, t: String, r: String, i: int)
    requires
        call_ensures(trim, (d,), t),
        call_ensures(summary, (d,), r),
    ensures
        t@.len() == 0 ==> r@ == "(no description)"@,
        t@.len() > 0 ==> is_first_line(r@, t@),
        0 <= i < r@.len() ==> r@[i] != '\n',
{
    summaries_start(d@);
    if 0 <= i < r@.len() {
        crate::commands::summaries_are_one_line(d@, i);
    }
}

/// `r` is what stands before the first line feed of `t`.
pub open spec fn is_first_line(r: Seq<char>, t: Seq<char>) -> bool {
    &&& r.is_prefix_of(t)
    &&& forall|i: int| 0 <= i < r.len() ==> r[i] != '\n'
    &&& {
        ||| r == t
        ||| r.len() < t.len() && t[r.len() as int] == '\n' && (r.len() > 0 ==> r.last() != '\r')
        ||| r.len() + 1 < t.len() && t[r.len() as int] == '\r' && t[r.len() as int + 1] == '\n'
    }
}

proof fn summaries_start(d: Seq<char>)
    ensures
        trimmed(d).len() == 0 ==> summarized(d) == "(no description)"@,
        trimmed(d).len() > 0 ==> is_first_line(summarized(d), trimmed(d)),
{
    let t = trimmed(d);
    if t.len() == 0 {
        let none = "(no description)"@;
        reveal_strlit("(no description)");
        assert(!none.contains('\n'));
        lines_of_a_listing(none, none);
        assert(lines(none)[0] == none);
    } else {
        split_is_not_empty(t, '\n');
        first_piece_is_first(t);
        let pieces = split(t, '\n');
        let first = pieces[0];
        if pieces.len() > 1 {
            assert(lines(t)[0] == without_cr(first));
        } else {
            assert(pieces =~= seq![first]);
            assert(first =~= t);
            assert(lines(t)[0] == t);
        }
        let r = summarized(d);
        assert(r =~= t.subrange(0, r.len() as int));
    }
}

proof fn first_piece_is_first(s: Seq<char>)
    ensures
        split(s, '\n').len() >= 1,
        split(s, '\n')[0].is_prefix_of(s),
        forall|i: int| 0 <= i < split(s, '\n')[0].len() ==> split(s, '\n')[0][i] != '\n',
        split(s, '\n').len() == 1 ==> split(s, '\n')[0] == s,
        split(s, '\n').len() > 1 ==> split(s, '\n')[0].len() < s.len() && s[split(
            s,
            '\n',
        )[0].len() as int] == '\n',
    decreases s.len(),
{
    if s.len() == 0 {
        assert(s =~= Seq::empty());
        assert(split(s, '\n')[0] =~= s.subrange(0, 0));
    } else {
        let t = s.drop_last();
        first_piece_is_first(t);
        let (a, b) = (split(t, '\n'), split(s, '\n'));
        if s.last() == '\n' {
            assert(b[0] == a[0]);
        } else if a.len() > 1 {
            assert(b[0] == a[0]);
        } else {
            assert(b[0] == a[0].push(s.last()));
            assert(b[0] =~= s);
        }
        assert(b[0] =~= s.subrange(0, b[0].len() as int)) by {
            if b[0] != s {
                assert(a[0] =~= t.subrange(0, a[0].len() as int));
            }
        }
    }
}

/// What a registration, a new workspace and a push print names what was done, and where.
pub proof fn answers_name_what_was_done(
    info: &RepoInfo,
    ws: &WorkspaceInfo,
    resp: &PushResponse,
    r: String,
)
    ensures
        call_ensures(register, (info,), r) ==> r@ == "registered "@ + info.id.0@ + " at "@
            + info.root@,
        call_ensures(workspace_new, (ws,), r) ==> r@ == "created workspace "@ + ws.name@ + " at "@
            + ws.path@,
        call_ensures(crate::commands::push, (resp,), r) ==> r@ == "pushed "@ + resp.commit_id@ + " to "@
            + resp.remote@ + "/"@ + resp.bookmark@,
{
}

/// A described change is shown by its id and its summary.
pub proof fn changes_are_shown_by_id(e: &LogEntry, d: &str, s: String, r: String)
    requires
        d@ == e.description@,
        call_ensures(summary, (d,), s),
        call_ensures(describe, (e,), r),
    ensures
        r@ == e.change_id@ + " "@ + s@,
{
}

/// A status has a line for every workspace, with the id of its change and its summary,
/// and under it one for every file that changed, with what happened to it: the lines of
/// one more workspace follow those of the others.
pub proof fn statuses_have_their_lines(
    resp: &StatusResponse,
    more: &StatusResponse,
    ws: WorkspaceStatus,
    d: &str,
    s: String,
    front: Vec<String>,
    r: Vec<String>,
    k: int,
)
    requires
        more.workspaces@ == resp.workspaces@.push(ws),
        d@ == ws.info.description@,
        call_ensures(summary, (d,), s),
        call_ensures(status, (resp,), front),
        call_ensures(status, (more,), r),
    ensures
        resp.workspaces@.len() == 0 ==> front@.len() == 0,
        r@.len() == front@.len() + 1 + ws.changed_files@.len(),
        0 <= k < front@.len() ==> r@[k]@ == front@[k]@,
        r@[front@.len() as int]@ == ws.info.change_id@ + " "@ + s@,
        0 <= k < ws.changed_files@.len() ==> r@[front@.len() + 1 + k]@ == "  "@ + (
        match ws.changed_files@[k].kind {
            ChangeKind::Added => "A"@,
            ChangeKind::Modified => "M"@,
            ChangeKind::Removed => "D"@,
        }) + " "@ + ws.changed_files@[k].path@,
{
    assert(more.workspaces@.drop_last() =~= resp.workspaces@);
    let (x, y) = (texts(front@), texts(r@));
    assert(x.len() == front@.len() && y.len() == r@.len());
    let files = ws.changed_files@.map_values(|f: FileChange| file_line(f));
    let at = front@.len() as int;
    assert(y[at] == r@[at]@);
    if 0 <= k < front@.len() {
        assert(x[k] == front@[k]@);
        assert(y[k] == r@[k]@);
    }
    if 0 <= k < ws.changed_files@.len() {
        assert(y[at + 1 + k] == r@[at + 1 + k]@);
        assert(files[k] == file_line(ws.changed_files@[k]));
    }
}

/// A log has a line for every row, in order: the working copy is marked, and what follows
/// is the id of the change, its bookmarks if it has any, and its summary.
pub proof fn logs_have_their_lines(
    entries: &Vec<LogEntry>,
    r: Vec<String>,
    i: int,
    d: &str,
    s: String,
    names: String,
)
    requires
        call_ensures(log, (entries,), r),
        0 <= i < entries@.len(),
        d@ == entries@[i].description@,
        call_ensures(summary, (d,), s),
        call_ensures(join, (&entries@[i].bookmarks, " "), names),
    ensures
        r@.len() == entries@.len(),
        r@[i]@ == (if entries@[i].is_working_copy {
            "@"@
        } else {
            " "@
        }) + " "@ + (if entries@[i].bookmarks@.len() == 0 {
            entries@[i].change_id@ + " "@ + s@
        } else {
            entries@[i].change_id@ + " "@ + names@ + " "@ + s@
        }),
{
    let e = entries@[i];
    let all = texts(r@);
    assert(all.len() == r@.len());
    assert(all[i] == r@[i]@);
    assert(all[i] == log_line(e));
    let parts = log_parts(e);
    assert(parts.drop_last().last() == parts[parts.len() - 2]);
    if e.bookmarks@.len() == 0 {
        assert(parts =~= seq![e.change_id@, s@]);
        assert(parts.drop_last() =~= seq![e.change_id@]);
        assert(joined(seq![e.change_id@], " "@) == e.change_id@);
        assert(joined(parts, " "@) == e.change_id@ + " "@ + s@);
    } else {
        assert(parts =~= seq![e.change_id@, names@, s@]);
        assert(parts.drop_last() =~= seq![e.change_id@, names@]);
        assert(parts.drop_last().drop_last() =~= seq![e.change_id@]);
        assert(joined(seq![e.change_id@], " "@) == e.change_id@);
        assert(joined(parts.drop_last(), " "@) == e.change_id@ + " "@ + names@);
        assert(joined(parts, " "@) == e.change_id@ + " "@ + names@ + " "@ + s@);
    }
}

/// A list of workspaces has a line for each, in order.
pub proof fn workspace_lists_have_their_lines(
    list: &Vec<WorkspaceInfo>,
    r: Vec<String>,
    i: int,
    d: &str,
    s: String,
)
    requires
        call_ensures(workspace_list, (list,), r),
        0 <= i < list@.len(),
        d@ == list@[i].description@,
        call_ensures(summary, (d,), s),
    ensures
        r@.len() == list@.len(),
        r@[i]@ == list@[i].name@ + " "@ + list@[i].path@ + " "@ + list@[i].change_id@ + " "@ + s@,
{
    assert(texts(r@).len() == r@.len());
    assert(texts(r@)[i] == r@[i]@);
}

/// A place is sent as it is where it begins at the root, and else as seen from where the
/// user is; none is sent where none is given.
pub proof fn places_are_sent_absolute(
    cwd: &str,
    dest: Option<String>,
    r: Option<String>,
)
    requires
        call_ensures(absolute_dest, (cwd, dest), r),
    ensures
        dest is None ==> r is None,
        dest matches Some(d) ==> (r matches Some(a) && a@ == joined_path(cwd@, d@)),
        dest is Some && cwd@.len() > 0 && cwd@[0] == '/' ==> r->0@.len() > 0 && r->0@[0] == '/',
{
}

/// The addresses that are asked: below the repo, with what is asked for in them.
pub proof fn addresses_name_what_is_asked(
    segment: &str,
    rest: &str,
    limit: usize,
    number: String,
    rev: &str,
    path: &str,
    rev_segment: String,
    path_segment: String,
    r: String,
)
    requires
        call_ensures(decimal_of, (limit as u128,), number),
        call_ensures(encode_segment, (rev,), rev_segment),
        call_ensures(encode_segment, (path,), path_segment),
    ensures
        call_ensures(repo_path, (segment, rest), r) ==> r@ == "/repos/"@ + segment@ + rest@,
        call_ensures(log_address, (segment, limit), r) ==> r@ == "/repos/"@ + segment@ + (
        "/log?limit="@ + number@),
        call_ensures(file, (segment, rev, path), r) ==> r@ == "/repos/"@ + segment@ + (
        "/file?rev="@ + rev_segment@ + "&path="@ + path_segment@),
{
}

/// Commits are made in the name and with the address that are given, and nothing else is
/// set.
pub proof fn settings_are_of_the_user(
    name: &str,
    email: &str,
    r: Result<jj_lib::settings::UserSettings, EngineError>,
    k: (Seq<char>, Seq<char>),
)
    requires
        call_ensures(make_settings, (name, email), r),
    ensures
        r is Ok,
        settings_strings(r->Ok_0).contains_key(("user"@, "name"@)),
        settings_strings(r->Ok_0)[("user"@, "name"@)] == name@,
        settings_strings(r->Ok_0).contains_key(("user"@, "email"@)),
        settings_strings(r->Ok_0)[("user"@, "email"@)] == email@,
        settings_strings(r->Ok_0).contains_key(k) ==> k == ("user"@, "name"@) || k == (
            "user"@,
            "email"@,
        ),
{
    reveal_strlit("name");
    reveal_strlit("email");
    assert("name"@.len() != "email"@.len());
}

} // verus!
