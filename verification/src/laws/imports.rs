//! Descriptions, imports from git, and the opening of a repo.

use vstd::prelude::*;
use vstd::string::*;

#[allow(unused_imports)]
use crate::commits::{Commit, RepoView};
#[allow(unused_imports)]
use crate::describe::{
    describe_step, is_describe_run, Describe, DescribeAction, DescribePhase, DescribeReply,
};
#[allow(unused_imports)]
use crate::engine::{RepoEngine, WorkspaceEntry};
#[allow(unused_imports)]
use crate::error::{EngineError, ErrorKind};
#[allow(unused_imports)]
use crate::git_import::{
    all_opened, head_step, ignore_path_of, is_head_run, is_open_run, is_refs_run, open_step,
    refs_step, HeadAction, HeadImport, HeadReply, ImportPhase, OpenAction, OpenOrInit, OpenPhase,
    OpenReply, RefsAction, RefsImport, RefsReply,
};
#[allow(unused_imports)]
use crate::ids::{hex_text, reverse_hex_text};
#[allow(unused_imports)]
use crate::laws::shown::{log_rows_show, shows_commit};
#[allow(unused_imports)]
use crate::laws::{fails, passes_on, shows_start};
#[allow(unused_imports)]
use crate::ops::{ops_view, Op};
#[allow(unused_imports)]
use crate::paths::joined_path;

verus! {

/// A description is started as it is asked for, and goes by its steps.
pub proof fn descriptions_go_by_steps(
    engine: &RepoEngine,
    ws: String,
    change: Option<String>,
    message: String,
    start: Describe,
    m: &mut Describe,
    reply: DescribeReply,
    action: DescribeAction,
)
    ensures
        call_requires(RepoEngine::describe, (engine, ws, change, message)),
        call_ensures(RepoEngine::describe, (engine, ws, change, message), start) ==> start.ws == ws
            && start.change == change && start.message == message && start.phase
            == DescribePhase::Start && start.wf(),
        old(m).wf() ==> call_requires(Describe::step, (m, engine, reply)),
        call_ensures(Describe::step, (m, engine, reply), action) ==> final(m).wf() && describe_step(
            *engine,
            *old(m),
            reply,
            *final(m),
            action,
        ),
{
}

/// The operations are these, one after the other: the commit gets the message, and the
/// operation is named after the start of its id.
pub open spec fn sets_message(ops: Seq<Op>, commit: Seq<u8>, text: Seq<char>) -> bool {
    &&& ops.len() == 4
    &&& ops[0] is Begin
    &&& ops[1] matches Op::Describe { commit: c, message } && c.bytes@ == commit && message@ == text
    &&& ops[2] is Rebase
    &&& ops[3] matches Op::Commit(said) && said@.len() >= "describe "@.len() && said@.take(
        "describe "@.len() as int,
    ) == "describe "@ && shows_start(said@.skip("describe "@.len() as int), hex_text(commit))
}

/// A description, action by action: the commit that is given the message is the one that
/// was found for the change that was named, or the working-copy commit of the workspace;
/// the message is the one that was asked for; and what is answered is the commit that is
/// then found for the whole change id of the one that was described.
pub proof fn describe_run_in_full(
    engines: Seq<RepoEngine>,
    states: Seq<Describe>,
    replies: Seq<DescribeReply>,
    actions: Seq<DescribeAction>,
    i: int,
)
    requires
        is_describe_run(engines, states, replies, actions),
        0 <= i < actions.len(),
    ensures
        i == 0 && replies[0] is Begin ==> match states[0].change {
            Some(prefix) => actions[0] matches DescribeAction::FindChange(p) && p@ == prefix@,
            None => actions[0] matches DescribeAction::FindWorkingCopy(ws) && ws@ == states[0].ws@,
        },
        i == 1 && !(actions[0] is Finish) && replies[1] is Found ==> match replies[1]->Found_0 {
            Ok(c) => actions[1] matches DescribeAction::Run(ops) && sets_message(
                ops@,
                c.id@,
                states[0].message@,
            ),
            Err(e) => actions[1] matches DescribeAction::Finish(r) && passes_on(r, e),
        },
        i == 2 && actions[1] is Run && replies[2] is Ran ==> match replies[2]->Ran_0 {
            Ok(_) => actions[2] matches DescribeAction::SyncWorkingCopy(ws) && ws@ == states[0].ws@,
            Err(e) => actions[2] matches DescribeAction::Finish(r) && passes_on(r, e),
        },
        i == 3 && actions[2] is SyncWorkingCopy && replies[3] is Synced ==> match replies[3]->Synced_0 {
            Ok(_) => actions[3] matches DescribeAction::FindChange(p) && p@ == reverse_hex_text(
                replies[1]->Found_0->Ok_0.change_id@,
            ),
            Err(e) => actions[3] matches DescribeAction::Finish(r) && passes_on(r, e),
        },
        i == 4 && actions[3] is FindChange && replies[4] is Found ==> match replies[4]->Found_0 {
            Ok(c) => actions[4] matches DescribeAction::Finish(r) && (r matches Ok(row)
                && shows_commit(row, engines[4].view, c)),
            Err(e) => actions[4] matches DescribeAction::Finish(r) && passes_on(r, e),
        },
        actions[i] is Run ==> i == 1,
        actions[i] matches DescribeAction::Finish(r) ==> (r is Ok ==> i == 4 && actions[3] is FindChange
            && actions[1] is Run && (replies[4] matches DescribeReply::Found(f) && f is Ok)),
{
    describe_phases(engines, states, replies, actions, i);
    assert(describe_step(engines[i], states[i], replies[i], states[i + 1], actions[i]));
    if actions[i] is Run {
        let ops = actions[i]->Run_0@;
        assert(ops_view(ops).len() == ops.len());
        assert(forall|k: int| 0 <= k < ops.len() ==> (#[trigger] ops[k])@ == ops_view(ops)[k]);
        let said = ops[3]->Commit_0@;
        let start = "describe "@;
        assert(said.take(start.len() as int) =~= start);
        assert(said.skip(start.len() as int) =~= crate::text::head(
            hex_text(replies[i]->Found_0->Ok_0.id@),
            12,
        ));
    }
    if i == 4 && replies[4] is Found && replies[4]->Found_0 is Ok && actions[3] is FindChange {
        log_rows_show(
            actions[4]->Finish_0->Ok_0,
            engines[4].view,
            replies[4]->Found_0->Ok_0,
        );
    }
}

proof fn describe_phases(
    engines: Seq<RepoEngine>,
    states: Seq<Describe>,
    replies: Seq<DescribeReply>,
    actions: Seq<DescribeAction>,
    i: int,
)
    requires
        is_describe_run(engines, states, replies, actions),
        0 <= i < states.len(),
    ensures
        states[i].ws == states[0].ws,
        states[i].change == states[0].change,
        states[i].message == states[0].message,
        states[i].phase == DescribePhase::Start <==> i == 0,
        states[i].phase == DescribePhase::Finding <==> i == 1 && !(actions[0] is Finish),
        states[i].phase == DescribePhase::Writing <==> i == 2 && actions[1] is Run,
        states[i].phase == DescribePhase::Syncing <==> i == 3 && actions[2] is SyncWorkingCopy,
        states[i].phase == DescribePhase::FindingAgain <==> i == 4 && actions[3] is FindChange,
        states[i].phase == DescribePhase::Syncing || states[i].phase == DescribePhase::FindingAgain
            ==> actions[1] is Run,
        states[i].phase == DescribePhase::Writing || states[i].phase == DescribePhase::Syncing
            || states[i].phase == DescribePhase::FindingAgain ==> states[i].target is Some
            && replies[1] == DescribeReply::Found(Ok(states[i].target->0)),
    decreases i,
{
    if i > 0 {
        describe_phases(engines, states, replies, actions, i - 1);
        assert(describe_step(
            engines[i - 1],
            states[i - 1],
            replies[i - 1],
            states[i],
            actions[i - 1],
        ));
    }
}

/// An import of HEAD is started for the default workspace under the name that the repo
/// knows it by, and goes by its steps.
pub proof fn head_imports_go_by_steps(
    engine: &RepoEngine,
    r: Result<HeadImport, EngineError>,
    ws: String,
    jj_name: String,
    start: HeadImport,
    m: &mut HeadImport,
    reply: HeadReply,
    action: HeadAction,
)
    ensures
        call_ensures(HeadImport::start, (ws, jj_name), start) ==> start.ws == ws && start.jj_name
            == jj_name && start.phase == ImportPhase::Start,
        call_ensures(RepoEngine::import_head_from_git, (engine,), r) ==> match engine.entry(
            "default"@,
        ) {
            Some(e) => r matches Ok(h) && h.ws@ == "default"@ && h.jj_name@ == e.jj_name@ && h.phase
                == ImportPhase::Start,
            None => fails(r, ErrorKind::NotFound, "no workspace default"@),
        },
        call_requires(HeadImport::step, (m, reply)),
        call_ensures(HeadImport::step, (m, reply), action) ==> head_step(
            *old(m),
            reply,
            *final(m),
            action,
        ),
{
}

/// The operations are these, one after the other: the workspace gets a new commit on top
/// of HEAD, its on-disk state is pointed there, and the import is committed.
pub open spec fn moves_to_head(ops: Seq<Op>, ws: Seq<char>, jj_name: Seq<char>, at: Seq<u8>) -> bool {
    &&& ops.len() == 6
    &&& ops[0] matches Op::CheckOut { workspace, commit } && workspace@ == jj_name && commit.bytes@
        == at
    &&& ops[1] matches Op::Lock(name) && name@ == ws
    &&& ops[2] is ResetToCheckedOut
    &&& ops[3] is Rebase
    &&& ops[4] matches Op::Commit(said) && said@ == "import git head"@
    &&& ops[5] is Unlock
}

/// An import of HEAD, action by action: where HEAD moved, the new commit of the workspace
/// is a child of the commit that was found at HEAD.
pub proof fn head_run_in_full(
    states: Seq<HeadImport>,
    replies: Seq<HeadReply>,
    actions: Seq<HeadAction>,
    i: int,
)
    requires
        is_head_run(states, replies, actions),
        0 <= i < actions.len(),
    ensures
        i == 0 && replies[0] is Begin ==> actions[0] is Import,
        i == 1 && actions[0] is Import && replies[1] is Imported ==> match replies[1]->Imported_0 {
            Ok(found) => if !found.changed {
                actions[1] matches HeadAction::Finish(r) && r == Ok::<bool, EngineError>(false)
            } else if found.head is Some {
                actions[1] matches HeadAction::Run(ops) && moves_to_head(
                    ops@,
                    states[0].ws@,
                    states[0].jj_name@,
                    found.head->0@,
                )
            } else {
                actions[1] matches HeadAction::Run(ops) && ops@.len() == 2 && ops@[0] is Rebase && (
                ops@[1] matches Op::Commit(said) && said@ == "import git head"@)
            },
            Err(e) => actions[1] matches HeadAction::Finish(r) && passes_on(r, e),
        },
        i == 2 && actions[1] is Run && replies[2] is Ran ==> match replies[2]->Ran_0 {
            Ok(_) => actions[2] matches HeadAction::Finish(r) && r == Ok::<bool, EngineError>(true),
            Err(e) => actions[2] matches HeadAction::Finish(r) && passes_on(r, e),
        },
        actions[i] matches HeadAction::Finish(Ok(changed)) ==> {
            ||| i == 1 && !changed && (replies[1] matches HeadReply::Imported(Ok(found))
                && !found.changed)
            ||| i == 2 && changed && actions[1] is Run && (replies[2] matches HeadReply::Ran(r)
                && r is Ok)
        },
{
    head_phases(states, replies, actions, i);
    assert(head_step(states[i], replies[i], states[i + 1], actions[i]));
    if actions[i] is Run {
        let ops = actions[i]->Run_0@;
        assert(ops_view(ops).len() == ops.len());
        assert(forall|k: int| 0 <= k < ops.len() ==> (#[trigger] ops[k])@ == ops_view(ops)[k]);
    }
}

proof fn head_phases(
    states: Seq<HeadImport>,
    replies: Seq<HeadReply>,
    actions: Seq<HeadAction>,
    i: int,
)
    requires
        is_head_run(states, replies, actions),
        0 <= i < states.len(),
    ensures
        states[i].ws == states[0].ws,
        states[i].jj_name == states[0].jj_name,
        states[i].phase == ImportPhase::Start <==> i == 0,
        states[i].phase == ImportPhase::Importing <==> i == 1 && actions[0] is Import,
        states[i].phase == ImportPhase::Writing <==> i == 2 && actions[1] is Run,
    decreases i,
{
    if i > 0 {
        head_phases(states, replies, actions, i - 1);
        assert(head_step(states[i - 1], replies[i - 1], states[i], actions[i - 1]));
    }
}

/// An import of refs is started as it is asked for, and goes by its steps.
pub proof fn refs_imports_go_by_steps(
    engine: &RepoEngine,
    open: bool,
    start: RefsImport,
    m: &mut RefsImport,
    reply: RefsReply,
    action: RefsAction,
)
    ensures
        call_ensures(RefsImport::start, (open,), start) ==> start.open == open && start.phase
            == ImportPhase::Start,
        call_ensures(RepoEngine::import_refs_from_git, (engine,), start) ==> start.open && start.phase
            == ImportPhase::Start,
        call_requires(RefsImport::step, (m, reply)),
        call_ensures(RefsImport::step, (m, reply), action) ==> refs_step(
            *old(m),
            reply,
            *final(m),
            action,
        ),
{
}

/// An import of refs, action by action: nothing is abandoned and no remote is tracked;
/// where something changed, descendants are rebased and the import is committed, and the
/// default workspace of an open repo is synced.
pub proof fn refs_run_in_full(
    states: Seq<RefsImport>,
    replies: Seq<RefsReply>,
    actions: Seq<RefsAction>,
    i: int,
)
    requires
        is_refs_run(states, replies, actions),
        0 <= i < actions.len(),
    ensures
        i == 0 && replies[0] is Begin ==> (actions[0] matches RefsAction::Import {
            abandon_unreachable_commits,
            record_synthetic_predecessors,
            track_remote_bookmarks,
        } && !abandon_unreachable_commits && !record_synthetic_predecessors
            && track_remote_bookmarks@.len() == 0),
        i == 1 && actions[0] is Import && replies[1] is Imported ==> match replies[1]->Imported_0 {
            Ok(changed) => if changed {
                actions[1] matches RefsAction::Run(ops) && ops@.len() == 2 && ops@[0] is Rebase && (
                ops@[1] matches Op::Commit(said) && said@ == "import git refs"@)
            } else {
                actions[1] matches RefsAction::Finish(r) && r == Ok::<bool, EngineError>(false)
            },
            Err(e) => actions[1] matches RefsAction::Finish(r) && passes_on(r, e),
        },
        i == 2 && actions[1] is Run && replies[2] is Ran ==> match replies[2]->Ran_0 {
            Ok(_) => if states[0].open {
                actions[2] matches RefsAction::SyncWorkingCopy(ws) && ws@ == "default"@
            } else {
                actions[2] matches RefsAction::Finish(r) && r == Ok::<bool, EngineError>(true)
            },
            Err(e) => actions[2] matches RefsAction::Finish(r) && passes_on(r, e),
        },
        i == 3 && actions[2] is SyncWorkingCopy && replies[3] is Synced ==> match replies[3]->Synced_0 {
            Ok(_) => actions[3] matches RefsAction::Finish(r) && r == Ok::<bool, EngineError>(true),
            Err(e) => actions[3] matches RefsAction::Finish(r) && passes_on(r, e),
        },
        actions[i] matches RefsAction::Finish(Ok(changed)) ==> {
            ||| i == 1 && !changed && replies[1] == RefsReply::Imported(Ok(false))
            ||| i == 2 && changed && !states[0].open && actions[1] is Run && (
            replies[2] matches RefsReply::Ran(r) && r is Ok)
            ||| i == 3 && changed && actions[2] is SyncWorkingCopy && (
            replies[3] matches RefsReply::Synced(r) && r is Ok)
        },
{
    refs_phases(states, replies, actions, i);
    assert(refs_step(states[i], replies[i], states[i + 1], actions[i]));
    if actions[i] is Run {
        let ops = actions[i]->Run_0@;
        assert(ops_view(ops).len() == ops.len());
        assert(forall|k: int| 0 <= k < ops.len() ==> (#[trigger] ops[k])@ == ops_view(ops)[k]);
    }
}

proof fn refs_phases(
    states: Seq<RefsImport>,
    replies: Seq<RefsReply>,
    actions: Seq<RefsAction>,
    i: int,
)
    requires
        is_refs_run(states, replies, actions),
        0 <= i < states.len(),
    ensures
        states[i].open == states[0].open,
        states[i].phase == ImportPhase::Start <==> i == 0,
        states[i].phase == ImportPhase::Importing <==> i == 1 && actions[0] is Import,
        states[i].phase == ImportPhase::Writing <==> i == 2 && actions[1] is Run,
        states[i].phase == ImportPhase::Syncing <==> i == 3 && actions[2] is SyncWorkingCopy,
    decreases i,
{
    if i > 0 {
        refs_phases(states, replies, actions, i - 1);
        assert(refs_step(states[i - 1], replies[i - 1], states[i], actions[i - 1]));
    }
}

/// The opening of a repo is started at its root, and goes by its steps; the file that
/// hides `.jj` is in it.
pub proof fn openings_go_by_steps(
    root: String,
    start: OpenOrInit,
    m: &mut OpenOrInit,
    reply: OpenReply,
    action: OpenAction,
    place: &str,
    path: String,
)
    ensures
        call_requires(RepoEngine::open_or_init, (root,)),
        call_ensures(RepoEngine::open_or_init, (root,), start) ==> start.root == root && start.phase
            == OpenPhase::Start,
        call_requires(OpenOrInit::step, (m, reply)),
        call_ensures(OpenOrInit::step, (m, reply), action) ==> open_step(
            *old(m),
            reply,
            *final(m),
            action,
        ),
        call_ensures(ignore_path_of, (place,), path) ==> path@ == joined_path(
            joined_path(place@, ".jj"@),
            ".gitignore"@,
        ),
{
}

/// The opening of a repo, action by action: everything that is looked at, loaded, set up
/// and written is in the root that was named.
pub proof fn open_run_in_full(
    states: Seq<OpenOrInit>,
    replies: Seq<OpenReply>,
    actions: Seq<OpenAction>,
    i: int,
)
    requires
        is_open_run(states, replies, actions),
        0 <= i < actions.len(),
    ensures
        i == 0 && replies[0] is Begin ==> (actions[0] matches OpenAction::LookFor(p) && p@
            == joined_path(states[0].root@, ".git"@)),
        i == 1 && actions[0] is LookFor && replies[1] is Exists ==> if replies[1]->Exists_0 {
            actions[1] matches OpenAction::LookFor(p) && p@ == joined_path(states[0].root@, ".jj"@)
        } else {
            actions[1] matches OpenAction::Finish(r) && fails(
                r,
                ErrorKind::Internal,
                "not a git repo: "@ + states[0].root@,
            )
        },
        i == 2 && actions[1] is LookFor && replies[2] is Exists ==> if replies[2]->Exists_0 {
            actions[2] matches OpenAction::Load(p) && p@ == states[0].root@
        } else {
            actions[2] matches OpenAction::Init { root, git_dir } && root@ == states[0].root@
                && git_dir@ == joined_path(states[0].root@, ".git"@)
        },
        i > 0 && (actions[i - 1] is Load || actions[i - 1] is ImportHead) && (
        replies[i] matches OpenReply::Done(r) && r is Ok) ==> (
        actions[i] matches OpenAction::LookFor(p) && p@ == joined_path(
            joined_path(states[0].root@, ".jj"@),
            ".gitignore"@,
        )),
        i > 0 && actions[i - 1] is Init && (replies[i] matches OpenReply::Done(r) && r is Ok)
            ==> actions[i] is ImportRefs,
        i > 0 && actions[i - 1] is ImportRefs && (replies[i] matches OpenReply::Done(r) && r is Ok)
            ==> actions[i] is ImportHead,
        i > 3 && actions[i - 1] is LookFor && replies[i] is Exists ==> if replies[i]->Exists_0 {
            actions[i] is LoadOthers
        } else {
            actions[i] matches OpenAction::Write { path, text } && path@ == joined_path(
                joined_path(states[0].root@, ".jj"@),
                ".gitignore"@,
            ) && text@ == "/*\n"@
        },
        i > 0 && actions[i - 1] is Write && (replies[i] matches OpenReply::Done(r) && r is Ok)
            ==> actions[i] is LoadOthers,
        i > 0 && actions[i - 1] is LoadOthers && (replies[i] matches OpenReply::Done(r) && r is Ok)
            ==> (actions[i] matches OpenAction::Finish(r) && r is Ok),
        i > 0 && !(actions[i - 1] is LookFor) && !(actions[i - 1] is Finish) && (
        replies[i] matches OpenReply::Done(r) && r is Err) ==> (
        actions[i] matches OpenAction::Finish(r) && passes_on(r, replies[i]->Done_0->Err_0)),
{
    open_phases(states, replies, actions, i);
    assert(open_step(states[i], replies[i], states[i + 1], actions[i]));
}

proof fn open_phases(
    states: Seq<OpenOrInit>,
    replies: Seq<OpenReply>,
    actions: Seq<OpenAction>,
    i: int,
)
    requires
        is_open_run(states, replies, actions),
        0 <= i < states.len(),
    ensures
        states[i].root == states[0].root,
        states[i].phase == OpenPhase::Start <==> i == 0,
        states[i].phase == OpenPhase::LookForGit <==> i == 1 && actions[0] is LookFor,
        states[i].phase == OpenPhase::LookForJj <==> i == 2 && actions[1] is LookFor,
        states[i].phase == OpenPhase::Loading <==> i > 0 && actions[i - 1] is Load,
        states[i].phase == OpenPhase::Initializing <==> i > 0 && actions[i - 1] is Init,
        states[i].phase == OpenPhase::Refs <==> i > 0 && actions[i - 1] is ImportRefs,
        states[i].phase == OpenPhase::Head <==> i > 0 && actions[i - 1] is ImportHead,
        states[i].phase == OpenPhase::LookForIgnore <==> i > 2 && actions[i - 1] is LookFor,
        states[i].phase == OpenPhase::WritingIgnore <==> i > 0 && actions[i - 1] is Write,
        states[i].phase == OpenPhase::Others <==> i > 0 && actions[i - 1] is LoadOthers,
        states[i].phase == OpenPhase::Over <==> i > 0 && actions[i - 1] is Finish,
        states[i].phase == OpenPhase::Loading || states[i].phase == OpenPhase::Initializing ==> i == 3,
        states[i].phase == OpenPhase::Refs ==> i == 4,
        states[i].phase == OpenPhase::Head ==> i == 5,
        states[i].phase == OpenPhase::LookForIgnore ==> i >= 4,
        states[i].phase == OpenPhase::WritingIgnore || states[i].phase == OpenPhase::Others ==> i
            >= 5,
    decreases i,
{
    if i > 0 {
        open_phases(states, replies, actions, i - 1);
        assert(open_step(states[i - 1], replies[i - 1], states[i], actions[i - 1]));
    }
}

/// An opened repo has its root and its view, the workspace at the root as the default
/// one, and beside it the others: each that no later one of its name replaces, and
/// nothing else.
pub proof fn opened_repos_are_what_was_opened(
    root: String,
    view: RepoView,
    jj_name: String,
    default_root: String,
    others: Vec<WorkspaceEntry>,
    r: RepoEngine,
    k: int,
)
    requires
        call_ensures(RepoEngine::opened, (root, view, jj_name, default_root, others), r),
    ensures
        r.root@ == root@,
        r.view == view,
        r.wf(),
        r.workspaces@.len() > 0,
        r.workspaces@.last().name@ == "default"@,
        r.workspaces@.last().jj_name@ == jj_name@,
        r.workspaces@.last().root@ == default_root@,
        0 <= k < r.workspaces@.len() - 1 ==> r.workspaces@[k].name@ != "default"@
            && others@.contains(r.workspaces@[k]),
        0 <= k < others@.len() && others@[k].name@ != "default"@ && (forall|j: int|
            k < j < others@.len() ==> (#[trigger] others@[j]).name@ != others@[k].name@)
            ==> r.workspaces@.contains(others@[k]),
{
    let all = all_opened(others@);
    let keep = |e: WorkspaceEntry| e.name@ != "default"@;
    let kept = r.workspaces@.drop_last();
    if 0 <= k < kept.len() {
        let from = crate::files::filter_comes_from(all, keep, k, k);
        assert(all[from.0] == kept[k]);
        opened_are_of_the_list(others@, from.0, 0);
    }
    if 0 <= k < others@.len() && others@[k].name@ != "default"@ && forall|j: int|
        k < j < others@.len() ==> (#[trigger] others@[j]).name@ != others@[k].name@ {
        opened_are_of_the_list(others@, 0, k);
        let n = choose|n: int| 0 <= n < all.len() && all[n] == others@[k];
        let a = crate::files::filter_keeps_each(all, keep, n);
        assert(r.workspaces@[a] == kept[a]);
    }
}

proof fn opened_are_of_the_list(entries: Seq<WorkspaceEntry>, n: int, k: int)
    ensures
        0 <= n < all_opened(entries).len() ==> entries.contains(all_opened(entries)[n]),
        0 <= k < entries.len() && (forall|j: int|
            k < j < entries.len() ==> (#[trigger] entries[j]).name@ != entries[k].name@)
            ==> all_opened(entries).contains(entries[k]),
    decreases entries.len(),
{
    if entries.len() > 0 {
        let front = entries.drop_last();
        let last = entries.last();
        let before = all_opened(front);
        let keep = |e: WorkspaceEntry| e.name@ != last.name@;
        let all = all_opened(entries);
        assert(all == before.filter(keep).push(last));
        if 0 <= n < all.len() {
            if n < all.len() - 1 {
                let from = crate::files::filter_comes_from(before, keep, n, n);
                opened_are_of_the_list(front, from.0, 0);
                let p = choose|p: int| 0 <= p < front.len() && front[p] == before[from.0];
                assert(entries[p] == all[n]);
            } else {
                assert(entries[entries.len() - 1] == all[n]);
            }
        }
        if 0 <= k < entries.len() && forall|j: int|
            k < j < entries.len() ==> (#[trigger] entries[j]).name@ != entries[k].name@ {
            if k < front.len() {
                assert forall|j: int| k < j < front.len() implies (#[trigger] front[j]).name@
                    != front[k].name@ by {
                    assert(entries[j].name@ != entries[k].name@);
                }
                opened_are_of_the_list(front, 0, k);
                let p = choose|p: int| 0 <= p < before.len() && before[p] == front[k];
                assert(entries[entries.len() - 1].name@ != entries[k].name@);
                let a = crate::files::filter_keeps_each(before, keep, p);
                assert(all[a] == entries[k]);
            } else {
                assert(all[all.len() - 1] == entries[k]);
            }
        }
    }
}

} // verus!
