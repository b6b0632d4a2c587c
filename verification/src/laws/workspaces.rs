//! A new workspace starts where it was asked for, and a failed one leaves nothing.

use vstd::prelude::*;
use vstd::string::*;

#[allow(unused_imports)]
use crate::clones::{
    clone_step, clonefile_dir, forget_workspace_tx, register_step, rollback_step, CloneAction,
    CloneDir, ClonePhase, CloneReply, RegisterAction, RegisterClone, RegisterPhase, RegisterReply,
    Removal, Rollback, RollbackAction, RollbackPhase, RollbackReply,
};
#[allow(unused_imports)]
use crate::commits::Commit;
#[allow(unused_imports)]
use crate::engine::{entry_named, working_copy_of, RepoEngine, WorkspaceEntry};
#[allow(unused_imports)]
use crate::error::{EngineError, ErrorKind};
#[allow(unused_imports)]
use crate::ids::{hex_text, reverse_hex_text, CommitId};
#[allow(unused_imports)]
use crate::laws::{fails, passes_on, shows_start};
#[allow(unused_imports)]
use crate::lists::{first_where, first_where_is_there};
#[allow(unused_imports)]
use crate::ops::{ops_view, Op};
#[allow(unused_imports)]
use crate::paths::joined_path;
#[allow(unused_imports)]
use crate::proto::{NewWorkspaceRequest, RepoInfo, WorkspaceInfo};
#[allow(unused_imports)]
use crate::routes::{plan_request, ApiFailure, EngineCall, RepoRequest};
#[allow(unused_imports)]
use crate::text::{debug_text, texts};
#[allow(unused_imports)]
use crate::workspace_ops::{
    add_step, dest_refusal, is_add_run, name_refusal, without, AddAction, AddPhase, AddReply,
    AddWorkspace,
};

verus! {

/// A new workspace is started as it is asked for, and goes by its steps.
pub proof fn additions_go_by_steps(
    engine: &RepoEngine,
    name: String,
    dest: String,
    at_change: Option<String>,
    start: AddWorkspace,
    m: &mut AddWorkspace,
    reply: AddReply,
    action: AddAction,
)
    ensures
        call_requires(RepoEngine::add_workspace, (engine, name, dest, at_change)),
        call_ensures(RepoEngine::add_workspace, (engine, name, dest, at_change), start)
            ==> start.name == name && start.dest == dest && start.at_change == at_change
            && start.phase == AddPhase::Start && start.wf(),
        old(m).wf() ==> call_requires(AddWorkspace::step, (m, engine, reply)),
        call_ensures(AddWorkspace::step, (m, engine, reply), action) ==> final(m).wf() && add_step(
            *engine,
            *old(m),
            reply,
            *final(m),
            action,
        ),
{
}

/// The names that a new workspace may have: something that is one name by itself, and
/// that no open workspace and no workspace of the repo has.
pub proof fn new_names_are_free(engine: &RepoEngine, name: &str, r: Result<(), EngineError>)
    requires
        call_ensures(RepoEngine::validate_new_workspace_name, (engine, name), r),
    ensures
        r is Ok <==> (name@.len() > 0 && name@ != "."@ && name@ != ".."@ && !name@.contains('/') && (
        forall|i: int|
            0 <= i < engine.workspaces@.len() ==> (#[trigger] engine.workspaces@[i]).name@ != name@)
            && (forall|i: int|
            0 <= i < engine.view.working_copies@.len() ==> (
            #[trigger] engine.view.working_copies@[i]).workspace@ != name@)),
        name@.len() == 0 ==> fails(r, ErrorKind::Invalid, "workspace name cannot be empty"@),
        name@.len() > 0 && (name@ == "."@ || name@ == ".."@ || name@.contains('/')) ==> fails(
            r,
            ErrorKind::Invalid,
            "invalid workspace name: "@ + debug_text(name@),
        ),
        r is Err && name@.len() > 0 && name@ != "."@ && name@ != ".."@ && !name@.contains('/')
            ==> fails(
            r,
            ErrorKind::Invalid,
            "workspace "@ + debug_text(name@) + " already exists"@,
        ),
{
    taken_is_taken(*engine, name@);
}

/// A name is taken.
pub open spec fn is_taken(engine: RepoEngine, name: Seq<char>) -> bool {
    ||| exists|i: int|
        0 <= i < engine.workspaces@.len() && (#[trigger] engine.workspaces@[i]).name@ == name
    ||| exists|i: int|
        0 <= i < engine.view.working_copies@.len() && (
        #[trigger] engine.view.working_copies@[i]).workspace@ == name
}

proof fn taken_is_taken(engine: RepoEngine, name: Seq<char>)
    ensures
        is_taken(engine, name) <==> engine.entry(name) is Some || first_where(
            engine.view.working_copies@,
            working_copy_of(name),
        ) is Some,
        is_taken(engine, name) <==> !((forall|i: int|
            0 <= i < engine.workspaces@.len() ==> (#[trigger] engine.workspaces@[i]).name@ != name)
            && (forall|i: int|
            0 <= i < engine.view.working_copies@.len() ==> (
            #[trigger] engine.view.working_copies@[i]).workspace@ != name)),
        first_where(engine.view.working_copies@, working_copy_of(name)) is Some <==> exists|i: int|
            0 <= i < engine.view.working_copies@.len() && (
            #[trigger] engine.view.working_copies@[i]).workspace@ == name,
{
    let (ws, wcs) = (engine.workspaces@, engine.view.working_copies@);
    let (p, q) = (entry_named(name), working_copy_of(name));
    first_where_is_there(ws, p);
    first_where_is_there(wcs, q);
    if engine.entry(name) is Some {
        let i = choose|i: int| 0 <= i < ws.len() && ws[i] == engine.entry(name)->0;
        assert(ws[i].name@ == name);
    } else {
        assert forall|i: int| 0 <= i < ws.len() implies (#[trigger] ws[i]).name@ != name by {
            assert(!p(ws[i]));
        }
    }
    if first_where(wcs, q) is Some {
        let i = choose|i: int| 0 <= i < wcs.len() && wcs[i] == first_where(wcs, q)->0;
        assert(wcs[i].workspace@ == name);
    } else {
        assert forall|i: int| 0 <= i < wcs.len() implies (#[trigger] wcs[i]).workspace@ != name by {
            assert(!q(wcs[i]));
        }
    }
}

/// The places that a new workspace may have: where nothing is, and neither in the root of
/// the repo nor around it.
pub proof fn new_places_are_free(
    engine: &RepoEngine,
    dest: &str,
    exists: bool,
    root: &str,
    inside: bool,
    around: bool,
    r: Result<(), EngineError>,
)
    requires
        root@ == engine.root@,
        call_ensures(crate::paths::lies_within, (dest, root), inside),
        call_ensures(crate::paths::lies_within, (root, dest), around),
        call_ensures(RepoEngine::validate_dest, (engine, dest, exists), r),
    ensures
        r is Ok <==> !exists && !inside && !around,
        exists ==> fails(r, ErrorKind::Invalid, "destination exists: "@ + dest@),
        !exists && r is Err ==> fails(
            r,
            ErrorKind::Invalid,
            "destination "@ + dest@ + " must not nest with the repo root "@ + engine.root@,
        ),
{
}

/// The clone is made of the files of the default workspace, at the place that was asked
/// for, and registered there under the name that was asked for, on top of the commit
/// that was found for the change that was asked for; where none was, of the first parent
/// of the working-copy commit of the default workspace.
pub proof fn workspaces_start_where_asked(
    engines: Seq<RepoEngine>,
    states: Seq<AddWorkspace>,
    replies: Seq<AddReply>,
    actions: Seq<AddAction>,
    i: int,
)
    requires
        is_add_run(engines, states, replies, actions),
        0 <= i < actions.len(),
    ensures
        actions[i] matches AddAction::LookFor(path) ==> i == 0 && path@ == states[0].dest@,
        actions[i] matches AddAction::FindChange(p) ==> i == 1 && (
        states[0].at_change matches Some(asked) && asked@ == p@),
        actions[i] matches AddAction::FindWorkingCopy(ws) ==> i == 1 && ws@ == "default"@
            && states[0].at_change is None,
        actions[i] matches AddAction::Read(id) ==> i == 2 && actions[1] is FindWorkingCopy && (
        replies[2] matches AddReply::Found(r) && (r matches Ok(wc) && wc.parents@.len() > 0 && id@
            == wc.parents@[0]@)),
        actions[i] matches AddAction::Clone { src, dest } ==> src@ == engines[i].root@ && dest@
            == states[0].dest@,
        actions[i] matches AddAction::Register { name, dest, parent } ==> i > 1 && name@
            == states[0].name@ && dest@ == states[0].dest@ && actions[i - 1] is Clone && (
        replies[i - 1] matches AddReply::Found(r) && (r matches Ok(c) && parent@ == c.id@)) && (
        match states[0].at_change {
            Some(asked) => i == 3 && (actions[1] matches AddAction::FindChange(p) && p@ == asked@),
            None => i == 4 && actions[1] is FindWorkingCopy && actions[2] is Read,
        }),
        actions[i] matches AddAction::RollBack { name, dest, error } ==> i > 0 && name@
            == states[0].name@ && dest@ == states[0].dest@ && actions[i - 1] is Register
            && replies[i] == AddReply::Registered(Err(error)),
        actions[i] matches AddAction::Finish(Ok(info)) ==> i > 0 && actions[i - 1] is Register
            && replies[i] == AddReply::Registered(Ok(info)),
{
    add_run_phases(engines, states, replies, actions, i);
    assert(add_step(engines[i], states[i], replies[i], states[i + 1], actions[i]));
}

/// A request for a workspace at a change comes to a workspace at that change: what is
/// registered is a child of the commit that was found for the change of the request.
pub proof fn requested_changes_are_built_on(
    info: &RepoInfo,
    request: NewWorkspaceRequest,
    plan: Result<Vec<EngineCall>, ApiFailure>,
    engine: &RepoEngine,
    engines: Seq<RepoEngine>,
    states: Seq<AddWorkspace>,
    replies: Seq<AddReply>,
    actions: Seq<AddAction>,
    i: int,
)
    requires
        call_ensures(plan_request, (info, RepoRequest::NewWorkspace(request)), plan),
        plan is Ok,
        is_add_run(engines, states, replies, actions),
        plan->Ok_0@[0] matches EngineCall::AddWorkspace { name, dest, at_change } && call_ensures(
            RepoEngine::add_workspace,
            (engine, name, dest, at_change),
            states[0],
        ),
        request.at_change is Some,
        0 <= i < actions.len(),
        actions[i] is Register,
    ensures
        i == 3,
        actions[1] matches AddAction::FindChange(p) && p@ == request.at_change->0@,
        replies[2] matches AddReply::Found(r) && (r matches Ok(c) && actions[3]->parent@ == c.id@),
        actions[3]->Register_name@ == request.name@,
{
    workspaces_start_where_asked(engines, states, replies, actions, i);
}

/// Adding a workspace, action by action.
pub proof fn add_run_in_full(
    engines: Seq<RepoEngine>,
    states: Seq<AddWorkspace>,
    replies: Seq<AddReply>,
    actions: Seq<AddAction>,
    i: int,
)
    requires
        is_add_run(engines, states, replies, actions),
        0 <= i < actions.len(),
    ensures
        i == 0 ==> match name_refusal(engines[0], states[0].name@) {
            Some(said) => actions[0] matches AddAction::Finish(r) && fails(
                r,
                ErrorKind::Invalid,
                said,
            ),
            None => actions[0] is LookFor,
        },
        i == 1 && replies[1] is Exists ==> match dest_refusal(
            engines[1].root@,
            states[0].dest@,
            replies[1]->Exists_0,
        ) {
            Some(said) => actions[1] matches AddAction::Finish(r) && fails(
                r,
                ErrorKind::Invalid,
                said,
            ),
            None => if states[0].at_change is Some {
                actions[1] is FindChange
            } else {
                actions[1] is FindWorkingCopy
            },
        },
        i == 2 && actions[1] is FindChange ==> match replies[2]->Found_0 {
            Ok(_) => actions[2] is Clone,
            Err(e) => actions[2] matches AddAction::Finish(r) && passes_on(r, e),
        },
        i == 2 && actions[1] is FindWorkingCopy ==> match replies[2]->Found_0 {
            Ok(c) => if c.parents@.len() == 0 {
                actions[2] matches AddAction::Finish(r) && fails(
                    r,
                    ErrorKind::Internal,
                    "working-copy commit "@ + hex_text(c.id@) + " has no parents"@,
                )
            } else {
                actions[2] is Read
            },
            Err(e) => actions[2] matches AddAction::Finish(r) && passes_on(r, e),
        },
        i == 3 && actions[2] is Read ==> match replies[3]->Found_0 {
            Ok(_) => actions[3] is Clone,
            Err(e) => actions[3] matches AddAction::Finish(r) && passes_on(r, e),
        },
        i > 0 && actions[i - 1] is Clone ==> match replies[i]->Cloned_0 {
            Ok(_) => actions[i] is Register,
            Err(e) => actions[i] matches AddAction::Finish(r) && passes_on(r, e),
        },
        i > 0 && actions[i - 1] is Register ==> match replies[i]->Registered_0 {
            Ok(info) => actions[i] matches AddAction::Finish(r) && r == Ok::<
                WorkspaceInfo,
                EngineError,
            >(info),
            Err(e) => actions[i] is RollBack,
        },
        i > 0 && actions[i - 1] is RollBack ==> (actions[i] matches AddAction::Finish(r)
            && passes_on(r, replies[i]->RolledBack_0)),
{
    add_run_phases(engines, states, replies, actions, i);
    assert(crate::workspace_ops::add_expects(states[i].phase, replies[i]));
    assert(add_step(engines[i], states[i], replies[i], states[i + 1], actions[i]));
}

proof fn add_run_phases(
    engines: Seq<RepoEngine>,
    states: Seq<AddWorkspace>,
    replies: Seq<AddReply>,
    actions: Seq<AddAction>,
    i: int,
)
    requires
        is_add_run(engines, states, replies, actions),
        0 <= i < states.len(),
    ensures
        states[i].name == states[0].name,
        states[i].dest == states[0].dest,
        states[i].at_change == states[0].at_change,
        states[i].phase == AddPhase::Start <==> i == 0,
        states[i].phase == AddPhase::LookAtDest <==> i == 1 && actions[0] is LookFor,
        states[i].phase == AddPhase::Finding <==> i == 2 && actions[1] is FindChange,
        states[i].phase == AddPhase::FindingDefault <==> i == 2 && actions[1] is FindWorkingCopy,
        states[i].phase == AddPhase::ReadingParent <==> i == 3 && actions[2] is Read,
        states[i].phase == AddPhase::Cloning <==> i > 0 && actions[i - 1] is Clone,
        states[i].phase == AddPhase::Registering <==> i > 0 && actions[i - 1] is Register,
        states[i].phase == AddPhase::RollingBack <==> i > 0 && actions[i - 1] is RollBack,
        states[i].phase == AddPhase::Finding ==> (actions[1] matches AddAction::FindChange(p)
            && states[0].at_change is Some && p@ == states[0].at_change->0@),
        states[i].phase == AddPhase::FindingDefault ==> states[0].at_change is None,
        states[i].phase == AddPhase::ReadingParent ==> states[0].at_change is None
            && actions[1] is FindWorkingCopy,
        states[i].phase == AddPhase::Cloning ==> (states[i].parent matches Some(parent) && (
        replies[i - 1] matches AddReply::Found(r) && (r matches Ok(c) && parent@ == c.id@))) && (
        match states[0].at_change {
            Some(asked) => i == 3 && (actions[1] matches AddAction::FindChange(p) && p@ == asked@),
            None => i == 4 && actions[1] is FindWorkingCopy && actions[2] is Read,
        }),
    decreases i,
{
    if i > 0 {
        add_run_phases(engines, states, replies, actions, i - 1);
        assert(crate::workspace_ops::add_expects(states[i - 1].phase, replies[i - 1]));
        assert(add_step(
            engines[i - 1],
            states[i - 1],
            replies[i - 1],
            states[i],
            actions[i - 1],
        ));
    }
}

/// A clone from its start on.
pub open spec fn is_clone_run(
    states: Seq<CloneDir>,
    replies: Seq<CloneReply>,
    actions: Seq<CloneAction>,
) -> bool {
    &&& states.len() == replies.len() + 1
    &&& actions.len() == replies.len()
    &&& states[0].phase == ClonePhase::Start
    &&& forall|i: int|
        0 <= i < replies.len() ==> clone_step(
            states[i],
            #[trigger] replies[i],
            states[i + 1],
            actions[i],
        )
}

/// A clone is started for the two places that are named, and goes by its steps.
pub proof fn clones_go_by_steps(
    src: String,
    dest: String,
    start: CloneDir,
    m: &mut CloneDir,
    reply: CloneReply,
    action: CloneAction,
)
    ensures
        call_requires(clonefile_dir, (src, dest)),
        call_ensures(clonefile_dir, (src, dest), start) ==> start.src == src && start.dest == dest
            && start.phase == ClonePhase::Start && start.wf(),
        old(m).wf() ==> call_requires(CloneDir::step, (m, reply)),
        call_ensures(CloneDir::step, (m, reply), action) ==> final(m).wf() && clone_step(
            *old(m),
            reply,
            *final(m),
            action,
        ),
{
}

/// A clone copies the one place to the other, once, and removes nothing but the copied
/// `.jj`, or, where it fails, what it copied. It never touches the source.
pub proof fn clones_copy_and_clean_up(
    states: Seq<CloneDir>,
    replies: Seq<CloneReply>,
    actions: Seq<CloneAction>,
    i: int,
)
    requires
        is_clone_run(states, replies, actions),
        0 <= i < actions.len(),
    ensures
        actions[i] matches CloneAction::Copy(args) ==> i == 0 && args@.len() == 3 && args@[0]@
            == "-Rc"@ && args@[1]@ == states[0].src@ && args@[2]@ == states[0].dest@,
        actions[i] matches CloneAction::LookFor(path) ==> i == 1 && path@ == joined_path(
            states[0].dest@,
            ".jj"@,
        ) && replies[1] == CloneReply::Copied(Ok(true)),
        actions[i] matches CloneAction::Remove(path) ==> {
            ||| i == 2 && path@ == joined_path(states[0].dest@, ".jj"@) && replies[2]
                == CloneReply::Exists(true)
            ||| path@ == states[0].dest@ && (i == 1 && replies[1] is Copied && replies[1]
                != CloneReply::Copied(Ok(true)) || i == 3 && (
            replies[3] matches CloneReply::Removal(r) && !(r is Removed)))
        },
        actions[i] matches CloneAction::Finish(Ok(_)) ==> replies[1] == CloneReply::Copied(Ok(true))
            && (i == 2 && replies[2] == CloneReply::Exists(false) || i == 3 && replies[2]
            == CloneReply::Exists(true) && replies[3] == CloneReply::Removal(Removal::Removed)),
{
    clone_run_phases(states, replies, actions, i);
    assert(clone_step(states[i], replies[i], states[i + 1], actions[i]));
    if actions[i] is Copy {
        let args = actions[i]->Copy_0@;
        assert(texts(args).len() == args.len());
        assert(forall|k: int| 0 <= k < args.len() ==> (#[trigger] args[k])@ == texts(args)[k]);
    }
}

/// A clone, action by action.
pub proof fn clone_run_in_full(
    states: Seq<CloneDir>,
    replies: Seq<CloneReply>,
    actions: Seq<CloneAction>,
    i: int,
)
    requires
        is_clone_run(states, replies, actions),
        0 <= i < actions.len(),
    ensures
        i == 0 && replies[0] is Begin ==> actions[0] is Copy,
        i == 1 && actions[0] is Copy && replies[1] is Copied ==> match replies[1]->Copied_0 {
            Ok(true) => actions[1] is LookFor,
            _ => actions[1] is Remove,
        },
        i == 2 && actions[1] is LookFor && replies[2] is Exists ==> if replies[2]->Exists_0 {
            actions[2] is Remove
        } else {
            actions[2] matches CloneAction::Finish(r) && r is Ok
        },
        i == 3 && actions[1] is LookFor && actions[2] is Remove && replies[3] is Removal
            ==> if replies[3]->Removal_0 is Removed {
            actions[3] matches CloneAction::Finish(r) && r is Ok
        } else {
            actions[3] is Remove
        },
        i == 2 && actions[1] is Remove && replies[2] is Removal ==> (
        actions[2] matches CloneAction::Finish(r) && match (replies[1]->Copied_0, replies[2]->Removal_0) {
            (Err(e), Removal::Failed(said)) => fails(
                r,
                e@.0,
                "cleanup of partial clone "@ + states[0].dest@ + " also failed: "@ + said@ + ": "@
                    + e@.1,
            ),
            (Err(e), _) => passes_on(r, e),
            (Ok(_), Removal::Failed(said)) => fails(
                r,
                ErrorKind::Internal,
                "cleanup of partial clone "@ + states[0].dest@ + " also failed: "@ + said@ + ": "@
                    + ("cp -Rc "@ + states[0].src@ + " "@ + states[0].dest@
                    + " failed (clonefile needs src and dest on the same APFS volume)"@),
            ),
            (Ok(_), _) => fails(
                r,
                ErrorKind::Internal,
                "cp -Rc "@ + states[0].src@ + " "@ + states[0].dest@
                    + " failed (clonefile needs src and dest on the same APFS volume)"@,
            ),
        }),
        i == 4 && actions[1] is LookFor && actions[3] is Remove && replies[4] is Removal ==> (
        actions[4] matches CloneAction::Finish(r) && {
            let said = match replies[3]->Removal_0 {
                Removal::Missing(s) => s@,
                Removal::Failed(s) => s@,
                Removal::Removed => Seq::empty(),
            };
            match replies[4]->Removal_0 {
                Removal::Failed(more) => fails(
                    r,
                    ErrorKind::Internal,
                    "cleanup of partial clone "@ + states[0].dest@ + " also failed: "@ + more@
                        + ": "@ + said,
                ),
                _ => fails(r, ErrorKind::Internal, said),
            }
        }),
{
    clone_run_phases(states, replies, actions, i);
    if i > 0 {
        clone_run_phases(states, replies, actions, i - 1);
    }
    assert(clone_step(states[i], replies[i], states[i + 1], actions[i]));
}

proof fn clone_run_phases(
    states: Seq<CloneDir>,
    replies: Seq<CloneReply>,
    actions: Seq<CloneAction>,
    i: int,
)
    requires
        is_clone_run(states, replies, actions),
        0 <= i < states.len(),
    ensures
        states[i].src == states[0].src,
        states[i].dest == states[0].dest,
        states[i].phase == ClonePhase::Start <==> i == 0,
        states[i].phase == ClonePhase::Copying <==> i == 1 && actions[0] is Copy,
        states[i].phase == ClonePhase::LookForJj <==> i == 2 && actions[1] is LookFor,
        states[i].phase == ClonePhase::LookForJj ==> replies[1] == CloneReply::Copied(Ok(true)),
        states[i].phase == ClonePhase::RemovingJj <==> i == 3 && actions[1] is LookFor
            && actions[2] is Remove,
        states[i].phase == ClonePhase::RemovingJj ==> replies[1] == CloneReply::Copied(Ok(true))
            && replies[2] == CloneReply::Exists(true),
        states[i].phase == ClonePhase::CleaningUp <==> (i == 2 && actions[1] is Remove || i == 4
            && actions[1] is LookFor && actions[3] is Remove),
        states[i].phase == ClonePhase::CleaningUp ==> states[i].failure is Some,
        i == 2 && actions[1] is Remove ==> replies[1] is Copied && (match replies[1]->Copied_0 {
            Err(e) => states[2].failure->0@ == e@,
            Ok(ok) => !ok && states[2].failure->0@ == (
                ErrorKind::Internal,
                "cp -Rc "@ + states[0].src@ + " "@ + states[0].dest@
                    + " failed (clonefile needs src and dest on the same APFS volume)"@,
            ),
        }),
        i == 4 && actions[1] is LookFor && actions[3] is Remove ==> replies[3] is Removal && (
        match replies[3]->Removal_0 {
            Removal::Missing(said) => states[4].failure->0@ == (ErrorKind::Internal, said@),
            Removal::Failed(said) => states[4].failure->0@ == (ErrorKind::Internal, said@),
            Removal::Removed => false,
        }),
        i > 2 && actions[1] is Remove ==> states[i].phase == ClonePhase::Over,
        i > 4 ==> states[i].phase == ClonePhase::Over,
    decreases i,
{
    if i > 0 {
        clone_run_phases(states, replies, actions, i - 1);
        assert(clone_step(states[i - 1], replies[i - 1], states[i], actions[i - 1]));
    }
}

/// The registration of a clone from its start on, each action of which was answered:
/// `engines[i]` is the engine before step `i`.
pub open spec fn is_registration_run(
    engines: Seq<RepoEngine>,
    states: Seq<RegisterClone>,
    replies: Seq<RegisterReply>,
    actions: Seq<RegisterAction>,
) -> bool {
    &&& states.len() == replies.len() + 1
    &&& engines.len() == replies.len() + 1
    &&& actions.len() == replies.len()
    &&& states[0].phase == RegisterPhase::Start
    &&& forall|i: int|
        0 <= i < replies.len() ==> register_step(
            engines[i],
            states[i],
            #[trigger] replies[i],
            engines[i + 1],
            states[i + 1],
            actions[i],
        )
}

/// A registration is started as it is asked for, and goes by its steps.
pub proof fn registrations_go_by_steps(
    engine: &RepoEngine,
    name: String,
    dest: String,
    parent: CommitId,
    start: RegisterClone,
    m: &mut RegisterClone,
    changing: &mut RepoEngine,
    reply: RegisterReply,
    action: RegisterAction,
)
    ensures
        call_requires(RepoEngine::register_clone, (engine, name, dest, parent)),
        call_ensures(RepoEngine::register_clone, (engine, name, dest, parent), start) ==> start.name
            == name && start.dest == dest && start.parent == parent && start.phase
            == RegisterPhase::Start,
        call_requires(RegisterClone::step, (m, changing, reply)),
        call_ensures(RegisterClone::step, (m, changing, reply), action) ==> (old(changing).wf()
            ==> final(changing).wf()) && register_step(
            *old(changing),
            *old(m),
            reply,
            *final(changing),
            *final(m),
            action,
        ),
{
}

/// The operations are these, one after the other: the workspace gets a new commit on top
/// of the parent.
pub open spec fn creates(ops: Seq<Op>, name: Seq<char>, parent: Seq<u8>) -> bool {
    &&& ops.len() == 4
    &&& ops[0] is Begin
    &&& ops[1] matches Op::CheckOut { workspace, commit } && workspace@ == name && commit.bytes@
        == parent
    &&& ops[2] is Rebase
    &&& ops[3] matches Op::Commit(said) && said@ == "create workspace "@ + name
}

/// Everything that is done to register a clone is done to the workspace of its name at
/// its place, on top of its parent; the file that hides its `.jj` is written where it is
/// missing; and the answer shows the commit that was found for it.
pub proof fn registrations_are_of_their_clone(
    engines: Seq<RepoEngine>,
    states: Seq<RegisterClone>,
    replies: Seq<RegisterReply>,
    actions: Seq<RegisterAction>,
    i: int,
)
    requires
        is_registration_run(engines, states, replies, actions),
        0 <= i < actions.len(),
    ensures
        actions[i] matches RegisterAction::Init { name, dest } ==> i == 0 && name@ == states[0].name@
            && dest@ == states[0].dest@,
        actions[i] matches RegisterAction::LookFor(path) ==> i == 1 && path@ == joined_path(
            joined_path(states[0].dest@, ".jj"@),
            ".gitignore"@,
        ),
        actions[i] matches RegisterAction::Write { path, text } ==> i == 2 && path@ == joined_path(
            joined_path(states[0].dest@, ".jj"@),
            ".gitignore"@,
        ) && text@ == "/*\n"@ && replies[2] == RegisterReply::Exists(false),
        actions[i] matches RegisterAction::Run(ops) ==> (i == 2 && replies[2]
            == RegisterReply::Exists(true) || i == 3 && replies[2] == RegisterReply::Exists(false))
            && creates(ops@, states[0].name@, states[0].parent@),
        actions[i] matches RegisterAction::SyncWorkingCopy(ws) ==> i > 0 && ws@ == states[0].name@
            && actions[i - 1] is Run,
        actions[i] matches RegisterAction::Snapshot(ws) ==> i > 0 && ws@ == states[0].name@
            && actions[i - 1] is SyncWorkingCopy,
        actions[i] matches RegisterAction::FindWorkingCopy(ws) ==> i > 0 && ws@ == states[0].name@
            && actions[i - 1] is Snapshot,
        actions[i] matches RegisterAction::Finish(Ok(info)) ==> i > 0
            && actions[i - 1] is FindWorkingCopy && (replies[i] matches RegisterReply::Found(r) && (
        r matches Ok(c) && info.name@ == states[0].name@ && shows_start(
            info.change_id@,
            reverse_hex_text(c.change_id@),
        ) && shows_start(info.commit_id@, hex_text(c.id@)) && info.description@ == c.description@ && (
        engines[i].entry(states[0].name@) matches Some(e) && info.path@ == e.root@))),
{
    registration_phases(engines, states, replies, actions, i);
    assert(register_step(
        engines[i],
        states[i],
        replies[i],
        engines[i + 1],
        states[i + 1],
        actions[i],
    ));
    if actions[i] is Run {
        let ops = actions[i]->Run_0@;
        assert(ops_view(ops).len() == ops.len());
        assert(forall|k: int| 0 <= k < ops.len() ==> (#[trigger] ops[k])@ == ops_view(ops)[k]);
    }
}

/// The registration of a clone, action by action: the workspace is open once it is set
/// up, under its name and at the place that was said, and no other step opens or closes
/// one.
pub proof fn registration_run_in_full(
    engines: Seq<RepoEngine>,
    states: Seq<RegisterClone>,
    replies: Seq<RegisterReply>,
    actions: Seq<RegisterAction>,
    i: int,
)
    requires
        is_registration_run(engines, states, replies, actions),
        0 <= i < actions.len(),
    ensures
        engines[i + 1].root == engines[i].root,
        engines[i + 1].view == engines[i].view,
        !(i == 1 && actions[0] is Init && replies[1] is Initialized && replies[1]->Initialized_0 is Ok)
            ==> engines[i + 1] == engines[i],
        i == 1 && actions[0] is Init && replies[1] is Initialized && replies[1]->Initialized_0 is Ok
            ==> engines[2].workspaces@.len() > 0 && engines[2].workspaces@.last().name@
            == states[0].name@ && engines[2].workspaces@.last().jj_name@ == states[0].name@
            && engines[2].workspaces@.last().root@ == replies[1]->Initialized_0->Ok_0@
            && engines[2].workspaces@.drop_last() == without(engines[1].workspaces@, states[0].name@),
        i == 0 && replies[0] is Begin ==> actions[0] is Init,
        i == 1 && actions[0] is Init && replies[1] is Initialized ==> match replies[1]->Initialized_0 {
            Ok(_) => actions[1] is LookFor,
            Err(e) => actions[1] matches RegisterAction::Finish(r) && passes_on(r, e),
        },
        i == 2 && actions[1] is LookFor && replies[2] is Exists ==> if replies[2]->Exists_0 {
            actions[2] is Run
        } else {
            actions[2] is Write
        },
        i > 0 && actions[i - 1] is Write && replies[i] is Done ==> match replies[i]->Done_0 {
            Ok(_) => actions[i] is Run,
            Err(e) => actions[i] matches RegisterAction::Finish(r) && passes_on(r, e),
        },
        i > 0 && actions[i - 1] is Run && replies[i] is Done ==> match replies[i]->Done_0 {
            Ok(_) => actions[i] is SyncWorkingCopy,
            Err(e) => actions[i] matches RegisterAction::Finish(r) && passes_on(r, e),
        },
        i > 0 && actions[i - 1] is SyncWorkingCopy && replies[i] is Done ==> match replies[i]->Done_0 {
            Ok(_) => actions[i] is Snapshot,
            Err(e) => actions[i] matches RegisterAction::Finish(r) && passes_on(r, e),
        },
        i > 0 && actions[i - 1] is Snapshot && replies[i] is Snapshotted
            ==> match replies[i]->Snapshotted_0 {
            Ok(_) => actions[i] is FindWorkingCopy,
            Err(e) => actions[i] matches RegisterAction::Finish(r) && passes_on(r, e),
        },
        i > 0 && actions[i - 1] is FindWorkingCopy && replies[i] is Found ==> match replies[i]->Found_0 {
            Ok(_) => actions[i] matches RegisterAction::Finish(r) && if engines[i].entry(
                states[0].name@,
            ) is Some {
                r is Ok
            } else {
                fails(r, ErrorKind::NotFound, "no workspace "@ + states[0].name@)
            },
            Err(e) => actions[i] matches RegisterAction::Finish(r) && passes_on(r, e),
        },
{
    registration_phases(engines, states, replies, actions, i);
    assert(register_step(
        engines[i],
        states[i],
        replies[i],
        engines[i + 1],
        states[i + 1],
        actions[i],
    ));
}

proof fn registration_phases(
    engines: Seq<RepoEngine>,
    states: Seq<RegisterClone>,
    replies: Seq<RegisterReply>,
    actions: Seq<RegisterAction>,
    i: int,
)
    requires
        is_registration_run(engines, states, replies, actions),
        0 <= i < states.len(),
    ensures
        states[i].name == states[0].name,
        states[i].dest == states[0].dest,
        states[i].parent == states[0].parent,
        states[i].phase == RegisterPhase::Start <==> i == 0,
        states[i].phase == RegisterPhase::Initializing <==> i == 1 && actions[0] is Init,
        states[i].phase == RegisterPhase::LookForIgnore <==> i == 2 && actions[1] is LookFor,
        states[i].phase == RegisterPhase::WritingIgnore <==> i > 0 && actions[i - 1] is Write,
        states[i].phase == RegisterPhase::WritingIgnore ==> i == 3 && replies[2]
            == RegisterReply::Exists(false),
        states[i].phase == RegisterPhase::CheckingOut <==> i > 0 && actions[i - 1] is Run,
        states[i].phase == RegisterPhase::Syncing <==> i > 0 && actions[i - 1] is SyncWorkingCopy,
        states[i].phase == RegisterPhase::Snapshotting <==> i > 0 && actions[i - 1] is Snapshot,
        states[i].phase == RegisterPhase::Finding <==> i > 0 && actions[i - 1] is FindWorkingCopy,
    decreases i,
{
    if i > 0 {
        registration_phases(engines, states, replies, actions, i - 1);
        assert(register_step(
            engines[i - 1],
            states[i - 1],
            replies[i - 1],
            engines[i],
            states[i],
            actions[i - 1],
        ));
    }
}

/// A rollback from its start on; `engines[i]` is the engine before step `i`.
pub open spec fn is_rollback_run(
    engines: Seq<RepoEngine>,
    states: Seq<Rollback>,
    replies: Seq<RollbackReply>,
    actions: Seq<RollbackAction>,
) -> bool {
    &&& states.len() == replies.len() + 1
    &&& engines.len() == replies.len() + 1
    &&& actions.len() == replies.len()
    &&& states[0].phase == RollbackPhase::Start
    &&& forall|i: int|
        0 <= i < replies.len() ==> rollback_step(
            engines[i],
            states[i],
            #[trigger] replies[i],
            engines[i + 1],
            states[i + 1],
            actions[i],
        )
}

/// A rollback is started for what failed, and goes by its steps.
pub proof fn rollbacks_go_by_steps(
    engine: &RepoEngine,
    name: String,
    dest: String,
    failure: EngineError,
    start: Rollback,
    m: &mut Rollback,
    changing: &mut RepoEngine,
    reply: RollbackReply,
    action: RollbackAction,
)
    ensures
        call_requires(RepoEngine::rollback_failed_workspace, (engine, name, dest, failure)),
        call_ensures(
            RepoEngine::rollback_failed_workspace,
            (engine, name, dest, failure),
            start,
        ) ==> start.name == name && start.dest == dest && start.failure == failure && start.phase
            == RollbackPhase::Start,
        call_requires(Rollback::step, (m, changing, reply)),
        call_ensures(Rollback::step, (m, changing, reply), action) ==> (old(changing).wf()
            ==> final(changing).wf()) && rollback_step(
            *old(changing),
            *old(m),
            reply,
            *final(changing),
            *final(m),
            action,
        ),
{
}

/// The operations are these, one after the other: the repo forgets the workspace.
pub open spec fn forgets(ops: Seq<Op>, name: Seq<char>) -> bool {
    &&& ops.len() == 5
    &&& ops[0] is Begin
    &&& ops[1] matches Op::RemoveWorkingCopy { workspace } && workspace@ == name
    &&& ops[2] is Rebase
    &&& ops[3] matches Op::Commit(said) && said@ == "forget workspace "@ + name
    &&& ops[4] matches Op::ForgetInStore { workspace } && workspace@ == name
}

/// A workspace is forgotten in the view of the repo and in its store.
pub proof fn forgotten_workspaces_are_forgotten_whole(name: &str, ops: Vec<Op>)
    requires
        call_ensures(forget_workspace_tx, (name,), ops),
    ensures
        forgets(ops@, name@),
{
    assert(ops_view(ops@).len() == ops@.len());
    assert(forall|k: int| 0 <= k < ops@.len() ==> (#[trigger] ops@[k])@ == ops_view(ops@)[k]);
}

/// A rollback takes back the workspace of its name and nothing else: it is dropped from
/// the open ones, its place is removed where there is anything, and the repo forgets it
/// where it knows it. What is reported is of the kind of the failure, and ends with it.
pub proof fn rollbacks_are_of_their_workspace(
    engines: Seq<RepoEngine>,
    states: Seq<Rollback>,
    replies: Seq<RollbackReply>,
    actions: Seq<RollbackAction>,
    i: int,
)
    requires
        is_rollback_run(engines, states, replies, actions),
        0 <= i < actions.len(),
        replies[0] is Begin,
    ensures
        engines[1].workspaces@ == without(engines[0].workspaces@, states[0].name@),
        i > 0 ==> engines[i + 1] == engines[i],
        engines[i + 1].root == engines[0].root,
        engines[i + 1].view == engines[0].view,
        i == 0 ==> (actions[0] matches RollbackAction::LookFor(path) && path@ == states[0].dest@),
        i == 1 && replies[1] == RollbackReply::Exists(true) ==> (
        actions[1] matches RollbackAction::Remove(path) && path@ == states[0].dest@),
        i == 1 && replies[1] == RollbackReply::Exists(false) || i == 2 && actions[1] is Remove && (
        replies[2] matches RollbackReply::Removed(r) && r is Ok) ==> if exists|k: int|
            0 <= k < engines[0].view.working_copies@.len() && (
            #[trigger] engines[0].view.working_copies@[k]).workspace@ == states[0].name@ {
            actions[i] matches RollbackAction::Run(ops) && forgets(ops@, states[0].name@)
        } else {
            actions[i] matches RollbackAction::Finish(e) && e@ == states[0].failure@
        },
        i == 2 && actions[1] is Remove && (replies[2] matches RollbackReply::Removed(r) && r is Err)
            ==> (actions[2] matches RollbackAction::Finish(e) && e@ == (
            states[0].failure@.0,
            "rollback also failed: could not remove clone "@ + states[0].dest@ + ": "@
                + replies[2]->Removed_0->Err_0@ + ": "@ + states[0].failure@.1,
        )),
        i > 0 && actions[i - 1] is Run && replies[i] is Ran ==> (
        actions[i] matches RollbackAction::Finish(e) && match replies[i]->Ran_0 {
            Ok(_) => e@ == states[0].failure@,
            Err(more) => e@ == (
                states[0].failure@.0,
                "rollback also failed: could not forget half-registered workspace "@ + debug_text(
                    states[0].name@,
                ) + " (recover with `jj workspace forget "@ + states[0].name@ + "`): "@ + more@.1
                    + ": "@ + states[0].failure@.1,
            ),
        }),
        actions[i] matches RollbackAction::Remove(path) ==> path@ == states[0].dest@,
        actions[i] matches RollbackAction::Run(ops) ==> forgets(ops@, states[0].name@),
{
    rollback_phases(engines, states, replies, actions, i);
    rollback_phases(engines, states, replies, actions, 0);
    assert(rollback_step(engines[0], states[0], replies[0], engines[1], states[1], actions[0]));
    assert(rollback_step(
        engines[i],
        states[i],
        replies[i],
        engines[i + 1],
        states[i + 1],
        actions[i],
    ));
    taken_is_taken(engines[i], states[0].name@);
    assert(engines[i].view == engines[0].view);
    if actions[i] is Run {
        let ops = actions[i]->Run_0@;
        assert(ops_view(ops).len() == ops.len());
        assert(forall|k: int| 0 <= k < ops.len() ==> (#[trigger] ops[k])@ == ops_view(ops)[k]);
    }
}

proof fn rollback_phases(
    engines: Seq<RepoEngine>,
    states: Seq<Rollback>,
    replies: Seq<RollbackReply>,
    actions: Seq<RollbackAction>,
    i: int,
)
    requires
        is_rollback_run(engines, states, replies, actions),
        0 <= i < states.len(),
    ensures
        states[i].name == states[0].name,
        states[i].dest == states[0].dest,
        engines[i].root == engines[0].root,
        engines[i].view == engines[0].view,
        states[i].phase == RollbackPhase::Start <==> i == 0,
        states[i].phase == RollbackPhase::LookAtDest <==> i == 1 && actions[0] is LookFor,
        states[i].phase == RollbackPhase::Removing <==> i == 2 && actions[1] is Remove,
        states[i].phase == RollbackPhase::Forgetting <==> i > 0 && actions[i - 1] is Run,
        states[i].phase != RollbackPhase::Over ==> states[i].failure == states[0].failure,
    decreases i,
{
    if i > 0 {
        rollback_phases(engines, states, replies, actions, i - 1);
        assert(rollback_step(
            engines[i - 1],
            states[i - 1],
            replies[i - 1],
            engines[i],
            states[i],
            actions[i - 1],
        ));
    }
}

/// A workspace that is dropped is gone, and the others stay as they were; one that is
/// opened comes last, in place of the one of its name.
pub proof fn workspaces_come_and_go_by_name(
    engine: &mut RepoEngine,
    name: &str,
    entry: WorkspaceEntry,
    k: int,
) -> (j: int)
    requires
        0 <= k < old(engine).workspaces@.len(),
    ensures
        call_ensures(RepoEngine::remove_workspace, (engine, name), ()) ==> {
            &&& final(engine).root == old(engine).root
            &&& final(engine).view == old(engine).view
            &&& forall|i: int|
                0 <= i < final(engine).workspaces@.len() ==> (
                #[trigger] final(engine).workspaces@[i]).name@ != name@
                    && old(engine).workspaces@.contains(final(engine).workspaces@[i])
            &&& old(engine).workspaces@[k].name@ != name@ ==> 0 <= j
                < final(engine).workspaces@.len() && final(engine).workspaces@[j]
                == old(engine).workspaces@[k]
        },
        call_ensures(RepoEngine::insert_workspace, (engine, entry), ()) && name@ == entry.name@ ==> {
            &&& final(engine).root == old(engine).root
            &&& final(engine).view == old(engine).view
            &&& final(engine).workspaces@.len() > 0
            &&& final(engine).workspaces@.last() == entry
            &&& forall|i: int|
                0 <= i < final(engine).workspaces@.len() - 1 ==> (
                #[trigger] final(engine).workspaces@[i]).name@ != name@
            &&& old(engine).workspaces@[k].name@ != name@ ==> 0 <= j
                < final(engine).workspaces@.len() - 1 && final(engine).workspaces@[j]
                == old(engine).workspaces@[k]
        },
{
    let keep = |e: WorkspaceEntry| e.name@ != name@;
    let before = old(engine).workspaces@;
    let kept = before.filter(keep);
    assert forall|i: int| 0 <= i < kept.len() implies (#[trigger] kept[i]).name@ != name@
        && before.contains(kept[i]) by {
        let r = crate::files::filter_comes_from(before, keep, i, i);
        assert(before[r.0] == kept[i]);
    }
    if old(engine).workspaces@[k].name@ != name@ {
        crate::files::filter_keeps_each(before, keep, k)
    } else {
        0
    }
}

} // verus!
