//! A push sends the commit that was asked for, and no other.

use vstd::prelude::*;
use vstd::string::*;

#[allow(unused_imports)]
use crate::commits::Commit;
#[allow(unused_imports)]
use crate::engine::RepoEngine;
#[allow(unused_imports)]
use crate::error::{EngineError, ErrorKind};
#[allow(unused_imports)]
use crate::git::{git_result, lists_ref};
#[allow(unused_imports)]
use crate::ids::hex_text;
#[allow(unused_imports)]
use crate::laws::{fails, first_has_an_index, passes_on, shows_start};
#[allow(unused_imports)]
use crate::lists::first_where_is_there;
#[allow(unused_imports)]
use crate::proto::PushRequest;
#[allow(unused_imports)]
use crate::push::{
    bad_name, commit_allows, failed_export, has_target, is_push_run, push_step, validate_name, Push,
    PushAction, PushPhase, PushReply,
};
#[allow(unused_imports)]
use crate::text::{blank, debug_text, head, texts, white_space};

verus! {

/// A push is started for the request that is made of it, and goes by its steps.
pub proof fn pushes_go_by_steps(
    engine: &RepoEngine,
    ws: String,
    request: PushRequest,
    start: Push,
    m: &mut Push,
    reply: PushReply,
    action: PushAction,
)
    ensures
        call_requires(RepoEngine::push, (engine, ws, request)),
        call_ensures(RepoEngine::push, (engine, ws, request), start) ==> start.ws == ws
            && start.request == request && start.phase == PushPhase::Start && start.wf(),
        old(m).wf() ==> call_requires(Push::step, (m, reply)),
        call_ensures(Push::step, (m, reply), action) ==> final(m).wf() && push_step(
            *old(m),
            reply,
            *final(m),
            action,
        ),
{
}

/// The names of remotes and branches that are let through: something, without white
/// space, no option, no refspec and no pattern.
pub proof fn plain_names_pass(what: &str, value: &str, r: Result<(), EngineError>)
    requires
        call_ensures(validate_name, (what, value), r),
    ensures
        r is Ok <==> (value@.len() > 0 && value@[0] != '-' && forall|i: int|
            0 <= i < value@.len() ==> !white_space(#[trigger] value@[i]) && value@[i] != ':'
                && value@[i] != '*' && value@[i] != '?' && value@[i] != '['),
        r is Err ==> fails(
            r,
            ErrorKind::Invalid,
            "invalid "@ + what@ + " name: "@ + debug_text(value@),
        ),
{
    if r is Ok {
        assert forall|i: int| 0 <= i < value@.len() implies !white_space(#[trigger] value@[i])
            && value@[i] != ':' && value@[i] != '*' && value@[i] != '?' && value@[i] != '[' by {
            assert(!crate::push::refspec_char(value@[i]));
        }
    }
}

/// What is written to the bookmark, and so to the remote, is the commit that the last
/// lookup found, which may be pushed; and that commit is what the answer names.
pub proof fn pushed_is_what_was_found(
    states: Seq<Push>,
    replies: Seq<PushReply>,
    actions: Seq<PushAction>,
    i: int,
)
    requires
        is_push_run(states, replies, actions),
        0 <= i < actions.len(),
    ensures
        actions[i] matches PushAction::Export { bookmark, target } ==> i == 3 && bookmark@
            == states[0].request.bookmark@ && (replies[2] matches PushReply::Found(r) && r is Ok
            && commit_allows(replies[2], r->Ok_0) && target@ == r->Ok_0.id@) && (
        forall|k: int| 2 < k <= i ==> !(#[trigger] replies[k] is Found)),
        actions[i] matches PushAction::Finish(Ok(answer)) ==> i == 7 && answer.remote@
            == states[0].request.remote@ && answer.bookmark@ == states[0].request.bookmark@ && (
        actions[3] matches PushAction::Export { bookmark, target } && shows_start(
            answer.commit_id@,
            hex_text(target@),
        ) && bookmark@ == answer.bookmark@),
{
    push_run_in_full(states, replies, actions, i);
    if i >= 3 {
        push_run_in_full(states, replies, actions, 3);
        push_run_phases(states, replies, actions, i);
    }
    if i >= 7 {
        push_run_phases(states, replies, actions, 7);
        push_run_phases(states, replies, actions, 4);
    }
}

/// The commit that is looked up is that of the workspace, or the one that the request
/// names.
pub proof fn pushes_look_for_what_is_asked(
    states: Seq<Push>,
    replies: Seq<PushReply>,
    actions: Seq<PushAction>,
    i: int,
)
    requires
        is_push_run(states, replies, actions),
        0 <= i < actions.len(),
    ensures
        actions[i] matches PushAction::Snapshot(ws) ==> i == 0 && ws@ == states[0].ws@
            && states[0].request.change_id is None,
        actions[i] matches PushAction::FindWorkingCopy(ws) ==> ws@ == states[0].ws@ && i
            == if states[0].request.change_id is None {
            1
        } else {
            0int
        },
        actions[i] matches PushAction::FindChange(prefix) ==> i == 1 && (
        states[0].request.change_id matches Some(asked) && asked@ == prefix@),
        actions[i] matches PushAction::SyncWorkingCopy(ws) ==> i == 5 && ws@ == states[0].ws@,
{
    push_run_phases(states, replies, actions, i);
    assert(push_step(states[i], replies[i], states[i + 1], actions[i]));
}

/// The arguments ask the remote of the request for the branch of the request.
pub open spec fn asks_for(args: Seq<String>, request: PushRequest) -> bool {
    &&& args.len() == 4
    &&& args[0]@ == "ls-remote"@
    &&& args[1]@ == "--heads"@
    &&& args[2]@ == request.remote@
    &&& args[3]@ == "refs/heads/"@ + request.bookmark@
}

/// The arguments push the branch of the request to its remote, to a branch of that name.
pub open spec fn sends(args: Seq<String>, request: PushRequest) -> bool {
    &&& args.len() == 3
    &&& args[0]@ == "push"@
    &&& args[1]@ == request.remote@
    &&& args[2]@ == "refs/heads/"@ + request.bookmark@ + ":"@ + ("refs/heads/"@
        + request.bookmark@)
}

/// A push, action by action.
pub proof fn push_run_in_full(
    states: Seq<Push>,
    replies: Seq<PushReply>,
    actions: Seq<PushAction>,
    i: int,
)
    requires
        is_push_run(states, replies, actions),
        0 <= i < actions.len(),
    ensures
        i == 0 && replies[0] is Begin ==> if bad_name(states[0].request.remote@) {
            actions[0] matches PushAction::Finish(r) && fails(
                r,
                ErrorKind::Invalid,
                "invalid "@ + "remote"@ + " name: "@ + debug_text(states[0].request.remote@),
            )
        } else if bad_name(states[0].request.bookmark@) {
            actions[0] matches PushAction::Finish(r) && fails(
                r,
                ErrorKind::Invalid,
                "invalid "@ + "bookmark"@ + " name: "@ + debug_text(states[0].request.bookmark@),
            )
        } else if states[0].request.change_id is None {
            actions[0] matches PushAction::Snapshot(ws) && ws@ == states[0].ws@
        } else {
            actions[0] matches PushAction::FindWorkingCopy(ws) && ws@ == states[0].ws@
        },
        i == 1 && actions[0] is Snapshot && replies[1] is Snapshotted ==> match replies[1]->Snapshotted_0 {
            Ok(_) => actions[1] matches PushAction::FindWorkingCopy(ws) && ws@ == states[0].ws@,
            Err(e) => actions[1] matches PushAction::Finish(r) && passes_on(r, e),
        },
        i == 1 && actions[0] is FindWorkingCopy && replies[1] is Found ==> match replies[1]->Found_0 {
            Ok(_) => actions[1] matches PushAction::FindChange(prefix) && prefix@
                == states[0].request.change_id->0@,
            Err(e) => actions[1] matches PushAction::Finish(r) && passes_on(r, e),
        },
        i == 2 && (actions[1] is FindWorkingCopy || actions[1] is FindChange) && replies[2] is Found
            ==> match replies[2]->Found_0 {
            Ok(c) => if blank(c.description@) {
                actions[2] matches PushAction::Finish(r) && fails(
                    r,
                    ErrorKind::Guardrail,
                    "refusing to push "@ + head(hex_text(c.id@), 12)
                        + ": it has no description (run `dvr describe` first)"@,
                )
            } else if c.has_conflict {
                actions[2] matches PushAction::Finish(r) && fails(
                    r,
                    ErrorKind::Guardrail,
                    "refusing to push "@ + head(hex_text(c.id@), 12)
                        + ": it has unresolved conflicts"@,
                )
            } else {
                actions[2] matches PushAction::Git(args) && asks_for(args@, states[0].request)
            },
            Err(e) => actions[2] matches PushAction::Finish(r) && passes_on(r, e),
        },
        i == 3 && actions[2] is Git && replies[3] is Ran ==> match replies[3]->Ran_0 {
            Ok(out) => match git_result(texts(actions[2]->Git_0@), out) {
                Ok(printed) => if lists_ref(
                    printed,
                    "refs/heads/"@ + states[0].request.bookmark@,
                ) || states[0].request.create {
                    actions[3] matches PushAction::Export { bookmark, target } && bookmark@
                        == states[0].request.bookmark@ && target@ == replies[2]->Found_0->Ok_0.id@
                } else {
                    actions[3] matches PushAction::Finish(r) && fails(
                        r,
                        ErrorKind::Guardrail,
                        "refusing to push: branch "@ + debug_text(states[0].request.bookmark@)
                            + " does not exist on remote "@ + debug_text(states[0].request.remote@)
                            + " (pass create=true to create "@ + states[0].request.remote@ + "/"@
                            + states[0].request.bookmark@ + ")"@,
                    )
                },
                Err(e) => actions[3] matches PushAction::Finish(r) && fails(r, e.0, e.1),
            },
            Err(e) => actions[3] matches PushAction::Finish(r) && passes_on(r, e),
        },
        i == 4 && actions[3] is Export && replies[4] is Exported ==> match replies[4]->Exported_0 {
            Ok(failures) => if forall|k: int|
                0 <= k < failures@.len() ==> (#[trigger] failures@[k]).bookmark@
                    != states[0].request.bookmark@ {
                actions[4] matches PushAction::Commit(said) && said@ == "push "@ + head(
                    hex_text(replies[2]->Found_0->Ok_0.id@),
                    12,
                ) + " to "@ + states[0].request.remote@ + "/"@ + states[0].request.bookmark@
            } else {
                actions[4] matches PushAction::Finish(r) && exists|k: int|
                    0 <= k < failures@.len() && (#[trigger] failures@[k]).bookmark@
                        == states[0].request.bookmark@ && (forall|j: int|
                        0 <= j < k ==> (#[trigger] failures@[j]).bookmark@
                            != states[0].request.bookmark@) && fails(
                        r,
                        ErrorKind::Internal,
                        "failed to export bookmark "@ + failures@[k].symbol@ + " to git: "@
                            + failures@[k].reason@,
                    )
            },
            Err(e) => actions[4] matches PushAction::Finish(r) && passes_on(r, e),
        },
        i == 5 && actions[4] is Commit && replies[5] is Committed ==> match replies[5]->Committed_0 {
            Ok(_) => actions[5] matches PushAction::SyncWorkingCopy(ws) && ws@ == states[0].ws@,
            Err(e) => actions[5] matches PushAction::Finish(r) && passes_on(r, e),
        },
        i == 6 && actions[5] is SyncWorkingCopy && replies[6] is Synced ==> match replies[6]->Synced_0 {
            Ok(_) => actions[6] matches PushAction::Git(args) && sends(args@, states[0].request),
            Err(e) => actions[6] matches PushAction::Finish(r) && passes_on(r, e),
        },
        i == 7 && actions[6] is Git && replies[7] is Ran ==> match replies[7]->Ran_0 {
            Ok(out) => match git_result(texts(actions[6]->Git_0@), out) {
                Ok(_) => actions[7] matches PushAction::Finish(r) && (r matches Ok(answer)
                    && answer.remote@ == states[0].request.remote@ && answer.bookmark@
                    == states[0].request.bookmark@ && shows_start(
                    answer.commit_id@,
                    hex_text(replies[2]->Found_0->Ok_0.id@),
                )),
                Err(e) => actions[7] matches PushAction::Finish(r) && fails(r, e.0, e.1),
            },
            Err(e) => actions[7] matches PushAction::Finish(r) && passes_on(r, e),
        },
        actions[i] is Export ==> i == 3,
        actions[i] matches PushAction::Finish(r) ==> (r is Ok ==> i == 7),
{
    push_run_phases(states, replies, actions, i);
    assert(push_step(states[i], replies[i], states[i + 1], actions[i]));
    if i == 3 || i == 7 {
        push_run_phases(states, replies, actions, i - 1);
        assert(push_step(states[i - 1], replies[i - 1], states[i], actions[i - 1]));
    }
    if actions[i] is Git {
        let args = actions[i]->Git_0@;
        assert(texts(args).len() == args.len());
        assert(forall|k: int| 0 <= k < args.len() ==> (#[trigger] args[k])@ == texts(args)[k]);
    }
    if i == 4 && replies[4] is Exported && replies[4]->Exported_0 is Ok {
        let failures = replies[4]->Exported_0->Ok_0@;
        let p = failed_export(states[0].request.bookmark@);
        first_where_is_there(failures, p);
        match crate::lists::first_where(failures, p) {
            Some(f) => {
                let k = first_has_an_index(failures, p);
                assert(failures[k].bookmark@ == states[0].request.bookmark@);
                assert forall|j: int| 0 <= j < k implies (#[trigger] failures[j]).bookmark@
                    != states[0].request.bookmark@ by {
                    assert(!p(failures[j]));
                }
            },
            None => {
                assert forall|k: int| 0 <= k < failures.len() implies (
                #[trigger] failures[k]).bookmark@ != states[0].request.bookmark@ by {
                    assert(!p(failures[k]));
                }
            },
        }
    }
}

/// The phase tells how far a push is.
proof fn push_run_phases(
    states: Seq<Push>,
    replies: Seq<PushReply>,
    actions: Seq<PushAction>,
    i: int,
)
    requires
        is_push_run(states, replies, actions),
        0 <= i < states.len(),
    ensures
        states[i].ws == states[0].ws,
        states[i].request == states[0].request,
        states[i].phase == PushPhase::Start <==> i == 0,
        states[i].phase == PushPhase::Snapshot <==> i == 1 && actions[0] is Snapshot,
        states[i].phase == PushPhase::Snapshot ==> states[0].request.change_id is None,
        states[i].phase == PushPhase::WorkingCopy && i == 1 ==> states[0].request.change_id is Some,
        states[i].phase == PushPhase::WorkingCopy && i == 2 ==> states[0].request.change_id is None,
        states[i].phase == PushPhase::WorkingCopy <==> (i == 1 && actions[0] is FindWorkingCopy || i
            == 2 && actions[1] is FindWorkingCopy),
        states[i].phase == PushPhase::Change <==> i == 2 && actions[1] is FindChange,
        states[i].phase == PushPhase::Listing <==> i == 3 && actions[2] is Git,
        states[i].phase == PushPhase::Exporting <==> i == 4 && actions[3] is Export,
        states[i].phase == PushPhase::Committing <==> i == 5 && actions[4] is Commit,
        states[i].phase == PushPhase::Syncing <==> i == 6 && actions[5] is SyncWorkingCopy,
        states[i].phase == PushPhase::Pushing <==> i == 7 && actions[6] is Git,
        has_target(states[i].phase) ==> i >= 3 && states[i].target is Some && commit_allows(
            replies[2],
            states[i].target->0,
        ),
        has_target(states[i].phase) ==> forall|k: int| 2 < k < i ==> !(#[trigger] replies[k] is Found),
        i == 1 && states[i].phase == PushPhase::Over ==> actions[0] is Finish,
        i == 8 && actions[7] is Finish && actions[7]->Finish_0 is Ok ==> actions[3] is Export && actions[6] is Git,
        i > 4 && has_target(states[i].phase) ==> actions[3] is Export,
    decreases i,
{
    if i > 0 {
        push_run_phases(states, replies, actions, i - 1);
        assert(push_step(states[i - 1], replies[i - 1], states[i], actions[i - 1]));
    }
}

} // verus!
