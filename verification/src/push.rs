//! Push with guardrails.
//!
//! Every push names an explicit remote and bookmark: nothing is inferred, and
//! creating a branch that does not exist on the remote has to be asked for. No
//! other part of the library names a `git push`.

use vstd::prelude::*;
use vstd::string::*;

use crate::commits::Commit;
use crate::engine::RepoEngine;
use crate::error::EngineError;
#[allow(unused_imports)]
use crate::error::ErrorKind;
#[allow(unused_imports)]
use crate::git::{git_result, lists_ref};
use crate::git::{git_stdout, ref_is_listed, ProcessOutput};
use crate::ids::short_commit_id;
use crate::ids::CommitId;
#[allow(unused_imports)]
use crate::ids::hex_text;
#[allow(unused_imports)]
use crate::lists::{first_where, search_goes_on};
use crate::proto::{PushRequest, PushResponse};
use crate::text::{chars_of, is_white_space, quoted, same, trim};
#[allow(unused_imports)]
use crate::text::{blank, blank_trims_to_nothing, debug_text, head, texts, white_space};

verus! {

/// A character that git would read as part of a refspec or as a pattern.
pub open spec fn refspec_char(c: char) -> bool {
    c == ':' || c == '*' || c == '?' || c == '['
}

/// A name that could change what git does: an empty one, one with white space,
/// one that looks like an option, one that smuggles in a refspec or a pattern.
pub open spec fn bad_name(value: Seq<char>) -> bool {
    ||| value.len() == 0
    ||| exists|i: int| 0 <= i < value.len() && white_space(#[trigger] value[i])
    ||| value[0] == '-'
    ||| exists|i: int| 0 <= i < value.len() && refspec_char(#[trigger] value[i])
}

/// What is said of such a name.
pub open spec fn name_refused(what: Seq<char>, value: Seq<char>) -> (ErrorKind, Seq<char>) {
    (ErrorKind::Invalid, "invalid "@ + what + " name: "@ + debug_text(value))
}

/// Refuses a name that could change what git does.
pub fn validate_name(what: &str, value: &str) -> (r: Result<(), EngineError>)
    ensures
        r is Err <==> bad_name(value@),
        r matches Err(e) ==> e@ == name_refused(what@, value@),
{
    let chars = chars_of(value);
    let mut bad = chars.len() == 0 || chars[0] == '-';
    for i in 0..chars.len()
        invariant
            chars@ == value@,
            bad == (value@.len() == 0 || value@[0] == '-' || exists|j: int|
                0 <= j < i && (white_space(#[trigger] value@[j]) || refspec_char(value@[j]))),
    {
        let c = chars[i];
        if is_white_space(c) || c == ':' || c == '*' || c == '?' || c == '[' {
            bad = true;
        }
    }
    if bad {
        return Err(
            EngineError::Invalid(
                "invalid ".to_string().concat(what).concat(" name: ").concat(
                    quoted(value).as_str(),
                ),
            ),
        );
    }
    Ok(())
}

/// A bookmark that could not be written to git.
#[derive(Debug, Clone, PartialEq)]
pub struct ExportFailure {
    pub bookmark: String,
    /// The bookmark and its remote, as they are shown.
    pub symbol: String,
    pub reason: String,
}

/// What a push waits for.
#[derive(Debug, Clone, Copy, PartialEq, Eq, Structural)]
pub enum PushPhase {
    Start,
    Snapshot,
    WorkingCopy,
    Change,
    Listing,
    Exporting,
    Committing,
    Syncing,
    Pushing,
    Over,
}

/// One push, from the request to the reply.
pub struct Push {
    pub ws: String,
    pub request: PushRequest,
    pub phase: PushPhase,
    /// The commit that is pushed, once it has passed the guardrails on commits.
    pub target: Option<Commit>,
    /// The remote has the branch.
    pub exists: bool,
}

/// What has to be done next for a push.
pub enum PushAction {
    /// Snapshot the workspace.
    Snapshot(String),
    /// Read the working-copy commit of the workspace.
    FindWorkingCopy(String),
    /// Resolve the prefix against the visible commits.
    FindChange(String),
    /// Run git in the root of the repo.
    Git(Vec<String>),
    /// Start a transaction, point the local bookmark at the commit, and export
    /// the refs to git.
    Export { bookmark: String, target: CommitId },
    /// Commit the transaction, with this description.
    Commit(String),
    /// Point the on-disk state of the workspace at its working-copy commit.
    SyncWorkingCopy(String),
    /// Drop what is open and answer.
    Finish(Result<PushResponse, EngineError>),
}

/// What came of an action.
pub enum PushReply {
    Begin,
    Snapshotted(Result<bool, EngineError>),
    Found(Result<Commit, EngineError>),
    Ran(Result<ProcessOutput, EngineError>),
    Exported(Result<Vec<ExportFailure>, EngineError>),
    Committed(Result<(), EngineError>),
    Synced(Result<(), EngineError>),
}

/// The ref of a branch.
pub open spec fn branch_ref(bookmark: Seq<char>) -> Seq<char> {
    "refs/heads/"@ + bookmark
}

/// The arguments that ask git whether the remote has the branch.
pub open spec fn listing_args(request: PushRequest) -> Seq<Seq<char>> {
    seq!["ls-remote"@, "--heads"@, request.remote@, branch_ref(request.bookmark@)]
}

/// The arguments of the one `git push`: an explicit remote, and one full ref to
/// itself.
pub open spec fn push_args(request: PushRequest) -> Seq<Seq<char>> {
    seq![
        "push"@,
        request.remote@,
        branch_ref(request.bookmark@) + ":"@ + branch_ref(request.bookmark@),
    ]
}

/// The push ends with this failure.
pub open spec fn push_fails(post: Push, action: PushAction, why: (ErrorKind, Seq<char>)) -> bool {
    &&& post.phase == PushPhase::Over
    &&& action matches PushAction::Finish(r)
    &&& r matches Err(e)
    &&& e@ == why
}

/// The failure that a reply brings.
pub open spec fn push_reply_error(reply: PushReply) -> Option<(ErrorKind, Seq<char>)> {
    match reply {
        PushReply::Begin => None,
        PushReply::Snapshotted(r) => match r {
            Ok(_) => None,
            Err(e) => Some(e@),
        },
        PushReply::Found(r) => match r {
            Ok(_) => None,
            Err(e) => Some(e@),
        },
        PushReply::Ran(r) => match r {
            Ok(_) => None,
            Err(e) => Some(e@),
        },
        PushReply::Exported(r) => match r {
            Ok(_) => None,
            Err(e) => Some(e@),
        },
        PushReply::Committed(r) => match r {
            Ok(_) => None,
            Err(e) => Some(e@),
        },
        PushReply::Synced(r) => match r {
            Ok(_) => None,
            Err(e) => Some(e@),
        },
    }
}

/// The push waits for a reply of this kind.
pub open spec fn push_expects(phase: PushPhase, reply: PushReply) -> bool {
    match phase {
        PushPhase::Start => reply is Begin,
        PushPhase::Snapshot => reply is Snapshotted,
        PushPhase::WorkingCopy => reply is Found,
        PushPhase::Change => reply is Found,
        PushPhase::Listing => reply is Ran,
        PushPhase::Exporting => reply is Exported,
        PushPhase::Committing => reply is Committed,
        PushPhase::Syncing => reply is Synced,
        PushPhase::Pushing => reply is Ran,
        PushPhase::Over => false,
    }
}

/// The push goes on to read the working-copy commit, which also makes sure that
/// the workspace is there before anything is written.
pub open spec fn finds_working_copy(pre: Push, post: Push, action: PushAction) -> bool {
    &&& post.phase == PushPhase::WorkingCopy
    &&& action matches PushAction::FindWorkingCopy(ws)
    &&& ws@ == pre.ws@
}

/// The push takes `c` for its target: it is refused without a description or with
/// conflicts, and else the remote is asked for the branch.
pub open spec fn takes_target(pre: Push, c: Commit, post: Push, action: PushAction) -> bool {
    let short = head(hex_text(c.id@), 12);
    if blank(c.description@) {
        push_fails(
            post,
            action,
            (
                ErrorKind::Guardrail,
                "refusing to push "@ + short
                    + ": it has no description (run `dvr describe` first)"@,
            ),
        )
    } else if c.has_conflict {
        push_fails(
            post,
            action,
            (
                ErrorKind::Guardrail,
                "refusing to push "@ + short + ": it has unresolved conflicts"@,
            ),
        )
    } else {
        &&& post.phase == PushPhase::Listing
        &&& post.target == Some(c)
        &&& action matches PushAction::Git(args)
        &&& texts(args@) == listing_args(pre.request)
    }
}

/// A local bookmark of this name failed to export.
pub open spec fn failed_export(name: Seq<char>) -> spec_fn(ExportFailure) -> bool {
    |f: ExportFailure| f.bookmark@ == name
}

/// One step of a push: from what it was, on a reply, to what it is and what has
/// to be done next.
pub open spec fn push_step(pre: Push, reply: PushReply, post: Push, action: PushAction) -> bool {
    let request = pre.request;
    &&& post.ws == pre.ws
    &&& post.request == pre.request
    &&& if !push_expects(pre.phase, reply) {
        push_fails(post, action, (ErrorKind::Internal, "unexpected reply"@))
    } else if push_reply_error(reply) is Some {
        push_fails(post, action, push_reply_error(reply)->0)
    } else {
        match reply {
            PushReply::Begin => if bad_name(request.remote@) {
                push_fails(post, action, name_refused("remote"@, request.remote@))
            } else if bad_name(request.bookmark@) {
                push_fails(post, action, name_refused("bookmark"@, request.bookmark@))
            } else if request.change_id is None {
                &&& post.phase == PushPhase::Snapshot
                &&& action matches PushAction::Snapshot(ws)
                &&& ws@ == pre.ws@
            } else {
                finds_working_copy(pre, post, action)
            },
            PushReply::Snapshotted(_) => finds_working_copy(pre, post, action),
            PushReply::Found(r) => if pre.phase == PushPhase::WorkingCopy && request.change_id is Some {
                &&& post.phase == PushPhase::Change
                &&& action matches PushAction::FindChange(prefix)
                &&& prefix@ == request.change_id->0@
            } else {
                takes_target(pre, r->Ok_0, post, action)
            },
            PushReply::Ran(r) => if pre.phase == PushPhase::Listing {
                match git_result(listing_args(request), r->Ok_0) {
                    Err(e) => push_fails(post, action, e),
                    Ok(printed) => {
                        let exists = lists_ref(printed, branch_ref(request.bookmark@));
                        if !exists && !request.create {
                            push_fails(
                                post,
                                action,
                                (
                                    ErrorKind::Guardrail,
                                    "refusing to push: branch "@ + debug_text(request.bookmark@)
                                        + " does not exist on remote "@ + debug_text(
                                        request.remote@,
                                    ) + " (pass create=true to create "@ + request.remote@ + "/"@
                                        + request.bookmark@ + ")"@,
                                ),
                            )
                        } else {
                            &&& post.phase == PushPhase::Exporting
                            &&& post.target == pre.target
                            &&& post.exists == exists
                            &&& action matches PushAction::Export { bookmark, target }
                            &&& bookmark@ == request.bookmark@
                            &&& target@ == pre.target->0.id@
                        }
                    },
                }
            } else {
                match git_result(push_args(request), r->Ok_0) {
                    Err(e) => push_fails(post, action, e),
                    Ok(_) => {
                        &&& post.phase == PushPhase::Over
                        &&& action matches PushAction::Finish(answer)
                        &&& answer matches Ok(response)
                        &&& response.remote@ == request.remote@
                        &&& response.bookmark@ == request.bookmark@
                        &&& response.commit_id@ == head(hex_text(pre.target->0.id@), 12)
                    },
                }
            },
            PushReply::Exported(r) => match first_where(
                r->Ok_0@,
                failed_export(request.bookmark@),
            ) {
                Some(f) => push_fails(
                    post,
                    action,
                    (
                        ErrorKind::Internal,
                        "failed to export bookmark "@ + f.symbol@ + " to git: "@ + f.reason@,
                    ),
                ),
                None => {
                    &&& post.phase == PushPhase::Committing
                    &&& post.target == pre.target
                    &&& post.exists == pre.exists
                    &&& action matches PushAction::Commit(description)
                    &&& description@ == "push "@ + head(hex_text(pre.target->0.id@), 12) + " to "@
                        + request.remote@ + "/"@ + request.bookmark@
                },
            },
            PushReply::Committed(_) => {
                &&& post.phase == PushPhase::Syncing
                &&& post.target == pre.target
                &&& post.exists == pre.exists
                &&& action matches PushAction::SyncWorkingCopy(ws)
                &&& ws@ == pre.ws@
            },
            PushReply::Synced(_) => {
                &&& post.phase == PushPhase::Pushing
                &&& post.target == pre.target
                &&& post.exists == pre.exists
                &&& action matches PushAction::Git(args)
                &&& texts(args@) == push_args(request)
            },
        }
    }
}

/// The phases in which the push has its target.
pub open spec fn has_target(phase: PushPhase) -> bool {
    phase == PushPhase::Listing || past_listing(phase)
}

/// The phases after the remote was asked for the branch.
pub open spec fn past_listing(phase: PushPhase) -> bool {
    phase == PushPhase::Exporting || phase == PushPhase::Committing || phase == PushPhase::Syncing
        || phase == PushPhase::Pushing
}

impl RepoEngine {
    /// A push of `request`, whose default target is the working copy of `ws`.
    pub fn push(&self, ws: String, request: PushRequest) -> (r: Push)
        ensures
            r.wf(),
            r.ws == ws,
            r.request == request,
            r.phase == PushPhase::Start,
    {
        Push { ws, request, phase: PushPhase::Start, target: None, exists: false }
    }
}

impl Push {
    /// What holds of every push: what it has passed, it has passed.
    pub open spec fn wf(self) -> bool {
        &&& self.phase != PushPhase::Start && self.phase != PushPhase::Over ==> !bad_name(
            self.request.remote@,
        ) && !bad_name(self.request.bookmark@)
        &&& self.phase == PushPhase::Snapshot ==> self.request.change_id is None
        &&& has_target(self.phase) ==> self.target is Some && !blank(self.target->0.description@)
            && !self.target->0.has_conflict
        &&& past_listing(self.phase) ==> self.exists || self.request.create
    }

    fn fail(&mut self, e: EngineError) -> (action: PushAction)
        ensures
            final(self).ws == old(self).ws,
            final(self).request == old(self).request,
            final(self).wf(),
            push_fails(*final(self), action, e@),
    {
        self.phase = PushPhase::Over;
        PushAction::Finish(Err(e))
    }

    fn unexpected(&mut self) -> (action: PushAction)
        ensures
            final(self).ws == old(self).ws,
            final(self).request == old(self).request,
            final(self).wf(),
            push_fails(*final(self), action, (ErrorKind::Internal, "unexpected reply"@)),
    {
        self.fail(EngineError::Internal("unexpected reply".to_string()))
    }

    fn find_working_copy(&mut self) -> (action: PushAction)
        requires
            !bad_name(old(self).request.remote@),
            !bad_name(old(self).request.bookmark@),
        ensures
            final(self).ws == old(self).ws,
            final(self).request == old(self).request,
            final(self).wf(),
            finds_working_copy(*old(self), *final(self), action),
    {
        self.phase = PushPhase::WorkingCopy;
        PushAction::FindWorkingCopy(self.ws.clone())
    }

    fn branch(&self) -> (r: String)
        ensures
            r@ == branch_ref(self.request.bookmark@),
    {
        "refs/heads/".to_string().concat(self.request.bookmark.as_str())
    }

    fn listing(&self) -> (r: Vec<String>)
        ensures
            texts(r@) == listing_args(self.request),
    {
        let mut args: Vec<String> = Vec::new();
        args.push("ls-remote".to_string());
        args.push("--heads".to_string());
        args.push(self.request.remote.clone());
        args.push(self.branch());
        assert(texts(args@) =~= listing_args(self.request));
        args
    }

    fn pushing(&self) -> (r: Vec<String>)
        ensures
            texts(r@) == push_args(self.request),
    {
        let mut args: Vec<String> = Vec::new();
        args.push("push".to_string());
        args.push(self.request.remote.clone());
        args.push(self.branch().concat(":").concat(self.branch().as_str()));
        assert(texts(args@) =~= push_args(self.request));
        args
    }

    fn take_target(&mut self, c: Commit) -> (action: PushAction)
        requires
            !bad_name(old(self).request.remote@),
            !bad_name(old(self).request.bookmark@),
        ensures
            final(self).ws == old(self).ws,
            final(self).request == old(self).request,
            final(self).wf(),
            takes_target(*old(self), c, *final(self), action),
    {
        let short = short_commit_id(&c.id);
        proof {
            blank_trims_to_nothing(c.description@);
        }
        if trim(c.description.as_str()).as_str().is_empty() {
            return self.fail(
                EngineError::Guardrail(
                    "refusing to push ".to_string().concat(short.as_str()).concat(
                        ": it has no description (run `dvr describe` first)",
                    ),
                ),
            );
        }
        if c.has_conflict {
            return self.fail(
                EngineError::Guardrail(
                    "refusing to push ".to_string().concat(short.as_str()).concat(
                        ": it has unresolved conflicts",
                    ),
                ),
            );
        }
        self.target = Some(c);
        self.phase = PushPhase::Listing;
        PushAction::Git(self.listing())
    }

    /// Takes the reply to the last action and says what has to be done next.
    pub fn step(&mut self, reply: PushReply) -> (action: PushAction)
        requires
            old(self).wf(),
        ensures
            final(self).wf(),
            push_step(*old(self), reply, *final(self), action),
    {
        match reply {
            PushReply::Begin => {
                if self.phase != PushPhase::Start {
                    return self.unexpected();
                }
                if let Err(e) = validate_name("remote", self.request.remote.as_str()) {
                    return self.fail(e);
                }
                if let Err(e) = validate_name("bookmark", self.request.bookmark.as_str()) {
                    return self.fail(e);
                }
                if self.request.change_id.is_none() {
                    self.phase = PushPhase::Snapshot;
                    return PushAction::Snapshot(self.ws.clone());
                }
                self.find_working_copy()
            },
            PushReply::Snapshotted(r) => {
                if self.phase != PushPhase::Snapshot {
                    return self.unexpected();
                }
                match r {
                    Ok(_) => self.find_working_copy(),
                    Err(e) => self.fail(e),
                }
            },
            PushReply::Found(r) => {
                if self.phase != PushPhase::WorkingCopy && self.phase != PushPhase::Change {
                    return self.unexpected();
                }
                let c = match r {
                    Ok(c) => c,
                    Err(e) => {
                        return self.fail(e);
                    },
                };
                if self.phase == PushPhase::WorkingCopy {
                    if let Some(prefix) = &self.request.change_id {
                        let prefix = prefix.clone();
                        self.phase = PushPhase::Change;
                        return PushAction::FindChange(prefix);
                    }
                }
                self.take_target(c)
            },
            PushReply::Ran(r) => {
                if self.phase == PushPhase::Listing {
                    match r {
                        Ok(out) => self.listed(out),
                        Err(e) => self.fail(e),
                    }
                } else if self.phase == PushPhase::Pushing {
                    match r {
                        Ok(out) => self.pushed(out),
                        Err(e) => self.fail(e),
                    }
                } else {
                    self.unexpected()
                }
            },
            PushReply::Exported(r) => {
                if self.phase != PushPhase::Exporting {
                    return self.unexpected();
                }
                match r {
                    Ok(failures) => self.exported(failures),
                    Err(e) => self.fail(e),
                }
            },
            PushReply::Committed(r) => {
                if self.phase != PushPhase::Committing {
                    return self.unexpected();
                }
                match r {
                    Ok(_) => {
                        self.phase = PushPhase::Syncing;
                        PushAction::SyncWorkingCopy(self.ws.clone())
                    },
                    Err(e) => self.fail(e),
                }
            },
            PushReply::Synced(r) => {
                if self.phase != PushPhase::Syncing {
                    return self.unexpected();
                }
                match r {
                    Ok(_) => {
                        self.phase = PushPhase::Pushing;
                        PushAction::Git(self.pushing())
                    },
                    Err(e) => self.fail(e),
                }
            },
        }
    }

    fn listed(&mut self, out: ProcessOutput) -> (action: PushAction)
        requires
            old(self).wf(),
            old(self).phase == PushPhase::Listing,
        ensures
            final(self).wf(),
            push_step(*old(self), PushReply::Ran(Ok(out)), *final(self), action),
    {
        let printed = match git_stdout(&self.listing(), &out) {
            Ok(s) => s,
            Err(e) => {
                return self.fail(e);
            },
        };
        let exists = ref_is_listed(printed.as_str(), self.branch().as_str());
        if !exists && !self.request.create {
            let remote = self.request.remote.as_str();
            let bookmark = self.request.bookmark.as_str();
            let message = "refusing to push: branch ".to_string().concat(
                quoted(bookmark).as_str(),
            ).concat(" does not exist on remote ").concat(quoted(remote).as_str()).concat(
                " (pass create=true to create ",
            ).concat(remote).concat("/").concat(bookmark).concat(")");
            return self.fail(EngineError::Guardrail(message));
        }
        self.exists = exists;
        self.phase = PushPhase::Exporting;
        match &self.target {
            Some(c) => PushAction::Export {
                bookmark: self.request.bookmark.clone(),
                target: c.id.copy(),
            },
            None => self.unexpected(),
        }
    }

    fn exported(&mut self, failures: Vec<ExportFailure>) -> (action: PushAction)
        requires
            old(self).wf(),
            old(self).phase == PushPhase::Exporting,
        ensures
            final(self).wf(),
            push_step(*old(self), PushReply::Exported(Ok(failures)), *final(self), action),
    {
        let ghost p = failed_export(self.request.bookmark@);
        assert(failures@.skip(0) =~= failures@);
        for i in 0..failures.len()
            invariant
                *self == *old(self),
                old(self).wf(),
                old(self).phase == PushPhase::Exporting,
                p == failed_export(self.request.bookmark@),
                first_where(failures@, p) == first_where(failures@.skip(i as int), p),
        {
            proof {
                search_goes_on(failures@, p, i as int);
            }
            let f = &failures[i];
            if same(f.bookmark.as_str(), self.request.bookmark.as_str()) {
                let message = "failed to export bookmark ".to_string().concat(
                    f.symbol.as_str(),
                ).concat(" to git: ").concat(f.reason.as_str());
                return self.fail(EngineError::Internal(message));
            }
        }
        self.phase = PushPhase::Committing;
        match &self.target {
            Some(c) => PushAction::Commit(
                "push ".to_string().concat(short_commit_id(&c.id).as_str()).concat(" to ").concat(
                    self.request.remote.as_str(),
                ).concat("/").concat(self.request.bookmark.as_str()),
            ),
            None => self.unexpected(),
        }
    }

    fn pushed(&mut self, out: ProcessOutput) -> (action: PushAction)
        requires
            old(self).wf(),
            old(self).phase == PushPhase::Pushing,
        ensures
            final(self).wf(),
            push_step(*old(self), PushReply::Ran(Ok(out)), *final(self), action),
    {
        if let Err(e) = git_stdout(&self.pushing(), &out) {
            return self.fail(e);
        }
        let short = match &self.target {
            Some(c) => short_commit_id(&c.id),
            None => String::new(),
        };
        self.phase = PushPhase::Over;
        PushAction::Finish(
            Ok(
                PushResponse {
                    remote: self.request.remote.clone(),
                    bookmark: self.request.bookmark.clone(),
                    commit_id: short,
                },
            ),
        )
    }
}

/// The guardrails of a push: the names are explicit and mean one branch, the
/// commit is described and free of conflicts, and the branch is there or was asked
/// for.
pub open spec fn guardrails_hold(p: Push) -> bool {
    &&& !bad_name(p.request.remote@)
    &&& !bad_name(p.request.bookmark@)
    &&& p.target is Some
    &&& !blank(p.target->0.description@)
    &&& !p.target->0.has_conflict
    &&& p.exists || p.request.create
}

/// Nothing is written to a remote unless the guardrails hold, and then exactly the
/// named branch of the named remote: of all steps of a push, only the one from the
/// synced working copy runs git with other arguments than those of the listing.
pub proof fn writes_are_guarded(pre: Push, reply: PushReply, post: Push, action: PushAction)
    requires
        pre.wf(),
        push_step(pre, reply, post, action),
    ensures
        action matches PushAction::Git(args) ==> {
            ||| texts(args@) == listing_args(pre.request) && post.phase == PushPhase::Listing
            ||| texts(args@) == push_args(pre.request) && pre.phase == PushPhase::Syncing
                && guardrails_hold(pre)
        },
{
}

/// The refspec of a push holds no pattern, and its one separator is the one that
/// the push puts there.
pub proof fn push_names_one_branch(request: PushRequest, i: int)
    requires
        !bad_name(request.remote@),
        !bad_name(request.bookmark@),
        0 <= i < push_args(request)[2].len(),
        refspec_char(push_args(request)[2][i]),
    ensures
        push_args(request)[2][i] == ':',
        i == branch_ref(request.bookmark@).len(),
{
    reveal_strlit("refs/heads/");
    reveal_strlit(":");
    let branch = branch_ref(request.bookmark@);
    let spec = push_args(request)[2];
    assert(spec == branch + ":"@ + branch);
    let prefix = "refs/heads/"@;
    assert(prefix =~= seq!['r', 'e', 'f', 's', '/', 'h', 'e', 'a', 'd', 's', '/']);
    assert forall|j: int| 0 <= j < branch.len() implies !refspec_char(#[trigger] branch[j]) by {
        if j >= prefix.len() {
            assert(branch[j] == request.bookmark@[j - prefix.len()]);
        }
    }
    if i < branch.len() {
        assert(spec[i] == branch[i]);
    } else if i > branch.len() {
        assert(spec[i] == branch[i - branch.len() - 1]);
    }
}

/// A refusal by a guardrail leaves no trace: it comes before any local ref is
/// exported and before anything is committed.
pub proof fn refusal_leaves_no_trace(pre: Push, reply: PushReply, post: Push, action: PushAction)
    requires
        pre.wf(),
        push_step(pre, reply, post, action),
        push_reply_error(reply) is None,
        action matches PushAction::Finish(r) && r matches Err(e) && e@.0 == ErrorKind::Guardrail,
    ensures
        !past_listing(pre.phase),
{
}

/// Local refs are exported only once the remote has been asked, and committed only
/// after they were exported.
pub proof fn local_writes_come_last(pre: Push, reply: PushReply, post: Push, action: PushAction)
    requires
        pre.wf(),
        push_step(pre, reply, post, action),
    ensures
        action is Export ==> pre.phase == PushPhase::Listing && guardrails_hold(post),
        action is Commit ==> pre.phase == PushPhase::Exporting && guardrails_hold(post),
{
}

/// A push of an explicit change is exact: it never snapshots.
pub proof fn explicit_change_is_exact(pre: Push, reply: PushReply, post: Push, action: PushAction)
    requires
        pre.wf(),
        push_step(pre, reply, post, action),
        pre.request.change_id is Some,
    ensures
        !(action is Snapshot),
{
}

/// How far a phase is into a push.
pub open spec fn push_rank(phase: PushPhase) -> int {
    match phase {
        PushPhase::Start => 0,
        PushPhase::Snapshot => 1,
        PushPhase::WorkingCopy => 2,
        PushPhase::Change => 3,
        PushPhase::Listing => 4,
        PushPhase::Exporting => 5,
        PushPhase::Committing => 6,
        PushPhase::Syncing => 7,
        PushPhase::Pushing => 8,
        PushPhase::Over => 9,
    }
}

/// A push from its start on: the states that it went through, the reply that each
/// was given, and the action that followed.
pub open spec fn is_push_run(
    states: Seq<Push>,
    replies: Seq<PushReply>,
    actions: Seq<PushAction>,
) -> bool {
    &&& states.len() == replies.len() + 1
    &&& actions.len() == replies.len()
    &&& states[0].wf()
    &&& states[0].phase == PushPhase::Start
    &&& forall|i: int|
        0 <= i < replies.len() ==> push_step(
            states[i],
            #[trigger] replies[i],
            states[i + 1],
            actions[i],
        )
}

/// The action runs the `git push` of the request.
pub open spec fn writes_remote(request: PushRequest, action: PushAction) -> bool {
    action matches PushAction::Git(args) && texts(args@) == push_args(request)
}

/// The reply shows that the remote has the branch, or that the request may create
/// it: git listed the heads of the remote.
pub open spec fn listing_allows(request: PushRequest, asked: PushAction, reply: PushReply) -> bool {
    &&& asked matches PushAction::Git(args)
    &&& texts(args@) == listing_args(request)
    &&& reply matches PushReply::Ran(r)
    &&& r matches Ok(out)
    &&& git_result(listing_args(request), out) matches Ok(printed)
    &&& lists_ref(printed, branch_ref(request.bookmark@)) || request.create
}

/// The reply gave a commit that may be pushed.
pub open spec fn commit_allows(reply: PushReply, c: Commit) -> bool {
    &&& reply matches PushReply::Found(r)
    &&& r == Ok::<Commit, EngineError>(c)
    &&& !blank(c.description@)
    &&& !c.has_conflict
}

/// A run up to state `i`: it keeps its request and its invariant, it goes forward,
/// and what a state has passed was shown by a reply.
proof fn run_goes_forward(
    states: Seq<Push>,
    replies: Seq<PushReply>,
    actions: Seq<PushAction>,
    i: int,
)
    requires
        is_push_run(states, replies, actions),
        0 <= i < states.len(),
    ensures
        states[i].wf(),
        states[i].request == states[0].request,
        states[i].phase != PushPhase::Over ==> push_rank(states[i].phase) >= i,
        states[i].phase == PushPhase::Listing ==> i > 0 && (actions[i - 1] matches PushAction::Git(
            args,
        ) && texts(args@) == listing_args(states[0].request)),
        has_target(states[i].phase) ==> exists|k: int|
            0 <= k < i && commit_allows(#[trigger] replies[k], states[i].target->0),
        past_listing(states[i].phase) ==> exists|j: int|
            0 < j < i && listing_allows(
                states[0].request,
                actions[j - 1],
                #[trigger] replies[j],
            ),
    decreases i,
{
    if i > 0 {
        run_goes_forward(states, replies, actions, i - 1);
        let pre = states[i - 1];
        let post = states[i];
        let reply = replies[i - 1];
        assert(push_step(pre, reply, post, actions[i - 1]));
        if has_target(post.phase) {
            if pre.phase == PushPhase::WorkingCopy || pre.phase == PushPhase::Change {
                assert(commit_allows(replies[i - 1], post.target->0));
            } else {
                let k = choose|k: int|
                    0 <= k < i - 1 && commit_allows(#[trigger] replies[k], pre.target->0);
                assert(commit_allows(replies[k], post.target->0));
            }
        }
        if past_listing(post.phase) {
            if pre.phase == PushPhase::Listing {
                assert(listing_allows(states[0].request, actions[i - 2], replies[i - 1]));
            } else {
                let j = choose|j: int|
                    0 < j < i - 1 && listing_allows(
                        states[0].request,
                        actions[j - 1],
                        #[trigger] replies[j],
                    );
                assert(listing_allows(states[0].request, actions[j - 1], replies[j]));
            }
        }
    }
}

proof fn ranks_grow(
    states: Seq<Push>,
    replies: Seq<PushReply>,
    actions: Seq<PushAction>,
    i: int,
    j: int,
)
    requires
        is_push_run(states, replies, actions),
        0 <= i < j < states.len(),
    ensures
        push_rank(states[i].phase) < push_rank(states[j].phase) || states[j].phase
            == PushPhase::Over,
    decreases j - i,
{
    if i + 1 < j {
        ranks_grow(states, replies, actions, i, j - 1);
    }
    assert(push_step(states[j - 1], replies[j - 1], states[j], actions[j - 1]));
}

/// Whatever happens on the way, a push runs git only to list the heads of the
/// remote that was named, or to push the branch that was named. It pushes only after
/// git listed the branch on that remote, unless the request may create it, and only
/// a commit that was read, is described and is free of conflicts.
pub proof fn pushes_are_guarded(
    states: Seq<Push>,
    replies: Seq<PushReply>,
    actions: Seq<PushAction>,
    i: int,
)
    requires
        is_push_run(states, replies, actions),
        0 <= i < actions.len(),
        actions[i] is Git,
    ensures
        texts(actions[i]->Git_0@) == listing_args(states[0].request) || writes_remote(
            states[0].request,
            actions[i],
        ),
        writes_remote(states[0].request, actions[i]) ==> {
            &&& !bad_name(states[0].request.remote@)
            &&& !bad_name(states[0].request.bookmark@)
            &&& exists|k: int|
                0 <= k < i && commit_allows(#[trigger] replies[k], states[i].target->0)
            &&& exists|j: int|
                0 < j < i && listing_allows(
                    states[0].request,
                    actions[j - 1],
                    #[trigger] replies[j],
                )
        },
{
    run_goes_forward(states, replies, actions, i);
    assert(push_step(states[i], replies[i], states[i + 1], actions[i]));
    assert(listing_args(states[0].request).len() == 4);
    assert(push_args(states[0].request).len() == 3);
}

/// A push writes to a remote at most once.
pub proof fn one_write_per_push(
    states: Seq<Push>,
    replies: Seq<PushReply>,
    actions: Seq<PushAction>,
    i: int,
    j: int,
)
    requires
        is_push_run(states, replies, actions),
        0 <= i < actions.len(),
        0 <= j < actions.len(),
        writes_remote(states[0].request, actions[i]),
        writes_remote(states[0].request, actions[j]),
    ensures
        i == j,
{
    let lo = if i < j { i } else { j };
    let hi = if i < j { j } else { i };
    run_goes_forward(states, replies, actions, lo);
    run_goes_forward(states, replies, actions, hi);
    assert(push_step(states[lo], replies[lo], states[lo + 1], actions[lo]));
    assert(push_step(states[hi], replies[hi], states[hi + 1], actions[hi]));
    assert(listing_args(states[0].request).len() == 4);
    assert(push_args(states[0].request).len() == 3);
    if lo < hi {
        ranks_grow(states, replies, actions, lo, hi);
    }
}

/// A push that a guardrail refuses has written nothing: no ref was exported, no
/// operation committed, and nothing pushed.
pub proof fn refused_pushes_write_nothing(
    states: Seq<Push>,
    replies: Seq<PushReply>,
    actions: Seq<PushAction>,
    i: int,
)
    requires
        is_push_run(states, replies, actions),
        0 <= i < actions.len(),
        push_reply_error(replies.last()) is None,
        actions.last() matches PushAction::Finish(r) && r matches Err(e) && e@.0
            == ErrorKind::Guardrail,
    ensures
        !(actions[i] is Export),
        !(actions[i] is Commit),
        !writes_remote(states[0].request, actions[i]),
{
    let last = actions.len() - 1;
    run_goes_forward(states, replies, actions, i);
    run_goes_forward(states, replies, actions, last);
    assert(push_step(states[i], replies[i], states[i + 1], actions[i]));
    assert(push_step(states[last], replies[last], states[last + 1], actions[last]));
    refusal_leaves_no_trace(states[last], replies[last], states[last + 1], actions[last]);
    assert(listing_args(states[0].request).len() == 4);
    assert(push_args(states[0].request).len() == 3);
    if i + 1 < last {
        ranks_grow(states, replies, actions, i + 1, last);
    }
}

/// Every push ends: nine replies are enough.
pub proof fn every_push_ends(
    states: Seq<Push>,
    replies: Seq<PushReply>,
    actions: Seq<PushAction>,
    i: int,
)
    requires
        is_push_run(states, replies, actions),
        9 <= i < states.len(),
    ensures
        states[i].phase == PushPhase::Over,
        actions[i - 1] is Finish,
{
    run_goes_forward(states, replies, actions, i);
    run_goes_forward(states, replies, actions, i - 1);
    assert(push_step(states[i - 1], replies[i - 1], states[i], actions[i - 1]));
}

} // verus!
