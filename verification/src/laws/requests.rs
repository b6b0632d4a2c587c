//! A request comes to what it asks for, and a failure is reported as what it is.

use vstd::prelude::*;
use vstd::string::*;

#[allow(unused_imports)]
use crate::error::{EngineError, RegisterError};
#[allow(unused_imports)]
use crate::proto::{
    DescribeRequest, ErrorCode, FileQuery, NewWorkspaceRequest, PushRequest, RepoInfo,
};
#[allow(unused_imports)]
use crate::routes::{default_log_limit, plan_request, ApiFailure, EngineCall, RepoRequest};

verus! {

/// A workspace is asked of the engine as the request has it: under its name, at its
/// place or beside the root, and on top of the change that it names, if it names one.
pub proof fn workspace_requests_are_kept(
    info: &RepoInfo,
    r: NewWorkspaceRequest,
    plan: Result<Vec<EngineCall>, ApiFailure>,
)
    requires
        call_ensures(plan_request, (info, RepoRequest::NewWorkspace(r)), plan),
    ensures
        plan is Ok <==> (r.dest matches Some(d) ==> d@.len() > 0 && d@[0] == '/'),
        plan matches Ok(calls) ==> calls@.len() == 1 && (
        calls@[0] matches EngineCall::AddWorkspace { name, dest, at_change } && name@ == r.name@
            && at_change == r.at_change && dest@ == (if r.dest is Some {
            r.dest->0@
        } else {
            info.root@ + "-"@ + r.name@
        })),
        plan matches Err(f) ==> f.status == 400 && f.error.code == ErrorCode::InvalidRequest
            && f.error.message@ == "destination must be absolute: "@ + r.dest->0@
            && f.error.hint is None,
{
}

/// Two requests for workspaces that differ in the change alone are planned apart: the
/// change is not forgotten on the way.
pub proof fn changes_asked_for_are_told_apart(
    info: &RepoInfo,
    a: NewWorkspaceRequest,
    b: NewWorkspaceRequest,
    x: Result<Vec<EngineCall>, ApiFailure>,
    y: Result<Vec<EngineCall>, ApiFailure>,
)
    requires
        a.at_change != b.at_change,
        call_ensures(plan_request, (info, RepoRequest::NewWorkspace(a)), x),
        call_ensures(plan_request, (info, RepoRequest::NewWorkspace(b)), y),
        x is Ok,
        y is Ok,
    ensures
        x->Ok_0@[0]->at_change != y->Ok_0@[0]->at_change,
{
}

/// A description is asked of the engine as the request has it.
pub proof fn describe_requests_are_kept(
    info: &RepoInfo,
    r: DescribeRequest,
    plan: Result<Vec<EngineCall>, ApiFailure>,
)
    requires
        call_ensures(plan_request, (info, RepoRequest::Describe(r)), plan),
    ensures
        plan matches Ok(calls) && calls@.len() == 1 && (
        calls@[0] matches EngineCall::Describe { ws, change, message } && message@ == r.message@
            && change == r.change_id && ws@ == (if r.workspace is Some {
            r.workspace->0@
        } else {
            "default"@
        })),
{
}

/// A push is asked of the engine as the request has it, and a file is read at the
/// revision and the path of the query.
pub proof fn pushes_and_reads_are_kept(
    info: &RepoInfo,
    p: PushRequest,
    q: FileQuery,
    x: Result<Vec<EngineCall>, ApiFailure>,
    y: Result<Vec<EngineCall>, ApiFailure>,
)
    requires
        call_ensures(plan_request, (info, RepoRequest::Push(p)), x),
        call_ensures(plan_request, (info, RepoRequest::File(q)), y),
    ensures
        x matches Ok(calls) && calls@.len() == 1 && (
        calls@[0] matches EngineCall::Push { ws, request } && ws@ == "default"@
            && request.change_id == p.change_id && request.remote@ == p.remote@ && request.bookmark@
            == p.bookmark@ && request.create == p.create),
        y matches Ok(calls) && calls@.len() == 1 && (
        calls@[0] matches EngineCall::ReadFile { rev, path } && rev@ == q.rev@ && path@ == q.path@),
{
}

/// A status is of the repo that was asked about and a log as long as was asked for,
/// fifty rows where nothing was said, each behind one snapshot of everything; a snapshot
/// is that alone, and a listing takes none.
pub proof fn reports_are_planned(
    info: &RepoInfo,
    limit: Option<usize>,
    status: Result<Vec<EngineCall>, ApiFailure>,
    log: Result<Vec<EngineCall>, ApiFailure>,
    snapshot: Result<Vec<EngineCall>, ApiFailure>,
    list: Result<Vec<EngineCall>, ApiFailure>,
    default_limit: usize,
)
    requires
        call_ensures(plan_request, (info, RepoRequest::Status), status),
        call_ensures(plan_request, (info, (RepoRequest::Log { limit })), log),
        call_ensures(plan_request, (info, RepoRequest::Snapshot), snapshot),
        call_ensures(plan_request, (info, RepoRequest::ListWorkspaces), list),
        call_ensures(default_log_limit, (), default_limit),
    ensures
        status matches Ok(calls) && calls@.len() == 2 && calls@[0] is SnapshotAll && (
        calls@[1] matches EngineCall::Status(id) && id@ == info.id.0@),
        log matches Ok(calls) && calls@.len() == 2 && calls@[0] is SnapshotAll && (
        calls@[1] matches EngineCall::Log(n) && n == (if limit is Some {
            limit->0
        } else {
            default_limit
        })),
        default_limit == 50,
        snapshot matches Ok(calls) && calls@.len() == 1 && calls@[0] is SnapshotAll,
        list matches Ok(calls) && calls@.len() == 1 && calls@[0] is ListWorkspaces,
{
}

/// A failure is answered by its kind, with what it says and no hint: what is not there
/// as not there, what is refused as refused, what is badly asked as badly asked.
pub proof fn failures_are_answered_by_kind(e: EngineError, f: ApiFailure)
    requires
        call_ensures(ApiFailure::from_engine, (e,), f),
    ensures
        f.error.hint is None,
        e matches EngineError::NotFound(m) ==> f.status == 404 && f.error.code
            == ErrorCode::NotFound && f.error.message@ == m@,
        e matches EngineError::Guardrail(m) ==> f.status == 403 && f.error.code
            == ErrorCode::GuardrailRefused && f.error.message@ == m@,
        e matches EngineError::Invalid(m) ==> f.status == 400 && f.error.code
            == ErrorCode::InvalidRequest && f.error.message@ == m@,
        e matches EngineError::Conflict(m) ==> f.status == 409 && f.error.code
            == ErrorCode::Conflict && f.error.message@ == m@,
        e matches EngineError::Internal(m) ==> f.status == 500 && f.error.code
            == ErrorCode::Internal && f.error.message@ == m@,
{
}

/// The other failures: of a registration, of a request that no handler saw, of a repo
/// that nobody knows.
pub proof fn other_failures_are_answered(
    e: RegisterError,
    status: u16,
    m: String,
    asked: &str,
    f: ApiFailure,
)
    ensures
        call_ensures(ApiFailure::from_register, (e,), f) ==> f.error.hint is None && match e {
            RegisterError::Invalid(m) => f.status == 400 && f.error.code
                == ErrorCode::InvalidRequest && f.error.message@ == m@,
            RegisterError::Internal(m) => f.status == 500 && f.error.code == ErrorCode::Internal
                && f.error.message@ == m@,
        },
        call_ensures(ApiFailure::from_rejection, (status, m), f) ==> f.error.hint is None && f.status
            == status && f.error.message@ == m@ && (f.error.code == ErrorCode::NotFound <==> status
            == 404) && (f.error.code == ErrorCode::InvalidRequest <==> 400 <= status <= 499 && status
            != 404) && (f.error.code == ErrorCode::Internal <==> status < 400 || status > 499),
        call_ensures(ApiFailure::unknown_repo, (asked,), f) ==> f.status == 404 && f.error.code
            == ErrorCode::NotFound && f.error.message@ == "unknown repo: "@ + asked@ && (
        f.error.hint matches Some(h) && h@ == "register the repo first via POST /repos"@),
        call_ensures(ApiFailure::invalid_request, (m,), f) ==> f.status == 400 && f.error.code
            == ErrorCode::InvalidRequest && f.error.message@ == m@ && f.error.hint is None,
        call_ensures(ApiFailure::internal, (m,), f) ==> f.status == 500 && f.error.code
            == ErrorCode::Internal && f.error.message@ == m@ && f.error.hint is None,
{
}

/// A failure is made of what it is given.
pub proof fn failures_are_made_of_their_parts(
    status: u16,
    code: ErrorCode,
    m: String,
    f: ApiFailure,
    wire: String,
)
    ensures
        call_ensures(ApiFailure::new, (status, code, m), f) ==> f.status == status && f.error.code
            == code && f.error.message@ == m@ && f.error.hint is None,
        call_ensures(ErrorCode::wire_name, (code,), wire) ==> match code {
            ErrorCode::NotFound => wire@ == "not_found"@,
            ErrorCode::Conflict => wire@ == "conflict"@,
            ErrorCode::GuardrailRefused => wire@ == "guardrail_refused"@,
            ErrorCode::Internal => wire@ == "internal"@,
            ErrorCode::InvalidRequest => wire@ == "invalid_request"@,
        },
{
}

} // verus!
