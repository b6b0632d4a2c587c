//! What the daemon does for a request, and what it answers when that fails.

use vstd::prelude::*;
use vstd::string::*;

use crate::error::{EngineError, RegisterError};
#[allow(unused_imports)]
use crate::error::ErrorKind;
use crate::paths::is_absolute;
#[allow(unused_imports)]
use crate::paths::absolute;
use crate::proto::{
    ApiError, DescribeRequest, ErrorCode, FileQuery, NewWorkspaceRequest, PushRequest, RepoInfo,
};

verus! {

/// A failure and the HTTP status that it travels with.
#[derive(Debug, Clone, PartialEq)]
pub struct ApiFailure {
    pub status: u16,
    pub error: ApiError,
}

/// The failure is this one, without a hint.
pub open spec fn is_plain(
    f: ApiFailure,
    status: u16,
    code: ErrorCode,
    message: Seq<char>,
) -> bool {
    &&& f.status == status
    &&& f.error.code == code
    &&& f.error.message@ == message
    &&& f.error.hint is None
}

/// The status and the code that a kind of engine failure is reported by.
pub open spec fn reported(kind: ErrorKind) -> (u16, ErrorCode) {
    match kind {
        ErrorKind::NotFound => (404, ErrorCode::NotFound),
        ErrorKind::Guardrail => (403, ErrorCode::GuardrailRefused),
        ErrorKind::Invalid => (400, ErrorCode::InvalidRequest),
        ErrorKind::Conflict => (409, ErrorCode::Conflict),
        ErrorKind::Internal => (500, ErrorCode::Internal),
    }
}

impl ApiFailure {
    pub fn new(status: u16, code: ErrorCode, message: String) -> (r: ApiFailure)
        ensures
            is_plain(r, status, code, message@),
    {
        ApiFailure { status, error: ApiError { code, message, hint: None } }
    }

    /// No registered repo has this id or contains this path.
    pub fn unknown_repo(id_or_path: &str) -> (r: ApiFailure)
        ensures
            r.status == 404,
            r.error.code == ErrorCode::NotFound,
            r.error.message@ == "unknown repo: "@ + id_or_path@,
            r.error.hint matches Some(hint) && hint@ == "register the repo first via POST /repos"@,
    {
        ApiFailure {
            status: 404,
            error: ApiError {
                code: ErrorCode::NotFound,
                message: "unknown repo: ".to_string().concat(id_or_path),
                hint: Some("register the repo first via POST /repos".to_string()),
            },
        }
    }

    /// The request itself is bad.
    pub fn invalid_request(message: String) -> (r: ApiFailure)
        ensures
            is_plain(r, 400, ErrorCode::InvalidRequest, message@),
    {
        ApiFailure::new(400, ErrorCode::InvalidRequest, message)
    }

    pub fn internal(message: String) -> (r: ApiFailure)
        ensures
            is_plain(r, 500, ErrorCode::Internal, message@),
    {
        ApiFailure::new(500, ErrorCode::Internal, message)
    }

    /// A failure of the engine, by its kind and never by what it says.
    pub fn from_engine(err: EngineError) -> (r: ApiFailure)
        ensures
            is_plain(r, reported(err@.0).0, reported(err@.0).1, err@.1),
    {
        match err {
            EngineError::NotFound(m) => ApiFailure::new(404, ErrorCode::NotFound, m),
            EngineError::Guardrail(m) => ApiFailure::new(403, ErrorCode::GuardrailRefused, m),
            EngineError::Invalid(m) => ApiFailure::new(400, ErrorCode::InvalidRequest, m),
            EngineError::Conflict(m) => ApiFailure::new(409, ErrorCode::Conflict, m),
            EngineError::Internal(m) => ApiFailure::new(500, ErrorCode::Internal, m),
        }
    }

    /// A failed registration.
    pub fn from_register(err: RegisterError) -> (r: ApiFailure)
        ensures
            match err {
                RegisterError::Invalid(m) => is_plain(r, 400, ErrorCode::InvalidRequest, m@),
                RegisterError::Internal(m) => is_plain(r, 500, ErrorCode::Internal, m@),
            },
    {
        match err {
            RegisterError::Invalid(m) => ApiFailure::invalid_request(m),
            RegisterError::Internal(m) => ApiFailure::internal(m),
        }
    }

    /// A request that was turned away before a handler saw it: no such route, a
    /// method or a body that the route does not take. It keeps its status.
    pub fn from_rejection(status: u16, message: String) -> (r: ApiFailure)
        ensures
            is_plain(r, status, rejection_code(status), message@),
    {
        if status == 404 {
            ApiFailure::new(status, ErrorCode::NotFound, message)
        } else if 400 <= status && status < 500 {
            ApiFailure::new(status, ErrorCode::InvalidRequest, message)
        } else {
            ApiFailure::new(status, ErrorCode::Internal, message)
        }
    }
}

/// The code for a request that was turned away with this status.
pub open spec fn rejection_code(status: u16) -> ErrorCode {
    if status == 404 {
        ErrorCode::NotFound
    } else if 400 <= status < 500 {
        ErrorCode::InvalidRequest
    } else {
        ErrorCode::Internal
    }
}

/// What is refused is answered as refused: a client can tell every kind of failure
/// from every other by its status, and by its code.
pub proof fn kinds_are_told_apart(a: ErrorKind, b: ErrorKind)
    requires
        reported(a).0 == reported(b).0 || reported(a).1 == reported(b).1,
    ensures
        a == b,
{
}

/// How many rows a log shows that does not say.
pub fn default_log_limit() -> (r: usize)
    ensures
        r == 50,
{
    50
}

/// A request about a registered repo.
pub enum RepoRequest {
    Status,
    Log { limit: Option<usize> },
    Describe(DescribeRequest),
    Snapshot,
    File(FileQuery),
    Push(PushRequest),
    NewWorkspace(NewWorkspaceRequest),
    ListWorkspaces,
}

/// What is asked of the engine of a repo.
pub enum EngineCall {
    /// Snapshot all workspaces.
    SnapshotAll,
    /// The status, under this id.
    Status(String),
    /// The first rows of the log.
    Log(usize),
    Describe { ws: String, change: Option<String>, message: String },
    ReadFile { rev: String, path: String },
    Push { ws: String, request: PushRequest },
    /// Add a workspace, and watch it where that went well.
    AddWorkspace { name: String, dest: String, at_change: Option<String> },
    ListWorkspaces,
}

/// Where a new workspace goes that does not say: beside the root.
pub open spec fn default_dest(root: Seq<char>, name: Seq<char>) -> Seq<char> {
    root + "-"@ + name
}

/// The calls that a request about a repo comes to, in order.
pub open spec fn plans_calls(info: RepoInfo, request: RepoRequest, calls: Seq<EngineCall>) -> bool {
    match request {
        RepoRequest::Status => {
            &&& calls.len() == 2
            &&& calls[0] is SnapshotAll
            &&& calls[1] matches EngineCall::Status(id)
            &&& id@ == info.id.0@
        },
        RepoRequest::Log { limit } => {
            &&& calls.len() == 2
            &&& calls[0] is SnapshotAll
            &&& calls[1] == EngineCall::Log(
                match limit {
                    Some(n) => n,
                    None => 50,
                },
            )
        },
        RepoRequest::Describe(r) => {
            &&& calls.len() == 1
            &&& calls[0] matches EngineCall::Describe { ws, change, message }
            &&& ws@ == match r.workspace {
                Some(name) => name@,
                None => "default"@,
            }
            &&& change == r.change_id
            &&& message == r.message
        },
        RepoRequest::Snapshot => calls.len() == 1 && calls[0] is SnapshotAll,
        RepoRequest::File(q) => {
            &&& calls.len() == 1
            &&& calls[0] == (EngineCall::ReadFile { rev: q.rev, path: q.path })
        },
        RepoRequest::Push(r) => {
            &&& calls.len() == 1
            &&& calls[0] matches EngineCall::Push { ws, request: asked }
            &&& ws@ == "default"@
            &&& asked == r
        },
        RepoRequest::NewWorkspace(r) => {
            &&& calls.len() == 1
            &&& calls[0] matches EngineCall::AddWorkspace { name, dest, at_change }
            &&& name == r.name
            &&& dest@ == match r.dest {
                Some(d) => d@,
                None => default_dest(info.root@, r.name@),
            }
            &&& at_change == r.at_change
        },
        RepoRequest::ListWorkspaces => calls.len() == 1 && calls[0] is ListWorkspaces,
    }
}

/// The request is for a workspace at a place that is not absolute.
pub open spec fn asks_for_relative_dest(request: RepoRequest) -> bool {
    request matches RepoRequest::NewWorkspace(r) && (r.dest matches Some(d) && !absolute(d@))
}

/// Plans what a request about the repo comes to. A workspace can only be made at an
/// absolute place.
pub fn plan_request(info: &RepoInfo, request: RepoRequest) -> (r: Result<
    Vec<EngineCall>,
    ApiFailure,
>)
    ensures
        match r {
            Ok(calls) => !asks_for_relative_dest(request) && plans_calls(*info, request, calls@),
            Err(f) => asks_for_relative_dest(request) && is_plain(
                f,
                400,
                ErrorCode::InvalidRequest,
                "destination must be absolute: "@ + request->NewWorkspace_0.dest->0@,
            ),
        },
{
    let mut calls: Vec<EngineCall> = Vec::new();
    match request {
        RepoRequest::Status => {
            calls.push(EngineCall::SnapshotAll);
            calls.push(EngineCall::Status(info.id.0.clone()));
        },
        RepoRequest::Log { limit } => {
            let rows: usize = match limit {
                Some(n) => n,
                None => default_log_limit(),
            };
            calls.push(EngineCall::SnapshotAll);
            calls.push(EngineCall::Log(rows));
        },
        RepoRequest::Describe(r) => {
            let ws = match r.workspace {
                Some(name) => name,
                None => "default".to_string(),
            };
            calls.push(EngineCall::Describe { ws, change: r.change_id, message: r.message });
        },
        RepoRequest::Snapshot => {
            calls.push(EngineCall::SnapshotAll);
        },
        RepoRequest::File(q) => {
            calls.push(EngineCall::ReadFile { rev: q.rev, path: q.path });
        },
        RepoRequest::Push(r) => {
            calls.push(EngineCall::Push { ws: "default".to_string(), request: r });
        },
        RepoRequest::NewWorkspace(r) => {
            let dest = match r.dest {
                Some(d) => {
                    if !is_absolute(d.as_str()) {
                        return Err(
                            ApiFailure::invalid_request(
                                "destination must be absolute: ".to_string().concat(d.as_str()),
                            ),
                        );
                    }
                    d
                },
                None => info.root.clone().concat("-").concat(r.name.as_str()),
            };
            calls.push(
                EngineCall::AddWorkspace { name: r.name, dest, at_change: r.at_change },
            );
        },
        RepoRequest::ListWorkspaces => {
            calls.push(EngineCall::ListWorkspaces);
        },
    }
    Ok(calls)
}

/// A status and a log are fresh: every workspace is snapshotted first.
pub proof fn reports_are_fresh(info: RepoInfo, request: RepoRequest, calls: Seq<EngineCall>, i: int)
    requires
        plans_calls(info, request, calls),
        0 <= i < calls.len(),
        calls[i] is Status || calls[i] is Log,
    ensures
        0 < i,
        calls[0] is SnapshotAll,
{
}

/// To read a file changes nothing: it comes to that one call.
pub proof fn file_reads_never_snapshot(info: RepoInfo, q: FileQuery, calls: Seq<EngineCall>, i: int)
    requires
        plans_calls(info, RepoRequest::File(q), calls),
        0 <= i < calls.len(),
    ensures
        calls[i] is ReadFile,
{
}

/// Only a request to push comes to a push, and it pushes what it names.
pub proof fn only_push_requests_push(
    info: RepoInfo,
    request: RepoRequest,
    calls: Seq<EngineCall>,
    i: int,
)
    requires
        plans_calls(info, request, calls),
        0 <= i < calls.len(),
        calls[i] is Push,
    ensures
        request == RepoRequest::Push(calls[i]->request),
{
}

} // verus!
