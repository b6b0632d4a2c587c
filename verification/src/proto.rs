//! The values that travel between the client and the daemon.

use vstd::prelude::*;
use vstd::string::*;

verus! {

/// The name by which a registered repo is addressed.
#[derive(Debug, Clone, PartialEq)]
pub struct RepoId(pub String);

/// Asks for the repo at `path` to be registered.
#[derive(Debug, Clone, PartialEq)]
pub struct RegisterRequest {
    pub path: String,
}

/// A registered repo.
#[derive(Debug, Clone, PartialEq)]
pub struct RepoInfo {
    pub id: RepoId,
    pub root: String,
}

/// A workspace and its working-copy commit.
#[derive(Debug, Clone, PartialEq)]
pub struct WorkspaceInfo {
    pub name: String,
    pub path: String,
    pub change_id: String,
    pub commit_id: String,
    pub description: String,
}

/// A file that a change touches.
#[derive(Debug, Clone, PartialEq)]
pub struct FileChange {
    pub path: String,
    pub kind: ChangeKind,
}

/// What happened to a file.
#[derive(Debug, Clone, Copy, PartialEq, Eq, Structural)]
pub enum ChangeKind {
    Added,
    Modified,
    Removed,
}

/// A workspace, its parent and the files that differ from it.
#[derive(Debug, Clone, PartialEq)]
pub struct WorkspaceStatus {
    pub info: WorkspaceInfo,
    pub parent_change_id: String,
    pub changed_files: Vec<FileChange>,
}

/// The status of every workspace of a repo.
#[derive(Debug, Clone, PartialEq)]
pub struct StatusResponse {
    pub repo: RepoInfo,
    pub workspaces: Vec<WorkspaceStatus>,
}

/// One row of a log.
#[derive(Debug, Clone, PartialEq)]
pub struct LogEntry {
    pub change_id: String,
    pub commit_id: String,
    pub description: String,
    pub author_name: String,
    pub author_email: String,
    pub timestamp_ms: u64,
    pub bookmarks: Vec<String>,
    pub is_working_copy: bool,
}

/// Asks for a change to be named.
#[derive(Debug, Clone, PartialEq)]
pub struct DescribeRequest {
    pub workspace: Option<String>,
    pub change_id: Option<String>,
    pub message: String,
}

/// Asks for a new workspace.
#[derive(Debug, Clone, PartialEq)]
pub struct NewWorkspaceRequest {
    pub name: String,
    pub dest: Option<String>,
    pub at_change: Option<String>,
}

/// Asks for a change to be pushed to a bookmark of a remote.
#[derive(Debug, Clone, PartialEq)]
pub struct PushRequest {
    pub change_id: Option<String>,
    pub remote: String,
    pub bookmark: String,
    pub create: bool,
}

/// Where a push went.
#[derive(Debug, Clone, PartialEq)]
pub struct PushResponse {
    pub remote: String,
    pub bookmark: String,
    pub commit_id: String,
}

/// Asks for a file at a revision.
#[derive(Debug, Clone, PartialEq)]
pub struct FileQuery {
    pub rev: String,
    pub path: String,
}

/// The kinds of failure that a client can tell apart.
#[derive(Debug, Clone, Copy, PartialEq, Eq, Structural)]
pub enum ErrorCode {
    NotFound,
    Conflict,
    GuardrailRefused,
    Internal,
    InvalidRequest,
}

/// A failure as the daemon reports it.
#[derive(Debug, Clone, PartialEq)]
pub struct ApiError {
    pub code: ErrorCode,
    pub message: String,
    pub hint: Option<String>,
}

impl ErrorCode {
    /// The name of the code on the wire.
    pub open spec fn wire(self) -> Seq<char> {
        match self {
            ErrorCode::NotFound => "not_found"@,
            ErrorCode::Conflict => "conflict"@,
            ErrorCode::GuardrailRefused => "guardrail_refused"@,
            ErrorCode::Internal => "internal"@,
            ErrorCode::InvalidRequest => "invalid_request"@,
        }
    }

    /// The name of the code on the wire.
    pub fn wire_name(self) -> (r: String)
        ensures
            r@ == self.wire(),
    {
        match self {
            ErrorCode::NotFound => "not_found".to_string(),
            ErrorCode::Conflict => "conflict".to_string(),
            ErrorCode::GuardrailRefused => "guardrail_refused".to_string(),
            ErrorCode::Internal => "internal".to_string(),
            ErrorCode::InvalidRequest => "invalid_request".to_string(),
        }
    }
}

impl RepoInfo {
    /// A copy of the registration.
    pub fn copy(&self) -> (r: RepoInfo)
        ensures
            r == *self,
    {
        RepoInfo { id: RepoId(self.id.0.clone()), root: self.root.clone() }
    }
}

} // verus!
