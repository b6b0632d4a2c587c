//! What can go wrong in the engine.

use vstd::prelude::*;
use vstd::string::*;

verus! {

/// A failure of an engine operation, by what a caller is to make of it.
#[derive(Debug, Clone, PartialEq)]
pub enum EngineError {
    /// A named thing (workspace, revision, path in tree) does not exist.
    NotFound(String),
    /// An operation was refused by a guardrail.
    Guardrail(String),
    /// The request itself is bad (invalid workspace name, occupied
    /// destination, ...).
    Invalid(String),
    /// What was asked for is in conflict.
    Conflict(String),
    /// Anything else.
    Internal(String),
}

/// The kind of a failure, without its message.
pub enum ErrorKind {
    NotFound,
    Guardrail,
    Invalid,
    Conflict,
    Internal,
}

impl View for EngineError {
    type V = (ErrorKind, Seq<char>);

    open spec fn view(&self) -> (ErrorKind, Seq<char>) {
        match self {
            EngineError::NotFound(m) => (ErrorKind::NotFound, m@),
            EngineError::Guardrail(m) => (ErrorKind::Guardrail, m@),
            EngineError::Invalid(m) => (ErrorKind::Invalid, m@),
            EngineError::Conflict(m) => (ErrorKind::Conflict, m@),
            EngineError::Internal(m) => (ErrorKind::Internal, m@),
        }
    }
}

impl EngineError {
    /// What the failure says.
    pub fn message(&self) -> (r: &str)
        ensures
            r@ == self@.1,
    {
        match self {
            EngineError::NotFound(m) => m.as_str(),
            EngineError::Guardrail(m) => m.as_str(),
            EngineError::Invalid(m) => m.as_str(),
            EngineError::Conflict(m) => m.as_str(),
            EngineError::Internal(m) => m.as_str(),
        }
    }

    /// The same failure, with what else went wrong in front of what it says.
    pub fn context(self, outer: &str) -> (r: EngineError)
        ensures
            r@ == (self@.0, outer@ + ": "@ + self@.1),
    {
        let said = outer.to_string().concat(": ").concat(self.message());
        match self {
            EngineError::NotFound(_) => EngineError::NotFound(said),
            EngineError::Guardrail(_) => EngineError::Guardrail(said),
            EngineError::Invalid(_) => EngineError::Invalid(said),
            EngineError::Conflict(_) => EngineError::Conflict(said),
            EngineError::Internal(_) => EngineError::Internal(said),
        }
    }
}

/// A failure to register a repo.
#[derive(Debug, Clone, PartialEq)]
pub enum RegisterError {
    /// The request itself is bad (nonexistent path, not a git repo, ...).
    Invalid(String),
    /// Anything else.
    Internal(String),
}

} // verus!
