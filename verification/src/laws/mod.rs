//! What the operations are for, stated of their inputs and results.
//!
//! A law of a whole operation speaks of a run: the states that it went through, the
//! reply that each was given, and the action that followed. That the functions of the
//! library make nothing but such runs is a law of its own for each of them.

use vstd::prelude::*;
use vstd::string::*;

#[allow(unused_imports)]
use crate::error::{EngineError, ErrorKind};
#[allow(unused_imports)]
use crate::lists::first_where;

pub mod history;
pub mod imports;
pub mod lifecycle;
pub mod printing;
pub mod pushes;
pub mod reading;
pub mod registering;
pub mod requests;
pub mod shown;
pub mod snapshots;
pub mod texts;
pub mod watching;
pub mod workspaces;

verus! {

/// The result is a failure of this kind that says this.
pub open spec fn fails<T>(r: Result<T, EngineError>, kind: ErrorKind, said: Seq<char>) -> bool {
    r matches Err(e) && e@.0 == kind && e@.1 == said
}

/// The result is this failure, as it came.
pub open spec fn passes_on<T>(r: Result<T, EngineError>, e: EngineError) -> bool {
    r matches Err(x) && x@.0 == e@.0 && x@.1 == e@.1
}

/// What is shown of a long id: its first twelve characters, or all of a shorter one.
pub open spec fn shows_start(shown: Seq<char>, full: Seq<char>) -> bool {
    &&& shown.is_prefix_of(full)
    &&& shown.len() == 12 || (shown.len() < 12 && shown.len() == full.len())
}

/// What is found first is found at an index before which nothing is.
pub(crate) proof fn first_has_an_index<T>(s: Seq<T>, p: spec_fn(T) -> bool) -> (k: int)
    ensures
        first_where(s, p) matches Some(x) ==> 0 <= k < s.len() && s[k] == x && p(x) && forall|j: int|
            0 <= j < k ==> !p(#[trigger] s[j]),
    decreases s.len(),
{
    if s.len() == 0 || p(s[0]) {
        0
    } else {
        let rest = s.skip(1);
        let k = first_has_an_index(rest, p);
        if first_where(rest, p) is Some {
            assert forall|j: int| 0 <= j < k + 1 implies !p(#[trigger] s[j]) by {
                if j > 0 {
                    assert(rest[j - 1] == s[j]);
                }
            }
        }
        k + 1
    }
}

/// What is seen of a failure is its kind and what it says.
pub proof fn failures_are_seen_as_they_are(m: String)
    ensures
        EngineError::NotFound(m)@ == (ErrorKind::NotFound, m@),
        EngineError::Guardrail(m)@ == (ErrorKind::Guardrail, m@),
        EngineError::Invalid(m)@ == (ErrorKind::Invalid, m@),
        EngineError::Conflict(m)@ == (ErrorKind::Conflict, m@),
        EngineError::Internal(m)@ == (ErrorKind::Internal, m@),
{
}

/// Context goes in front of what a failure says, and leaves its kind.
pub proof fn context_goes_in_front(e: EngineError, outer: &str, said: &str, r: EngineError)
    requires
        call_ensures(EngineError::context, (e, outer), r),
        call_ensures(EngineError::message, (&e,), said),
    ensures
        r@.0 == e@.0,
        r@.1 == outer@ + ": "@ + said@,
{
}

} // verus!
