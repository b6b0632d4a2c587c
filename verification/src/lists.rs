//! Looking things up in lists.

use vstd::prelude::*;

#[allow(unused_imports)]
use crate::sort::Ordered;
#[allow(unused_imports)]
use crate::text::{text_before, text_le, text_le_total, text_le_transitive};

verus! {

/// The first value for which `p` holds.
pub open spec fn first_where<T>(s: Seq<T>, p: spec_fn(T) -> bool) -> Option<T>
    decreases s.len(),
{
    if s.len() == 0 {
        None
    } else if p(s[0]) {
        Some(s[0])
    } else {
        first_where(s.skip(1), p)
    }
}

/// The first value for which `p` holds is one of the list, and there is none only
/// if `p` holds of nothing.
pub proof fn first_where_is_there<T>(s: Seq<T>, p: spec_fn(T) -> bool)
    ensures
        match first_where(s, p) {
            Some(x) => s.contains(x) && p(x),
            None => forall|i: int| 0 <= i < s.len() ==> !p(#[trigger] s[i]),
        },
    decreases s.len(),
{
    if s.len() > 0 && !p(s[0]) {
        let rest = s.skip(1);
        first_where_is_there(rest, p);
        match first_where(rest, p) {
            Some(x) => {
                let i = choose|i: int| 0 <= i < rest.len() && rest[i] == x;
                assert(s[i + 1] == x);
            },
            None => {
                assert forall|i: int| 0 <= i < s.len() implies !p(#[trigger] s[i]) by {
                    if i > 0 {
                        assert(rest[i - 1] == s[i]);
                    }
                }
            },
        }
    }
}

/// Where `p` holds of one value alone, that value is found.
pub proof fn only_one_is_found<T>(s: Seq<T>, p: spec_fn(T) -> bool, k: int)
    requires
        0 <= k < s.len(),
        p(s[k]),
        forall|i: int| 0 <= i < s.len() && p(#[trigger] s[i]) ==> i == k,
    ensures
        first_where(s, p) == Some(s[k]),
{
    first_where_is_there(s, p);
}

/// A search that has passed over `i` values goes on with the rest.
pub(crate) proof fn search_goes_on<T>(s: Seq<T>, p: spec_fn(T) -> bool, i: int)
    requires
        0 <= i < s.len(),
    ensures
        first_where(s.skip(i), p) == if p(s[i]) {
            Some(s[i])
        } else {
            first_where(s.skip(i + 1), p)
        },
{
    assert(s.skip(i)[0] == s[i]);
    assert(s.skip(i).skip(1) =~= s.skip(i + 1));
}

/// Texts in the order of their characters.
impl Ordered for String {
    open spec fn le(self, other: String) -> bool {
        text_le(self@, other@)
    }

    proof fn le_total(a: String, b: String) {
        text_le_total(a@, b@);
    }

    proof fn le_transitive(a: String, b: String, c: String) {
        text_le_transitive(a@, b@, c@);
    }

    fn before(&self, other: &String) -> (r: bool) {
        text_before(self.as_str(), other.as_str())
    }
}

} // verus!
