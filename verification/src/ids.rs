//! The ids of commits and changes, and how they are shown.

use vstd::prelude::*;

use crate::text::head_of;
#[allow(unused_imports)]
use crate::text::head;

verus! {

/// The id of a commit.
#[derive(Debug, Clone, PartialEq)]
pub struct CommitId {
    pub bytes: Vec<u8>,
}

/// The id of a change, which stays when its commit is rewritten.
#[derive(Debug, Clone, PartialEq)]
pub struct ChangeId {
    pub bytes: Vec<u8>,
}

impl View for CommitId {
    type V = Seq<u8>;

    open spec fn view(&self) -> Seq<u8> {
        self.bytes@
    }
}

impl View for ChangeId {
    type V = Seq<u8>;

    open spec fn view(&self) -> Seq<u8> {
        self.bytes@
    }
}

/// The hexadecimal digit `d`.
pub open spec fn hex_digit(d: int) -> char {
    if d < 10 {
        (('0' as int) + d) as char
    } else {
        (('a' as int) + d - 10) as char
    }
}

/// The digit `d` in the alphabet that change ids are shown in: `z` for zero, and
/// backwards from there.
pub open spec fn reverse_hex_digit(d: int) -> char {
    (('z' as int) - d) as char
}

/// `bytes` in hexadecimal.
pub open spec fn hex_text(bytes: Seq<u8>) -> Seq<char> {
    Seq::new(
        2 * bytes.len(),
        |i: int|
            hex_digit(
                if i % 2 == 0 {
                    bytes[i / 2] as int / 16
                } else {
                    bytes[i / 2] as int % 16
                },
            ),
    )
}

/// `bytes` in the alphabet of change ids.
pub open spec fn reverse_hex_text(bytes: Seq<u8>) -> Seq<char> {
    Seq::new(
        2 * bytes.len(),
        |i: int|
            reverse_hex_digit(
                if i % 2 == 0 {
                    bytes[i / 2] as int / 16
                } else {
                    bytes[i / 2] as int % 16
                },
            ),
    )
}

/// `ObjectId::hex` of a jj commit id with these bytes: two digits per byte, the
/// high one first, from `0123456789abcdef`.
#[verifier::external_body]
fn jj_hex(bytes: &[u8]) -> (r: String)
    ensures
        r@ == hex_text(bytes@),
{
    jj_lib::object_id::ObjectId::hex(&jj_lib::backend::CommitId::from_bytes(bytes))
}

/// `ChangeId::reverse_hex` of a jj change id with these bytes: two digits per
/// byte, the high one first, from `zyxwvutsrqponmlk`.
#[verifier::external_body]
fn jj_reverse_hex(bytes: &[u8]) -> (r: String)
    ensures
        r@ == reverse_hex_text(bytes@),
{
    jj_lib::backend::ChangeId::from_bytes(bytes).reverse_hex()
}

fn copy_bytes(bytes: &Vec<u8>) -> (r: Vec<u8>)
    ensures
        r@ == bytes@,
{
    let mut out: Vec<u8> = Vec::new();
    out.extend_from_slice(bytes.as_slice());
    assert(out@ =~= bytes@);
    out
}

fn same_bytes(a: &Vec<u8>, b: &Vec<u8>) -> (r: bool)
    ensures
        r == (a@ == b@),
{
    if a.len() != b.len() {
        return false;
    }
    for i in 0..a.len()
        invariant
            a@.len() == b@.len(),
            forall|j: int| 0 <= j < i ==> a@[j] == b@[j],
    {
        if a[i] != b[i] {
            return false;
        }
    }
    assert(a@ =~= b@);
    true
}

impl CommitId {
    /// The id in hexadecimal.
    pub fn hex(&self) -> (r: String)
        ensures
            r@ == hex_text(self@),
    {
        jj_hex(self.bytes.as_slice())
    }

    /// Whether two ids are the same.
    pub fn is(&self, other: &CommitId) -> (r: bool)
        ensures
            r == (self@ == other@),
    {
        same_bytes(&self.bytes, &other.bytes)
    }

    /// A copy of the id.
    pub fn copy(&self) -> (r: CommitId)
        ensures
            r@ == self@,
    {
        CommitId { bytes: copy_bytes(&self.bytes) }
    }
}

/// The id of a tree.
#[derive(Debug, Clone, PartialEq)]
pub struct TreeId {
    pub bytes: Vec<u8>,
}

impl View for TreeId {
    type V = Seq<u8>;

    open spec fn view(&self) -> Seq<u8> {
        self.bytes@
    }
}

impl TreeId {
    /// Whether two ids are the same.
    pub fn is(&self, other: &TreeId) -> (r: bool)
        ensures
            r == (self@ == other@),
    {
        same_bytes(&self.bytes, &other.bytes)
    }
}

impl ChangeId {
    /// The id as it is shown.
    pub fn reverse_hex(&self) -> (r: String)
        ensures
            r@ == reverse_hex_text(self@),
    {
        jj_reverse_hex(self.bytes.as_slice())
    }
}

/// How many characters of an id a rendering shows.
pub const SHORT: usize = 12;

/// The start of a change id, as renderings show it.
pub fn short_change_id(id: &ChangeId) -> (r: String)
    ensures
        r@ == head(reverse_hex_text(id@), 12),
{
    head_of(id.reverse_hex().as_str(), SHORT)
}

/// The start of a commit id, as renderings show it.
pub fn short_commit_id(id: &CommitId) -> (r: String)
    ensures
        r@ == head(hex_text(id@), 12),
{
    head_of(id.hex().as_str(), SHORT)
}

proof fn hex_digits_differ(d: int, e: int)
    requires
        0 <= d < 16,
        0 <= e < 16,
    ensures
        hex_digit(d) == hex_digit(e) ==> d == e,
        reverse_hex_digit(d) == reverse_hex_digit(e) ==> d == e,
{
    assert(hex_digit(d) as int == if d < 10 {
        48 + d
    } else {
        87 + d
    });
    assert(hex_digit(e) as int == if e < 10 {
        48 + e
    } else {
        87 + e
    });
    assert(reverse_hex_digit(d) as int == 122 - d);
    assert(reverse_hex_digit(e) as int == 122 - e);
}

/// Commit ids that are shown alike in full are the same.
pub proof fn hex_is_injective(a: Seq<u8>, b: Seq<u8>)
    requires
        hex_text(a) == hex_text(b),
    ensures
        a == b,
{
    assert(hex_text(a).len() == 2 * a.len());
    assert(hex_text(b).len() == 2 * b.len());
    assert forall|k: int| 0 <= k < a.len() implies a[k] == b[k] by {
        assert(hex_text(a)[2 * k] == hex_text(b)[2 * k]);
        assert(hex_text(a)[2 * k + 1] == hex_text(b)[2 * k + 1]);
        assert((2 * k) / 2 == k && (2 * k + 1) / 2 == k);
        assert((2 * k) % 2 == 0 && (2 * k + 1) % 2 == 1);
        let (x, y) = (a[k] as int, b[k] as int);
        assert(hex_text(a)[2 * k] == hex_digit(x / 16));
        assert(hex_text(b)[2 * k] == hex_digit(y / 16));
        assert(hex_text(a)[2 * k + 1] == hex_digit(x % 16));
        assert(hex_text(b)[2 * k + 1] == hex_digit(y % 16));
        hex_digits_differ(x / 16, y / 16);
        hex_digits_differ(x % 16, y % 16);
    }
    assert(a =~= b);
}

/// Change ids that are shown alike in full are the same.
pub proof fn reverse_hex_is_injective(a: Seq<u8>, b: Seq<u8>)
    requires
        reverse_hex_text(a) == reverse_hex_text(b),
    ensures
        a == b,
{
    assert(reverse_hex_text(a).len() == 2 * a.len());
    assert(reverse_hex_text(b).len() == 2 * b.len());
    assert forall|k: int| 0 <= k < a.len() implies a[k] == b[k] by {
        assert(reverse_hex_text(a)[2 * k] == reverse_hex_text(b)[2 * k]);
        assert(reverse_hex_text(a)[2 * k + 1] == reverse_hex_text(b)[2 * k + 1]);
        assert((2 * k) / 2 == k && (2 * k + 1) / 2 == k);
        assert((2 * k) % 2 == 0 && (2 * k + 1) % 2 == 1);
        let (x, y) = (a[k] as int, b[k] as int);
        assert(reverse_hex_text(a)[2 * k] == reverse_hex_digit(x / 16));
        assert(reverse_hex_text(b)[2 * k] == reverse_hex_digit(y / 16));
        assert(reverse_hex_text(a)[2 * k + 1] == reverse_hex_digit(x % 16));
        assert(reverse_hex_text(b)[2 * k + 1] == reverse_hex_digit(y % 16));
        hex_digits_differ(x / 16, y / 16);
        hex_digits_differ(x % 16, y % 16);
    }
    assert(a =~= b);
}

} // verus!
