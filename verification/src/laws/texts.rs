//! What the helpers for texts and paths make of their arguments.

use vstd::prelude::*;
use vstd::string::*;

#[allow(unused_imports)]
use crate::files::repo_path;
#[allow(unused_imports)]
use crate::git::{git_stdout, ref_is_listed, ProcessOutput};
#[allow(unused_imports)]
use crate::error::{EngineError, ErrorKind};
#[allow(unused_imports)]
use crate::ids::{short_change_id, short_commit_id, ChangeId, CommitId, TreeId};
#[allow(unused_imports)]
use crate::laws::{fails, shows_start};
#[allow(unused_imports)]
use crate::paths::{
    components, components_of, depth_of, file_name_of, is_absolute, is_same_path, join_path,
    lies_within, named,
};
#[allow(unused_imports)]
use crate::text::{
    blank, chars_of, decimal, decimal_of, has_char, head_of, is_white_space, join, joined, lines,
    lines_of, lossy_text, same, split, split_at_char, split_is_not_empty, starts_with, string_of,
    text_before, text_le, texts, trim, trim_end, trim_end_of, trimmed, white_space, without_cr,
};

verus! {

/// One text is a part of the start of the other, or stands before it by the first
/// character in which they differ.
pub open spec fn stands_before(a: Seq<char>, b: Seq<char>) -> bool {
    ||| a.is_prefix_of(b)
    ||| exists|n: int|
        0 <= n < a.len() && n < b.len() && a.take(n) == b.take(n) && (#[trigger] a[n]) < b[n]
}

/// The order of texts is that of the first characters in which they differ.
pub proof fn order_is_by_first_difference(a: Seq<char>, b: Seq<char>)
    ensures
        text_le(a, b) == stands_before(a, b),
    decreases a.len(),
{
    if a.len() == 0 {
        assert(a =~= b.subrange(0, 0));
    } else if b.len() == 0 {
    } else if a[0] != b[0] {
        if a[0] < b[0] {
            assert(a.take(0) =~= b.take(0));
        }
        if a.is_prefix_of(b) {
            assert(a[0] == b.subrange(0, a.len() as int)[0]);
        }
        if exists|n: int|
            0 <= n < a.len() && n < b.len() && a.take(n) == b.take(n) && (#[trigger] a[n]) < b[n] {
            let n = choose|n: int|
                0 <= n < a.len() && n < b.len() && a.take(n) == b.take(n) && (#[trigger] a[n])
                    < b[n];
            if n > 0 {
                assert(a.take(n)[0] == b.take(n)[0]);
            }
        }
    } else {
        let (x, y) = (a.drop_first(), b.drop_first());
        order_is_by_first_difference(x, y);
        if x.is_prefix_of(y) {
            assert(a =~= b.subrange(0, a.len() as int)) by {
                assert forall|i: int| 0 <= i < a.len() implies a[i] == b[i] by {
                    if i > 0 {
                        assert(x[i - 1] == y.subrange(0, x.len() as int)[i - 1]);
                    }
                }
            }
        } else if exists|n: int|
            0 <= n < x.len() && n < y.len() && x.take(n) == y.take(n) && (#[trigger] x[n]) < y[n] {
            let n = choose|n: int|
                0 <= n < x.len() && n < y.len() && x.take(n) == y.take(n) && (#[trigger] x[n])
                    < y[n];
            assert(a.take(n + 1) =~= b.take(n + 1)) by {
                assert forall|i: int| 0 <= i < n + 1 implies a[i] == b[i] by {
                    if i > 0 {
                        assert(x.take(n)[i - 1] == y.take(n)[i - 1]);
                    }
                }
            }
            assert(a[n + 1] < b[n + 1]);
        }
        if a.is_prefix_of(b) {
            assert(x =~= y.subrange(0, x.len() as int)) by {
                assert forall|i: int| 0 <= i < x.len() implies x[i] == y[i] by {
                    assert(a[i + 1] == b.subrange(0, a.len() as int)[i + 1]);
                }
            }
        } else if exists|n: int|
            0 <= n < a.len() && n < b.len() && a.take(n) == b.take(n) && (#[trigger] a[n]) < b[n] {
            let n = choose|n: int|
                0 <= n < a.len() && n < b.len() && a.take(n) == b.take(n) && (#[trigger] a[n])
                    < b[n];
            assert(n > 0);
            assert(x.take(n - 1) =~= y.take(n - 1)) by {
                assert forall|i: int| 0 <= i < n - 1 implies x[i] == y[i] by {
                    assert(a.take(n)[i + 1] == b.take(n)[i + 1]);
                }
            }
            assert(x[n - 1] < y[n - 1]);
        }
    }
}

/// Texts are put in order by the first character in which they differ.
pub proof fn texts_are_compared_by_characters(a: &str, b: &str, r: bool)
    requires
        call_ensures(text_before, (a, b), r),
    ensures
        r == stands_before(a@, b@),
{
    order_is_by_first_difference(a@, b@);
}

/// Trimming takes white space from both ends, all of it and nothing else.
pub proof fn trimming_takes_the_ends(s: &str, r: String) -> (cut: (int, int))
    requires
        call_ensures(trim, (s,), r),
    ensures
        0 <= cut.0 <= cut.1 <= s@.len(),
        r@ == s@.subrange(cut.0, cut.1),
        forall|i: int| 0 <= i < cut.0 || cut.1 <= i < s@.len() ==> white_space(#[trigger] s@[i]),
        r@.len() > 0 ==> !white_space(r@[0]) && !white_space(r@.last()),
{
    trim_cuts(s@)
}

pub(crate) proof fn trim_cuts(s: Seq<char>) -> (cut: (int, int))
    ensures
        0 <= cut.0 <= cut.1 <= s.len(),
        trimmed(s) == s.subrange(cut.0, cut.1),
        forall|i: int| 0 <= i < cut.0 || cut.1 <= i < s.len() ==> white_space(#[trigger] s[i]),
        trimmed(s).len() > 0 ==> !white_space(trimmed(s)[0]) && !white_space(trimmed(s).last()),
    decreases s.len(),
{
    if s.len() > 0 && white_space(s[0]) {
        let rest = s.drop_first();
        let c = trim_cuts(rest);
        assert(s.subrange(c.0 + 1, c.1 + 1) =~= rest.subrange(c.0, c.1));
        assert forall|i: int| 0 <= i < c.0 + 1 || c.1 + 1 <= i < s.len() implies white_space(
            #[trigger] s[i],
        ) by {
            if i > 0 {
                assert(rest[i - 1] == s[i]);
            }
        }
        (c.0 + 1, c.1 + 1)
    } else {
        let n = trim_end_cut(s);
        assert(s.subrange(0, n) =~= s.take(n));
        if trimmed(s).len() > 0 {
            assert(trimmed(s)[0] == s[0]);
        }
        (0, n)
    }
}

pub(crate) proof fn trim_end_cut(s: Seq<char>) -> (n: int)
    ensures
        0 <= n <= s.len(),
        trim_end(s) == s.take(n),
        forall|i: int| n <= i < s.len() ==> white_space(#[trigger] s[i]),
        n > 0 ==> !white_space(s[n - 1]),
    decreases s.len(),
{
    if s.len() > 0 && white_space(s.last()) {
        let n = trim_end_cut(s.drop_last());
        assert(s.drop_last().take(n) =~= s.take(n));
        assert forall|i: int| n <= i < s.len() implies white_space(#[trigger] s[i]) by {
            if i < s.len() - 1 {
                assert(s.drop_last()[i] == s[i]);
            }
        }
        n
    } else {
        assert(s.take(s.len() as int) =~= s);
        s.len() as int
    }
}

/// Trimming the end takes the white space there, all of it and nothing else.
pub proof fn end_trimming_takes_the_end(s: &str, r: String) -> (n: int)
    requires
        call_ensures(trim_end_of, (s,), r),
    ensures
        0 <= n <= s@.len(),
        r@ == s@.take(n),
        forall|i: int| n <= i < s@.len() ==> white_space(#[trigger] s@[i]),
        r@.len() > 0 ==> !white_space(r@.last()),
{
    let n = trim_end_cut(s@);
    if n > 0 {
        assert(s@.take(n).last() == s@[n - 1]);
    }
    n
}

/// White space is found as white space: the blank, what moves the carriage, and the
/// separators that Unicode names.
pub proof fn white_space_is_known(c: char, r: bool)
    requires
        call_ensures(is_white_space, (c,), r),
    ensures
        r <==> (c == ' ' || c == '\t' || c == '\n' || c == '\u{b}' || c == '\u{c}' || c == '\r' || c
            == '\u{85}' || c == '\u{a0}' || c == '\u{1680}' || (8192 <= c as int <= 8202) || (8232
            <= c as int <= 8233) || c == '\u{202f}' || c == '\u{205f}' || c == '\u{3000}'),
{
}

/// A piece without the separator, behind a text and the separator, is its last piece.
pub(crate) proof fn split_behind(a: Seq<char>, b: Seq<char>, sep: char)
    requires
        !b.contains(sep),
    ensures
        split(a.push(sep) + b, sep) == split(a, sep).push(b),
    decreases b.len(),
{
    let all = a.push(sep) + b;
    if b.len() == 0 {
        assert(all =~= a.push(sep));
        assert(all.drop_last() =~= a);
        assert(b =~= Seq::empty());
    } else {
        let c = b.drop_last();
        assert(!c.contains(sep)) by {
            if c.contains(sep) {
                let i = choose|i: int| 0 <= i < c.len() && c[i] == sep;
                assert(b[i] == sep);
            }
        }
        split_behind(a, c, sep);
        assert(all.drop_last() =~= a.push(sep) + c);
        assert(all.last() == b.last());
        assert(b.contains(b.last())) by {
            assert(b[b.len() - 1] == b.last());
        }
        assert(c.push(b.last()) =~= b);
        assert(split(all, sep) =~= split(a, sep).push(b));
    }
}

/// A text without the separator is one piece.
pub(crate) proof fn split_of_one(b: Seq<char>, sep: char)
    requires
        !b.contains(sep),
    ensures
        split(b, sep) == seq![b],
    decreases b.len(),
{
    if b.len() == 0 {
        assert(b =~= Seq::empty());
    } else {
        let c = b.drop_last();
        assert(!c.contains(sep)) by {
            if c.contains(sep) {
                let i = choose|i: int| 0 <= i < c.len() && c[i] == sep;
                assert(b[i] == sep);
            }
        }
        split_of_one(c, sep);
        assert(b[b.len() - 1] == b.last());
        assert(c.push(b.last()) =~= b);
        assert(split(b, sep) =~= seq![b]);
    }
}

/// A text is cut at every separator: what has none is one piece, and a separator with a
/// piece behind it adds that piece.
pub proof fn cuts_are_at_separators(
    a: &str,
    b: &str,
    whole: &str,
    sep: char,
    front: Vec<String>,
    r: Vec<String>,
)
    requires
        !b@.contains(sep),
        call_ensures(split_at_char, (a, sep), front),
        call_ensures(split_at_char, (whole, sep), r),
    ensures
        whole@ == b@ ==> texts(r@) == seq![b@],
        whole@ == a@.push(sep) + b@ ==> texts(r@) == texts(front@).push(b@),
{
    split_of_one(b@, sep);
    split_behind(a@, b@, sep);
}

/// The lines of a text: one without a line feed is a line itself, if there is anything
/// of it; and behind a line feed the lines of the rest follow, the carriage return that
/// stands before a line feed being no part of the line.
pub proof fn lines_end_at_line_feeds(
    a: &str,
    b: &str,
    whole: &str,
    front: Vec<String>,
    r: Vec<String>,
)
    requires
        !b@.contains('\n'),
        call_ensures(lines_of, (a,), front),
        call_ensures(lines_of, (whole,), r),
    ensures
        whole@ == b@ ==> texts(r@) == if b@.len() == 0 {
            Seq::<Seq<char>>::empty()
        } else {
            seq![b@]
        },
        whole@ == b@.push('\n') ==> texts(r@) == seq![
            if b@.len() > 0 && b@.last() == '\r' {
                b@.drop_last()
            } else {
                b@
            },
        ],
        a@.len() > 0 && a@.last() == '\n' && whole@ == a@ + b@ && b@.len() > 0 ==> texts(r@)
            == texts(front@).push(b@),
        a@.len() > 0 && a@.last() == '\n' && whole@ == (a@ + b@).push('\n') ==> texts(r@)
            == texts(front@).push(
            if b@.len() > 0 && b@.last() == '\r' {
                b@.drop_last()
            } else {
                b@
            },
        ),
{
    let none = Seq::<Seq<char>>::empty();
    let cut = |l: Seq<char>| without_cr(l);
    split_of_one(b@, '\n');
    split_behind(b@, Seq::empty(), '\n');
    assert(b@.push('\n') + Seq::<char>::empty() =~= b@.push('\n'));
    assert(split(b@.push('\n'), '\n') == seq![b@].push(Seq::empty()));
    assert(seq![b@].drop_last() =~= none);
    assert(none.map_values(cut) =~= none);
    assert(lines(b@) =~= if b@.len() == 0 {
        none
    } else {
        seq![b@]
    });
    assert(seq![b@].push(Seq::empty()).drop_last() =~= seq![b@]);
    assert(lines(b@.push('\n')) =~= seq![without_cr(b@)]);
    if a@.len() > 0 && a@.last() == '\n' {
        let t = a@.drop_last();
        assert(a@ =~= t.push('\n'));
        split_behind(t, Seq::empty(), '\n');
        assert(t.push('\n') + Seq::<char>::empty() =~= a@);
        let pieces = split(t, '\n');
        assert(pieces.push(Seq::empty()).drop_last() =~= pieces);
        assert(lines(a@) == pieces.map_values(cut));
        split_behind(t, b@, '\n');
        assert(t.push('\n') + b@ =~= a@ + b@);
        assert(pieces.push(b@).drop_last() =~= pieces);
        let whole_line = (a@ + b@).push('\n');
        split_behind(a@ + b@, Seq::empty(), '\n');
        assert(whole_line + Seq::<char>::empty() =~= whole_line);
        assert(split(whole_line, '\n') == pieces.push(b@).push(Seq::empty()));
        assert(pieces.push(b@).push(Seq::empty()).drop_last() =~= pieces.push(b@));
        assert(pieces.push(b@).map_values(cut) =~= pieces.map_values(cut).push(without_cr(b@)));
    }
}

/// To join is to put the separator between neighbours.
pub proof fn joining_puts_separators_between(
    parts: &Vec<String>,
    more: &Vec<String>,
    last: String,
    sep: &str,
    front: String,
    r: String,
)
    requires
        more@ == parts@.push(last),
        call_ensures(join, (parts, sep), front),
        call_ensures(join, (more, sep), r),
    ensures
        parts@.len() == 0 ==> front@.len() == 0 && r@ == last@,
        parts@.len() > 0 ==> r@ == front@ + sep@ + last@,
{
    assert(texts(more@) =~= texts(parts@).push(last@));
    assert(texts(more@).drop_last() =~= texts(parts@));
}

/// The number that decimal digits stand for.
pub open spec fn read_decimal(s: Seq<char>) -> int
    decreases s.len(),
{
    if s.len() == 0 {
        0
    } else {
        10 * read_decimal(s.drop_last()) + (s.last() as int - '0' as int)
    }
}

/// A number is written in digits that stand for it, without a zero in front.
pub proof fn numbers_are_written_in_decimal(n: u128, r: String)
    requires
        call_ensures(decimal_of, (n,), r),
    ensures
        read_decimal(r@) == n,
        r@.len() > 0,
        forall|i: int| 0 <= i < r@.len() ==> '0' <= #[trigger] r@[i] <= '9',
        r@.len() > 1 ==> r@[0] != '0',
{
    decimal_reads_back(n as nat);
}

proof fn decimal_reads_back(n: nat)
    ensures
        read_decimal(decimal(n)) == n,
        decimal(n).len() > 0,
        forall|i: int| 0 <= i < decimal(n).len() ==> '0' <= #[trigger] decimal(n)[i] <= '9',
        n > 0 ==> decimal(n)[0] != '0',
        n < 10 ==> decimal(n).len() == 1,
    decreases n,
{
    let s = decimal(n);
    assert(crate::text::digit((n % 10) as int) as int == '0' as int + n % 10);
    if n < 10 {
        assert(s.drop_last() =~= Seq::empty());
        assert(read_decimal(s.drop_last()) == 0);
    } else {
        decimal_reads_back(n / 10);
        assert(s.drop_last() =~= decimal(n / 10));
        assert(s.last() == crate::text::digit((n % 10) as int));
    }
}

/// The head of a text is its start, as long as was asked for or the whole of it.
pub proof fn heads_are_starts(s: &str, n: usize, r: String)
    requires
        call_ensures(head_of, (s, n), r),
    ensures
        r@.is_prefix_of(s@),
        r@.len() == if s@.len() < n {
            s@.len()
        } else {
            n as nat
        },
{
}

/// Texts are the same, contain a character and start with another as one reads them.
pub proof fn texts_are_what_they_hold(a: &str, b: &str, c: char, r: bool)
    ensures
        call_ensures(same, (a, b), r) ==> r == (a@ == b@),
        call_ensures(has_char, (a, c), r) ==> r == exists|i: int|
            0 <= i < a@.len() && #[trigger] a@[i] == c,
        call_ensures(starts_with, (a, b), r) ==> r == (b@.len() <= a@.len() && forall|i: int|
            0 <= i < b@.len() ==> a@[i] == #[trigger] b@[i]),
{
    if b@.len() <= a@.len() && forall|i: int| 0 <= i < b@.len() ==> a@[i] == #[trigger] b@[i] {
        assert(b@ =~= a@.subrange(0, b@.len() as int));
    }
    if b@.is_prefix_of(a@) {
        assert forall|i: int| 0 <= i < b@.len() implies a@[i] == #[trigger] b@[i] by {
            assert(a@.subrange(0, b@.len() as int)[i] == b@[i]);
        }
    }
}

/// A commit id is shown in hexadecimal, a change id in the letters from `z` down to `k`,
/// two characters for every byte, the high half first.
pub proof fn ids_are_shown_by_halves(
    commit: &CommitId,
    change: &ChangeId,
    hex: String,
    letters: String,
    k: int,
)
    requires
        call_ensures(CommitId::hex, (commit,), hex),
        call_ensures(ChangeId::reverse_hex, (change,), letters),
    ensures
        hex@.len() == 2 * commit.bytes@.len(),
        letters@.len() == 2 * change.bytes@.len(),
        0 <= k < commit.bytes@.len() ==> hex@[2 * k] == "0123456789abcdef"@[commit.bytes@[k] as int
            / 16] && hex@[2 * k + 1] == "0123456789abcdef"@[commit.bytes@[k] as int % 16],
        0 <= k < change.bytes@.len() ==> letters@[2 * k] == "zyxwvutsrqponmlk"@[change.bytes@[k] as int
            / 16] && letters@[2 * k + 1] == "zyxwvutsrqponmlk"@[change.bytes@[k] as int % 16],
{
    reveal_strlit("0123456789abcdef");
    reveal_strlit("zyxwvutsrqponmlk");
    assert((2 * k) / 2 == k && (2 * k + 1) / 2 == k && (2 * k) % 2 == 0 && (2 * k + 1) % 2 == 1);
    if 0 <= k < commit.bytes@.len() {
        digits_are_these(commit.bytes@[k] as int / 16);
        digits_are_these(commit.bytes@[k] as int % 16);
    }
    if 0 <= k < change.bytes@.len() {
        digits_are_these(change.bytes@[k] as int / 16);
        digits_are_these(change.bytes@[k] as int % 16);
    }
}

proof fn digits_are_these(d: int)
    requires
        0 <= d < 16,
    ensures
        crate::ids::hex_digit(d) == "0123456789abcdef"@[d],
        crate::ids::reverse_hex_digit(d) == "zyxwvutsrqponmlk"@[d],
{
    reveal_strlit("0123456789abcdef");
    reveal_strlit("zyxwvutsrqponmlk");
}

/// Short ids are the start of the long ones; ids are the same by their bytes, and a copy
/// is the same.
pub proof fn short_ids_are_starts(
    commit: &CommitId,
    other: &CommitId,
    change: &ChangeId,
    hex: String,
    letters: String,
    short: String,
    copy: CommitId,
    same: bool,
)
    requires
        call_ensures(CommitId::hex, (commit,), hex),
        call_ensures(ChangeId::reverse_hex, (change,), letters),
    ensures
        call_ensures(short_commit_id, (commit,), short) ==> shows_start(short@, hex@),
        call_ensures(short_change_id, (change,), short) ==> shows_start(short@, letters@),
        call_ensures(CommitId::copy, (commit,), copy) ==> copy.bytes@ == commit.bytes@,
        call_ensures(CommitId::is, (commit, other), same) ==> same == (commit.bytes@
            == other.bytes@),
{
}

/// Trees are the same by the bytes of their ids.
pub proof fn tree_ids_are_their_bytes(a: &TreeId, b: &TreeId, r: bool)
    requires
        call_ensures(TreeId::is, (a, b), r),
    ensures
        r == (a.bytes@ == b.bytes@),
{
}

/// A failed git says what it was run with and what it printed on standard error; one
/// that went well gives what it printed on standard output.
pub proof fn git_is_heard(
    args: &Vec<String>,
    out: &ProcessOutput,
    words: String,
    said: String,
    stderr: &str,
    r: Result<String, EngineError>,
)
    requires
        call_ensures(git_stdout, (args, out), r),
        call_ensures(join, (args, " "), words),
        stderr@ == lossy_text(out.stderr@),
        call_ensures(trim_end_of, (stderr,), said),
    ensures
        r is Ok <==> out.success,
        r matches Ok(s) ==> s@ == lossy_text(out.stdout@),
        r is Err ==> fails(
            r,
            ErrorKind::Internal,
            "git "@ + words@ + " failed: "@ + said@,
        ),
{
}

/// A listing of one line, an object id, a tab and a name, lists that name and no other;
/// and a listing of several lists what its lines do.
pub proof fn listings_list_whole_names(
    oid: Seq<char>,
    name: Seq<char>,
    rest: Seq<char>,
    printed: &str,
    after: &str,
    asked: &str,
    r: bool,
    rest_lists: bool,
)
    requires
        !oid.contains('\t'),
        !oid.contains('\n'),
        !name.contains('\t'),
        !name.contains('\n'),
        name.len() > 0,
        name.last() != '\r',
        call_ensures(ref_is_listed, (printed, asked), r),
        call_ensures(ref_is_listed, (after, asked), rest_lists),
    ensures
        printed@.len() == 0 ==> !r,
        printed@ == oid.push('\t') + name ==> r == (asked@ == name),
        printed@ == (oid.push('\t') + name).push('\n') ==> r == (asked@ == name),
        after@.len() > 0 && after@.last() == '\n' && printed@ == (after@ + (oid.push('\t') + name)).push(
            '\n',
        ) ==> r == (rest_lists || asked@ == name),
{
    let line = oid.push('\t') + name;
    split_of_one(oid, '\t');
    split_behind(oid, name, '\t');
    assert(split(line, '\t')[1] == name);
    assert(!line.contains('\n')) by {
        if line.contains('\n') {
            let i = choose|i: int| 0 <= i < line.len() && line[i] == '\n';
            if i < oid.len() {
                assert(oid[i] == '\n');
            } else if i > oid.len() {
                assert(name[i - oid.len() - 1] == '\n');
            }
        }
    }
    lines_of_a_listing(line, after@);
    assert(line.last() == name.last());
    if printed@.len() == 0 {
        assert(printed@ =~= Seq::empty());
        assert(lines(printed@).len() == 0) by {
            lines_of_a_listing(Seq::empty(), Seq::empty());
        }
    }
    if printed@ == line || printed@ == line.push('\n') {
        assert(lines(printed@) == seq![line]);
        assert(lines(printed@)[0] == line);
        if asked@ == name {
            assert(crate::git::line_is_about(lines(printed@)[0], asked@));
        }
    }
    if after@.len() > 0 && after@.last() == '\n' && printed@ == (after@ + line).push('\n') {
        let (x, y) = (lines(after@), lines(printed@));
        assert(y == x.push(line));
        if rest_lists {
            let i = choose|i: int| 0 <= i < x.len() && crate::git::line_is_about(#[trigger] x[i], asked@);
            assert(y[i] == x[i]);
        }
        if asked@ == name {
            assert(crate::git::line_is_about(y[y.len() - 1], asked@));
        }
        if r {
            let i = choose|i: int| 0 <= i < y.len() && crate::git::line_is_about(#[trigger] y[i], asked@);
            if i < x.len() {
                assert(x[i] == y[i]);
            }
        }
    }
}

pub(crate) proof fn lines_of_a_listing(b: Seq<char>, a: Seq<char>)
    requires
        !b.contains('\n'),
        b.len() > 0 ==> b.last() != '\r',
    ensures
        b.len() == 0 ==> lines(b) == Seq::<Seq<char>>::empty(),
        b.len() > 0 ==> lines(b) == seq![b],
        lines(b.push('\n')) == seq![b],
        a.len() > 0 && a.last() == '\n' ==> lines((a + b).push('\n')) == lines(a).push(b),
{
    let none = Seq::<Seq<char>>::empty();
    let cut = |l: Seq<char>| without_cr(l);
    split_of_one(b, '\n');
    split_behind(b, Seq::empty(), '\n');
    assert(b.push('\n') + Seq::<char>::empty() =~= b.push('\n'));
    assert(seq![b].drop_last() =~= none);
    assert(none.map_values(cut) =~= none);
    assert(seq![b].push(Seq::empty()).drop_last() =~= seq![b]);
    assert(lines(b.push('\n')) =~= seq![without_cr(b)]);
    if b.len() > 0 {
        assert(lines(b) =~= seq![b]);
    }
    if a.len() > 0 && a.last() == '\n' {
        let t = a.drop_last();
        assert(a =~= t.push('\n'));
        split_behind(t, Seq::empty(), '\n');
        assert(t.push('\n') + Seq::<char>::empty() =~= a);
        let pieces = split(t, '\n');
        assert(pieces.push(Seq::empty()).drop_last() =~= pieces);
        split_behind(t, b, '\n');
        assert(t.push('\n') + b =~= a + b);
        let whole_line = (a + b).push('\n');
        split_behind(a + b, Seq::empty(), '\n');
        assert(whole_line + Seq::<char>::empty() =~= whole_line);
        assert(pieces.push(b).push(Seq::empty()).drop_last() =~= pieces.push(b));
        assert(pieces.push(b).map_values(cut) =~= pieces.map_values(cut).push(without_cr(b)));
    }
}

/// A path in a repo is nothing, or has nothing but names between its separators.
pub proof fn repo_paths_have_no_empty_piece(a: Seq<char>, b: Seq<char>)
    requires
        !b.contains('/'),
    ensures
        repo_path(b),
        b.len() == 0 ==> !repo_path(a.push('/') + b),
        a.len() > 0 && b.len() > 0 ==> repo_path(a.push('/') + b) == repo_path(a),
        a.len() == 0 ==> !repo_path(a.push('/') + b),
{
    let s = a.push('/') + b;
    assert(forall|i: int| 0 <= i < b.len() ==> b[i] != '/') by {
        assert forall|i: int| 0 <= i < b.len() implies b[i] != '/' by {
            if b[i] == '/' {
                assert(b.contains('/'));
            }
        }
    }
    assert(s[a.len() as int] == '/');
    assert(forall|i: int| 0 <= i < a.len() ==> s[i] == a[i]);
    assert(forall|i: int| a.len() < i < s.len() ==> s[i] == b[i - a.len() - 1]);
    if a.len() > 0 && b.len() > 0 {
        if repo_path(a) {
            assert forall|i: int| 0 <= i < s.len() - 1 implies !(#[trigger] s[i] == '/' && s[i + 1]
                == '/') by {
                if i + 1 < a.len() {
                    assert(!(a[i] == '/' && a[i + 1] == '/'));
                }
            }
        }
        if repo_path(s) {
            assert forall|i: int| 0 <= i < a.len() - 1 implies !(#[trigger] a[i] == '/' && a[i + 1]
                == '/') by {
                assert(!(s[i] == '/' && s[i + 1] == '/'));
            }
            assert(a.last() != '/') by {
                if a.last() == '/' {
                    assert(s[a.len() - 1] == '/' && s[a.len() - 1 + 1] == '/');
                }
            }
        }
    }
}

/// A text is its characters, and is made of them.
pub proof fn texts_are_their_characters(s: &str, chars: Vec<char>, slice: &[char], r: String)
    ensures
        call_ensures(chars_of, (s,), chars) ==> chars@ == s@,
        call_ensures(string_of, (slice,), r) ==> r@ == slice@,
{
}

/// A path begins at the root where it begins with a separator.
pub proof fn absolute_paths_begin_with_a_separator(path: &str, r: bool)
    requires
        call_ensures(is_absolute, (path,), r),
    ensures
        r <==> path@.len() > 0 && path@[0] == '/',
{
}

/// What a path joined with another is: the other where that begins at the root, and else
/// the one, a separator where it does not end in one, and the other.
pub proof fn joined_paths_are_read_from_the_first(base: &str, rest: &str, r: String)
    requires
        call_ensures(join_path, (base, rest), r),
    ensures
        rest@.len() > 0 && rest@[0] == '/' ==> r@ == rest@,
        !(rest@.len() > 0 && rest@[0] == '/') && base@.len() == 0 ==> r@ == rest@,
        !(rest@.len() > 0 && rest@[0] == '/') && base@.len() > 0 && base@.last() == '/' ==> r@
            == base@ + rest@,
        !(rest@.len() > 0 && rest@[0] == '/') && base@.len() > 0 && base@.last() != '/' ==> r@
            == base@ + "/"@ + rest@,
{
    reveal_strlit("/");
    assert("/"@ =~= seq!['/']);
    assert(Seq::<char>::empty() + rest@ =~= rest@);
    if base@.len() == 0 {
        assert(base@ =~= Seq::empty());
    }
}

/// The components of a path, by the separators in it: a name behind a separator is one
/// more component; nothing there, or a dot, is none; the separator that a path begins
/// with is one, and so is a dot at its start.
pub proof fn components_are_the_names(
    a: &str,
    b: &str,
    whole: &str,
    front: Vec<String>,
    r: Vec<String>,
)
    requires
        !b@.contains('/'),
        call_ensures(components_of, (a,), front),
        call_ensures(components_of, (whole,), r),
    ensures
        whole@ == b@ ==> texts(r@) == if b@.len() == 0 {
            Seq::<Seq<char>>::empty()
        } else {
            seq![b@]
        },
        whole@ == "/"@ + b@ ==> texts(r@) == if b@.len() == 0 || b@ == "."@ {
            seq!["/"@]
        } else {
            seq!["/"@, b@]
        },
        a@.len() > 0 && whole@ == a@ + "/"@ + b@ ==> texts(r@) == if b@.len() == 0 || b@ == "."@ {
            texts(front@)
        } else {
            texts(front@).push(b@)
        },
{
    reveal_strlit("/");
    reveal_strlit(".");
    assert("/"@ =~= seq!['/']);
    assert("."@ =~= seq!['.']);
    let keep = |p: Seq<char>| named(p);
    reveal(Seq::filter);
    reveal_with_fuel(Seq::filter, 3);
    let none = Seq::<Seq<char>>::empty();
    let nothing = Seq::<char>::empty();
    assert(none.filter(keep) =~= none);
    split_of_one(b@, '/');
    if whole@ == b@ {
        assert(seq![b@].drop_last() =~= none);
        if b@.len() > 0 {
            assert(b@[0] != '/') by {
                if b@[0] == '/' {
                    assert(b@.contains('/'));
                }
            }
        } else {
            assert(b@ =~= nothing);
        }
        assert(components(b@) =~= if b@.len() == 0 {
            none
        } else {
            seq![b@]
        });
    }
    if whole@ == "/"@ + b@ {
        split_behind(nothing, b@, '/');
        assert(nothing.push('/') + b@ =~= whole@);
        assert(split(nothing, '/') == seq![nothing]);
        assert(split(whole@, '/') == seq![nothing].push(b@));
        assert(seq![nothing].push(b@).drop_last() =~= seq![nothing]);
        assert(seq![nothing].drop_last() =~= none);
        assert(!named(nothing));
        assert(seq![nothing].filter(keep) =~= none);
        assert(whole@[0] == '/');
        assert(components(whole@) =~= if b@.len() == 0 || b@ == "."@ {
            seq!["/"@]
        } else {
            seq!["/"@, b@]
        });
    }
    if a@.len() > 0 && whole@ == a@ + "/"@ + b@ {
        split_behind(a@, b@, '/');
        assert(a@.push('/') + b@ =~= whole@);
        split_is_not_empty(a@, '/');
        let pieces = split(a@, '/');
        assert(split(whole@, '/')[0] == pieces[0]);
        assert(whole@[0] == a@[0]);
        assert(pieces.push(b@).drop_last() =~= pieces);
        assert(split(whole@, '/').filter(keep) =~= if named(b@) {
            pieces.filter(keep).push(b@)
        } else {
            pieces.filter(keep)
        });
        if b@.len() == 0 {
            assert(!named(b@));
        }
        assert(components(whole@) =~= if b@.len() == 0 || b@ == "."@ {
            components(a@)
        } else {
            components(a@).push(b@)
        });
    }
}

/// What is said of paths is said of their components: one lies in another whose
/// components it begins with, they are the same where these are, a path is as deep as it
/// has components, and its name is the last one, if that names anything.
pub proof fn paths_are_their_components(
    a: &str,
    b: &str,
    x: Vec<String>,
    y: Vec<String>,
    r: bool,
    depth: usize,
    name: Option<String>,
)
    requires
        call_ensures(components_of, (a,), x),
        call_ensures(components_of, (b,), y),
    ensures
        call_ensures(lies_within, (a, b), r) ==> r == (y@.len() <= x@.len() && forall|i: int|
            0 <= i < y@.len() ==> (#[trigger] y@[i])@ == x@[i]@),
        call_ensures(is_same_path, (a, b), r) ==> r == (y@.len() == x@.len() && forall|i: int|
            0 <= i < y@.len() ==> (#[trigger] y@[i])@ == x@[i]@),
        call_ensures(depth_of, (a,), depth) ==> depth == x@.len(),
        call_ensures(file_name_of, (a,), name) ==> match name {
            Some(n) => x@.len() > 0 && n@ == x@.last()@ && n@ != "/"@ && n@ != "."@ && n@ != ".."@,
            None => x@.len() == 0 || x@.last()@ == "/"@ || x@.last()@ == "."@ || x@.last()@ == ".."@,
        },
{
    reveal_strlit("/");
    reveal_strlit(".");
    reveal_strlit("..");
    assert("/"@ =~= seq!['/']);
    assert("."@ =~= seq!['.']);
    assert(".."@ =~= seq!['.', '.']);
    let (p, q) = (texts(x@), texts(y@));
    assert(p.len() == x@.len() && q.len() == y@.len());
    assert(forall|i: int| 0 <= i < x@.len() ==> (#[trigger] x@[i])@ == p[i]);
    assert(forall|i: int| 0 <= i < y@.len() ==> (#[trigger] y@[i])@ == q[i]);
    if x@.len() > 0 {
        assert(p.last() == x@.last()@);
    }
    if q.is_prefix_of(p) {
        assert forall|i: int| 0 <= i < y@.len() implies (#[trigger] y@[i])@ == x@[i]@ by {
            assert(p.subrange(0, q.len() as int)[i] == q[i]);
            assert(x@[i]@ == p[i]);
        }
    }
    if y@.len() <= x@.len() && forall|i: int| 0 <= i < y@.len() ==> (#[trigger] y@[i])@ == x@[i]@ {
        assert(q =~= p.subrange(0, q.len() as int)) by {
            assert forall|i: int| 0 <= i < q.len() implies q[i] == p[i] by {
                assert(y@[i]@ == q[i]);
                assert(x@[i]@ == p[i]);
            }
        }
        if y@.len() == x@.len() {
            assert(p.subrange(0, q.len() as int) =~= p);
        }
    }
    if p == q {
        assert forall|i: int| 0 <= i < y@.len() implies (#[trigger] y@[i])@ == x@[i]@ by {
            assert(x@[i]@ == p[i]);
        }
    }
}

} // verus!
