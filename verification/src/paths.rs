//! File system paths as text: the components of a path, and what follows from
//! them. Paths are separated by `/`.

use vstd::prelude::*;
use vstd::string::*;

use crate::text::{chars_of, same, split_at_char, string_of};
#[allow(unused_imports)]
use crate::text::{split, split_is_not_empty, texts};

verus! {

/// The path starts at the root directory.
pub open spec fn absolute(path: Seq<char>) -> bool {
    path.len() > 0 && path[0] == '/'
}

/// A piece between separators that is a component of its own: repeated
/// separators, and `.` anywhere but at the start, are not.
pub open spec fn named(piece: Seq<char>) -> bool {
    piece.len() > 0 && piece != seq!['.']
}

/// What stands before the named pieces: the root directory of an absolute path,
/// or the `.` that a relative path starts with.
pub open spec fn leading(path: Seq<char>) -> Seq<Seq<char>> {
    if absolute(path) {
        seq![seq!['/']]
    } else if split(path, '/')[0] == seq!['.'] {
        seq![seq!['.']]
    } else {
        Seq::empty()
    }
}

/// The components of a path.
pub open spec fn components(path: Seq<char>) -> Seq<Seq<char>> {
    leading(path) + split(path, '/').filter(|p: Seq<char>| named(p))
}

/// `base` is `path`, or a directory that `path` lies in: whole components match.
pub open spec fn within(path: Seq<char>, base: Seq<char>) -> bool {
    components(base).is_prefix_of(components(path))
}

/// Two texts for one path: they have the same components.
pub open spec fn same_path(a: Seq<char>, b: Seq<char>) -> bool {
    components(a) == components(b)
}

/// A component that names a file or a directory by itself.
pub open spec fn ordinary(component: Seq<char>) -> bool {
    component != seq!['/'] && component != seq!['.'] && component != seq!['.', '.']
}

/// The last component of a path, where it names something.
pub open spec fn file_name(path: Seq<char>) -> Option<Seq<char>> {
    let parts = components(path);
    if parts.len() > 0 && ordinary(parts.last()) {
        Some(parts.last())
    } else {
        None
    }
}

/// `rest` as seen from the directory `base`.
pub open spec fn joined_path(base: Seq<char>, rest: Seq<char>) -> Seq<char> {
    if absolute(rest) {
        rest
    } else if base.len() == 0 || base.last() == '/' {
        base + rest
    } else {
        base + seq!['/'] + rest
    }
}

/// Whether the path starts at the root directory.
pub fn is_absolute(path: &str) -> (r: bool)
    ensures
        r == absolute(path@),
{
    !path.is_empty() && path.get_char(0) == '/'
}

fn is_named(piece: &str) -> (r: bool)
    ensures
        r == named(piece@),
{
    proof {
        reveal_strlit(".");
    }
    assert("."@ =~= seq!['.']);
    !piece.is_empty() && !same(piece, ".")
}

/// The components of `path`, in order.
pub fn components_of(path: &str) -> (r: Vec<String>)
    ensures
        texts(r@) == components(path@),
{
    let pieces = split_at_char(path, '/');
    let ghost all = split(path@, '/');
    let mut out: Vec<String> = Vec::new();
    proof {
        reveal_strlit("/");
        reveal_strlit(".");
        assert("/"@ =~= seq!['/']);
        assert("."@ =~= seq!['.']);
        assert(texts(pieces@)[0] == pieces@[0]@);
    }
    if is_absolute(path) {
        out.push("/".to_string());
        assert(texts(out@) =~= seq![seq!['/']]);
    } else if same(pieces[0].as_str(), ".") {
        out.push(".".to_string());
        assert(texts(out@) =~= seq![seq!['.']]);
    }
    assert(texts(out@) =~= leading(path@));
    let ghost keep = |p: Seq<char>| named(p);
    reveal(Seq::filter);
    assert(all.take(0).filter(keep) =~= Seq::empty());
    assert(texts(out@) =~= leading(path@) + all.take(0).filter(keep));
    for i in 0..pieces.len()
        invariant
            texts(pieces@) == all,
            all == split(path@, '/'),
            keep == (|p: Seq<char>| named(p)),
            texts(out@) == leading(path@) + all.take(i as int).filter(keep),
    {
        let ghost before = out@;
        assert(all[i as int] == pieces@[i as int]@);
        assert(all.take(i + 1).drop_last() =~= all.take(i as int));
        reveal(Seq::filter);
        if is_named(pieces[i].as_str()) {
            out.push(pieces[i].clone());
            assert(texts(out@) =~= texts(before).push(all[i as int]));
        }
        assert(texts(out@) =~= leading(path@) + all.take(i + 1).filter(keep));
    }
    assert(all.take(all.len() as int) =~= all);
    out
}

/// Whether `path` is `base` or lies in it.
pub fn lies_within(path: &str, base: &str) -> (r: bool)
    ensures
        r == within(path@, base@),
{
    let p = components_of(path);
    let b = components_of(base);
    if b.len() > p.len() {
        assert(texts(b@).len() > texts(p@).len());
        return false;
    }
    for i in 0..b.len()
        invariant
            b@.len() <= p@.len(),
            texts(p@) == components(path@),
            texts(b@) == components(base@),
            forall|j: int| 0 <= j < i ==> texts(p@)[j] == texts(b@)[j],
    {
        if !same(p[i].as_str(), b[i].as_str()) {
            assert(texts(p@)[i as int] != texts(b@)[i as int]);
            assert(texts(p@).subrange(0, b@.len() as int)[i as int] != texts(b@)[i as int]);
            return false;
        }
    }
    assert(texts(b@) =~= texts(p@).subrange(0, b@.len() as int));
    true
}

/// Whether two texts stand for one path, as whole components go.
pub fn is_same_path(a: &str, b: &str) -> (r: bool)
    ensures
        r == same_path(a@, b@),
{
    let r = lies_within(a, b) && lies_within(b, a);
    proof {
        let (x, y) = (components(a@), components(b@));
        if r {
            assert(x =~= y);
        } else if x == y {
            assert(x.subrange(0, x.len() as int) =~= x);
        }
    }
    r
}

/// The number of components of `path`.
pub fn depth_of(path: &str) -> (r: usize)
    ensures
        r == components(path@).len(),
{
    let p = components_of(path);
    assert(texts(p@).len() == p@.len());
    p.len()
}

/// The last component of `path`, where it names something.
pub fn file_name_of(path: &str) -> (r: Option<String>)
    ensures
        match r {
            Some(name) => file_name(path@) == Some(name@),
            None => file_name(path@) is None,
        },
{
    let p = components_of(path);
    proof {
        reveal_strlit("/");
        reveal_strlit(".");
        reveal_strlit("..");
        assert("/"@ =~= seq!['/']);
        assert("."@ =~= seq!['.']);
        assert(".."@ =~= seq!['.', '.']);
        assert(texts(p@).len() == p@.len());
    }
    if p.len() == 0 {
        return None;
    }
    let last = &p[p.len() - 1];
    assert(texts(p@).last() == last@);
    if same(last.as_str(), "/") || same(last.as_str(), ".") || same(last.as_str(), "..") {
        None
    } else {
        Some(last.clone())
    }
}

/// `rest` as seen from the directory `base`.
pub fn join_path(base: &str, rest: &str) -> (r: String)
    ensures
        r@ == joined_path(base@, rest@),
{
    if is_absolute(rest) {
        return rest.to_string();
    }
    let chars = chars_of(base);
    let mut out = base.to_string();
    if chars.len() > 0 && chars[chars.len() - 1] != '/' {
        out.push('/');
        assert(out@ =~= base@ + seq!['/']);
    }
    out.append(rest);
    out
}

/// Two directories that both hold a path, at the same depth, have the same
/// components.
pub proof fn equally_deep_roots_agree(path: Seq<char>, a: Seq<char>, b: Seq<char>)
    requires
        within(path, a),
        within(path, b),
        components(a).len() == components(b).len(),
    ensures
        components(a) == components(b),
{
}

/// A separator at the end of a path names nothing, but for the root directory.
proof fn trailing_separator(s: Seq<char>)
    requires
        s.len() > 1,
        s.last() == '/',
    ensures
        components(s.drop_last()) == components(s),
{
    let t = s.drop_last();
    split_is_not_empty(t, '/');
    assert(split(s, '/') == split(t, '/').push(Seq::empty()));
    assert(split(s, '/')[0] == split(t, '/')[0]);
    reveal(Seq::filter);
    assert(split(s, '/').drop_last() =~= split(t, '/'));
}

/// A `.` behind a separator at the end of a path names nothing.
proof fn trailing_dot(s: Seq<char>)
    requires
        s.len() > 1,
        s.last() == '.',
        s[s.len() - 2] == '/',
    ensures
        components(s.drop_last()) == components(s),
{
    let t = s.drop_last();
    let u = t.drop_last();
    split_is_not_empty(u, '/');
    assert(t.last() == '/');
    let front = split(u, '/');
    assert(split(t, '/') == front.push(Seq::empty()));
    assert(split(t, '/').drop_last() =~= front);
    assert(split(s, '/') =~= front.push(seq!['.'])) by {
        assert(split(t, '/').last().push('.') =~= seq!['.']);
    }
    assert(split(s, '/')[0] == split(t, '/')[0]);
    reveal(Seq::filter);
    assert(split(s, '/').drop_last() =~= front);
}

/// The last piece of a path, taken away, leaves the pieces before it.
proof fn last_piece_taken(s: Seq<char>, t: Seq<char>)
    requires
        s.len() > 0,
        s.last() != '/',
        s.len() > 1 ==> !(s.last() == '.' && s[s.len() - 2] == '/'),
        split(t, '/') == split(s, '/').drop_last().push(Seq::empty()),
        t.is_prefix_of(s),
        t.len() < s.len(),
        t.len() > 0 ==> t.last() == '/',
        t.len() == 0 ==> split(s, '/').len() == 1,
        split(s, '/').last() == s.skip(t.len() as int),
    ensures
        components(s).len() > 0,
        components(s) != seq![seq!['/']],
        components(t) == components(s).drop_last(),
{
    split_is_not_empty(s, '/');
    let pieces = split(s, '/');
    let last = pieces.last();
    reveal(Seq::filter);
    let keep = |p: Seq<char>| named(p);
    assert(last.len() > 0);
    assert(split(t, '/').drop_last() =~= pieces.drop_last());
    assert(split(t, '/').filter(keep) == pieces.drop_last().filter(keep));
    if t.len() == 0 {
        assert(last =~= s);
        assert(pieces =~= seq![s]);
        assert(pieces.drop_last() =~= Seq::empty());
        assert(pieces.drop_last().filter(keep) =~= Seq::empty());
        assert(pieces[0] == s);
        assert(split(t, '/')[0] == Seq::<char>::empty());
        if s == seq!['.'] {
            assert(components(s) =~= seq![seq!['.']]);
        } else {
            one_piece_has_no_separator(s);
            assert(pieces.filter(keep) == pieces.drop_last().filter(keep).push(s));
            assert(components(s) =~= seq![s]);
        }
        assert(components(t) =~= components(s).drop_last());
    } else {
        assert(last != seq!['.']) by {
            if last == seq!['.'] {
                assert(last.len() == 1);
                assert(s.last() == last[0]);
                assert(s[s.len() - 2] == t.last());
            }
        }
        assert(named(last));
        assert(pieces.filter(keep) == pieces.drop_last().filter(keep).push(last));
        assert(t[0] == s[0]);
        assert(pieces.len() > 1) by {
            if pieces.len() == 1 {
                one_piece_has_no_separator(s);
                assert(s[t.len() - 1] == '/');
            }
        }
        assert(split(t, '/')[0] == pieces[0]);
        assert(components(t) =~= components(s).drop_last());
        assert(components(s).last() == last);
        assert(last != seq!['/']) by {
            if last == seq!['/'] {
                assert(s.last() == last[0]);
            }
        }
    }
}

proof fn one_piece_has_no_separator(s: Seq<char>)
    requires
        split(s, '/').len() == 1,
    ensures
        forall|i: int| 0 <= i < s.len() ==> s[i] != '/',
    decreases s.len(),
{
    if s.len() > 0 {
        let t = s.drop_last();
        split_is_not_empty(t, '/');
        one_piece_has_no_separator(t);
        assert forall|i: int| 0 <= i < s.len() implies s[i] != '/' by {
            if i < t.len() {
                assert(t[i] == s[i]);
            }
        }
    }
}

proof fn nothing_and_root()
    ensures
        components(Seq::empty()) == Seq::<Seq<char>>::empty(),
        components(seq!['/']) == seq![seq!['/']],
{
    reveal_with_fuel(Seq::filter, 3);
    let nothing = Seq::<char>::empty();
    let keep = |p: Seq<char>| named(p);
    assert(split(nothing, '/') == seq![nothing]);
    assert(seq![nothing].drop_last() =~= Seq::empty());
    assert(seq![nothing].filter(keep) =~= Seq::empty());
    assert(components(nothing) =~= Seq::empty());
    let root = seq!['/'];
    assert(root.drop_last() =~= nothing);
    assert(root.last() == '/');
    assert(split(root, '/') =~= seq![nothing].push(nothing));
    assert(split(root, '/').drop_last() =~= seq![nothing]);
    assert(split(root, '/').filter(keep) =~= Seq::empty());
    assert(components(root) =~= seq![root]);
}

/// How much of a path is left without what names nothing at its end.
fn kept_length(chars: &Vec<char>, from: usize) -> (n: usize)
    requires
        from <= chars@.len(),
    ensures
        n <= from,
        components(chars@.take(n as int)) == components(chars@.take(from as int)),
        n > 1 ==> chars@[n - 1] != '/' && !(chars@[n - 1] == '.' && chars@[n - 2] == '/'),
{
    let mut n: usize = from;
    while n > 1 && (chars[n - 1] == '/' || (chars[n - 1] == '.' && chars[n - 2] == '/'))
        invariant
            n <= from,
            from <= chars@.len(),
            components(chars@.take(n as int)) == components(chars@.take(from as int)),
        decreases n,
    {
        let ghost now = chars@.take(n as int);
        proof {
            assert(now.drop_last() =~= chars@.take(n - 1));
            if now.last() == '/' {
                trailing_separator(now);
            } else {
                trailing_dot(now);
            }
        }
        n = n - 1;
    }
    n
}

/// `dir` is the directory that `path` is in, as it is spelled there: the path up to
/// before its last component, without what names nothing at the end.
pub open spec fn is_parent_dir(dir: Seq<char>, path: Seq<char>) -> bool {
    &&& dir.is_prefix_of(path)
    &&& components(path).len() > 0
    &&& components(dir) == components(path).drop_last()
    &&& dir.len() > 1 ==> dir.last() != '/' && !(dir.last() == '.' && dir[dir.len() - 2] == '/')
}

/// The directory that a path is in: the path without its last component, where it
/// has one and is not the root directory.
pub fn parent_of(path: &str) -> (r: Option<String>)
    ensures
        match r {
            Some(dir) => {
                &&& components(path@) != seq![seq!['/']]
                &&& is_parent_dir(dir@, path@)
            },
            None => components(path@).len() == 0 || components(path@) == seq![seq!['/']],
        },
{
    let chars = chars_of(path);
    assert(path@.take(path@.len() as int) =~= path@);
    let n: usize = kept_length(&chars, chars.len());
    let ghost s = path@.take(n as int);
    proof {
        nothing_and_root();
    }
    if n == 0 {
        assert(s =~= Seq::empty());
        return None;
    }
    if n == 1 && chars[0] == '/' {
        assert(s =~= seq!['/']);
        return None;
    }
    let ghost pieces = split(s, '/');
    let mut m: usize = n;
    proof {
        split_is_not_empty(s, '/');
        assert(s.take(n as int) =~= s);
        assert(pieces.last().take(pieces.last().len() as int) =~= pieces.last());
        assert(pieces.drop_last().push(pieces.last()) =~= pieces);
        assert(s.skip(n as int) =~= Seq::empty());
        assert(pieces.last() =~= pieces.last() + s.skip(n as int));
    }
    let ghost mut left = pieces.last();
    while m > 0 && chars[m - 1] != '/'
        invariant
            m <= n,
            n <= chars@.len(),
            chars@ == path@,
            s == path@.take(n as int),
            pieces == split(s, '/'),
            pieces.len() >= 1,
            split(s.take(m as int), '/') == pieces.drop_last().push(left),
            pieces.last() == left + s.skip(m as int),
        decreases m,
    {
        proof {
            let now = s.take(m as int);
            let t = s.take(m - 1);
            assert(now.drop_last() =~= t);
            assert(now.last() == path@[m - 1]);
            split_is_not_empty(t, '/');
            let before = split(t, '/');
            assert(split(now, '/') == before.drop_last().push(before.last().push(now.last())));
            assert(split(now, '/').last() == left);
            assert(left == before.last().push(now.last()));
            assert(pieces.drop_last() =~= before.drop_last()) by {
                assert(pieces.drop_last().push(left).drop_last() =~= pieces.drop_last());
                assert(before.drop_last().push(left).drop_last() =~= before.drop_last());
            }
            assert(before =~= pieces.drop_last().push(before.last()));
            assert(s.skip(m - 1) =~= seq![now.last()] + s.skip(m as int));
            assert(left + s.skip(m as int) =~= before.last() + s.skip(m - 1));
            left = before.last();
        }
        m = m - 1;
    }
    let ghost t = s.take(m as int);
    proof {
        split_is_not_empty(t, '/');
        assert(pieces.drop_last().push(left).last() == left);
        if m > 0 {
            assert(t.last() == '/');
            assert(split(t, '/').last() == Seq::<char>::empty());
        } else {
            assert(t =~= Seq::empty());
            assert(split(t, '/') =~= seq![Seq::empty()]);
            assert(pieces.drop_last().len() == 0);
        }
        assert(left =~= Seq::empty());
        assert(pieces.last() =~= s.skip(m as int));
        assert(s.last() == path@[n - 1]);
        last_piece_taken(s, t);
        assert(path@.take(m as int) =~= t);
    }
    let k: usize = kept_length(&chars, m);
    let kept = vstd::slice::slice_subrange(chars.as_slice(), 0, k);
    assert(kept@ =~= path@.take(k as int));
    assert(kept@ =~= path@.subrange(0, k as int));
    Some(string_of(kept))
}

/// How much there is to some components: their characters, and one for each.
spec fn weight(parts: Seq<Seq<char>>) -> int
    decreases parts.len(),
{
    if parts.len() == 0 {
        0
    } else {
        weight(parts.drop_last()) + parts.last().len() + 1
    }
}

proof fn weights_add_up(a: Seq<Seq<char>>, b: Seq<Seq<char>>)
    ensures
        weight(a + b) == weight(a) + weight(b),
    decreases b.len(),
{
    if b.len() == 0 {
        assert(a + b =~= a);
    } else {
        weights_add_up(a, b.drop_last());
        assert((a + b).drop_last() =~= a + b.drop_last());
    }
}

proof fn one_has_its_weight(part: Seq<char>)
    ensures
        weight(seq![part]) == part.len() + 1,
        weight(Seq::<Seq<char>>::empty()) == 0,
{
    assert(seq![part].drop_last() =~= Seq::empty());
    assert(weight(Seq::<Seq<char>>::empty()) == 0);
}

proof fn named_pieces_weigh(front: Seq<Seq<char>>, piece: Seq<char>)
    ensures
        weight(front.push(piece).filter(|p: Seq<char>| named(p))) == weight(
            front.filter(|p: Seq<char>| named(p)),
        ) + if named(piece) {
            piece.len() + 1
        } else {
            0
        },
{
    reveal(Seq::filter);
    let keep = |p: Seq<char>| named(p);
    assert(front.push(piece).drop_last() =~= front);
    let before = front.filter(keep);
    if named(piece) {
        assert(before.push(piece).drop_last() =~= before);
    }
}

/// One more character never takes from the components of a path, and adds to them
/// unless it is a separator or a `.` behind one.
proof fn components_grow(s: Seq<char>, c: char)
    ensures
        weight(components(s)) <= weight(components(s.push(c))),
        s.len() == 0 || (c != '/' && !(c == '.' && s.last() == '/')) ==> weight(components(s))
            < weight(components(s.push(c))),
{
    let t = s.push(c);
    let keep = |p: Seq<char>| named(p);
    let pieces = split(s, '/');
    let grown = split(t, '/');
    assert(t.drop_last() =~= s);
    split_is_not_empty(s, '/');
    let front = pieces.drop_last();
    let piece = pieces.last();
    assert(front.push(piece) =~= pieces);
    weights_add_up(leading(s), pieces.filter(keep));
    weights_add_up(leading(t), grown.filter(keep));
    named_pieces_weigh(front, piece);
    one_has_its_weight(seq!['/']);
    one_has_its_weight(seq!['.']);
    if s.len() == 0 {
        assert(pieces =~= seq![Seq::<char>::empty()]);
        assert(front =~= Seq::empty());
        assert(piece.len() == 0);
    }
    reveal(Seq::filter);
    if s.len() == 0 {
        assert(front.filter(keep) =~= Seq::empty());
        assert(weight(components(s)) == 0);
    }
    if c == '/' {
        assert(grown == pieces.push(Seq::empty()));
        named_pieces_weigh(pieces, Seq::empty());
        assert(grown[0] == pieces[0]);
    } else {
        assert(grown == front.push(piece.push(c)));
        named_pieces_weigh(front, piece.push(c));
        assert(piece.push(c).len() == piece.len() + 1);
        if piece.len() == 0 {
            assert(piece.push(c) =~= seq![c]);
            assert(named(seq![c]) == (c != '.')) by {
                if c != '.' {
                    assert(seq![c][0] != seq!['.'][0]);
                }
            }
            if s.len() > 0 && s.last() != '/' {
                let before = split(s.drop_last(), '/');
                assert(pieces.last() == before.last().push(s.last()));
                assert(false);
            }
        }
        if pieces.len() > 1 {
            assert(grown[0] == pieces[0]);
        } else {
            assert(grown[0] == piece.push(c));
            assert(pieces[0] == piece);
            assert(front.len() == 0);
            if piece.len() > 0 {
                assert(piece.push(c) != seq!['.']);
            }
        }
    }
}

proof fn longer_paths_weigh_more(s: Seq<char>, n: int)
    requires
        0 <= n <= s.len(),
    ensures
        weight(components(s.take(n))) <= weight(components(s)),
    decreases s.len() - n,
{
    if n < s.len() {
        longer_paths_weigh_more(s, n + 1);
        components_grow(s.take(n), s[n]);
        assert(s.take(n).push(s[n]) =~= s.take(n + 1));
    } else {
        assert(s.take(n) =~= s);
    }
}

proof fn shorter_dirs_differ(a: Seq<char>, b: Seq<char>, path: Seq<char>)
    requires
        a.is_prefix_of(path),
        is_parent_dir(b, path),
        a.len() < b.len(),
    ensures
        components(a) != components(b),
{
    let front = b.drop_last();
    assert(front.take(a.len() as int) =~= a);
    longer_paths_weigh_more(front, a.len() as int);
    components_grow(front, b.last());
    assert(front.push(b.last()) =~= b);
}

/// A path is in one directory, and that is spelled in one way.
pub proof fn parent_is_one(a: Seq<char>, b: Seq<char>, path: Seq<char>)
    requires
        is_parent_dir(a, path),
        is_parent_dir(b, path),
    ensures
        a == b,
{
    if a.len() < b.len() {
        shorter_dirs_differ(a, b, path);
    } else if b.len() < a.len() {
        shorter_dirs_differ(b, a, path);
    }
    assert(a =~= b);
}

} // verus!
