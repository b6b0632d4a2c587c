//! A stable merge sort for owned values.

use vstd::prelude::*;

verus! {

/// Values with a total order, in which different values may tie.
pub trait Ordered: Sized {
    /// `self` may stand before `other`.
    spec fn le(self, other: Self) -> bool;

    proof fn le_total(a: Self, b: Self)
        ensures
            a.le(b) || b.le(a),
    ;

    proof fn le_transitive(a: Self, b: Self, c: Self)
        requires
            a.le(b),
            b.le(c),
        ensures
            a.le(c),
    ;

    /// Whether `self` may stand before `other`.
    fn before(&self, other: &Self) -> (r: bool)
        ensures
            r == self.le(*other),
    ;
}

/// `a` and `b` tie.
pub open spec fn ties<T: Ordered>(a: T, b: T) -> bool {
    a.le(b) && b.le(a)
}

/// The values of `s` that tie with `k`, in order.
pub open spec fn tied<T: Ordered>(s: Seq<T>, k: T) -> Seq<T> {
    s.filter(|x: T| ties(x, k))
}

/// Every value may stand before all that follow it.
pub open spec fn ordered<T: Ordered>(s: Seq<T>) -> bool {
    forall|i: int, j: int| 0 <= i < j < s.len() ==> (#[trigger] s[i]).le(#[trigger] s[j])
}

/// `r` is `s` sorted: the same values, in order, ties in the order of `s`.
pub open spec fn sorts<T: Ordered>(s: Seq<T>, r: Seq<T>) -> bool {
    &&& ordered(r)
    &&& r.to_multiset() == s.to_multiset()
    &&& forall|k: T| #[trigger] tied(r, k) == tied(s, k)
}

proof fn tied_push<T: Ordered>(s: Seq<T>, x: T, k: T)
    ensures
        tied(s.push(x), k) == if ties(x, k) {
            tied(s, k).push(x)
        } else {
            tied(s, k)
        },
{
    reveal(Seq::filter);
    assert(s.push(x).drop_last() =~= s);
}

proof fn tied_prepend<T: Ordered>(s: Seq<T>, x: T, k: T)
    ensures
        tied(seq![x] + s, k) == if ties(x, k) {
            seq![x] + tied(s, k)
        } else {
            tied(s, k)
        },
{
    Seq::filter_distributes_over_add(seq![x], s, |y: T| ties(y, k));
    assert(seq![x] =~= Seq::<T>::empty().push(x));
    tied_push(Seq::<T>::empty(), x, k);
    reveal(Seq::filter);
    if ties(x, k) {
        assert(tied(seq![x], k) =~= seq![x]);
    } else {
        assert(tied(seq![x], k) =~= Seq::<T>::empty());
        assert(tied(seq![x], k) + tied(s, k) =~= tied(s, k));
    }
}

proof fn tied_empty<T: Ordered>(s: Seq<T>, k: T)
    requires
        forall|i: int| 0 <= i < s.len() ==> !ties(#[trigger] s[i], k),
    ensures
        tied(s, k) == Seq::<T>::empty(),
    decreases s.len(),
{
    reveal(Seq::filter);
    if s.len() > 0 {
        tied_empty(s.drop_last(), k);
    }
}

/// What one merge step keeps: nothing is lost, ties keep their order, and all
/// that is left may stand before all that is placed.
spec fn merging<T: Ordered>(a0: Seq<T>, b0: Seq<T>, a: Seq<T>, b: Seq<T>, r: Seq<T>) -> bool {
    &&& ordered(a)
    &&& ordered(b)
    &&& ordered(r)
    &&& (a + b + r).to_multiset() == (a0 + b0).to_multiset()
    &&& forall|k: T| #[trigger] tied(a, k) + tied(b, k) + tied(r, k) == tied(a0, k) + tied(b0, k)
    &&& forall|i: int, j: int|
        0 <= i < a.len() && 0 <= j < r.len() ==> (#[trigger] a[i]).le(#[trigger] r[j])
    &&& forall|i: int, j: int|
        0 <= i < b.len() && 0 <= j < r.len() ==> (#[trigger] b[i]).le(#[trigger] r[j])
}

proof fn merge_from_right<T: Ordered>(a0: Seq<T>, b0: Seq<T>, a: Seq<T>, b: Seq<T>, r: Seq<T>)
    requires
        merging(a0, b0, a, b, r),
        b.len() > 0,
        a.len() > 0 ==> a.last().le(b.last()),
    ensures
        merging(a0, b0, a, b.drop_last(), seq![b.last()] + r),
{
    let x = b.last();
    let b1 = b.drop_last();
    let r1 = seq![x] + r;
    assert(b =~= b1.push(x));
    assert(a + b1 + r1 =~= a + b + r);
    assert forall|k: T| #[trigger] tied(a, k) + tied(b1, k) + tied(r1, k) == tied(a0, k) + tied(b0, k) by {
        tied_push(b1, x, k);
        tied_prepend(r, x, k);
        assert(tied(a, k) + tied(b1, k) + tied(r1, k) =~= tied(a, k) + tied(b, k) + tied(r, k));
    }
    assert forall|i: int, j: int| 0 <= i < a.len() && 0 <= j < r1.len() implies (#[trigger] a[i]).le(
        #[trigger] r1[j],
    ) by {
        if j == 0 {
            if i < a.len() - 1 {
                T::le_transitive(a[i], a.last(), x);
            }
        } else {
            assert(r1[j] == r[j - 1]);
        }
    }
    assert forall|i: int, j: int| 0 <= i < b1.len() && 0 <= j < r1.len() implies (#[trigger] b1[i]).le(
        #[trigger] r1[j],
    ) by {
        assert(b1[i] == b[i]);
        if j > 0 {
            assert(r1[j] == r[j - 1]);
        }
    }
    assert forall|i: int, j: int| 0 <= i < j < r1.len() implies (#[trigger] r1[i]).le(
        #[trigger] r1[j],
    ) by {
        assert(r1[j] == r[j - 1]);
        if i > 0 {
            assert(r1[i] == r[i - 1]);
        } else {
            assert(b[b.len() - 1].le(r[j - 1]));
        }
    }
}

proof fn merge_from_left<T: Ordered>(a0: Seq<T>, b0: Seq<T>, a: Seq<T>, b: Seq<T>, r: Seq<T>)
    requires
        merging(a0, b0, a, b, r),
        a.len() > 0,
        b.len() > 0 ==> !a.last().le(b.last()),
    ensures
        merging(a0, b0, a.drop_last(), b, seq![a.last()] + r),
{
    let x = a.last();
    let a1 = a.drop_last();
    let r1 = seq![x] + r;
    assert(a =~= a1.push(x));
    assert((a1 + b + r1).to_multiset() =~= (a + b + r).to_multiset()) by {
        broadcast use vstd::seq_lib::group_to_multiset_ensures;
        assert(a1 + b + r1 =~= a1 + b + seq![x] + r);
        assert(a + b + r =~= a1 + seq![x] + b + r);
        vstd::seq_lib::lemma_multiset_commutative(a1 + b + seq![x], r);
        vstd::seq_lib::lemma_multiset_commutative(a1 + b, seq![x]);
        vstd::seq_lib::lemma_multiset_commutative(a1, b);
        vstd::seq_lib::lemma_multiset_commutative(a1 + seq![x] + b, r);
        vstd::seq_lib::lemma_multiset_commutative(a1 + seq![x], b);
        vstd::seq_lib::lemma_multiset_commutative(a1, seq![x]);
    }
    assert forall|i: int| 0 <= i < b.len() implies (#[trigger] b[i]).le(x) && !x.le(b[i]) by {
        T::le_total(x, b.last());
        if i < b.len() - 1 {
            T::le_transitive(b[i], b.last(), x);
            if x.le(b[i]) {
                T::le_transitive(x, b[i], b.last());
            }
        }
    }
    assert forall|k: T| #[trigger] tied(a1, k) + tied(b, k) + tied(r1, k) == tied(a0, k) + tied(b0, k) by {
        tied_push(a1, x, k);
        tied_prepend(r, x, k);
        if ties(x, k) {
            assert forall|i: int| 0 <= i < b.len() implies !ties(#[trigger] b[i], k) by {
                if ties(b[i], k) {
                    T::le_transitive(x, k, b[i]);
                }
            }
            tied_empty(b, k);
        }
        assert(tied(a1, k) + tied(b, k) + tied(r1, k) =~= tied(a, k) + tied(b, k) + tied(r, k));
    }
    assert forall|i: int, j: int| 0 <= i < a1.len() && 0 <= j < r1.len() implies (#[trigger] a1[i]).le(
        #[trigger] r1[j],
    ) by {
        assert(a1[i] == a[i]);
        if j > 0 {
            assert(r1[j] == r[j - 1]);
        }
    }
    assert forall|i: int, j: int| 0 <= i < b.len() && 0 <= j < r1.len() implies (#[trigger] b[i]).le(
        #[trigger] r1[j],
    ) by {
        if j > 0 {
            assert(r1[j] == r[j - 1]);
        }
    }
    assert forall|i: int, j: int| 0 <= i < j < r1.len() implies (#[trigger] r1[i]).le(
        #[trigger] r1[j],
    ) by {
        assert(r1[j] == r[j - 1]);
        if i > 0 {
            assert(r1[i] == r[i - 1]);
        } else {
            assert(a[a.len() - 1].le(r[j - 1]));
        }
    }
}

pub(crate) fn reversed<T>(v: Vec<T>) -> (r: Vec<T>)
    ensures
        r@ == v@.reverse(),
{
    let mut from = v;
    let mut to: Vec<T> = Vec::new();
    while from.len() > 0
        invariant
            from@ + to@.reverse() == v@,
        decreases from@.len(),
    {
        let ghost f0 = from@;
        let ghost t0 = to@;
        if let Some(x) = from.pop() {
            to.push(x);
            assert(to@.reverse() =~= seq![x] + t0.reverse());
            assert(from@ + to@.reverse() =~= f0 + t0.reverse());
        }
    }
    assert(to@.reverse() =~= v@);
    assert(to@ =~= v@.reverse());
    to
}

fn merge<T: Ordered>(left: Vec<T>, right: Vec<T>) -> (r: Vec<T>)
    requires
        ordered(left@),
        ordered(right@),
    ensures
        sorts(left@ + right@, r@),
{
    let mut a = left;
    let mut b = right;
    let mut out: Vec<T> = Vec::new();
    let ghost mut placed: Seq<T> = Seq::empty();
    proof {
        assert(a@ + b@ + placed =~= left@ + right@);
        assert forall|k: T| #[trigger]
            tied(a@, k) + tied(b@, k) + tied(placed, k) == tied(left@, k) + tied(right@, k) by {
            tied_empty(placed, k);
            assert(tied(a@, k) + tied(b@, k) + tied(placed, k) =~= tied(left@, k) + tied(right@, k));
        }
        assert(out@.reverse() =~= placed);
    }
    while a.len() > 0 || b.len() > 0
        invariant
            merging(left@, right@, a@, b@, placed),
            out@.reverse() == placed,
        decreases a@.len() + b@.len(),
    {
        let take_left = if b.len() == 0 {
            true
        } else if a.len() == 0 {
            false
        } else {
            !a[a.len() - 1].before(&b[b.len() - 1])
        };
        let ghost out0 = out@;
        if take_left {
            proof {
                merge_from_left(left@, right@, a@, b@, placed);
                placed = seq![a@.last()] + placed;
            }
            if let Some(x) = a.pop() {
                out.push(x);
                assert(out@.reverse() =~= seq![x] + out0.reverse());
            }
        } else {
            proof {
                merge_from_right(left@, right@, a@, b@, placed);
                placed = seq![b@.last()] + placed;
            }
            if let Some(x) = b.pop() {
                out.push(x);
                assert(out@.reverse() =~= seq![x] + out0.reverse());
            }
        }
    }
    proof {
        assert(a@ + b@ + placed =~= placed);
        assert forall|k: T| #[trigger] tied(placed, k) == tied(left@ + right@, k) by {
            tied_empty(a@, k);
            tied_empty(b@, k);
            assert(tied(a@, k) + tied(b@, k) + tied(placed, k) =~= tied(placed, k));
            Seq::filter_distributes_over_add(left@, right@, |y: T| ties(y, k));
        }
    }
    reversed(out)
}

/// Sorts `v`, keeping ties in their order.
pub fn sort<T: Ordered>(v: Vec<T>) -> (r: Vec<T>)
    ensures
        sorts(v@, r@),
        r@.len() == v@.len(),
    decreases v@.len(),
{
    if v.len() <= 1 {
        return v;
    }
    let mut left = v;
    let half: usize = left.len() / 2;
    let right = left.split_off(half);
    let ghost (l, r) = (left@, right@);
    assert(l + r =~= v@);
    let a = sort(left);
    let b = sort(right);
    let out = merge(a, b);
    proof {
        broadcast use vstd::seq_lib::group_to_multiset_ensures;
        vstd::seq_lib::lemma_multiset_commutative(l, r);
        vstd::seq_lib::lemma_multiset_commutative(a@, b@);
        assert forall|k: T| #[trigger] tied(out@, k) == tied(v@, k) by {
            Seq::filter_distributes_over_add(l, r, |y: T| ties(y, k));
            Seq::filter_distributes_over_add(a@, b@, |y: T| ties(y, k));
            assert(tied(a@, k) == tied(l, k));
            assert(tied(b@, k) == tied(r, k));
            assert(tied(out@, k) == tied(a@ + b@, k));
        }
        assert(out@.to_multiset().len() == out@.len());
        assert(v@.to_multiset().len() == v@.len());
    }
    out
}

/// The values of two lists of the same values, each seen in the same way, are the
/// same again.
pub proof fn same_values_look_the_same<T, U>(s: Seq<T>, t: Seq<T>, f: spec_fn(T) -> U)
    requires
        s.to_multiset() == t.to_multiset(),
    ensures
        s.map_values(f).to_multiset() == t.map_values(f).to_multiset(),
    decreases s.len(),
{
    s.to_multiset_ensures();
    t.to_multiset_ensures();
    assert(s.len() == t.len());
    if s.len() == 0 {
        assert(s =~= t);
    } else {
        let x = s.last();
        assert(s.contains(x));
        assert(t.to_multiset().count(x) > 0);
        let k = choose|k: int| 0 <= k < t.len() && t[k] == x;
        let a = s.remove(s.len() - 1);
        let b = t.remove(k);
        assert(a.to_multiset() =~= b.to_multiset());
        same_values_look_the_same(a, b, f);
        let (p, q) = (s.map_values(f), t.map_values(f));
        p.to_multiset_ensures();
        q.to_multiset_ensures();
        assert(p.remove(s.len() - 1) =~= a.map_values(f));
        assert(q.remove(k) =~= b.map_values(f));
        assert(p[s.len() - 1] == f(x) && q[k] == f(x));
        assert(p.contains(f(x)) && q.contains(f(x)));
        assert(p.to_multiset() =~= p.to_multiset().remove(f(x)).insert(f(x)));
        assert(q.to_multiset() =~= q.to_multiset().remove(f(x)).insert(f(x)));
    }
}

} // verus!
