//! Sequences that hold the same items in another order, and sequences built
//! piece by piece from items that are themselves reordered.
use vstd::prelude::*;
use crate::ir::validity::order::{is_reordering, reordered};

verus! {

/// `b` holds the items of `a` in another order.
pub open spec fn permutes<T>(a: Seq<T>, b: Seq<T>) -> bool {
    exists|p: Seq<int>, q: Seq<int>| #[trigger] is_reordering(p, q, a.len() as int) && reordered(a, p) == b
}

/// The pieces of `xs`, one after another.
pub open spec fn flatten<X, T>(xs: Seq<X>, piece: spec_fn(X) -> Seq<T>) -> Seq<T>
    decreases xs.len(),
{
    if xs.len() == 0 {
        seq![]
    } else {
        flatten(xs.drop_last(), piece) + piece(xs.last())
    }
}

pub proof fn lemma_permutes_by<T>(a: Seq<T>, b: Seq<T>, p: Seq<int>, q: Seq<int>)
    requires
        is_reordering(p, q, a.len() as int),
        reordered(a, p) =~= b,
    ensures
        permutes(a, b),
{
}

pub proof fn lemma_permutes_refl<T>(a: Seq<T>)
    ensures
        permutes(a, a),
{
    let id = Seq::new(a.len(), |i: int| i);
    lemma_permutes_by(a, a, id, id);
}

pub proof fn lemma_permutes_sym<T>(a: Seq<T>, b: Seq<T>)
    requires
        permutes(a, b),
    ensures
        permutes(b, a),
{
    let (p, q) = choose|p: Seq<int>, q: Seq<int>| #[trigger] is_reordering(p, q, a.len() as int) && reordered(a, p) == b;
    assert(is_reordering(q, p, b.len() as int));
    assert forall|j: int| 0 <= j < a.len() implies #[trigger] reordered(b, q)[j] == a[j] by {
        assert(b[q[j]] == a[p[q[j]]]);
    }
    lemma_permutes_by(b, a, q, p);
}

pub proof fn lemma_permutes_trans<T>(a: Seq<T>, b: Seq<T>, c: Seq<T>)
    requires
        permutes(a, b),
        permutes(b, c),
    ensures
        permutes(a, c),
{
    let (p1, q1) = choose|p: Seq<int>, q: Seq<int>| #[trigger] is_reordering(p, q, a.len() as int) && reordered(a, p) == b;
    let (p2, q2) = choose|p: Seq<int>, q: Seq<int>| #[trigger] is_reordering(p, q, b.len() as int) && reordered(b, p) == c;
    let n = a.len() as int;
    let p = Seq::new(n as nat, |i: int| p1[p2[i]]);
    let q = Seq::new(n as nat, |j: int| q2[q1[j]]);
    assert forall|i: int| 0 <= i < n implies 0 <= #[trigger] p[i] < n && q[p[i]] == i by {
        assert(q1[p1[p2[i]]] == p2[i]);
    }
    assert forall|j: int| 0 <= j < n implies 0 <= #[trigger] q[j] < n && p[q[j]] == j by {
        assert(p2[q2[q1[j]]] == q1[j]);
    }
    assert forall|i: int| 0 <= i < n implies #[trigger] reordered(a, p)[i] == c[i] by {
        assert(c[i] == b[p2[i]]);
        assert(b[p2[i]] == a[p1[p2[i]]]);
    }
    lemma_permutes_by(a, c, p, q);
}

/// Reordering each part reorders the whole.
pub proof fn lemma_permutes_concat<T>(a: Seq<T>, a2: Seq<T>, b: Seq<T>, b2: Seq<T>)
    requires
        permutes(a, a2),
        permutes(b, b2),
    ensures
        permutes(a + b, a2 + b2),
{
    let (pa, qa) = choose|p: Seq<int>, q: Seq<int>| #[trigger] is_reordering(p, q, a.len() as int) && reordered(a, p) == a2;
    let (pb, qb) = choose|p: Seq<int>, q: Seq<int>| #[trigger] is_reordering(p, q, b.len() as int) && reordered(b, p) == b2;
    let na = a.len() as int;
    let n = na + b.len();
    let p = Seq::new(n as nat, |i: int| if i < na { pa[i] } else { pb[i - na] + na });
    let q = Seq::new(n as nat, |j: int| if j < na { qa[j] } else { qb[j - na] + na });
    assert forall|i: int| 0 <= i < n implies 0 <= #[trigger] p[i] < n && q[p[i]] == i by {
        if i >= na {
            assert(qb[pb[i - na]] == i - na);
        }
    }
    assert forall|j: int| 0 <= j < n implies 0 <= #[trigger] q[j] < n && p[q[j]] == j by {
        if j >= na {
            assert(pb[qb[j - na]] == j - na);
        }
    }
    assert forall|i: int| 0 <= i < n implies #[trigger] reordered(a + b, p)[i] == (a2 + b2)[i] by {
        if i < na {
            assert(a2[i] == a[pa[i]]);
        } else {
            assert(b2[i - na] == b[pb[i - na]]);
        }
    }
    lemma_permutes_by(a + b, a2 + b2, p, q);
}

/// Two parts in the other order.
pub proof fn lemma_permutes_swap<T>(a: Seq<T>, b: Seq<T>)
    ensures
        permutes(a + b, b + a),
{
    let na = a.len() as int;
    let nb = b.len() as int;
    let n = na + nb;
    let p = Seq::new(n as nat, |i: int| if i < nb { na + i } else { i - nb });
    let q = Seq::new(n as nat, |j: int| if j < na { j + nb } else { j - na });
    assert forall|i: int| 0 <= i < n implies 0 <= #[trigger] p[i] < n && q[p[i]] == i by {}
    assert forall|j: int| 0 <= j < n implies 0 <= #[trigger] q[j] < n && p[q[j]] == j by {}
    assert forall|i: int| 0 <= i < n implies #[trigger] reordered(a + b, p)[i] == (b + a)[i] by {}
    lemma_permutes_by(a + b, b + a, p, q);
}

pub proof fn lemma_flatten_concat<X, T>(xs: Seq<X>, ys: Seq<X>, piece: spec_fn(X) -> Seq<T>)
    ensures
        flatten(xs + ys, piece) == flatten(xs, piece) + flatten(ys, piece),
    decreases ys.len(),
{
    if ys.len() == 0 {
        assert(xs + ys =~= xs);
        assert(flatten(xs, piece) + flatten(ys, piece) =~= flatten(xs, piece));
    } else {
        assert((xs + ys).drop_last() =~= xs + ys.drop_last());
        lemma_flatten_concat(xs, ys.drop_last(), piece);
        assert(flatten(xs, piece) + flatten(ys, piece) =~= flatten(xs, piece) + flatten(ys.drop_last(), piece)
            + piece(ys.last()));
    }
}

/// Flattening items stored in another order gives the pieces in another order.
pub proof fn lemma_flatten_reordered<X, T>(xs: Seq<X>, p: Seq<int>, q: Seq<int>, piece: spec_fn(X) -> Seq<T>)
    requires
        is_reordering(p, q, xs.len() as int),
    ensures
        permutes(flatten(xs, piece), flatten(reordered(xs, p), piece)),
    decreases xs.len(),
{
    let n = xs.len() as int;
    let ys = reordered(xs, p);
    if n == 0 {
        assert(ys =~= xs);
        lemma_permutes_refl(flatten(xs, piece));
    } else {
        let k = p[n - 1];
        let rest = xs.remove(k);
        let p2 = Seq::new((n - 1) as nat, |i: int| if p[i] < k { p[i] } else { p[i] - 1 });
        let q2 = Seq::new((n - 1) as nat, |j: int| if j < k { q[j] } else { q[j + 1] });
        assert forall|i: int| 0 <= i < n - 1 implies 0 <= #[trigger] p2[i] < n - 1 && q2[p2[i]] == i by {
            if p[i] == k {
                assert(q[p[i]] == i && q[p[n - 1]] == n - 1);
            }
        }
        assert forall|j: int| 0 <= j < n - 1 implies 0 <= #[trigger] q2[j] < n - 1 && p2[q2[j]] == j by {
            if j < k {
                if q[j] == n - 1 {
                    assert(p[q[j]] == j);
                }
            } else {
                if q[j + 1] == n - 1 {
                    assert(p[q[j + 1]] == j + 1);
                }
            }
        }
        assert(ys.drop_last() =~= reordered(rest, p2)) by {
            assert forall|i: int| 0 <= i < n - 1 implies #[trigger] ys.drop_last()[i] == reordered(rest, p2)[i] by {
                if p[i] == k {
                    assert(q[p[i]] == i && q[p[n - 1]] == n - 1);
                }
            }
        }
        lemma_flatten_reordered(rest, p2, q2, piece);
        let front = xs.subrange(0, k);
        let back = xs.subrange(k + 1, n);
        assert(rest =~= front + back);
        assert(xs =~= front + seq![xs[k]] + back);
        lemma_flatten_concat(front, back, piece);
        lemma_flatten_concat(front + seq![xs[k]], back, piece);
        lemma_flatten_concat(front, seq![xs[k]], piece);
        assert(seq![xs[k]].drop_last() =~= Seq::<X>::empty());
        let fa = flatten(front, piece);
        let fc = flatten(back, piece);
        let sk = piece(xs[k]);
        assert(flatten(Seq::<X>::empty(), piece) =~= Seq::<T>::empty());
        assert(flatten(seq![xs[k]], piece) == flatten(Seq::<X>::empty(), piece) + sk);
        assert(flatten(seq![xs[k]], piece) =~= sk);
        assert(flatten(ys, piece) == flatten(ys.drop_last(), piece) + sk);
        // flatten(xs) = fa + sk + fc, flatten(rest) = fa + fc ~ flatten(ys.drop_last())
        lemma_permutes_swap(sk, fc);
        lemma_permutes_refl(fa);
        lemma_permutes_concat(fa, fa, sk + fc, fc + sk);
        assert(fa + (sk + fc) =~= flatten(xs, piece));
        assert(fa + (fc + sk) =~= flatten(rest, piece) + sk);
        lemma_permutes_refl(sk);
        lemma_permutes_concat(flatten(rest, piece), flatten(ys.drop_last(), piece), sk, sk);
        lemma_permutes_trans(flatten(xs, piece), flatten(rest, piece) + sk, flatten(ys, piece));
    }
}

} // verus!
