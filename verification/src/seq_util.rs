//! General facts about `Seq::filter` that the stores' delete operations rely
//! on: filtered elements come from the original sequence, filtering respects
//! pointwise-equal predicates, and filtering keeps a distinct projection
//! distinct.

use vstd::prelude::*;

verus! {

/// Every element of a filtered sequence is an element of the original and
/// satisfies the predicate.
pub proof fn lemma_filter_membership<A>(s: Seq<A>, pred: spec_fn(A) -> bool, x: A)
    requires
        s.filter(pred).contains(x),
    ensures
        s.contains(x),
        pred(x),
    decreases s.len(),
{
    reveal(Seq::filter);
    if s.len() > 0 {
        if s.drop_last().filter(pred).contains(x) {
            lemma_filter_membership(s.drop_last(), pred, x);
            let i = choose|i: int| 0 <= i < s.drop_last().len() && s.drop_last()[i] == x;
            assert(s[i] == x);
        } else {
            assert(x == s.last() && pred(s.last()));
            assert(s[s.len() - 1] == x);
        }
    }
}

/// Predicates that agree on every element of `s` filter `s` identically.
pub proof fn lemma_filter_congruence<A>(s: Seq<A>, p: spec_fn(A) -> bool, q: spec_fn(A) -> bool)
    requires
        forall|i: int| 0 <= i < s.len() ==> (p(#[trigger] s[i]) <==> q(s[i])),
    ensures
        s.filter(p) == s.filter(q),
    decreases s.len(),
{
    reveal(Seq::filter);
    if s.len() > 0 {
        assert(forall|i: int|
            0 <= i < s.drop_last().len() ==> (p(#[trigger] s.drop_last()[i]) <==> q(
                s.drop_last()[i],
            )));
        lemma_filter_congruence(s.drop_last(), p, q);
        assert(p(s.last()) <==> q(s.last()));
    }
}

/// If a projection is pairwise distinct on `s`, it stays pairwise distinct on
/// any filtering of `s`.
pub proof fn lemma_filter_distinct<A, B>(s: Seq<A>, pred: spec_fn(A) -> bool, f: spec_fn(A) -> B)
    requires
        forall|i: int, j: int|
            0 <= i < j < s.len() ==> f(#[trigger] s[i]) != f(#[trigger] s[j]),
    ensures
        forall|i: int, j: int|
            0 <= i < j < s.filter(pred).len() ==> f(#[trigger] s.filter(pred)[i]) != f(
                #[trigger] s.filter(pred)[j],
            ),
    decreases s.len(),
{
    reveal(Seq::filter);
    if s.len() > 0 {
        let d = s.drop_last();
        assert(forall|i: int, j: int|
            0 <= i < j < d.len() ==> f(#[trigger] d[i]) != f(#[trigger] d[j]));
        lemma_filter_distinct(d, pred, f);
        let fd = d.filter(pred);
        if pred(s.last()) {
            assert(s.filter(pred) == fd.push(s.last()));
            assert forall|i: int, j: int|
                0 <= i < j < s.filter(pred).len() implies f(#[trigger] s.filter(pred)[i]) != f(
                #[trigger] s.filter(pred)[j],
            ) by {
                if j < fd.len() {
                    assert(s.filter(pred)[i] == fd[i]);
                    assert(s.filter(pred)[j] == fd[j]);
                } else {
                    assert(s.filter(pred)[j] == s.last());
                    assert(s.filter(pred)[i] == fd[i]);
                    lemma_filter_membership(d, pred, fd[i]);
                    let i0 = choose|i0: int| 0 <= i0 < d.len() && d[i0] == fd[i];
                    assert(s[i0] == fd[i]);
                    assert(f(s[i0]) != f(s[s.len() - 1]));
                }
            }
        }
    }
}

} // verus!
