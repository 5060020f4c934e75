//! Facts about the elements that a filter keeps.

use vstd::prelude::*;

verus! {

/// An element that a filter keeps is one of the sequence, and passes the filter.
pub proof fn lemma_filter_from<A>(s: Seq<A>, pred: spec_fn(A) -> bool, k: int) -> (i: int)
    requires
        0 <= k < s.filter(pred).len(),
    ensures
        0 <= i < s.len(),
        s[i] == s.filter(pred)[k],
        pred(s[i]),
    decreases s.len(),
{
    reveal(Seq::filter);
    if s.len() == 0 {
        0
    } else {
        let before = s.drop_last().filter(pred);
        if k < before.len() {
            lemma_filter_from(s.drop_last(), pred, k)
        } else {
            s.len() - 1
        }
    }
}

/// Where a filter keeps one element at most, only one place passes it.
pub proof fn lemma_filter_one<A>(s: Seq<A>, pred: spec_fn(A) -> bool, i: int, j: int)
    requires
        s.filter(pred).len() <= 1,
        0 <= i < s.len(),
        0 <= j < s.len(),
        pred(s[i]),
        pred(s[j]),
    ensures
        i == j,
    decreases s.len(),
{
    reveal(Seq::filter);
    let rest = s.drop_last();
    let last = s.len() - 1;
    if i < last && j < last {
        lemma_filter_one(rest, pred, i, j);
    } else if i < last {
        lemma_filter_some(rest, pred, i);
    } else if j < last {
        lemma_filter_some(rest, pred, j);
    }
}

/// Where an element passes a filter, the filter keeps something.
pub proof fn lemma_filter_some<A>(s: Seq<A>, pred: spec_fn(A) -> bool, i: int)
    requires
        0 <= i < s.len(),
        pred(s[i]),
    ensures
        s.filter(pred).len() > 0,
    decreases s.len(),
{
    reveal(Seq::filter);
    if i < s.len() - 1 {
        lemma_filter_some(s.drop_last(), pred, i);
    }
}

/// Where exactly one place passes a filter, the filter keeps its element and nothing else.
pub proof fn lemma_filter_only<A>(s: Seq<A>, pred: spec_fn(A) -> bool, i: int)
    requires
        0 <= i < s.len(),
        pred(s[i]),
        forall|j: int| 0 <= j < s.len() && #[trigger] pred(s[j]) ==> j == i,
    ensures
        s.filter(pred) == seq![s[i]],
    decreases s.len(),
{
    reveal(Seq::filter);
    let rest = s.drop_last();
    if i == s.len() - 1 {
        if rest.filter(pred).len() > 0 {
            let k = lemma_filter_from(rest, pred, 0);
            assert(pred(s[k]));
        }
        assert(s.filter(pred) =~= seq![s[i]]);
    } else {
        assert(!pred(s[s.len() - 1]));
        assert forall|j: int| 0 <= j < rest.len() && #[trigger] pred(rest[j]) implies j == i by {
            assert(pred(s[j]));
        }
        lemma_filter_only(rest, pred, i);
    }
}

/// Two tests that agree on the elements of a sequence keep the same ones.
pub proof fn lemma_filter_same<A>(s: Seq<A>, p: spec_fn(A) -> bool, q: spec_fn(A) -> bool)
    requires
        forall|i: int| 0 <= i < s.len() ==> p(#[trigger] s[i]) == q(s[i]),
    ensures
        s.filter(p) == s.filter(q),
    decreases s.len(),
{
    reveal(Seq::filter);
    if s.len() > 0 {
        assert(p(s[s.len() - 1]) == q(s[s.len() - 1]));
        assert forall|i: int| 0 <= i < s.drop_last().len() implies p(#[trigger] s.drop_last()[i])
            == q(s.drop_last()[i]) by {
            assert(s.drop_last()[i] == s[i]);
        }
        lemma_filter_same(s.drop_last(), p, q);
    }
}

/// To filter twice is to filter by both tests.
pub proof fn lemma_filter_twice<A>(
    s: Seq<A>,
    p: spec_fn(A) -> bool,
    q: spec_fn(A) -> bool,
    both: spec_fn(A) -> bool,
)
    requires
        forall|a: A| #[trigger] both(a) == (p(a) && q(a)),
    ensures
        s.filter(p).filter(q) == s.filter(both),
    decreases s.len(),
{
    reveal(Seq::filter);
    if s.len() > 0 {
        let rest = s.drop_last();
        lemma_filter_twice(rest, p, q, both);
        assert(both(s.last()) == (p(s.last()) && q(s.last())));
        if p(s.last()) {
            assert(rest.filter(p).push(s.last()).drop_last() =~= rest.filter(p));
        }
    }
}

/// A filter of a whole is the filters of its parts, one behind the other.
pub proof fn lemma_filter_sum<A>(a: Seq<A>, b: Seq<A>, p: spec_fn(A) -> bool)
    ensures
        (a + b).filter(p) == a.filter(p) + b.filter(p),
    decreases b.len(),
{
    reveal(Seq::filter);
    if b.len() == 0 {
        assert(a + b =~= a);
        assert(a.filter(p) + b.filter(p) =~= a.filter(p));
    } else {
        assert((a + b).drop_last() =~= a + b.drop_last());
        lemma_filter_sum(a, b.drop_last(), p);
        assert((a + b).filter(p) =~= a.filter(p) + b.filter(p));
    }
}

} // verus!
