//! Sequence helpers used by the specifications: order-preserving filtering
//! and the facts that loops over vectors need about it.

use vstd::prelude::*;

verus! {

/// The elements of `s` that satisfy `p`, in the order they come in.
pub open spec fn keep_where<A>(s: Seq<A>, p: spec_fn(A) -> bool) -> Seq<A>
    decreases s.len(),
{
    if s.len() == 0 {
        Seq::empty()
    } else {
        let rest = keep_where(s.drop_last(), p);
        if p(s.last()) {
            rest.push(s.last())
        } else {
            rest
        }
    }
}

/// Extending the inspected prefix by one element extends the kept elements
/// by that element exactly when it satisfies the predicate.
pub proof fn lemma_keep_where_step<A>(s: Seq<A>, i: int, p: spec_fn(A) -> bool)
    requires
        0 <= i < s.len(),
    ensures
        keep_where(s.subrange(0, i + 1), p) == (if p(s[i]) {
            keep_where(s.subrange(0, i), p).push(s[i])
        } else {
            keep_where(s.subrange(0, i), p)
        }),
{
    assert(s.subrange(0, i + 1).drop_last() =~= s.subrange(0, i));
}

/// Every kept element satisfies the predicate and comes from `s`.
pub proof fn lemma_keep_where_sound<A>(s: Seq<A>, p: spec_fn(A) -> bool)
    ensures
        forall|k: int| 0 <= k < keep_where(s, p).len() ==> p(#[trigger] keep_where(s, p)[k]),
        forall|k: int| 0 <= k < keep_where(s, p).len() ==> s.contains(#[trigger] keep_where(s, p)[k]),
        keep_where(s, p).len() <= s.len(),
    decreases s.len(),
{
    if s.len() > 0 {
        lemma_keep_where_sound(s.drop_last(), p);
        let rest = keep_where(s.drop_last(), p);
        assert forall|k: int| 0 <= k < keep_where(s, p).len() implies s.contains(
            #[trigger] keep_where(s, p)[k],
        ) by {
            if k < rest.len() {
                let x = rest[k];
                assert(s.drop_last().contains(x));
                let j = choose|j: int| 0 <= j < s.drop_last().len() && s.drop_last()[j] == x;
                assert(s[j] == x);
            } else {
                assert(s[s.len() - 1] == s.last());
            }
        }
    }
}

/// An element of `s` that satisfies the predicate is kept.
pub proof fn lemma_keep_where_complete<A>(s: Seq<A>, p: spec_fn(A) -> bool, x: A)
    requires
        s.contains(x),
        p(x),
    ensures
        keep_where(s, p).contains(x),
    decreases s.len(),
{
    if s.last() == x {
        assert(keep_where(s, p).last() == x);
    } else {
        let j = choose|j: int| 0 <= j < s.len() && s[j] == x;
        assert(j < s.len() - 1);
        assert(s.drop_last()[j] == x);
        lemma_keep_where_complete(s.drop_last(), p, x);
        let rest = keep_where(s.drop_last(), p);
        let k = choose|k: int| 0 <= k < rest.len() && rest[k] == x;
        if p(s.last()) {
            assert(keep_where(s, p)[k] == x);
        }
    }
}

} // verus!
