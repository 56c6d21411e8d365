//! Positions in sequences: the first element that satisfies a predicate.
use vstd::prelude::*;

verus! {

/// Index of the first element of `s` that satisfies `p`, or -1 when none does.
pub open spec fn first_where<A>(s: Seq<A>, p: spec_fn(A) -> bool) -> int
    decreases s.len(),
{
    if s.len() == 0 {
        -1
    } else if p(s[0]) {
        0
    } else if first_where(s.drop_first(), p) < 0 {
        -1
    } else {
        1 + first_where(s.drop_first(), p)
    }
}

/// `first_where` is the least index whose element satisfies the predicate.
pub proof fn lemma_first_where<A>(s: Seq<A>, p: spec_fn(A) -> bool)
    ensures
        -1 <= first_where(s, p) < s.len(),
        first_where(s, p) >= 0 ==> p(s[first_where(s, p)]),
        forall|j: int| 0 <= j < s.len() && (first_where(s, p) < 0 || j < first_where(s, p)) ==> !p(
            #[trigger] s[j],
        ),
    decreases s.len(),
{
    if s.len() > 0 {
        lemma_first_where(s.drop_first(), p);
        assert forall|j: int|
            0 <= j < s.len() && (first_where(s, p) < 0 || j < first_where(s, p)) implies !p(
            #[trigger] s[j],
        ) by {
            if j > 0 {
                assert(s[j] == s.drop_first()[j - 1]);
            }
        }
        if first_where(s, p) > 0 {
            assert(s[first_where(s, p)] == s.drop_first()[first_where(s, p) - 1]);
        }
    }
}

/// An index whose element satisfies the predicate and is preceded by none that
/// does is the one `first_where` gives.
pub proof fn lemma_first_where_is<A>(s: Seq<A>, p: spec_fn(A) -> bool, i: int)
    requires
        0 <= i < s.len(),
        p(s[i]),
        forall|j: int| 0 <= j < i ==> !p(#[trigger] s[j]),
    ensures
        first_where(s, p) == i,
{
    lemma_first_where(s, p);
    if first_where(s, p) >= 0 && first_where(s, p) < i {
        assert(!p(s[first_where(s, p)]));
    }
}

/// When no element satisfies the predicate, `first_where` is -1.
pub proof fn lemma_first_where_none<A>(s: Seq<A>, p: spec_fn(A) -> bool)
    requires
        forall|j: int| 0 <= j < s.len() ==> !p(#[trigger] s[j]),
    ensures
        first_where(s, p) == -1,
{
    lemma_first_where(s, p);
    if first_where(s, p) >= 0 {
        assert(p(s[first_where(s, p)]));
    }
}

/// Index of the last element of `s` that satisfies `p`, or -1 when none does.
pub open spec fn last_where<A>(s: Seq<A>, p: spec_fn(A) -> bool) -> int
    decreases s.len(),
{
    if s.len() == 0 {
        -1
    } else if p(s.last()) {
        s.len() - 1
    } else {
        last_where(s.drop_last(), p)
    }
}

/// `last_where` is the greatest index whose element satisfies the predicate.
pub proof fn lemma_last_where<A>(s: Seq<A>, p: spec_fn(A) -> bool)
    ensures
        -1 <= last_where(s, p) < s.len(),
        last_where(s, p) >= 0 ==> p(s[last_where(s, p)]),
        forall|j: int| 0 <= j < s.len() && last_where(s, p) < j ==> !p(#[trigger] s[j]),
    decreases s.len(),
{
    if s.len() > 0 {
        lemma_last_where(s.drop_last(), p);
        if !p(s.last()) {
            assert forall|j: int| 0 <= j < s.len() && last_where(s, p) < j implies !p(
                #[trigger] s[j],
            ) by {
                if j < s.len() - 1 {
                    assert(s[j] == s.drop_last()[j]);
                }
            }
            if last_where(s, p) >= 0 {
                assert(s[last_where(s, p)] == s.drop_last()[last_where(s, p)]);
            }
        }
    }
}

/// An index whose element satisfies the predicate and is followed by none that
/// does is the one `last_where` gives.
pub proof fn lemma_last_where_is<A>(s: Seq<A>, p: spec_fn(A) -> bool, i: int)
    requires
        0 <= i < s.len(),
        p(s[i]),
        forall|j: int| i < j < s.len() ==> !p(#[trigger] s[j]),
    ensures
        last_where(s, p) == i,
{
    lemma_last_where(s, p);
    if last_where(s, p) > i {
        assert(!p(s[last_where(s, p)]));
    }
}

/// When no element satisfies the predicate, `last_where` is -1.
pub proof fn lemma_last_where_none<A>(s: Seq<A>, p: spec_fn(A) -> bool)
    requires
        forall|j: int| 0 <= j < s.len() ==> !p(#[trigger] s[j]),
    ensures
        last_where(s, p) == -1,
{
    lemma_last_where(s, p);
    if last_where(s, p) >= 0 {
        assert(p(s[last_where(s, p)]));
    }
}

/// Filtering one element more: the filter of the first `i + 1` elements is that
/// of the first `i`, followed by element `i` when it satisfies the predicate.
pub proof fn lemma_filter_take_step<A>(s: Seq<A>, p: spec_fn(A) -> bool, i: int)
    requires
        0 <= i < s.len(),
    ensures
        s.take(i + 1).filter(p) == if p(s[i]) {
            s.take(i).filter(p).push(s[i])
        } else {
            s.take(i).filter(p)
        },
{
    reveal(Seq::filter);
    assert(s.take(i + 1).drop_last() =~= s.take(i));
    assert(s.take(i + 1).last() == s[i]);
}

} // verus!
