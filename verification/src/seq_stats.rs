use vstd::prelude::*;

verus! {

/// Folds over sequences that the range computations and the per-cluster
/// statistics share: the minimum, maximum and sum of an integer reading
/// extracted from each element.

/// Smallest value of `f` over a non-empty sequence.
pub open spec fn seq_min<A>(s: Seq<A>, f: spec_fn(A) -> int) -> int
    recommends
        s.len() > 0,
    decreases s.len(),
{
    if s.len() <= 1 {
        f(s[0])
    } else {
        vstd::math::min(seq_min(s.drop_last(), f), f(s.last()))
    }
}

/// Largest value of `f` over a non-empty sequence.
pub open spec fn seq_max<A>(s: Seq<A>, f: spec_fn(A) -> int) -> int
    recommends
        s.len() > 0,
    decreases s.len(),
{
    if s.len() <= 1 {
        f(s[0])
    } else {
        vstd::math::max(seq_max(s.drop_last(), f), f(s.last()))
    }
}

/// Sum of `f` over a sequence; zero when it is empty.
pub open spec fn seq_sum<A>(s: Seq<A>, f: spec_fn(A) -> int) -> int
    decreases s.len(),
{
    if s.len() == 0 {
        0
    } else {
        seq_sum(s.drop_last(), f) + f(s.last())
    }
}

pub proof fn lemma_seq_min_push<A>(s: Seq<A>, f: spec_fn(A) -> int, x: A)
    requires
        s.len() > 0,
    ensures
        seq_min(s.push(x), f) == vstd::math::min(seq_min(s, f), f(x)),
{
    assert(s.push(x).drop_last() =~= s);
    assert(s.push(x).last() == x);
}

pub proof fn lemma_seq_max_push<A>(s: Seq<A>, f: spec_fn(A) -> int, x: A)
    requires
        s.len() > 0,
    ensures
        seq_max(s.push(x), f) == vstd::math::max(seq_max(s, f), f(x)),
{
    assert(s.push(x).drop_last() =~= s);
    assert(s.push(x).last() == x);
}

pub proof fn lemma_seq_sum_push<A>(s: Seq<A>, f: spec_fn(A) -> int, x: A)
    ensures
        seq_sum(s.push(x), f) == seq_sum(s, f) + f(x),
{
    assert(s.push(x).drop_last() =~= s);
    assert(s.push(x).last() == x);
}

/// The minimum is a lower bound for every element.
pub proof fn lemma_seq_min_le_all<A>(s: Seq<A>, f: spec_fn(A) -> int)
    requires
        s.len() > 0,
    ensures
        forall|i: int| 0 <= i < s.len() ==> seq_min(s, f) <= f(s[i]),
    decreases s.len(),
{
    if s.len() > 1 {
        lemma_seq_min_le_all(s.drop_last(), f);
        assert forall|i: int| 0 <= i < s.len() implies seq_min(s, f) <= f(s[i]) by {
            if i < s.len() - 1 {
                assert(s.drop_last()[i] == s[i]);
            }
        }
    }
}

/// The maximum is an upper bound for every element.
pub proof fn lemma_seq_max_ge_all<A>(s: Seq<A>, f: spec_fn(A) -> int)
    requires
        s.len() > 0,
    ensures
        forall|i: int| 0 <= i < s.len() ==> f(s[i]) <= seq_max(s, f),
    decreases s.len(),
{
    if s.len() > 1 {
        lemma_seq_max_ge_all(s.drop_last(), f);
        assert forall|i: int| 0 <= i < s.len() implies f(s[i]) <= seq_max(s, f) by {
            if i < s.len() - 1 {
                assert(s.drop_last()[i] == s[i]);
            }
        }
    }
}

/// The minimum of readings that are all at least `lo` is itself at least
/// `lo`.
pub proof fn lemma_seq_min_ge<A>(s: Seq<A>, f: spec_fn(A) -> int, lo: int)
    requires
        s.len() > 0,
        forall|i: int| 0 <= i < s.len() ==> lo <= #[trigger] f(s[i]),
    ensures
        lo <= seq_min(s, f),
    decreases s.len(),
{
    if s.len() > 1 {
        let d = s.drop_last();
        assert(forall|i: int| 0 <= i < d.len() ==> lo <= #[trigger] f(d[i])) by {
            assert(forall|i: int| 0 <= i < d.len() ==> d[i] == s[i]);
        }
        lemma_seq_min_ge(d, f, lo);
        assert(f(s.last()) >= lo);
    }
}

/// The maximum of readings that are all at most `hi` is itself at most
/// `hi`.
pub proof fn lemma_seq_max_le<A>(s: Seq<A>, f: spec_fn(A) -> int, hi: int)
    requires
        s.len() > 0,
        forall|i: int| 0 <= i < s.len() ==> #[trigger] f(s[i]) <= hi,
    ensures
        seq_max(s, f) <= hi,
    decreases s.len(),
{
    if s.len() > 1 {
        let d = s.drop_last();
        assert(forall|i: int| 0 <= i < d.len() ==> #[trigger] f(d[i]) <= hi) by {
            assert(forall|i: int| 0 <= i < d.len() ==> d[i] == s[i]);
        }
        lemma_seq_max_le(d, f, hi);
        assert(f(s.last()) <= hi);
    }
}

/// A sum over elements that all lie between `lo` and `hi` lies between
/// `lo` and `hi` scaled by the length.
pub proof fn lemma_seq_sum_bounds<A>(s: Seq<A>, f: spec_fn(A) -> int, lo: int, hi: int)
    requires
        forall|i: int| 0 <= i < s.len() ==> lo <= #[trigger] f(s[i]) <= hi,
    ensures
        lo * s.len() <= seq_sum(s, f) <= hi * s.len(),
    decreases s.len(),
{
    if s.len() == 0 {
    } else {
        let d = s.drop_last();
        assert(forall|i: int| 0 <= i < d.len() ==> lo <= #[trigger] f(d[i]) <= hi) by {
            assert(forall|i: int| 0 <= i < d.len() ==> d[i] == s[i]);
        }
        lemma_seq_sum_bounds(d, f, lo, hi);
        assert(f(s.last()) >= lo && f(s.last()) <= hi);
        assert(lo * s.len() == lo * d.len() + lo) by (nonlinear_arith)
            requires
                s.len() == d.len() + 1,
        ;
        assert(hi * s.len() == hi * d.len() + hi) by (nonlinear_arith)
            requires
                s.len() == d.len() + 1,
        ;
    }
}

} // verus!
