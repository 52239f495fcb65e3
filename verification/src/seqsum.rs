//! Sums of integer sequences and the facts that loops over them need.
use vstd::prelude::*;

verus! {

/// Sum of an integer sequence.
pub open spec fn sum_seq(s: Seq<int>) -> int
    decreases s.len(),
{
    if s.len() == 0 {
        0
    } else {
        sum_seq(s.drop_last()) + s.last()
    }
}

/// Whether every entry is nonnegative.
pub open spec fn nonnegative(s: Seq<int>) -> bool {
    forall|i: int| 0 <= i < s.len() ==> 0 <= #[trigger] s[i]
}

/// Extending a prefix by one entry adds that entry.
pub proof fn lemma_sum_take_step(s: Seq<int>, i: int)
    requires
        0 <= i < s.len(),
    ensures
        sum_seq(s.take(i + 1)) == sum_seq(s.take(i)) + s[i],
{
    assert(s.take(i + 1).drop_last() =~= s.take(i));
}

/// The full prefix is the whole sequence.
pub proof fn lemma_sum_take_all(s: Seq<int>)
    ensures
        sum_seq(s.take(s.len() as int)) == sum_seq(s),
{
    assert(s.take(s.len() as int) =~= s);
}

/// A prefix of a nonnegative sequence sums to at most the whole.
pub proof fn lemma_sum_prefix_le(s: Seq<int>, k: int)
    requires
        0 <= k <= s.len(),
        nonnegative(s),
    ensures
        sum_seq(s.take(k)) <= sum_seq(s),
    decreases s.len(),
{
    if k < s.len() {
        assert(s.drop_last().take(k) =~= s.take(k));
        assert(nonnegative(s.drop_last())) by {
            assert forall|i: int| 0 <= i < s.drop_last().len() implies 0 <= #[trigger] s.drop_last()[i] by {
                assert(s.drop_last()[i] == s[i]);
            }
        }
        lemma_sum_prefix_le(s.drop_last(), k);
    } else {
        assert(s.take(k) =~= s);
    }
}



/// Left-to-right saturating sum, as the diagnostic counters accumulate.
pub open spec fn sat_sum(s: Seq<int>) -> int
    decreases s.len(),
{
    if s.len() == 0 {
        0
    } else {
        crate::arith::sat_add_spec(sat_sum(s.drop_last()), s.last())
    }
}

/// Largest entry, or zero for an empty sequence.
pub open spec fn max_seq(s: Seq<int>) -> int
    decreases s.len(),
{
    if s.len() == 0 {
        0
    } else {
        let m = max_seq(s.drop_last());
        if s.last() > m { s.last() } else { m }
    }
}

/// Extending a prefix by one entry saturates-adds that entry.
pub proof fn lemma_sat_sum_take_step(s: Seq<int>, i: int)
    requires
        0 <= i < s.len(),
    ensures
        sat_sum(s.take(i + 1)) == crate::arith::sat_add_spec(sat_sum(s.take(i)), s[i]),
        max_seq(s.take(i + 1)) == (if s[i] > max_seq(s.take(i)) { s[i] } else { max_seq(s.take(i)) }),
{
    assert(s.take(i + 1).drop_last() =~= s.take(i));
}

/// Saturating sums are monotone: entrywise smaller terms never sum to more.
pub proof fn lemma_sat_sum_le(a: Seq<int>, b: Seq<int>)
    requires
        a.len() == b.len(),
        forall|i: int| 0 <= i < a.len() ==> #[trigger] a[i] <= b[i],
    ensures
        sat_sum(a) <= sat_sum(b),
    decreases a.len(),
{
    if a.len() > 0 {
        lemma_sat_sum_le(a.drop_last(), b.drop_last());
    }
}

} // verus!
