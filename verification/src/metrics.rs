//! Sums, peaks, averages and scale selection over integer reading histories.

use vstd::prelude::*;

verus! {

/// The sum of the readings.
pub open spec fn seq_sum(s: Seq<u64>) -> int
    decreases s.len(),
{
    if s.len() == 0 {
        0
    } else {
        seq_sum(s.drop_last()) + s.last()
    }
}

/// The largest reading, or 0 when there is none.
pub open spec fn peak(s: Seq<u64>) -> u64
    decreases s.len(),
{
    if s.len() == 0 {
        0
    } else if s.last() > peak(s.drop_last()) {
        s.last()
    } else {
        peak(s.drop_last())
    }
}

/// The first of `limits` that `highest % limit == highest` accepts, if any.
pub open spec fn first_fit(limits: Seq<u64>, highest: u64) -> Option<u64>
    decreases limits.len(),
{
    if limits.len() == 0 {
        None
    } else if limits[0] > 0 && highest % limits[0] == highest {
        Some(limits[0])
    } else {
        first_fit(limits.drop_first(), highest)
    }
}

/// Sums the readings, as `stats.iter().sum::<u64>()` does when it does not overflow.
pub fn sum_u64(stats: &Vec<u64>) -> (res: u64)
    requires
        seq_sum(stats@) <= u64::MAX,
    ensures
        res == seq_sum(stats@),
{
    let mut total: u64 = 0;
    let mut i: usize = 0;
    while i < stats.len()
        invariant
            i <= stats.len(),
            seq_sum(stats@) <= u64::MAX,
            total == seq_sum(stats@.take(i as int)),
        decreases stats.len() - i,
    {
        assert(stats@.take(i + 1).drop_last() == stats@.take(i as int));
        proof {
            lemma_sum_prefix_le(stats@, i + 1);
        }
        total = total + stats[i];
        i += 1;
    }
    assert(stats@.take(stats.len() as int) == stats@);
    total
}

/// The largest reading, or 0 when there is none: what
/// `match stats.iter().max() { Some(v) => *v, None => 0 }` gives.
pub fn peak_u64(stats: &Vec<u64>) -> (res: u64)
    ensures
        res == peak(stats@),
{
    let mut best: u64 = 0;
    let mut i: usize = 0;
    while i < stats.len()
        invariant
            i <= stats.len(),
            best == peak(stats@.take(i as int)),
        decreases stats.len() - i,
    {
        assert(stats@.take(i + 1).drop_last() == stats@.take(i as int));
        if stats[i] > best {
            best = stats[i];
        }
        i += 1;
    }
    assert(stats@.take(stats.len() as int) == stats@);
    best
}

/// A prefix of readings never sums to more than all of them.
pub proof fn lemma_sum_prefix_le(s: Seq<u64>, n: int)
    requires
        0 <= n <= s.len(),
    ensures
        seq_sum(s.take(n)) <= seq_sum(s),
        seq_sum(s.take(n)) >= 0,
    decreases s.len(),
{
    if n == s.len() {
        assert(s.take(n) == s);
        lemma_sum_nonneg(s);
    } else {
        lemma_sum_prefix_le(s.drop_last(), n);
        assert(s.drop_last().take(n) == s.take(n));
    }
}

/// A sum of readings is never negative.
pub proof fn lemma_sum_nonneg(s: Seq<u64>)
    ensures
        seq_sum(s) >= 0,
    decreases s.len(),
{
    if s.len() > 0 {
        lemma_sum_nonneg(s.drop_last());
    }
}

/// Every reading is at most the peak.
pub proof fn lemma_peak_bounds(s: Seq<u64>)
    ensures
        forall|i: int| 0 <= i < s.len() ==> s[i] <= peak(s),
        s.len() > 0 ==> exists|i: int| 0 <= i < s.len() && s[i] == peak(s),
    decreases s.len(),
{
    if s.len() > 0 {
        let p = s.drop_last();
        lemma_peak_bounds(p);
        assert forall|i: int| 0 <= i < s.len() implies s[i] <= peak(s) by {
            if i < p.len() {
                assert(s[i] == p[i]);
            }
        }
        if s.last() > peak(p) {
            assert(s[s.len() - 1] == peak(s));
        } else if p.len() > 0 {
            let j = choose|j: int| 0 <= j < p.len() && p[j] == peak(p);
            assert(s[j] == peak(s));
        } else {
            assert(s[0] == peak(s));
        }
    }
}

/// Readings that are each below `bound` sum to less than `bound` times their number.
pub proof fn lemma_sum_below(s: Seq<u64>, bound: int)
    requires
        forall|i: int| 0 <= i < s.len() ==> s[i] < bound,
    ensures
        seq_sum(s) <= s.len() * bound,
        s.len() > 0 ==> seq_sum(s) < s.len() * bound,
    decreases s.len(),
{
    if s.len() > 0 {
        let p = s.drop_last();
        assert forall|i: int| 0 <= i < p.len() implies p[i] < bound by {
            assert(p[i] == s[i]);
        }
        lemma_sum_below(p, bound);
        assert(s.len() * bound == p.len() * bound + bound) by (nonlinear_arith)
            requires
                s.len() == p.len() + 1,
        ;
    } else {
        assert(s.len() * bound == 0) by (nonlinear_arith)
            requires
                s.len() == 0,
        ;
    }
}

} // verus!
