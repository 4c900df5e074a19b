//! Summary statistics over a sample of millisecond timings.
//!
//! The mean and the median are specified over mathematical integers, so the
//! results are exact for every sample: no intermediate sum can overflow.

use vstd::arithmetic::div_mod::{lemma_fundamental_div_mod, lemma_fundamental_div_mod_converse};
use vstd::prelude::*;
use vstd::relations::{sorted_by, total_ordering};
use vstd::seq_lib::{lemma_sorted_unique, to_multiset_build, to_multiset_remove};

verus! {

/// Sum of all samples, as a mathematical integer.
pub open spec fn sum_of(samples: Seq<u128>) -> int
    decreases samples.len(),
{
    if samples.len() == 0 {
        0
    } else {
        sum_of(samples.drop_last()) + samples.last()
    }
}

/// The order by which samples are sorted.
pub open spec fn at_most() -> spec_fn(u128, u128) -> bool {
    |a: u128, b: u128| a <= b
}

/// No sample is followed by a smaller one.
pub open spec fn ascending(samples: Seq<u128>) -> bool {
    forall|i: int, j: int| 0 <= i <= j < samples.len() ==> samples[i] <= samples[j]
}

/// The samples in ascending order.
pub open spec fn sorted_copy(samples: Seq<u128>) -> Seq<u128> {
    samples.sort_by(at_most())
}

/// Middle of an ascending sequence: the middle element for an odd length,
/// the rounded-down average of the two middle elements for an even one.
pub open spec fn middle_of(sorted: Seq<u128>) -> int {
    let n = sorted.len() as int;
    if n == 0 {
        0
    } else if n % 2 == 0 {
        (sorted[n / 2 - 1] + sorted[n / 2]) / 2
    } else {
        sorted[n / 2] as int
    }
}

/// Median of the samples; zero for an empty sample.
pub open spec fn median_of(samples: Seq<u128>) -> int {
    middle_of(sorted_copy(samples))
}

/// Rounded-down arithmetic mean of the samples; zero for an empty sample.
pub open spec fn mean_of(samples: Seq<u128>) -> int {
    if samples.len() == 0 {
        0
    } else {
        sum_of(samples) / (samples.len() as int)
    }
}

/// `m` occurs among the samples and none is smaller.
pub open spec fn is_least(m: u128, samples: Seq<u128>) -> bool {
    &&& exists|i: int| 0 <= i < samples.len() && samples[i] == m
    &&& forall|i: int| 0 <= i < samples.len() ==> m <= samples[i]
}

/// `m` occurs among the samples and none is greater.
pub open spec fn is_greatest(m: u128, samples: Seq<u128>) -> bool {
    &&& exists|i: int| 0 <= i < samples.len() && samples[i] == m
    &&& forall|i: int| 0 <= i < samples.len() ==> samples[i] <= m
}

/// `<=` on `u128` is a total order.
pub proof fn lemma_at_most_is_total()
    ensures
        total_ordering(at_most()),
{
}

/// An ascending sequence is sorted by `at_most`, and conversely.
pub proof fn lemma_ascending_is_sorted(samples: Seq<u128>)
    ensures
        ascending(samples) <==> sorted_by(samples, at_most()),
{
    let leq = at_most();
    if ascending(samples) {
        assert forall|i: int, j: int| 0 <= i < j < samples.len() implies #[trigger] leq(
            samples[i],
            samples[j],
        ) by {}
    }
    if sorted_by(samples, leq) {
        assert forall|i: int, j: int| 0 <= i <= j < samples.len() implies samples[i]
            <= samples[j] by {
            if i < j {
                assert(leq(samples[i], samples[j]));
            }
        }
    }
}

/// The sorted copy is ascending and holds each value as often as the
/// sample does.
pub proof fn lemma_sorted_copy_properties(samples: Seq<u128>)
    ensures
        ascending(sorted_copy(samples)),
        sorted_copy(samples).to_multiset() == samples.to_multiset(),
        sorted_copy(samples).len() == samples.len(),
{
    lemma_at_most_is_total();
    samples.lemma_sort_by_ensures(at_most());
    lemma_ascending_is_sorted(sorted_copy(samples));
    samples.to_multiset_ensures();
    sorted_copy(samples).to_multiset_ensures();
}

/// Sorting has one result: an ascending rearrangement of the samples is
/// their sorted copy.
pub proof fn lemma_sorted_copy_unique(samples: Seq<u128>, arranged: Seq<u128>)
    requires
        ascending(arranged),
        arranged.to_multiset() == samples.to_multiset(),
    ensures
        sorted_copy(samples) == arranged,
{
    lemma_at_most_is_total();
    lemma_sorted_copy_properties(samples);
    lemma_ascending_is_sorted(arranged);
    lemma_ascending_is_sorted(sorted_copy(samples));
    lemma_sorted_unique(sorted_copy(samples), arranged, at_most());
}

/// The sum of a sample lies between as many times its least and as many
/// times its greatest value.
proof fn lemma_sum_between_extremes(samples: Seq<u128>, low: u128, high: u128)
    requires
        forall|i: int| 0 <= i < samples.len() ==> low <= #[trigger] samples[i] <= high,
    ensures
        samples.len() * low <= sum_of(samples) <= samples.len() * high,
    decreases samples.len(),
{
    if samples.len() > 0 {
        lemma_sum_between_extremes(samples.drop_last(), low, high);
        assert((samples.len() - 1) * low + low == samples.len() * low) by (nonlinear_arith);
        assert((samples.len() - 1) * high + high == samples.len() * high) by (nonlinear_arith);
    }
}

/// The mean and the median of a sample lie between its least and its
/// greatest value.
pub proof fn lemma_mean_and_median_between_extremes(samples: Seq<u128>, low: u128, high: u128)
    requires
        samples.len() > 0,
        is_least(low, samples),
        is_greatest(high, samples),
    ensures
        low <= mean_of(samples) <= high,
        low <= median_of(samples) <= high,
{
    let n = samples.len() as int;
    lemma_sum_between_extremes(samples, low, high);
    let total = sum_of(samples);
    lemma_fundamental_div_mod(total, n);
    vstd::arithmetic::div_mod::lemma_mod_bound(total, n);
    assert(low <= total / n <= high) by (nonlinear_arith)
        requires
            n > 0,
            n * low <= total <= n * high,
            total == n * (total / n) + total % n,
            0 <= total % n < n,
    ;
    let sorted = sorted_copy(samples);
    lemma_sorted_copy_properties(samples);
    assert forall|i: int| 0 <= i < sorted.len() implies low <= #[trigger] sorted[i] <= high by {
        sorted.to_multiset_ensures();
        samples.to_multiset_ensures();
        assert(sorted.contains(sorted[i]));
        assert(sorted.to_multiset().count(sorted[i]) > 0);
        assert(samples.contains(sorted[i]));
        let k = choose|k: int| 0 <= k < samples.len() && samples[k] == sorted[i];
        assert(low <= samples[k] <= high);
    }
    assert(low <= sorted[n / 2] <= high);
    if n % 2 == 0 {
        assert(low <= sorted[n / 2 - 1] <= high);
    }
}

/// The sum of a sample of `n` values is at most `n` times the largest
/// representable value.
proof fn lemma_sum_bounds(samples: Seq<u128>)
    ensures
        0 <= sum_of(samples) <= samples.len() * (u128::MAX as int),
    decreases samples.len(),
{
    if samples.len() > 0 {
        lemma_sum_bounds(samples.drop_last());
        assert((samples.len() - 1) * (u128::MAX as int) + (u128::MAX as int) == samples.len() * (
        u128::MAX as int)) by (nonlinear_arith);
    }
}

/// A quotient whose dividend is at most `n * bound` is at most `bound`.
proof fn lemma_quotient_bounded(q: int, r: int, n: int, total: int, bound: int)
    requires
        n > 0,
        0 <= r,
        q * n + r == total,
        total <= n * bound,
    ensures
        q <= bound,
{
    assert(q <= bound) by (nonlinear_arith)
        requires
            n > 0,
            0 <= r,
            q * n + r <= n * bound,
    ;
}

/// Rounded-down mean of a non-empty sample.
///
/// The quotient and the remainder of the running sum are carried along
/// instead of the sum itself, which may exceed `u128`.
fn mean(timings: &[u128]) -> (avg: u128)
    requires
        timings@.len() > 0,
    ensures
        avg == mean_of(timings@),
{
    let n: u128 = timings.len() as u128;
    let mut quotient: u128 = 0;
    let mut remainder: u128 = 0;
    let mut i: usize = 0;
    while i < timings.len()
        invariant
            0 < n == timings@.len(),
            i <= timings@.len(),
            0 <= remainder < n,
            quotient * n + remainder == sum_of(timings@.take(i as int)),
        decreases timings@.len() - i,
    {
        let x: u128 = timings[i];
        let ghost before = timings@.take(i as int);
        let ghost after = timings@.take(i + 1);
        proof {
            assert(after.drop_last() == before);
            assert(after.last() == x);
            lemma_sum_bounds(after);
            lemma_fundamental_div_mod(x as int, n as int);
            let carry: int = if remainder + x % n >= n {
                1
            } else {
                0
            };
            let q2: int = quotient + x / n + carry;
            let r2: int = remainder + x % n - carry * n;
            assert(q2 * n + r2 == sum_of(after)) by (nonlinear_arith)
                requires
                    quotient * n + remainder == sum_of(before),
                    sum_of(after) == sum_of(before) + x,
                    x == n * (x / n) + x % n,
                    q2 == quotient + x / n + carry,
                    r2 == remainder + x % n - carry * n,
            ;
            assert(after.len() * (u128::MAX as int) <= n * (u128::MAX as int)) by (nonlinear_arith)
                requires
                    after.len() <= n,
            ;
            lemma_quotient_bounded(q2, r2, n as int, sum_of(after), u128::MAX as int);
        }
        quotient = quotient + x / n;
        remainder = remainder + x % n;
        if remainder >= n {
            remainder = remainder - n;
            quotient = quotient + 1;
        }
        i = i + 1;
    }
    proof {
        assert(timings@.take(timings@.len() as int) == timings@);
        lemma_fundamental_div_mod_converse(
            sum_of(timings@),
            n as int,
            quotient as int,
            remainder as int,
        );
    }
    quotient
}

/// Smallest sample of a non-empty sample.
fn least(timings: &[u128]) -> (m: u128)
    requires
        timings@.len() > 0,
    ensures
        is_least(m, timings@),
{
    let mut m: u128 = timings[0];
    let mut i: usize = 1;
    assert(timings@.take(1)[0] == m);
    while i < timings.len()
        invariant
            1 <= i <= timings@.len(),
            is_least(m, timings@.take(i as int)),
        decreases timings@.len() - i,
    {
        let ghost seen = timings@.take(i as int);
        let ghost next = timings@.take(i + 1);
        let ghost k = choose|k: int| 0 <= k < seen.len() && seen[k] == m;
        if timings[i] < m {
            m = timings[i];
            assert(next[i as int] == m);
        } else {
            assert(next[k] == m);
        }
        assert forall|j: int| 0 <= j < next.len() implies m <= next[j] by {
            if j < i {
                assert(seen[j] == timings@[j]);
            }
        }
        i = i + 1;
    }
    assert(timings@.take(timings@.len() as int) == timings@);
    m
}

/// Largest sample of a non-empty sample.
fn greatest(timings: &[u128]) -> (m: u128)
    requires
        timings@.len() > 0,
    ensures
        is_greatest(m, timings@),
{
    let mut m: u128 = timings[0];
    let mut i: usize = 1;
    assert(timings@.take(1)[0] == m);
    while i < timings.len()
        invariant
            1 <= i <= timings@.len(),
            is_greatest(m, timings@.take(i as int)),
        decreases timings@.len() - i,
    {
        let ghost seen = timings@.take(i as int);
        let ghost next = timings@.take(i + 1);
        let ghost k = choose|k: int| 0 <= k < seen.len() && seen[k] == m;
        if timings[i] > m {
            m = timings[i];
            assert(next[i as int] == m);
        } else {
            assert(next[k] == m);
        }
        assert forall|j: int| 0 <= j < next.len() implies next[j] <= m by {
            if j < i {
                assert(seen[j] == timings@[j]);
            }
        }
        i = i + 1;
    }
    assert(timings@.take(timings@.len() as int) == timings@);
    m
}

/// Inserting a value into a sequence adds one occurrence of it and nothing
/// else.
proof fn lemma_insert_to_multiset(s: Seq<u128>, at: int, x: u128)
    requires
        0 <= at <= s.len(),
    ensures
        s.insert(at, x).to_multiset() == s.to_multiset().insert(x),
{
    let grown = s.insert(at, x);
    assert(grown.remove(at) == s);
    to_multiset_remove(grown, at);
    grown.to_multiset_ensures();
    assert(grown[at] == x);
    assert(grown.to_multiset().count(x) > 0);
    assert(grown.to_multiset() =~= grown.to_multiset().remove(x).insert(x));
}

/// A sorted copy of the samples; the argument keeps its order.
pub fn sorted_timings(timings: &[u128]) -> (sorted: Vec<u128>)
    ensures
        sorted@ == sorted_copy(timings@),
        ascending(sorted@),
        sorted@.to_multiset() == timings@.to_multiset(),
{
    let mut sorted: Vec<u128> = Vec::new();
    let mut i: usize = 0;
    assert(sorted@ == timings@.take(0));
    while i < timings.len()
        invariant
            i <= timings@.len(),
            sorted@.len() == i,
            ascending(sorted@),
            sorted@.to_multiset() == timings@.take(i as int).to_multiset(),
        decreases timings@.len() - i,
    {
        let x: u128 = timings[i];
        let mut at: usize = 0;
        while at < sorted.len() && sorted[at] <= x
            invariant
                at <= sorted@.len(),
                forall|k: int| 0 <= k < at ==> sorted@[k] <= x,
            decreases sorted@.len() - at,
        {
            at = at + 1;
        }
        let ghost before = sorted@;
        sorted.insert(at, x);
        proof {
            lemma_insert_to_multiset(before, at as int, x);
            to_multiset_build(timings@.take(i as int), x);
            assert(timings@.take(i + 1) == timings@.take(i as int).push(x));
            assert forall|a: int, b: int| 0 <= a <= b < sorted@.len() implies sorted@[a]
                <= sorted@[b] by {
                if b < at {
                    assert(sorted@[a] == before[a] && sorted@[b] == before[b]);
                } else if b == at {
                    if a < at {
                        assert(sorted@[a] == before[a]);
                    }
                } else {
                    assert(sorted@[b] == before[b - 1]);
                    if a < at {
                        assert(sorted@[a] == before[a]);
                    } else if a > at {
                        assert(sorted@[a] == before[a - 1]);
                    } else {
                        assert(before[at as int] > x);
                    }
                }
            }
        }
        i = i + 1;
    }
    proof {
        assert(timings@.take(timings@.len() as int) == timings@);
        lemma_sorted_copy_unique(timings@, sorted@);
    }
    sorted
}

/// Middle of a non-empty ascending sequence.
fn middle(sorted: &Vec<u128>) -> (m: u128)
    requires
        sorted@.len() > 0,
        ascending(sorted@),
    ensures
        m == middle_of(sorted@),
{
    let half: usize = sorted.len() / 2;
    if sorted.len() % 2 == 0 {
        let low: u128 = sorted[half - 1];
        let high: u128 = sorted[half];
        assert(low + (high - low) / 2 == (low + high) / 2);
        low + (high - low) / 2
    } else {
        sorted[half]
    }
}

/// Mean, extremes and median of a sample of millisecond timings.
#[derive(Debug, Clone, Copy, PartialEq, Eq, Structural)]
pub struct Statistics {
    /// Rounded-down arithmetic mean.
    pub avg: u128,
    /// Smallest sample.
    pub min: u128,
    /// Largest sample.
    pub max: u128,
    /// Median, taken on a sorted copy of the sample.
    pub median: u128,
}

impl Statistics {
    /// What the statistics of a sample are: all zero for an empty sample,
    /// else its mean, its extremes and its median.
    pub open spec fn summarizes(self, samples: Seq<u128>) -> bool {
        if samples.len() == 0 {
            self.avg == 0 && self.min == 0 && self.max == 0 && self.median == 0
        } else {
            &&& self.avg == mean_of(samples)
            &&& is_least(self.min, samples)
            &&& is_greatest(self.max, samples)
            &&& self.median == median_of(samples)
        }
    }

    /// Computes the statistics of `timings`, which are left as they are.
    pub fn from_timings(timings: &[u128]) -> (stats: Self)
        ensures
            stats.summarizes(timings@),
    {
        if timings.len() == 0 {
            return Statistics { avg: 0, min: 0, max: 0, median: 0 };
        }
        let avg = mean(timings);
        let min = least(timings);
        let max = greatest(timings);
        let sorted = sorted_timings(timings);
        proof {
            lemma_sorted_copy_properties(timings@);
        }
        let median = middle(&sorted);
        Statistics { avg, min, max, median }
    }
}

} // verus!
