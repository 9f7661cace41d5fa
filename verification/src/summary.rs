//! The statistics of a finished run, computed once from a frozen aggregator.

use crate::counting::lemma_total_bounds;
use crate::counting::lemma_total_concat;
use crate::counting::lemma_total_ignores_order;
use crate::counting::total_of;
use crate::metrics::count_errors;
use crate::metrics::count_successes;
use crate::metrics::lemma_fold_counts;
use crate::metrics::AggregatorState;
use crate::metrics::Outcome;
use crate::metrics::Tally;
use crate::sorting::lemma_sorted_samples;
use crate::sorting::sort_ascending;
use crate::sorting::sorted_samples;
use vstd::prelude::*;

verus! {

/// Microseconds in one second; elapsed time is measured in microseconds and
/// rates are reported per second.
pub const MICROS_PER_SECOND: u64 = 1_000_000;

/// An exact quotient `num / den` of two counts.
///
/// Rates are kept as quotients so that nothing is rounded before the caller
/// decides how to present them.
#[derive(Clone, Copy, Debug, PartialEq, Eq, Structural)]
pub struct Ratio {
    pub num: u128,
    pub den: u128,
}

impl Ratio {
    /// Exactly zero.
    pub open spec fn zero() -> Ratio {
        Ratio { num: 0, den: 1 }
    }

    /// The quotient `num / den`, or zero where there is nothing to divide by.
    pub open spec fn of(num: nat, den: nat) -> Ratio {
        if den == 0 {
            Ratio::zero()
        } else {
            Ratio { num: num as u128, den: den as u128 }
        }
    }

    /// The quotient `num / den`, or zero when `den` is zero.
    pub fn new(num: u128, den: u128) -> (r: Ratio)
        ensures
            r == Ratio::of(num as nat, den as nat),
            r.den > 0,
    {
        if den == 0 {
            Ratio { num: 0, den: 1 }
        } else {
            Ratio { num, den }
        }
    }
}

/// Latency and throughput statistics of one run. Latencies are in microseconds.
#[derive(Clone, Copy, Debug, PartialEq, Eq, Structural)]
pub struct Summary {
    /// Successes plus errors.
    pub total_requests: u128,
    /// Errors per request.
    pub error_rate: Ratio,
    /// Successful requests per second.
    pub throughput: Ratio,
    pub p50: u64,
    pub p95: u64,
    pub p99: u64,
    /// Mean latency of the successes.
    pub avg_latency: Ratio,
    /// Payload bytes received by the successes.
    pub total_bytes: u64,
    /// Payload bytes per second.
    pub bandwidth: Ratio,
    /// The measured length of the run.
    pub elapsed_micros: u64,
}

/// Sum of the samples.
pub open spec fn sum_of(s: Seq<u64>) -> nat
    decreases s.len(),
{
    if s.len() == 0 {
        0
    } else {
        sum_of(s.drop_last()) + s.last() as nat
    }
}

/// The smallest integer that is at least `percent / 100 * count`.
pub open spec fn rank_of(count: nat, percent: nat) -> int {
    ((percent * count + 99) / 100) as int
}

/// Position, in the ascending samples, of the nearest-rank percentile: one
/// below the rank, kept within `0..count`.
pub open spec fn rank_index(count: nat, percent: nat) -> int {
    let below = rank_of(count, percent) - 1;
    if below < 0 {
        0
    } else if below > count - 1 {
        count - 1
    } else {
        below
    }
}

/// The nearest-rank percentile of samples already in ascending order; zero
/// when there are no samples.
pub open spec fn nearest_rank(sorted: Seq<u64>, percent: nat) -> u64 {
    if sorted.len() == 0 {
        0
    } else {
        sorted[rank_index(sorted.len(), percent)]
    }
}

/// The nearest-rank percentile of samples in any order.
pub open spec fn percentile_of(samples: Seq<u64>, percent: nat) -> u64 {
    nearest_rank(sorted_samples(samples), percent)
}

/// The summary of a run that folded `tally` and took `elapsed_micros`.
pub open spec fn summary_of(tally: Tally, elapsed_micros: u64) -> Summary {
    Summary {
        total_requests: tally.total() as u128,
        error_rate: Ratio::of(tally.errors, tally.total()),
        throughput: Ratio::of(tally.successes * MICROS_PER_SECOND as nat, elapsed_micros as nat),
        p50: percentile_of(tally.latencies, 50),
        p95: percentile_of(tally.latencies, 95),
        p99: percentile_of(tally.latencies, 99),
        avg_latency: Ratio::of(sum_of(tally.latencies), tally.latencies.len()),
        total_bytes: tally.bytes as u64,
        bandwidth: Ratio::of(tally.bytes * MICROS_PER_SECOND as nat, elapsed_micros as nat),
        elapsed_micros,
    }
}

/// A higher percentile never selects an earlier position.
pub proof fn lemma_rank_index_monotone(count: nat, lo: nat, hi: nat)
    requires
        lo <= hi,
    ensures
        rank_index(count, lo) <= rank_index(count, hi),
        count > 0 ==> 0 <= rank_index(count, lo) < count,
{
    assert(lo * count <= hi * count) by (nonlinear_arith)
        requires
            lo <= hi,
    ;
}

/// Percentiles are ordered as their ranks are: for any samples, a lower
/// percentile is never above a higher one.
pub proof fn lemma_percentiles_ordered(samples: Seq<u64>, lo: nat, hi: nat)
    requires
        lo <= hi,
    ensures
        percentile_of(samples, lo) <= percentile_of(samples, hi),
{
    let sorted = sorted_samples(samples);
    lemma_sorted_samples(samples);
    if sorted.len() > 0 {
        lemma_rank_index_monotone(sorted.len(), lo, hi);
        lemma_rank_index_monotone(sorted.len(), hi, hi);
    }
}

/// A percentile is always one of the samples.
pub proof fn lemma_percentile_is_a_sample(samples: Seq<u64>, percent: nat)
    requires
        samples.len() > 0,
    ensures
        samples.contains(percentile_of(samples, percent)),
{
    broadcast use vstd::seq_lib::group_to_multiset_ensures;

    let sorted = sorted_samples(samples);
    lemma_sorted_samples(samples);
    lemma_rank_index_monotone(sorted.len(), percent, percent);
    let p = sorted[rank_index(sorted.len(), percent)];
    assert(samples.to_multiset().count(p) > 0);
}

/// Number of samples that are at most `bound`.
pub open spec fn count_at_most(samples: Seq<u64>, bound: u64) -> nat {
    total_of(
        samples,
        |x: u64|
            if x <= bound {
                1nat
            } else {
                0nat
            },
    )
}

/// Number of samples that are below `bound`.
pub open spec fn count_below(samples: Seq<u64>, bound: u64) -> nat {
    total_of(
        samples,
        |x: u64|
            if x < bound {
                1nat
            } else {
                0nat
            },
    )
}

/// What makes a value the nearest-rank percentile: at least `percent` in a
/// hundred of the samples are no larger than it, and fewer than that are
/// smaller.
pub proof fn lemma_percentile_splits_samples(samples: Seq<u64>, percent: nat)
    requires
        samples.len() > 0,
        1 <= percent <= 100,
    ensures
        100 * count_at_most(samples, percentile_of(samples, percent)) >= percent * samples.len(),
        100 * count_below(samples, percentile_of(samples, percent)) < percent * samples.len(),
{
    let sorted = sorted_samples(samples);
    lemma_sorted_samples(samples);
    let n = sorted.len();
    let scaled = percent * n;
    assert(n <= scaled <= 100 * n) by (nonlinear_arith)
        requires
            1 <= percent <= 100,
            scaled == percent * n,
    ;
    let k = rank_index(n, percent);
    assert(k == (scaled + 99) / 100 - 1);
    assert(100 * (k + 1) >= scaled);
    assert(100 * k < scaled);
    let p = sorted[k];
    let at_most = |x: u64|
        if x <= p {
            1nat
        } else {
            0nat
        };
    let below = |x: u64|
        if x < p {
            1nat
        } else {
            0nat
        };
    lemma_total_ignores_order(samples, sorted, at_most);
    lemma_total_ignores_order(samples, sorted, below);

    let head = sorted.take(k + 1);
    let tail = sorted.skip(k + 1);
    assert(sorted == head + tail);
    lemma_total_concat(head, tail, at_most);
    assert forall|i: int| 0 <= i < head.len() implies at_most(#[trigger] head[i]) == 1 by {
        assert(head[i] == sorted[i]);
    }
    lemma_total_bounds(head, at_most);

    let low = sorted.take(k);
    let high = sorted.skip(k);
    assert(sorted == low + high);
    lemma_total_concat(low, high, below);
    assert forall|i: int| 0 <= i < high.len() implies below(#[trigger] high[i]) == 0 by {
        assert(high[i] == sorted[k + i]);
    }
    lemma_total_bounds(high, below);
    assert forall|i: int| 0 <= i < low.len() implies below(#[trigger] low[i]) <= 1 by {}
    lemma_total_bounds(low, below);
}

/// The summary of any run counts every folded outcome once: the total is the
/// number of successes plus the number of errors, and the error rate is the
/// number of errors over that total (zero when nothing was folded). This
/// holds as long as the counts fit the words that hold them.
pub proof fn lemma_summary_counts(outcomes: Seq<Outcome>, elapsed_micros: u64)
    requires
        count_errors(outcomes) <= u64::MAX,
        outcomes.len() <= u128::MAX,
    ensures
        summary_of(Tally::empty().fold_all(outcomes), elapsed_micros).total_requests
            == count_successes(outcomes) + count_errors(outcomes),
        summary_of(Tally::empty().fold_all(outcomes), elapsed_micros).error_rate == Ratio::of(
            count_errors(outcomes),
            count_successes(outcomes) + count_errors(outcomes),
        ),
{
    lemma_fold_counts(outcomes);
    crate::metrics::lemma_counts_partition(outcomes);
}

/// A run that folded nothing reports zero everywhere, whatever time elapsed.
pub proof fn lemma_empty_summary(elapsed_micros: u64)
    ensures
        summary_of(Tally::empty(), elapsed_micros) == (Summary {
            total_requests: 0,
            error_rate: Ratio::zero(),
            throughput: Ratio::of(0, elapsed_micros as nat),
            p50: 0,
            p95: 0,
            p99: 0,
            avg_latency: Ratio::zero(),
            total_bytes: 0,
            bandwidth: Ratio::of(0, elapsed_micros as nat),
            elapsed_micros,
        }),
        summary_of(Tally::empty(), elapsed_micros).throughput.num == 0,
        summary_of(Tally::empty(), elapsed_micros).bandwidth.num == 0,
{
    lemma_sorted_samples(Seq::<u64>::empty());
}

/// The nearest-rank percentile of samples that are already in ascending
/// order: the sample at position `ceil(percent / 100 * count) - 1`, kept
/// within the samples; zero when there are none.
pub fn percentile(sorted: &Vec<u64>, percent: u64) -> (p: u64)
    ensures
        p == nearest_rank(sorted@, percent as nat),
{
    let count = sorted.len();
    if count == 0 {
        return 0;
    }
    assert(percent * count <= 0xFFFF_FFFF_FFFF_FFFF * 0xFFFF_FFFF_FFFF_FFFF) by (nonlinear_arith)
        requires
            0 <= percent <= 0xFFFF_FFFF_FFFF_FFFF,
            0 <= count <= 0xFFFF_FFFF_FFFF_FFFF,
    ;
    let rank: u128 = ((percent as u128) * (count as u128) + 99) / 100;
    let last: usize = count - 1;
    let index: usize = if rank == 0 {
        0
    } else if rank - 1 > last as u128 {
        last
    } else {
        (rank - 1) as usize
    };
    sorted[index]
}

/// Adds up the samples.
pub fn sum_samples(samples: &Vec<u64>) -> (total: u128)
    ensures
        total == sum_of(samples@),
{
    let mut total: u128 = 0;
    let mut i: usize = 0;
    while i < samples.len()
        invariant
            i <= samples@.len(),
            total == sum_of(samples@.take(i as int)),
            total <= i * 0xFFFF_FFFF_FFFF_FFFF,
        decreases samples@.len() - i,
    {
        let x = samples[i];
        proof {
            assert(samples@.take(i + 1).drop_last() == samples@.take(i as int));
            assert(i * 0xFFFF_FFFF_FFFF_FFFF + 0xFFFF_FFFF_FFFF_FFFF == (i + 1)
                * 0xFFFF_FFFF_FFFF_FFFF) by (nonlinear_arith);
            assert((i + 1) * 0xFFFF_FFFF_FFFF_FFFF <= 0xFFFF_FFFF_FFFF_FFFF
                * 0xFFFF_FFFF_FFFF_FFFF) by (nonlinear_arith)
                requires
                    0 <= i + 1 <= 0xFFFF_FFFF_FFFF_FFFF,
            ;
        }
        total = total + x as u128;
        i += 1;
    }
    proof {
        assert(samples@.take(i as int) == samples@);
    }
    total
}

/// Computes the summary of a finished run from its aggregator and the measured
/// elapsed time.
///
/// Percentiles use the nearest-rank method on the ascending samples. Rates
/// whose divisor is zero (no elapsed time, no requests, no samples) are zero.
/// Errors count toward the error rate and the total, not toward throughput.
pub fn summarize(state: &AggregatorState, elapsed_micros: u64) -> (s: Summary)
    ensures
        s == summary_of(state@, elapsed_micros),
        s.p50 <= s.p95 <= s.p99,
{
    proof {
        state.lemma_consistent();
        lemma_percentiles_ordered(state@.latencies, 50, 95);
        lemma_percentiles_ordered(state@.latencies, 95, 99);
    }
    let successes = state.success_count();
    let errors = state.error_count();
    let bytes = state.total_bytes();
    let total: u128 = successes as u128 + errors as u128;
    let sorted = sort_ascending(state.latencies());
    let per_second: u128 = MICROS_PER_SECOND as u128;
    Summary {
        total_requests: total,
        error_rate: Ratio::new(errors as u128, total),
        throughput: Ratio::new(successes as u128 * per_second, elapsed_micros as u128),
        p50: percentile(&sorted, 50),
        p95: percentile(&sorted, 95),
        p99: percentile(&sorted, 99),
        avg_latency: Ratio::new(sum_samples(state.latencies()), sorted.len() as u128),
        total_bytes: bytes,
        bandwidth: Ratio::new(bytes as u128 * per_second, elapsed_micros as u128),
        elapsed_micros,
    }
}

} // verus!
