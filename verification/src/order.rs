//! The order in which outcomes are folded does not matter.
//!
//! Workers fold their outcomes into the shared aggregator in whatever order
//! they happen to finish. The aggregator takes them one at a time, so at the
//! end it holds the fold of some interleaving of everything the workers have
//! issued. This module shows that every interleaving gives the same counts
//! and the same summary.

use crate::counting::lemma_total_ignores_order;
use crate::counting::total_of;
use crate::metrics::count_errors;
use crate::metrics::count_successes;
use crate::metrics::lemma_fold_all_grows;
use crate::metrics::saturating_sum;
use crate::metrics::Outcome;
use crate::metrics::Tally;
use crate::sorting::lemma_ascending_unique;
use crate::sorting::lemma_sorted_samples;
use crate::sorting::sorted_samples;
use crate::summary::sum_of;
use crate::summary::summary_of;
use crate::summary::Ratio;
use crate::summary::MICROS_PER_SECOND;
use vstd::multiset::*;
use vstd::prelude::*;
use vstd::seq_lib::*;

verus! {

/// The payload bytes of the successes among the outcomes, added up.
pub open spec fn sum_bytes(outcomes: Seq<Outcome>) -> nat
    decreases outcomes.len(),
{
    if outcomes.len() == 0 {
        0
    } else {
        sum_bytes(outcomes.drop_last()) + match outcomes.last() {
            Outcome::Success { bytes, .. } => bytes as nat,
            Outcome::Error => 0nat,
        }
    }
}

/// The latencies of the successes among the outcomes, in order.
pub open spec fn latencies_of(outcomes: Seq<Outcome>) -> Seq<u64>
    decreases outcomes.len(),
{
    if outcomes.len() == 0 {
        Seq::empty()
    } else {
        match outcomes.last() {
            Outcome::Success { latency, .. } => latencies_of(outcomes.drop_last()).push(latency),
            Outcome::Error => latencies_of(outcomes.drop_last()),
        }
    }
}

/// A count that stops at `u64::MAX`.
pub open spec fn capped(n: nat) -> nat {
    saturating_sum(n, 0)
}

/// What folding leaves in an aggregator, said without folding: the number of
/// successes, the number of errors and the sum of the payloads, the latter two
/// capped, and the latencies of the successes.
pub proof fn lemma_fold_in_closed_form(outcomes: Seq<Outcome>)
    ensures
        Tally::empty().fold_all(outcomes) == (Tally {
            successes: count_successes(outcomes),
            errors: capped(count_errors(outcomes)),
            bytes: capped(sum_bytes(outcomes)),
            latencies: latencies_of(outcomes),
        }),
    decreases outcomes.len(),
{
    if outcomes.len() > 0 {
        lemma_fold_in_closed_form(outcomes.drop_last());
    }
}

spec fn one_if_success() -> spec_fn(Outcome) -> nat {
    |o: Outcome|
        if o is Success {
            1nat
        } else {
            0nat
        }
}

spec fn one_if_error() -> spec_fn(Outcome) -> nat {
    |o: Outcome|
        if o is Error {
            1nat
        } else {
            0nat
        }
}

spec fn bytes_if_success() -> spec_fn(Outcome) -> nat {
    |o: Outcome|
        match o {
            Outcome::Success { bytes, .. } => bytes as nat,
            Outcome::Error => 0nat,
        }
}

spec fn latency_if_success() -> spec_fn(Outcome) -> nat {
    |o: Outcome|
        match o {
            Outcome::Success { latency, .. } => latency as nat,
            Outcome::Error => 0nat,
        }
}

spec fn one_if_latency(sample: u64) -> spec_fn(Outcome) -> nat {
    |o: Outcome|
        match o {
            Outcome::Success { latency, .. } => if latency == sample {
                1nat
            } else {
                0nat
            },
            Outcome::Error => 0nat,
        }
}

proof fn lemma_measures(outcomes: Seq<Outcome>)
    ensures
        count_successes(outcomes) == total_of(outcomes, one_if_success()),
        count_errors(outcomes) == total_of(outcomes, one_if_error()),
        sum_bytes(outcomes) == total_of(outcomes, bytes_if_success()),
        sum_of(latencies_of(outcomes)) == total_of(outcomes, latency_if_success()),
    decreases outcomes.len(),
{
    if outcomes.len() > 0 {
        lemma_measures(outcomes.drop_last());
        match outcomes.last() {
            Outcome::Success { latency, .. } => {
                let before = latencies_of(outcomes.drop_last());
                assert(before.push(latency).drop_last() == before);
            },
            Outcome::Error => {},
        }
    }
}

proof fn lemma_latency_count(outcomes: Seq<Outcome>, sample: u64)
    ensures
        latencies_of(outcomes).to_multiset().count(sample) == total_of(
            outcomes,
            one_if_latency(sample),
        ),
    decreases outcomes.len(),
{
    broadcast use group_multiset_axioms;

    if outcomes.len() == 0 {
        to_multiset_len(latencies_of(outcomes));
    } else {
        lemma_latency_count(outcomes.drop_last(), sample);
        match outcomes.last() {
            Outcome::Success { latency, .. } => {
                to_multiset_build(latencies_of(outcomes.drop_last()), latency);
            },
            Outcome::Error => {},
        }
    }
}

/// However the outcomes of a run are interleaved, the aggregator ends with
/// the same counts and the same collection of latency samples.
pub proof fn lemma_fold_ignores_order(a: Seq<Outcome>, b: Seq<Outcome>)
    requires
        a.to_multiset() == b.to_multiset(),
    ensures
        Tally::empty().fold_all(a).successes == Tally::empty().fold_all(b).successes,
        Tally::empty().fold_all(a).errors == Tally::empty().fold_all(b).errors,
        Tally::empty().fold_all(a).bytes == Tally::empty().fold_all(b).bytes,
        Tally::empty().fold_all(a).latencies.to_multiset() == Tally::empty().fold_all(
            b,
        ).latencies.to_multiset(),
        sum_of(Tally::empty().fold_all(a).latencies) == sum_of(
            Tally::empty().fold_all(b).latencies,
        ),
{
    broadcast use group_multiset_axioms;

    lemma_fold_in_closed_form(a);
    lemma_fold_in_closed_form(b);
    lemma_measures(a);
    lemma_measures(b);
    lemma_total_ignores_order(a, b, one_if_success());
    lemma_total_ignores_order(a, b, one_if_error());
    lemma_total_ignores_order(a, b, bytes_if_success());
    lemma_total_ignores_order(a, b, latency_if_success());
    assert forall|sample: u64|
        latencies_of(a).to_multiset().count(sample) == latencies_of(b).to_multiset().count(
            sample,
        ) by {
        lemma_latency_count(a, sample);
        lemma_latency_count(b, sample);
        lemma_total_ignores_order(a, b, one_if_latency(sample));
    }
}

/// However the outcomes of a run are interleaved, its summary is the same.
pub proof fn lemma_summary_ignores_order(a: Seq<Outcome>, b: Seq<Outcome>, elapsed_micros: u64)
    requires
        a.to_multiset() == b.to_multiset(),
    ensures
        summary_of(Tally::empty().fold_all(a), elapsed_micros) == summary_of(
            Tally::empty().fold_all(b),
            elapsed_micros,
        ),
{
    lemma_fold_ignores_order(a, b);
    let x = Tally::empty().fold_all(a).latencies;
    let y = Tally::empty().fold_all(b).latencies;
    lemma_sorted_samples(x);
    lemma_sorted_samples(y);
    lemma_ascending_unique(sorted_samples(x), sorted_samples(y));
    to_multiset_len(x);
    to_multiset_len(y);
}

/// When callers each issue their own sequence of outcomes, the aggregator
/// ends with exactly as many successes and errors as were issued in all,
/// whichever caller came first.
pub proof fn lemma_counts_add_up(first: Seq<Outcome>, second: Seq<Outcome>)
    ensures
        count_successes(first + second) == count_successes(first) + count_successes(second),
        count_errors(first + second) == count_errors(first) + count_errors(second),
        count_successes(first + second) == count_successes(second + first),
        count_errors(first + second) == count_errors(second + first),
{
    lemma_counts_concat(first, second);
    lemma_counts_concat(second, first);
}

proof fn lemma_counts_concat(first: Seq<Outcome>, second: Seq<Outcome>)
    ensures
        count_successes(first + second) == count_successes(first) + count_successes(second),
        count_errors(first + second) == count_errors(first) + count_errors(second),
    decreases second.len(),
{
    if second.len() == 0 {
    } else {
        lemma_counts_concat(first, second.drop_last());
        assert((first + second).drop_last() == first + second.drop_last());
    }
}

/// A workload that always succeeds with the same latency and payload: after
/// `n` iterations there is no error, the bytes are `n` payloads (as far as
/// the counter reaches), and every sample is that latency.
pub proof fn lemma_steady_workload(n: nat, latency: u64, bytes: u64)
    ensures
        Tally::empty().fold_all(Seq::new(n, |i: int| Outcome::Success { latency, bytes })) == (Tally {
            successes: n,
            errors: 0,
            bytes: capped(n * (bytes as nat)),
            latencies: Seq::new(n, |i: int| latency),
        }),
    decreases n,
{
    let outcomes = Seq::new(n, |i: int| Outcome::Success { latency, bytes });
    if n > 0 {
        let fewer = Seq::new((n - 1) as nat, |i: int| Outcome::Success { latency, bytes });
        lemma_steady_workload((n - 1) as nat, latency, bytes);
        assert(outcomes.drop_last() =~= fewer);
        assert((n - 1) * bytes + bytes == n * bytes) by (nonlinear_arith)
            requires
                n > 0,
        ;
    } else {
        assert(n * bytes == 0) by (nonlinear_arith)
            requires
                n == 0,
        ;
    }
}

/// A workload that succeeds and fails in turn, beginning with a success: the
/// errors are half of the outcomes, rounded down, so the error rate differs
/// from one half by less than one outcome's share.
pub proof fn lemma_alternating_workload(outcomes: Seq<Outcome>)
    requires
        forall|i: int| 0 <= i < outcomes.len() ==> (outcomes[i] is Success <==> i % 2 == 0),
    ensures
        count_errors(outcomes) == outcomes.len() / 2,
        count_successes(outcomes) == (outcomes.len() + 1) / 2,
        2 * count_errors(outcomes) <= outcomes.len() <= 2 * count_errors(outcomes) + 1,
    decreases outcomes.len(),
{
    if outcomes.len() > 0 {
        lemma_alternating_workload(outcomes.drop_last());
    }
}

/// Number of successes that the callers issue in all, when caller `i` issues
/// the outcomes `parts[i]`.
pub open spec fn issued_successes(parts: Seq<Seq<Outcome>>) -> nat
    decreases parts.len(),
{
    if parts.len() == 0 {
        0
    } else {
        count_successes(parts.first()) + issued_successes(parts.drop_first())
    }
}

/// Number of errors that the callers issue in all.
pub open spec fn issued_errors(parts: Seq<Seq<Outcome>>) -> nat
    decreases parts.len(),
{
    if parts.len() == 0 {
        0
    } else {
        count_errors(parts.first()) + issued_errors(parts.drop_first())
    }
}

/// The payload bytes that the callers issue in all.
pub open spec fn issued_bytes(parts: Seq<Seq<Outcome>>) -> nat
    decreases parts.len(),
{
    if parts.len() == 0 {
        0
    } else {
        sum_bytes(parts.first()) + issued_bytes(parts.drop_first())
    }
}

proof fn lemma_bytes_concat(first: Seq<Outcome>, second: Seq<Outcome>)
    ensures
        sum_bytes(first + second) == sum_bytes(first) + sum_bytes(second),
    decreases second.len(),
{
    if second.len() == 0 {
        assert(first + second == first);
    } else {
        lemma_bytes_concat(first, second.drop_last());
        assert((first + second).drop_last() == first + second.drop_last());
        assert((first + second).last() == second.last());
    }
}

proof fn lemma_issued(parts: Seq<Seq<Outcome>>)
    ensures
        count_successes(parts.flatten()) == issued_successes(parts),
        count_errors(parts.flatten()) == issued_errors(parts),
        sum_bytes(parts.flatten()) == issued_bytes(parts),
    decreases parts.len(),
{
    if parts.len() > 0 {
        lemma_issued(parts.drop_first());
        lemma_counts_concat(parts.first(), parts.drop_first().flatten());
        lemma_bytes_concat(parts.first(), parts.drop_first().flatten());
    }
}

/// Any number of callers, each issuing its own outcomes, folded in any
/// interleaving: the aggregator ends with exactly the successes, errors and
/// samples that were issued in all, none lost and none counted twice, and
/// with the bytes that were issued as far as the byte counter reaches. The
/// error count is exact as long as it fits its counter.
pub proof fn lemma_interleaved_callers(parts: Seq<Seq<Outcome>>, mixed: Seq<Outcome>)
    requires
        mixed.to_multiset() == parts.flatten().to_multiset(),
    ensures
        Tally::empty().fold_all(mixed).successes == issued_successes(parts),
        Tally::empty().fold_all(mixed).latencies.len() == issued_successes(parts),
        Tally::empty().fold_all(mixed).errors == capped(issued_errors(parts)),
        Tally::empty().fold_all(mixed).bytes == capped(issued_bytes(parts)),
        issued_errors(parts) <= u64::MAX ==> Tally::empty().fold_all(mixed).total()
            == issued_successes(parts) + issued_errors(parts),
{
    lemma_issued(parts);
    lemma_fold_ignores_order(mixed, parts.flatten());
    lemma_fold_in_closed_form(parts.flatten());
    lemma_fold_in_closed_form(mixed);
    lemma_fold_all_grows(Tally::empty(), mixed);
}

/// A workload that always succeeds with the same payload, summarised: no
/// error, and as long as the bytes fit their counter, the bytes are the
/// number of requests times the payload.
pub proof fn lemma_steady_summary(n: nat, latency: u64, bytes: u64, elapsed_micros: u64)
    requires
        n * bytes <= u64::MAX,
        n <= u64::MAX,
    ensures
        ({
            let summary = summary_of(
                Tally::empty().fold_all(Seq::new(n, |i: int| Outcome::Success { latency, bytes })),
                elapsed_micros,
            );
            &&& summary.total_requests == n
            &&& summary.error_rate.num == 0
            &&& summary.total_bytes == summary.total_requests * bytes
            &&& summary.throughput == Ratio::of(
                n * MICROS_PER_SECOND as nat,
                elapsed_micros as nat,
            )
        }),
{
    lemma_steady_workload(n, latency, bytes);
}

} // verus!
