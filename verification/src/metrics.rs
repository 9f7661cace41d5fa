//! The metrics aggregator: counters and latency samples folded from the
//! outcomes of individual workload invocations.

use crate::stream::outcome_of;
use crate::stream::record_event;
use crate::stream::StreamEvent;
use crate::summary::summarize;
use crate::summary::summary_of;
use crate::summary::Summary;
use vstd::prelude::*;
use vstd::rwlock::RwLock;
use vstd::rwlock::RwLockPredicate;

verus! {

/// The result of one workload invocation.
#[derive(Clone, Copy, Debug, PartialEq, Eq, Structural)]
pub enum Outcome {
    /// The call completed; `latency` is in microseconds, `bytes` is the size
    /// of the response payload.
    Success { latency: u64, bytes: u64 },
    /// The call failed. Failures carry no latency sample.
    Error,
}

/// Adds `b` to the counter `a`; a counter that would pass `u64::MAX` stays there.
pub open spec fn saturating_sum(a: nat, b: nat) -> nat {
    if a + b <= u64::MAX {
        a + b
    } else {
        u64::MAX as nat
    }
}

/// The mathematical content of an aggregator.
#[verifier::ext_equal]
pub struct Tally {
    /// Number of successes folded so far.
    pub successes: nat,
    /// Number of errors folded so far.
    pub errors: nat,
    /// Sum of the payload sizes of the successes.
    pub bytes: nat,
    /// One latency sample per success, in the order they were folded.
    pub latencies: Seq<u64>,
}

impl Tally {
    /// The aggregator before anything has been folded into it.
    pub open spec fn empty() -> Tally {
        Tally { successes: 0, errors: 0, bytes: 0, latencies: Seq::empty() }
    }

    /// Every success has contributed exactly one latency sample, and the
    /// counters fit the machine words that hold them.
    pub open spec fn consistent(self) -> bool {
        &&& self.latencies.len() == self.successes
        &&& self.successes <= usize::MAX
        &&& self.errors <= u64::MAX
        &&& self.bytes <= u64::MAX
    }

    /// Number of outcomes folded so far.
    pub open spec fn total(self) -> nat {
        self.successes + self.errors
    }

    /// One more success: its latency is appended and its payload added.
    pub open spec fn record_success(self, latency: u64, bytes: u64) -> Tally {
        Tally {
            successes: self.successes + 1,
            errors: self.errors,
            bytes: saturating_sum(self.bytes, bytes as nat),
            latencies: self.latencies.push(latency),
        }
    }

    /// One more error. Errors carry neither latency nor payload.
    pub open spec fn record_error(self) -> Tally {
        Tally {
            successes: self.successes,
            errors: saturating_sum(self.errors, 1),
            bytes: self.bytes,
            latencies: self.latencies,
        }
    }

    /// Folds one outcome.
    pub open spec fn fold(self, outcome: Outcome) -> Tally {
        match outcome {
            Outcome::Success { latency, bytes } => self.record_success(latency, bytes),
            Outcome::Error => self.record_error(),
        }
    }

    /// Folds a sequence of outcomes, first to last.
    pub open spec fn fold_all(self, outcomes: Seq<Outcome>) -> Tally
        decreases outcomes.len(),
    {
        if outcomes.len() == 0 {
            self
        } else {
            self.fold_all(outcomes.drop_last()).fold(outcomes.last())
        }
    }

    /// `later` is what this aggregator becomes when some outcomes are folded
    /// into it, one after another.
    pub open spec fn reaches(self, later: Tally) -> bool {
        exists|outcomes: Seq<Outcome>| later == #[trigger] self.fold_all(outcomes)
    }
}

/// Number of successes in a sequence of outcomes.
pub open spec fn count_successes(outcomes: Seq<Outcome>) -> nat
    decreases outcomes.len(),
{
    if outcomes.len() == 0 {
        0
    } else {
        count_successes(outcomes.drop_last()) + if outcomes.last() is Success {
            1nat
        } else {
            0nat
        }
    }
}

/// Number of errors in a sequence of outcomes.
pub open spec fn count_errors(outcomes: Seq<Outcome>) -> nat
    decreases outcomes.len(),
{
    if outcomes.len() == 0 {
        0
    } else {
        count_errors(outcomes.drop_last()) + if outcomes.last() is Error {
            1nat
        } else {
            0nat
        }
    }
}

/// Every outcome in a sequence is either a success or an error.
pub proof fn lemma_counts_partition(outcomes: Seq<Outcome>)
    ensures
        count_successes(outcomes) + count_errors(outcomes) == outcomes.len(),
    decreases outcomes.len(),
{
    if outcomes.len() > 0 {
        lemma_counts_partition(outcomes.drop_last());
    }
}

/// Folding outcomes one by one counts every one of them exactly once: as
/// long as the error counter has not reached its largest value, the success
/// count is the number of successes, the error count is the number of errors,
/// and there is one latency sample per success.
pub proof fn lemma_fold_counts(outcomes: Seq<Outcome>)
    requires
        count_errors(outcomes) <= u64::MAX,
    ensures
        Tally::empty().fold_all(outcomes).successes == count_successes(outcomes),
        Tally::empty().fold_all(outcomes).errors == count_errors(outcomes),
        Tally::empty().fold_all(outcomes).total() == outcomes.len(),
        Tally::empty().fold_all(outcomes).latencies.len() == count_successes(outcomes),
    decreases outcomes.len(),
{
    lemma_counts_partition(outcomes);
    if outcomes.len() > 0 {
        lemma_fold_counts(outcomes.drop_last());
        lemma_counts_partition(outcomes.drop_last());
    }
}

/// Counters never move backwards, and an error adds no latency sample.
pub proof fn lemma_fold_monotone(before: Tally, outcome: Outcome)
    requires
        before.consistent(),
    ensures
        before.fold(outcome).successes >= before.successes,
        before.fold(outcome).errors >= before.errors,
        before.fold(outcome).bytes >= before.bytes,
        before.latencies.is_prefix_of(before.fold(outcome).latencies),
        outcome is Error ==> before.fold(outcome).latencies == before.latencies,
        before.fold(outcome).latencies.len() == before.fold(outcome).successes,
{
}

/// An aggregator is what it becomes when nothing is folded into it.
pub proof fn lemma_reaches_itself(start: Tally)
    ensures
        start.reaches(start),
{
    assert(start == start.fold_all(Seq::<Outcome>::empty()));
}

/// What an aggregator reaches stays reached when one more outcome is folded.
pub proof fn lemma_reaches_step(start: Tally, now: Tally, outcome: Outcome)
    requires
        start.reaches(now),
    ensures
        start.reaches(now.fold(outcome)),
{
    let so_far = choose|outcomes: Seq<Outcome>| now == #[trigger] start.fold_all(outcomes);
    let longer = so_far.push(outcome);
    assert(longer.drop_last() == so_far);
    assert(now.fold(outcome) == start.fold_all(longer));
}

/// Folding never takes anything back: the counters of the folded aggregator
/// are at least what they were, and the samples it had are still its first.
pub proof fn lemma_fold_all_grows(start: Tally, outcomes: Seq<Outcome>)
    requires
        start.consistent(),
    ensures
        start.fold_all(outcomes).successes == start.successes + count_successes(outcomes),
        start.fold_all(outcomes).errors >= start.errors,
        start.fold_all(outcomes).bytes >= start.bytes,
        start.fold_all(outcomes).errors <= u64::MAX,
        start.fold_all(outcomes).bytes <= u64::MAX,
        start.latencies.is_prefix_of(start.fold_all(outcomes).latencies),
        start.fold_all(outcomes).latencies.len() == start.fold_all(outcomes).successes,
    decreases outcomes.len(),
{
    if outcomes.len() > 0 {
        lemma_fold_all_grows(start, outcomes.drop_last());
    }
}

/// The state of one aggregator, owned by a single caller.
///
/// The success count is not stored: it is the number of latency samples, so
/// the two can never disagree.
pub struct AggregatorState {
    error_count: u64,
    total_bytes: u64,
    latencies: Vec<u64>,
}

impl View for AggregatorState {
    type V = Tally;

    closed spec fn view(&self) -> Tally {
        Tally {
            successes: self.latencies@.len(),
            errors: self.error_count as nat,
            bytes: self.total_bytes as nat,
            latencies: self.latencies@,
        }
    }
}

impl AggregatorState {
    /// Whatever has been folded into an aggregator, it holds one latency
    /// sample per success and its counters are in range.
    pub proof fn lemma_consistent(&self)
        ensures
            self@.consistent(),
    {
        assert(self.latencies@.len() == self.latencies.len());
    }

    /// An aggregator into which nothing has been folded.
    pub fn new() -> (state: AggregatorState)
        ensures
            state@ == Tally::empty(),
    {
        AggregatorState { error_count: 0, total_bytes: 0, latencies: Vec::new() }
    }

    /// Folds one success: one more success, `bytes` more payload, and
    /// `latency` appended to the samples.
    pub fn record_success(&mut self, latency: u64, bytes: u64)
        ensures
            final(self)@ == old(self)@.record_success(latency, bytes),
    {
        self.latencies.push(latency);
        self.total_bytes = if bytes <= u64::MAX - self.total_bytes {
            self.total_bytes + bytes
        } else {
            u64::MAX
        };
    }

    /// Folds one error: one more error and nothing else.
    pub fn record_error(&mut self)
        ensures
            final(self)@ == old(self)@.record_error(),
    {
        if self.error_count < u64::MAX {
            self.error_count = self.error_count + 1;
        }
    }

    /// Folds one outcome.
    pub fn record(&mut self, outcome: Outcome)
        ensures
            final(self)@ == old(self)@.fold(outcome),
    {
        match outcome {
            Outcome::Success { latency, bytes } => self.record_success(latency, bytes),
            Outcome::Error => self.record_error(),
        }
    }

    /// Number of successes folded so far.
    pub fn success_count(&self) -> (n: u64)
        ensures
            n == self@.successes,
    {
        self.latencies.len() as u64
    }

    /// Number of errors folded so far.
    pub fn error_count(&self) -> (n: u64)
        ensures
            n == self@.errors,
    {
        self.error_count
    }

    /// Sum of the payload sizes of the successes folded so far.
    pub fn total_bytes(&self) -> (n: u64)
        ensures
            n == self@.bytes,
    {
        self.total_bytes
    }

    /// An independent copy of this aggregator.
    pub fn duplicate(&self) -> (copy: AggregatorState)
        ensures
            copy@ == self@,
    {
        let mut latencies: Vec<u64> = Vec::new();
        let mut i: usize = 0;
        while i < self.latencies.len()
            invariant
                i <= self.latencies@.len(),
                latencies@ == self.latencies@.take(i as int),
            decreases self.latencies@.len() - i,
        {
            latencies.push(self.latencies[i]);
            i += 1;
        }
        AggregatorState { error_count: self.error_count, total_bytes: self.total_bytes, latencies }
    }

    /// The latency samples, in the order they were folded.
    pub fn latencies(&self) -> (samples: &Vec<u64>)
        ensures
            samples@ == self@.latencies,
    {
        &self.latencies
    }
}

/// What the lock of a shared aggregator guarantees of the state inside it:
/// the state is what the aggregator held at first, with some outcomes folded
/// into it one after another.
pub struct FoldedFrom {
    /// What the aggregator held when it was created.
    pub start: Tally,
}

impl RwLockPredicate<AggregatorState> for FoldedFrom {
    open spec fn inv(self, state: AggregatorState) -> bool {
        self.start.reaches(state@)
    }
}

/// An aggregator shared by every worker of a run.
///
/// Each operation takes the lock, applies the corresponding operation of
/// [`AggregatorState`] and releases the lock, so concurrent calls take effect
/// one after another and none is lost. Because other workers may fold
/// outcomes at any moment, a caller learns nothing about the contents from a
/// call that records. What is read from the aggregator is always its first
/// content with a sequence of outcomes folded into it: every outcome counted
/// once, and one latency sample per success.
pub struct Metrics {
    inner: RwLock<AggregatorState, FoldedFrom>,
}

impl Metrics {
    /// What the aggregator held when it was created.
    pub closed spec fn initial(&self) -> Tally {
        self.inner.pred().start
    }

    /// A shared aggregator into which nothing has been folded.
    pub fn new() -> (metrics: Metrics)
        ensures
            metrics.initial() == Tally::empty(),
    {
        let state = AggregatorState::new();
        proof {
            lemma_reaches_itself(Tally::empty());
        }
        Metrics { inner: RwLock::new(state, Ghost(FoldedFrom { start: Tally::empty() })) }
    }

    /// Folds one success with its latency in microseconds and its payload size.
    pub fn record_success(&self, latency: u64, bytes: u64) {
        let (mut state, handle) = self.inner.acquire_write();
        proof {
            lemma_reaches_step(self.initial(), state@, Outcome::Success { latency, bytes });
        }
        state.record_success(latency, bytes);
        handle.release_write(state);
    }

    /// Folds one error.
    pub fn record_error(&self) {
        let (mut state, handle) = self.inner.acquire_write();
        proof {
            lemma_reaches_step(self.initial(), state@, Outcome::Error);
        }
        state.record_error();
        handle.release_write(state);
    }

    /// Folds one outcome.
    pub fn record(&self, outcome: Outcome) {
        let (mut state, handle) = self.inner.acquire_write();
        proof {
            lemma_reaches_step(self.initial(), state@, outcome);
        }
        state.record(outcome);
        handle.release_write(state);
    }

    /// Folds what one event of a stream stands for, under one hold of the
    /// lock, and tells whether the subscriber goes on waiting.
    pub(crate) fn fold_event(&self, event: StreamEvent) -> (open: bool)
        ensures
            open == event.keeps_open(),
    {
        let (mut state, handle) = self.inner.acquire_write();
        proof {
            match outcome_of(event) {
                Some(outcome) => lemma_reaches_step(self.initial(), state@, outcome),
                None => {},
            }
        }
        let open = record_event(&mut state, event);
        handle.release_write(state);
        open
    }

    /// A copy of the state as it is when the lock is held: what the
    /// aggregator held at first, with the outcomes folded into it that have
    /// been recorded up to that moment.
    pub fn snapshot(&self) -> (state: AggregatorState)
        ensures
            self.initial().reaches(state@),
            state@.consistent(),
    {
        let handle = self.inner.acquire_read();
        let state = handle.borrow().duplicate();
        handle.release_read();
        proof {
            state.lemma_consistent();
        }
        state
    }

    /// The summary of what has been folded so far, for a run that took
    /// `elapsed_micros`. Once every worker has exited this is the summary of
    /// the whole run.
    pub fn summary(&self, elapsed_micros: u64) -> (s: Summary)
        ensures
            exists|tally: Tally|
                self.initial().reaches(tally) && tally.consistent() && s == #[trigger] summary_of(
                    tally,
                    elapsed_micros,
                ),
            s.p50 <= s.p95 <= s.p99,
            s.elapsed_micros == elapsed_micros,
    {
        let handle = self.inner.acquire_read();
        let state = handle.borrow();
        let s = summarize(state, elapsed_micros);
        proof {
            state.lemma_consistent();
            assert(self.initial().reaches(state@) && state@.consistent() && s == summary_of(
                state@,
                elapsed_micros,
            ));
        }
        handle.release_read();
        s
    }

    /// Ends the sharing and hands out the state: what the aggregator held at
    /// first, with every outcome folded into it that has been recorded. Call
    /// this once every worker has exited.
    pub fn into_state(self) -> (state: AggregatorState)
        ensures
            self.initial().reaches(state@),
            state@.consistent(),
    {
        let state = self.inner.into_inner();
        proof {
            state.lemma_consistent();
        }
        state
    }
}

} // verus!
