//! The closed-loop scheduler: when a run starts and ends, and what each
//! virtual user does next.
//!
//! Time is read from a monotonic clock by the caller and passed in as whole
//! microseconds since an origin of the caller's choice.

use crate::config::Credentials;
use crate::config::RunConfig;
use crate::metrics::Metrics;
use crate::metrics::Outcome;
use crate::metrics::Tally;
use crate::summary::lemma_empty_summary;
use crate::summary::summary_of;
use crate::summary::MICROS_PER_SECOND;
use std::sync::Arc;
use vstd::prelude::*;

verus! {

/// The instant at which a run of `duration_secs` seconds that started at
/// `start` stops launching iterations. An instant that the clock cannot
/// represent is replaced by the last one it can.
pub open spec fn deadline_of(start: u64, duration_secs: u64) -> u64 {
    if start + duration_secs * MICROS_PER_SECOND <= u64::MAX {
        (start + duration_secs * MICROS_PER_SECOND) as u64
    } else {
        u64::MAX
    }
}

/// What a worker does when it is about to start an iteration.
#[derive(Clone, Copy, Debug, PartialEq, Eq, Structural)]
pub enum WorkerStep {
    /// Invoke the workload once more, immediately.
    Invoke,
    /// The deadline has passed: exit.
    Exit,
}

/// The fixed timing of one run.
#[derive(Clone, Copy, Debug, PartialEq, Eq, Structural)]
pub struct Schedule {
    /// The instant the run started.
    pub start: u64,
    /// The instant after which no worker begins a new iteration.
    pub deadline: u64,
}

impl Schedule {
    /// The schedule of a run of `duration_secs` seconds that starts at `now`.
    pub fn begin(duration_secs: u64, now: u64) -> (schedule: Schedule)
        ensures
            schedule == (Schedule { start: now, deadline: deadline_of(now, duration_secs) }),
    {
        assert(duration_secs * MICROS_PER_SECOND == duration_secs * 1_000_000);
        let span: u128 = duration_secs as u128 * MICROS_PER_SECOND as u128;
        let end: u128 = now as u128 + span;
        let deadline: u64 = if end <= u64::MAX as u128 {
            end as u64
        } else {
            u64::MAX
        };
        Schedule { start: now, deadline }
    }

    /// Whether a worker that reads the clock at `now` starts another iteration.
    pub open spec fn runs_at(self, now: u64) -> bool {
        now < self.deadline
    }

    /// Decides what a worker does next. A worker asks before every iteration,
    /// the first included, and never while a call is in flight: an iteration
    /// that has begun is allowed to finish.
    pub fn next_step(&self, now: u64) -> (step: WorkerStep)
        ensures
            step == (if self.runs_at(now) {
                WorkerStep::Invoke
            } else {
                WorkerStep::Exit
            }),
    {
        if now < self.deadline {
            WorkerStep::Invoke
        } else {
            WorkerStep::Exit
        }
    }

    /// The span from the start of the run to `now`; zero if the clock reads
    /// earlier than the start.
    pub open spec fn elapsed_at(self, now: u64) -> u64 {
        if now >= self.start {
            (now - self.start) as u64
        } else {
            0
        }
    }

    /// The measured length of the run, taken once every worker has exited.
    pub fn elapsed(&self, now: u64) -> (span: u64)
        ensures
            span == self.elapsed_at(now),
    {
        if now >= self.start {
            now - self.start
        } else {
            0
        }
    }
}

/// How one request of the setup phase ended.
#[derive(Clone, Copy, Debug, PartialEq, Eq, Structural)]
pub enum SetupOutcome {
    /// The target did what was asked.
    Done,
    /// The target answered, but refused.
    Refused,
    /// The request failed before an answer came.
    Failed,
}

/// Every request of the setup phase has succeeded.
pub open spec fn setup_succeeded(outcomes: Seq<SetupOutcome>) -> bool {
    forall|i: int| 0 <= i < outcomes.len() ==> outcomes[i] is Done
}

/// Decides whether the load phase may begin. A run whose setup has failed is
/// aborted before any worker is spawned: what it measured would mean nothing.
pub fn may_begin(outcomes: &Vec<SetupOutcome>) -> (go: bool)
    ensures
        go == setup_succeeded(outcomes@),
{
    let mut i: usize = 0;
    while i < outcomes.len()
        invariant
            i <= outcomes@.len(),
            forall|j: int| 0 <= j < i ==> outcomes@[j] is Done,
        decreases outcomes@.len() - i,
    {
        match outcomes[i] {
            SetupOutcome::Done => {},
            _ => {
                return false;
            },
        }
        i += 1;
    }
    true
}

/// What one worker is given when it is spawned: its identity and what it
/// shares with the other workers of the run.
pub struct WorkerContext {
    /// The 0-based index of the worker, unique within the run.
    pub vu_id: u64,
    /// The aggregator of the run, shared by all workers.
    pub metrics: Arc<Metrics>,
    /// Base address of the target.
    pub base_url: String,
    /// Credentials sent with every request, if any.
    pub credentials: Option<Credentials>,
}

/// The context of the `n`-th worker of a run, or nothing when the run has
/// fewer workers. The caller passes a handle to the aggregator of the run for
/// the worker to hold.
pub fn worker_context(config: &RunConfig, metrics: Arc<Metrics>, n: u64) -> (context: Option<
    WorkerContext,
>)
    ensures
        match context {
            Some(ctx) => {
                &&& n < config@.vus
                &&& ctx.vu_id == n
                &&& ctx.metrics == metrics
                &&& ctx.base_url@ == config@.base_url
                &&& config@.credentials == match ctx.credentials {
                    Some(creds) => Some((creds.user@, creds.pass@)),
                    None => None,
                }
            },
            None => n >= config@.vus,
        },
{
    if n >= config.vus() {
        return None;
    }
    let credentials = match config.credentials() {
        Some(given) => Some(given.duplicate()),
        None => None,
    };
    Some(
        WorkerContext {
            vu_id: n,
            metrics,
            base_url: config.base_url().to_owned(),
            credentials,
        },
    )
}

/// One virtual user: which it is, how often it has invoked the workload, and
/// whether it has left its loop.
#[derive(Clone, Copy, Debug, PartialEq, Eq, Structural)]
pub struct Worker {
    /// The 0-based index of the worker.
    pub vu_id: u64,
    /// Number of iterations begun so far.
    pub iterations: u64,
    /// The worker has been told to exit.
    pub exited: bool,
}

impl Worker {
    /// The worker `vu_id` before its first iteration.
    pub fn new(vu_id: u64) -> (worker: Worker)
        ensures
            worker == (Worker { vu_id, iterations: 0, exited: false }),
    {
        Worker { vu_id, iterations: 0, exited: false }
    }

    /// The worker after it has asked what to do at `now`: before the deadline
    /// it begins one more iteration, otherwise it exits, and once it has
    /// exited it stays so.
    pub open spec fn after(self, schedule: Schedule, now: u64) -> Worker {
        if !self.exited && schedule.runs_at(now) {
            Worker {
                vu_id: self.vu_id,
                iterations: if self.iterations < u64::MAX {
                    (self.iterations + 1) as u64
                } else {
                    u64::MAX
                },
                exited: false,
            }
        } else {
            Worker { vu_id: self.vu_id, iterations: self.iterations, exited: true }
        }
    }

    /// The worker after it has asked at each of the `readings` in turn.
    pub open spec fn after_all(self, schedule: Schedule, readings: Seq<u64>) -> Worker
        decreases readings.len(),
    {
        if readings.len() == 0 {
            self
        } else {
            self.after(schedule, readings.first()).after_all(schedule, readings.drop_first())
        }
    }

    /// Asks what to do next and takes note of the answer. The worker calls
    /// this before every iteration, the first included, with a fresh reading
    /// of the clock; it invokes the workload exactly once for every `Invoke`
    /// and leaves its loop at the first `Exit`.
    pub fn step(&mut self, schedule: &Schedule, now: u64) -> (step: WorkerStep)
        ensures
            *final(self) == old(self).after(*schedule, now),
            step == (if final(self).exited {
                WorkerStep::Exit
            } else {
                WorkerStep::Invoke
            }),
    {
        if !self.exited && now < schedule.deadline {
            if self.iterations < u64::MAX {
                self.iterations = self.iterations + 1;
            }
            WorkerStep::Invoke
        } else {
            self.exited = true;
            WorkerStep::Exit
        }
    }
}

/// A worker that asks at every reading of the clock until it is told to exit
/// has begun exactly `iterations` iterations, and a worker that has exited
/// begins no more, whatever the clock shows afterwards.
pub proof fn lemma_worker_iterations(worker: Worker, schedule: Schedule, readings: Seq<u64>)
    requires
        readings.len() <= u64::MAX,
    ensures
        worker.exited ==> worker.after_all(schedule, readings) == worker,
        !worker.exited && worker.iterations == 0 ==> worker.after_all(
            schedule,
            readings,
        ).iterations <= readings.len(),
        !worker.exited && worker.iterations + readings.len() <= u64::MAX ==> worker.after_all(
            schedule,
            readings,
        ).iterations == worker.iterations + iterations(schedule, readings),
    decreases readings.len(),
{
    if readings.len() > 0 {
        let next = worker.after(schedule, readings.first());
        let rest = readings.drop_first();
        lemma_worker_iterations(next, schedule, rest);
        lemma_iterations_bounded(schedule, readings);
        lemma_iterations_bounded(schedule, rest);
    }
}

/// Number of iterations a worker performs when the clock shows `readings[k]`
/// at the moment it asks for the `k`-th time: it iterates until the first
/// reading at which the schedule tells it to exit.
pub open spec fn iterations(schedule: Schedule, readings: Seq<u64>) -> nat
    decreases readings.len(),
{
    if readings.len() == 0 || !schedule.runs_at(readings.first()) {
        0
    } else {
        1 + iterations(schedule, readings.drop_first())
    }
}

/// What a worker has folded by the time it exits, when its `k`-th invocation
/// of the workload produces `outcomes[k]`: one outcome per iteration.
pub open spec fn worker_tally(schedule: Schedule, readings: Seq<u64>, outcomes: Seq<Outcome>) -> Tally {
    Tally::empty().fold_all(outcomes.take(iterations(schedule, readings) as int))
}

/// A run of zero duration performs no iteration at all, however the clock
/// advances and whatever the workload would produce: nothing is folded, the
/// measured length is the time that passed, and the summary reports no
/// request and no throughput.
pub proof fn lemma_zero_duration(
    start: u64,
    readings: Seq<u64>,
    outcomes: Seq<Outcome>,
    end: u64,
)
    requires
        forall|k: int| 0 <= k < readings.len() ==> readings[k] >= start,
        end >= start,
    ensures
        iterations(Schedule { start, deadline: deadline_of(start, 0) }, readings) == 0,
        worker_tally(Schedule { start, deadline: deadline_of(start, 0) }, readings, outcomes)
            == Tally::empty(),
        (Schedule { start, deadline: deadline_of(start, 0) }).elapsed_at(end) == end - start,
        summary_of(Tally::empty(), (end - start) as u64).total_requests == 0,
        summary_of(Tally::empty(), (end - start) as u64).throughput.num == 0,
{
    lemma_empty_summary((end - start) as u64);
}

/// Once a worker has been told to exit, a monotonic clock never lets it run
/// again.
pub proof fn lemma_exit_is_final(schedule: Schedule, earlier: u64, later: u64)
    requires
        earlier <= later,
        !schedule.runs_at(earlier),
    ensures
        !schedule.runs_at(later),
{
}

/// A worker never begins an iteration at or after the deadline, and between
/// iterations it never waits: every reading before the first refusal starts
/// an iteration.
pub proof fn lemma_iterations_bounded(schedule: Schedule, readings: Seq<u64>)
    ensures
        iterations(schedule, readings) <= readings.len(),
        forall|k: int|
            0 <= k < iterations(schedule, readings) ==> schedule.runs_at(#[trigger] readings[k]),
        iterations(schedule, readings) < readings.len() ==> !schedule.runs_at(
            readings[iterations(schedule, readings) as int],
        ),
    decreases readings.len(),
{
    if readings.len() > 0 && schedule.runs_at(readings.first()) {
        let rest = readings.drop_first();
        lemma_iterations_bounded(schedule, rest);
        assert forall|k: int| 0 <= k < iterations(schedule, readings) implies schedule.runs_at(
            #[trigger] readings[k],
        ) by {
            if k > 0 {
                assert(readings[k] == rest[k - 1]);
            }
        }
    }
}

} // verus!
