use std::sync::Arc;
use yeti_benchmarks::config::RunConfig;
use yeti_benchmarks::metrics::AggregatorState;
use yeti_benchmarks::metrics::Metrics;
use yeti_benchmarks::report::RunRecord;
use yeti_benchmarks::runner::may_begin;
use yeti_benchmarks::runner::worker_context;
use yeti_benchmarks::runner::SetupOutcome;
use yeti_benchmarks::runner::Schedule;
use yeti_benchmarks::runner::Worker;
use yeti_benchmarks::runner::WorkerStep;
use yeti_benchmarks::summary::summarize;
use yeti_benchmarks::summary::Ratio;

#[test]
fn deadline_is_start_plus_duration() {
    let schedule = Schedule::begin(30, 1_000);
    assert_eq!(schedule, Schedule { start: 1_000, deadline: 30_001_000 });
}

#[test]
fn deadline_stops_at_the_last_instant() {
    let schedule = Schedule::begin(u64::MAX, 7);
    assert_eq!(schedule.deadline, u64::MAX);
    let schedule = Schedule::begin(1, u64::MAX - 10);
    assert_eq!(schedule.deadline, u64::MAX);
}

#[test]
fn worker_runs_strictly_before_the_deadline() {
    let schedule = Schedule::begin(2, 500);
    assert_eq!(schedule.next_step(500), WorkerStep::Invoke);
    assert_eq!(schedule.next_step(2_000_499), WorkerStep::Invoke);
    assert_eq!(schedule.next_step(2_000_500), WorkerStep::Exit);
    assert_eq!(schedule.next_step(9_000_000), WorkerStep::Exit);
}

#[test]
fn elapsed_is_the_measured_span() {
    let schedule = Schedule::begin(2, 500);
    assert_eq!(schedule.elapsed(500), 0);
    assert_eq!(schedule.elapsed(2_013_500), 2_013_000);
    assert_eq!(schedule.elapsed(100), 0);
}

#[test]
fn zero_duration_runs_nothing() {
    let metrics = Metrics::new();
    let schedule = Schedule::begin(0, 42);
    let mut iterations = 0;
    for _vu in 0..10 {
        let mut now = 42;
        while schedule.next_step(now) == WorkerStep::Invoke {
            metrics.record_success(1, 1);
            iterations += 1;
            now += 1;
        }
    }
    assert_eq!(iterations, 0);
    let elapsed = schedule.elapsed(45);
    assert_eq!(elapsed, 3);
    let summary = metrics.summary(elapsed);
    assert_eq!(summary.total_requests, 0);
    assert_eq!(summary.throughput.num, 0);
    assert_eq!(summary.throughput, Ratio { num: 0, den: 3 });
}

#[test]
fn ten_workers_with_fixed_latency() {
    let mut state = AggregatorState::new();
    let schedule = Schedule::begin(2, 0);
    let mut last_exit = 0;
    for vu in 0..10 {
        let mut worker = Worker::new(vu);
        let mut now = 0;
        while worker.step(&schedule, now) == WorkerStep::Invoke {
            now += 10_000;
            state.record_success(10_000, 100);
        }
        assert_eq!(worker, Worker { vu_id: vu, iterations: 200, exited: true });
        if now > last_exit {
            last_exit = now;
        }
    }
    let elapsed = schedule.elapsed(last_exit);
    assert_eq!(elapsed, 2_000_000);
    let summary = summarize(&state, elapsed);
    assert_eq!(summary.total_requests, 2000);
    assert_eq!(summary.error_rate, Ratio { num: 0, den: 2000 });
    assert_eq!(summary.total_bytes as u128, summary.total_requests * 100);
    let throughput = summary.throughput.num as f64 / summary.throughput.den as f64;
    assert!((throughput - summary.total_requests as f64 / 2.0).abs() < 1e-6);
    assert_eq!(summary.p50, 10_000);
    assert_eq!(summary.p99, 10_000);
    assert_eq!(summary.avg_latency, Ratio { num: 20_000_000, den: 2000 });
}

#[test]
fn a_call_in_flight_at_the_deadline_completes() {
    let mut state = AggregatorState::new();
    let schedule = Schedule::begin(1, 0);
    let mut now = 0;
    while schedule.next_step(now) == WorkerStep::Invoke {
        now += 300_000;
        state.record_success(300_000, 1);
    }
    assert_eq!(state.success_count(), 4);
    assert_eq!(schedule.elapsed(now), 1_200_000);
}

#[test]
fn failures_do_not_stop_a_worker() {
    let mut state = AggregatorState::new();
    let schedule = Schedule::begin(1, 0);
    let mut now = 0;
    let mut worker = Worker::new(0);
    while worker.step(&schedule, now) == WorkerStep::Invoke {
        now += 1_000;
        if worker.iterations % 2 == 1 {
            state.record_success(1_000, 8);
        } else {
            state.record_error();
        }
    }
    assert_eq!(worker.iterations, 1000);
    let summary = summarize(&state, schedule.elapsed(now));
    assert_eq!(summary.total_requests, 1000);
    assert_eq!(summary.error_rate, Ratio { num: 500, den: 1000 });
    assert_eq!(summary.throughput, Ratio { num: 500_000_000, den: 1_000_000 });
}

#[test]
fn contexts_number_the_workers_from_zero() {
    let config = RunConfig::new("rest-read", 2, 3, "https://localhost:9996", Some("admin:secret"))
        .unwrap();
    let metrics = Arc::new(Metrics::new());
    for n in 0..3u64 {
        let ctx = worker_context(&config, metrics.clone(), n).unwrap();
        assert_eq!(ctx.vu_id, n);
        assert_eq!(ctx.base_url, "https://localhost:9996");
        let creds = ctx.credentials.unwrap();
        assert_eq!(creds.user, "admin");
        assert_eq!(creds.pass, "secret");
        assert!(Arc::ptr_eq(&ctx.metrics, &metrics));
        ctx.metrics.record_error();
    }
    assert!(worker_context(&config, metrics.clone(), 3).is_none());
    assert!(worker_context(&config, metrics.clone(), u64::MAX).is_none());
    assert_eq!(metrics.snapshot().error_count(), 3);
}

#[test]
fn failed_setup_aborts_the_run() {
    assert!(may_begin(&vec![]));
    assert!(may_begin(&vec![SetupOutcome::Done]));
    assert!(may_begin(&vec![SetupOutcome::Done, SetupOutcome::Done, SetupOutcome::Done]));
    assert!(!may_begin(&vec![SetupOutcome::Failed]));
    assert!(!may_begin(&vec![SetupOutcome::Refused]));
    assert!(!may_begin(&vec![SetupOutcome::Done, SetupOutcome::Refused, SetupOutcome::Done]));
    assert!(!may_begin(&vec![SetupOutcome::Done, SetupOutcome::Done, SetupOutcome::Failed]));
}

#[test]
fn worker_counts_its_iterations_and_exits_for_good() {
    let schedule = Schedule::begin(1, 1_000);
    let mut worker = Worker::new(3);
    assert_eq!(worker, Worker { vu_id: 3, iterations: 0, exited: false });
    assert_eq!(worker.step(&schedule, 1_000), WorkerStep::Invoke);
    assert_eq!(worker.step(&schedule, 500_000), WorkerStep::Invoke);
    assert_eq!(worker, Worker { vu_id: 3, iterations: 2, exited: false });
    assert_eq!(worker.step(&schedule, 1_001_000), WorkerStep::Exit);
    assert_eq!(worker, Worker { vu_id: 3, iterations: 2, exited: true });
    assert_eq!(worker.step(&schedule, 2_000), WorkerStep::Exit);
    assert_eq!(worker, Worker { vu_id: 3, iterations: 2, exited: true });
}

#[test]
fn worker_of_a_zero_duration_run_never_iterates() {
    let schedule = Schedule::begin(0, 77);
    let mut worker = Worker::new(0);
    assert_eq!(worker.step(&schedule, 77), WorkerStep::Exit);
    assert_eq!(worker.iterations, 0);
    assert!(worker.exited);
}

#[test]
fn record_of_a_run_holds_test_summary_and_time() {
    let config = RunConfig::new("graphql-read", 2, 3, "https://localhost:9996", None).unwrap();
    let mut state = AggregatorState::new();
    state.record_success(700, 70);
    state.record_error();
    let summary = summarize(&state, 2_000_000);
    let record = RunRecord::new(&config, summary, 1_700_000_000);
    assert_eq!(record.test_id, "graphql-read");
    assert_eq!(record.results, summary);
    assert_eq!(record.results.total_requests, 2);
    assert_eq!(record.timestamp, 1_700_000_000);
}
