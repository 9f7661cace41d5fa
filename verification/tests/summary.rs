use yeti_benchmarks::metrics::AggregatorState;
use yeti_benchmarks::metrics::Outcome;
use yeti_benchmarks::sorting::sort_ascending;
use yeti_benchmarks::summary::percentile;
use yeti_benchmarks::summary::sum_samples;
use yeti_benchmarks::summary::summarize;
use yeti_benchmarks::summary::Ratio;
use yeti_benchmarks::summary::Summary;

fn value(ratio: Ratio) -> f64 {
    ratio.num as f64 / ratio.den as f64
}

#[test]
fn sorting_orders_and_keeps_every_sample() {
    let samples = vec![5, 3, 9, 3, 0, u64::MAX, 7, 3];
    assert_eq!(sort_ascending(&samples), vec![0, 3, 3, 3, 5, 7, 9, u64::MAX]);
    assert_eq!(sort_ascending(&Vec::new()), Vec::<u64>::new());
    assert_eq!(sort_ascending(&vec![4]), vec![4]);
    assert_eq!(sort_ascending(&vec![2, 1]), vec![1, 2]);
}

#[test]
fn sorting_agrees_with_the_standard_sort() {
    let mut samples = Vec::new();
    let mut x: u64 = 12345;
    for _ in 0..2000 {
        x = x.wrapping_mul(6364136223846793005).wrapping_add(1442695040888963407);
        samples.push(x >> 40);
    }
    let mut expected = samples.clone();
    expected.sort();
    assert_eq!(sort_ascending(&samples), expected);
}

#[test]
fn percentile_uses_nearest_rank() {
    let sorted: Vec<u64> = (1..=100).collect();
    assert_eq!(percentile(&sorted, 50), 50);
    assert_eq!(percentile(&sorted, 95), 95);
    assert_eq!(percentile(&sorted, 99), 99);
    assert_eq!(percentile(&sorted, 100), 100);
    assert_eq!(percentile(&sorted, 1), 1);
}

#[test]
fn percentile_rounds_the_rank_up() {
    let sorted = vec![10, 20, 30, 40, 50];
    assert_eq!(percentile(&sorted, 50), 30);
    assert_eq!(percentile(&sorted, 95), 50);
    assert_eq!(percentile(&sorted, 20), 10);
    assert_eq!(percentile(&sorted, 21), 20);
    let twenty: Vec<u64> = (1..=20).collect();
    assert_eq!(percentile(&twenty, 95), 19);
    assert_eq!(percentile(&twenty, 99), 20);
    assert_eq!(percentile(&twenty, 50), 10);
}

#[test]
fn percentile_is_clamped_to_the_samples() {
    let sorted = vec![7, 8, 9];
    assert_eq!(percentile(&sorted, 0), 7);
    assert_eq!(percentile(&sorted, 250), 9);
    assert_eq!(percentile(&sorted, u64::MAX), 9);
    assert_eq!(percentile(&vec![42], 50), 42);
    assert_eq!(percentile(&vec![42], 99), 42);
}

#[test]
fn percentile_of_no_samples_is_zero() {
    assert_eq!(percentile(&Vec::new(), 50), 0);
    assert_eq!(percentile(&Vec::new(), 99), 0);
}

#[test]
fn sum_of_samples_does_not_wrap() {
    assert_eq!(sum_samples(&vec![]), 0);
    assert_eq!(sum_samples(&vec![1, 2, 3]), 6);
    assert_eq!(sum_samples(&vec![u64::MAX, u64::MAX, 2]), 2 * (u64::MAX as u128) + 2);
}

#[test]
fn summary_of_an_empty_run_is_all_zero() {
    let state = AggregatorState::new();
    let summary = summarize(&state, 0);
    assert_eq!(
        summary,
        Summary {
            total_requests: 0,
            error_rate: Ratio { num: 0, den: 1 },
            throughput: Ratio { num: 0, den: 1 },
            p50: 0,
            p95: 0,
            p99: 0,
            avg_latency: Ratio { num: 0, den: 1 },
            total_bytes: 0,
            bandwidth: Ratio { num: 0, den: 1 },
            elapsed_micros: 0,
        }
    );
    let later = summarize(&state, 3_000_000);
    assert_eq!(later.total_requests, 0);
    assert_eq!(later.throughput.num, 0);
    assert_eq!(value(later.throughput), 0.0);
    assert_eq!(later.elapsed_micros, 3_000_000);
}

#[test]
fn summary_has_exact_rates() {
    let mut state = AggregatorState::new();
    for latency in [400u64, 100, 300, 200] {
        state.record_success(latency, 250);
    }
    state.record_error();
    let summary = summarize(&state, 2_000_000);
    assert_eq!(
        summary,
        Summary {
            total_requests: 5,
            error_rate: Ratio { num: 1, den: 5 },
            throughput: Ratio { num: 4_000_000, den: 2_000_000 },
            p50: 200,
            p95: 400,
            p99: 400,
            avg_latency: Ratio { num: 1000, den: 4 },
            total_bytes: 1000,
            bandwidth: Ratio { num: 1_000_000_000, den: 2_000_000 },
            elapsed_micros: 2_000_000,
        }
    );
    assert_eq!(value(summary.throughput), 2.0);
    assert_eq!(value(summary.bandwidth), 500.0);
    assert_eq!(value(summary.avg_latency), 250.0);
    assert_eq!(value(summary.error_rate), 0.2);
}

#[test]
fn errors_do_not_count_as_throughput() {
    let mut state = AggregatorState::new();
    for _ in 0..9 {
        state.record_error();
    }
    state.record_success(5, 5);
    let summary = summarize(&state, 1_000_000);
    assert_eq!(summary.throughput, Ratio { num: 1_000_000, den: 1_000_000 });
    assert_eq!(summary.error_rate, Ratio { num: 9, den: 10 });
}

#[test]
fn zero_elapsed_time_gives_zero_rates() {
    let mut state = AggregatorState::new();
    state.record_success(5, 50);
    let summary = summarize(&state, 0);
    assert_eq!(summary.throughput, Ratio { num: 0, den: 1 });
    assert_eq!(summary.bandwidth, Ratio { num: 0, den: 1 });
    assert_eq!(summary.total_requests, 1);
    assert_eq!(summary.p50, 5);
}

#[test]
fn only_errors_gives_zero_latencies() {
    let mut state = AggregatorState::new();
    state.record_error();
    state.record_error();
    let summary = summarize(&state, 1_000_000);
    assert_eq!(summary.total_requests, 2);
    assert_eq!(summary.error_rate, Ratio { num: 2, den: 2 });
    assert_eq!(summary.p50, 0);
    assert_eq!(summary.p95, 0);
    assert_eq!(summary.p99, 0);
    assert_eq!(summary.avg_latency, Ratio { num: 0, den: 1 });
    assert_eq!(summary.throughput, Ratio { num: 0, den: 1_000_000 });
}

#[test]
fn percentiles_are_ordered() {
    let mut x: u64 = 99;
    for size in [1usize, 2, 3, 10, 57, 100, 101, 999] {
        let mut state = AggregatorState::new();
        for _ in 0..size {
            x = x.wrapping_mul(6364136223846793005).wrapping_add(1442695040888963407);
            state.record_success(x >> 44, 1);
        }
        let summary = summarize(&state, 1_000_000);
        assert!(summary.p50 <= summary.p95);
        assert!(summary.p95 <= summary.p99);
        assert!(state.latencies().contains(&summary.p50));
        assert!(state.latencies().contains(&summary.p99));
    }
}

#[test]
fn alternating_outcomes_give_an_error_rate_of_one_half() {
    let mut state = AggregatorState::new();
    for iteration in 0..100_000u64 {
        if iteration % 2 == 0 {
            state.record_success(1000, 10);
        } else {
            state.record_error();
        }
    }
    let summary = summarize(&state, 5_000_000);
    assert_eq!(summary.total_requests, 100_000);
    assert_eq!(summary.error_rate, Ratio { num: 50_000, den: 100_000 });
    assert!((value(summary.error_rate) - 0.5).abs() < 1e-9);
}

#[test]
fn summary_does_not_depend_on_the_order_of_outcomes() {
    let mut outcomes = Vec::new();
    let mut x: u64 = 7;
    for i in 0..400u64 {
        x = x.wrapping_mul(6364136223846793005).wrapping_add(1442695040888963407);
        if i % 5 == 0 {
            outcomes.push(Outcome::Error);
        } else {
            outcomes.push(Outcome::Success { latency: x >> 50, bytes: x >> 56 });
        }
    }
    let mut forward = AggregatorState::new();
    for outcome in &outcomes {
        forward.record(*outcome);
    }
    let mut backward = AggregatorState::new();
    for outcome in outcomes.iter().rev() {
        backward.record(*outcome);
    }
    let mut striped = AggregatorState::new();
    for start in 0..7 {
        for outcome in outcomes.iter().skip(start).step_by(7) {
            striped.record(*outcome);
        }
    }
    let expected = summarize(&forward, 3_000_000);
    assert_eq!(expected.total_requests, 400);
    assert_eq!(expected.error_rate, Ratio { num: 80, den: 400 });
    assert_eq!(summarize(&backward, 3_000_000), expected);
    assert_eq!(summarize(&striped, 3_000_000), expected);
}
