use yeti_benchmarks::metrics::AggregatorState;
use yeti_benchmarks::metrics::Metrics;
use yeti_benchmarks::runner::Schedule;
use yeti_benchmarks::stream::count_data_lines;
use yeti_benchmarks::stream::observe;
use yeti_benchmarks::stream::record_event;
use yeti_benchmarks::stream::subscriber_step;
use yeti_benchmarks::stream::StreamEvent;
use yeti_benchmarks::stream::SubscriberStep;
use yeti_benchmarks::stream::CONNECT_GRACE_MILLIS;
use yeti_benchmarks::stream::RECEIVE_TIMEOUT_SECS;

#[test]
fn timing_constants() {
    assert_eq!(RECEIVE_TIMEOUT_SECS, 5);
    assert_eq!(CONNECT_GRACE_MILLIS, 500);
}

#[test]
fn data_lines_are_counted_at_line_starts() {
    assert_eq!(count_data_lines(b""), 0);
    assert_eq!(count_data_lines(b"data: {}\n\n"), 1);
    assert_eq!(count_data_lines(b"data: a\ndata: b\n\ndata: c\n\n"), 3);
    assert_eq!(count_data_lines(b"event: x\ndata:1\r\ndata:2\r\n"), 2);
    assert_eq!(count_data_lines(b"id: 3\nretry: 10\n"), 0);
    assert_eq!(count_data_lines(b" data: indented\n"), 0);
    assert_eq!(count_data_lines(b"metadata: x\nxdata: y\n"), 0);
    assert_eq!(count_data_lines(b"data"), 0);
    assert_eq!(count_data_lines(b"data:"), 1);
    assert_eq!(count_data_lines(b"\ndata:"), 1);
    assert_eq!(count_data_lines(b"data:data:\rdata:"), 1);
    assert_eq!(count_data_lines(b"DATA: upper\n"), 0);
}

#[test]
fn data_lines_agree_with_line_splitting() {
    let chunks: [&[u8]; 5] = [
        b"data: one\n\ndata: two\n\n",
        b": comment\ndata: x\nfoo\ndata:\n",
        b"\n\n\n",
        b"data: \xff\xfe broken\ndata: ok\n",
        b"data: caf\xc3\xa9\n\ndata: \xe2\x82\xac\n",
    ];
    for chunk in chunks {
        let text = String::from_utf8_lossy(chunk);
        let expected = text.lines().filter(|l| l.starts_with("data:")).count();
        assert_eq!(count_data_lines(chunk), expected);
    }
}

#[test]
fn chunk_gives_one_event_per_data_line() {
    assert_eq!(
        StreamEvent::chunk(b"data: a\n\ndata: bcd\n\n"),
        vec![StreamEvent::Received { bytes: 2 }, StreamEvent::Received { bytes: 4 }]
    );
    assert_eq!(
        StreamEvent::chunk(b"event: x\ndata:{\"id\":1}\r\nid: 7\ndata:\ndata: last"),
        vec![
            StreamEvent::Received { bytes: 9 },
            StreamEvent::Received { bytes: 0 },
            StreamEvent::Received { bytes: 5 }
        ]
    );
    assert_eq!(StreamEvent::message(33), StreamEvent::Received { bytes: 33 });
}

#[test]
fn chunk_without_a_data_line_gives_no_event() {
    assert_eq!(StreamEvent::chunk(b": keep-alive\n\n"), Vec::<StreamEvent>::new());
    assert_eq!(StreamEvent::chunk(b""), Vec::<StreamEvent>::new());
    assert_eq!(StreamEvent::chunk(b"\n\n"), Vec::<StreamEvent>::new());
    assert_eq!(StreamEvent::chunk(b"id: 1\nretry: 5\n metadata: x\n"), Vec::<StreamEvent>::new());
}

#[test]
fn chunk_events_agree_with_line_splitting() {
    let chunks: [&[u8]; 5] = [
        b"data: one\n\ndata: two\n\n",
        b": comment\ndata: x\nfoo\ndata:\n",
        b"\n\n\n",
        b"data:tail without line feed",
        b"data: caf\xc3\xa9\n\ndata: \xe2\x82\xac\n",
    ];
    for chunk in chunks {
        let expected: Vec<StreamEvent> = chunk
            .split(|b| *b == b'\n')
            .filter(|line| line.starts_with(b"data:"))
            .map(|line| StreamEvent::Received { bytes: (line.len() - 5) as u64 })
            .collect();
        assert_eq!(StreamEvent::chunk(chunk), expected);
        assert_eq!(StreamEvent::chunk(chunk).len(), count_data_lines(chunk));
    }
}

#[test]
fn keep_alive_chunks_record_nothing() {
    let metrics = Metrics::new();
    let mut state = AggregatorState::new();
    for _ in 0..20 {
        for event in StreamEvent::chunk(b": keep-alive\n\n") {
            assert!(observe(&metrics, event));
            assert!(record_event(&mut state, event));
        }
        assert!(observe(&metrics, StreamEvent::Idle));
    }
    let shared = metrics.snapshot();
    assert_eq!(shared.success_count(), 0);
    assert_eq!(shared.error_count(), 0);
    assert_eq!(shared.total_bytes(), 0);
    assert_eq!(state.success_count(), 0);
    assert_eq!(state.error_count(), 0);
    assert_eq!(metrics.summary(2_000_000).total_requests, 0);
}

#[test]
fn events_that_keep_the_connection() {
    assert!(StreamEvent::Idle.stays_open());
    assert!(StreamEvent::Received { bytes: 0 }.stays_open());
    assert!(!StreamEvent::Failed.stays_open());
    assert!(!StreamEvent::Closed.stays_open());
}

#[test]
fn received_messages_are_successes_without_latency() {
    let mut state = AggregatorState::new();
    assert!(record_event(&mut state, StreamEvent::message(120)));
    for event in StreamEvent::chunk(b"data: a\ndata: bc\ndata: def\n") {
        assert!(record_event(&mut state, event));
    }
    assert_eq!(state.success_count(), 4);
    assert_eq!(state.error_count(), 0);
    assert_eq!(state.total_bytes(), 120 + 2 + 3 + 4);
    assert_eq!(state.latencies(), &vec![0, 0, 0, 0]);
}

#[test]
fn failure_is_one_error_and_ends_the_loop() {
    let mut state = AggregatorState::new();
    assert!(!record_event(&mut state, StreamEvent::Failed));
    assert_eq!(state.success_count(), 0);
    assert_eq!(state.error_count(), 1);
}

#[test]
fn closed_stream_records_nothing() {
    let mut state = AggregatorState::new();
    assert!(!record_event(&mut state, StreamEvent::Closed));
    assert_eq!(state.success_count(), 0);
    assert_eq!(state.error_count(), 0);
}

#[test]
fn idle_subscribers_record_nothing() {
    let metrics = Metrics::new();
    let schedule = Schedule::begin(12, 0);
    let mut waits = 0;
    for _subscriber in 0..5 {
        let mut now = 0;
        let mut open = true;
        while subscriber_step(&schedule, open, now) == SubscriberStep::Receive {
            now += RECEIVE_TIMEOUT_SECS * 1_000_000;
            open = observe(&metrics, StreamEvent::Idle);
            waits += 1;
        }
        assert!(open);
    }
    assert_eq!(waits, 15);
    let state = metrics.snapshot();
    assert_eq!(state.success_count(), 0);
    assert_eq!(state.error_count(), 0);
    assert_eq!(state.total_bytes(), 0);
    let summary = metrics.summary(schedule.elapsed(15_000_000));
    assert_eq!(summary.total_requests, 0);
}

#[test]
fn shared_aggregator_observes_events() {
    let metrics = Metrics::new();
    assert!(observe(&metrics, StreamEvent::Received { bytes: 10 }));
    assert!(observe(&metrics, StreamEvent::Received { bytes: 7 }));
    assert!(observe(&metrics, StreamEvent::message(13)));
    assert!(observe(&metrics, StreamEvent::Idle));
    assert!(!observe(&metrics, StreamEvent::Failed));
    assert!(!observe(&metrics, StreamEvent::Closed));
    let state = metrics.into_state();
    assert_eq!(state.success_count(), 3);
    assert_eq!(state.error_count(), 1);
    assert_eq!(state.total_bytes(), 30);
}

#[test]
fn subscriber_closes_after_deadline_or_disconnect() {
    let schedule = Schedule::begin(10, 100);
    assert_eq!(subscriber_step(&schedule, true, 100), SubscriberStep::Receive);
    assert_eq!(subscriber_step(&schedule, true, 10_000_099), SubscriberStep::Receive);
    assert_eq!(subscriber_step(&schedule, true, 10_000_100), SubscriberStep::Close);
    assert_eq!(subscriber_step(&schedule, false, 100), SubscriberStep::Close);
    assert_eq!(subscriber_step(&schedule, false, 20_000_000), SubscriberStep::Close);
}

#[test]
fn every_message_adds_its_own_payload_once() {
    let metrics = Metrics::new();
    for _subscriber in 0..10 {
        for _ in 0..50 {
            assert!(observe(&metrics, StreamEvent::message(100)));
        }
    }
    let summary = metrics.summary(2_000_000);
    assert_eq!(summary.total_requests, 500);
    assert_eq!(summary.total_bytes as u128, summary.total_requests * 100);
    assert_eq!(summary.p99, 0);
}
