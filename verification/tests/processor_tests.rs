//! Tests for the per-event userspace processing: sampling, decoding and
//! application to the collector.

use latency_probe::codec::encode_latency_event;
use latency_probe::collector::MetricsCollector;
use latency_probe::processor::{next_sample, process_event_record, ProcessOutcome};
use latency_probe::types::{ConnectionKey, LatencyEvent, EVENT_TYPE_RECV, MAX_LATENCY_NS};

fn sample_event(latency_ns: u64) -> LatencyEvent {
    LatencyEvent {
        key: ConnectionKey { saddr: 1, daddr: 2, sport: 3, dport: 4 },
        timestamp_ns: 10,
        latency_ns,
        pid: 5,
        event_type: EVENT_TYPE_RECV,
    }
}

#[test]
fn sampling_keeps_every_nth_event() {
    let mut counter: u32 = 0;
    let mut kept: u32 = 0;
    for _ in 0..10 {
        let (next, keep) = next_sample(counter, 3);
        counter = next;
        if keep {
            kept += 1;
        }
    }
    assert_eq!(kept, 3); // events 3, 6 and 9 of 10
    let (_, keep_all) = next_sample(0, 1);
    assert!(keep_all); // rate 1 keeps everything
}

#[test]
fn record_is_decoded_and_applied() {
    let mut collector = MetricsCollector::new();
    let event = sample_event(500_000);
    let bytes = encode_latency_event(&event);
    let (counter, outcome) = process_event_record(&mut collector, &bytes, 0, 1);
    assert_eq!(counter, 1);
    assert_eq!(outcome, ProcessOutcome::Applied(event));
    assert_eq!(collector.event_count(), 1);
    assert_eq!(collector.connection_count(), 1);
}

#[test]
fn sampled_out_records_never_reach_the_collector() {
    let mut collector = MetricsCollector::new();
    let bytes = encode_latency_event(&sample_event(500_000));
    // With rate 2, the first observation is discarded before decoding.
    let (counter, outcome) = process_event_record(&mut collector, &bytes, 0, 2);
    assert_eq!(counter, 1);
    assert_eq!(outcome, ProcessOutcome::SampledOut);
    assert_eq!(collector.event_count(), 0);
    // The second observation is kept.
    let (_, outcome) = process_event_record(&mut collector, &bytes, counter, 2);
    assert_eq!(outcome, ProcessOutcome::Applied(sample_event(500_000)));
    assert_eq!(collector.event_count(), 1);
}

#[test]
fn malformed_records_are_skipped() {
    let mut collector = MetricsCollector::new();
    let (_, outcome) = process_event_record(&mut collector, &[1, 2, 3], 0, 1);
    assert_eq!(outcome, ProcessOutcome::DecodeFailed);
    assert_eq!(collector.event_count(), 0);
}

#[test]
fn out_of_window_latencies_never_reach_the_aggregator() {
    let mut collector = MetricsCollector::new();
    for latency in [0u64, 999, MAX_LATENCY_NS + 1, u64::MAX] {
        let bytes = encode_latency_event(&sample_event(latency));
        let (_, outcome) = process_event_record(&mut collector, &bytes, 0, 1);
        assert_eq!(outcome, ProcessOutcome::InvalidLatency);
    }
    assert_eq!(collector.event_count(), 0);
}
