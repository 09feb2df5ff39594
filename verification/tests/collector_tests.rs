//! Tests for the metrics collector: event accumulation, the histogram,
//! drop and lifecycle statistics, and the snapshot.

use latency_probe::collector::{EventTypeBreakdown, MetricsCollector};
use latency_probe::types::{
    ConnectionKey, ConnectionState, LatencyEvent, PacketDropEvent, CONN_STATE_CLOSED,
    CONN_STATE_CONNECTING, CONN_STATE_ESTABLISHED, DROP_LOCATION_XDP, EVENT_TYPE_RECV,
    EVENT_TYPE_SEND, IPPROTO_TCP, IPPROTO_UDP,
};

fn test_key() -> ConnectionKey {
    ConnectionKey {
        saddr: 0x0100007f, // 127.0.0.1 in network byte order
        daddr: 0x0100007f,
        sport: 0x5000, // Port 80 in network byte order
        dport: 0x5000,
    }
}

#[test]
fn test_collector_basic() {
    let mut collector = MetricsCollector::new();

    let key = test_key();

    let event = LatencyEvent {
        key,
        timestamp_ns: 1000000,
        latency_ns: 500000, // 500 microseconds
        pid: 1234,
        event_type: EVENT_TYPE_RECV,
    };

    collector.add_event(&event);

    assert_eq!(collector.event_count(), 1);
    assert_eq!(collector.connection_count(), 1);
}

#[test]
fn test_histogram() {
    let mut collector = MetricsCollector::new();

    let key = test_key();

    // Add events in different buckets
    let latencies: Vec<u64> = vec![500, 2000, 7000, 30000, 75000, 150000]; // in microseconds

    for (i, &latency_us) in latencies.iter().enumerate() {
        let event = LatencyEvent {
            key,
            timestamp_ns: (i as u64 + 1) * 1000000,
            latency_ns: latency_us * 1000, // Convert to nanoseconds
            pid: 1234,
            event_type: EVENT_TYPE_RECV,
        };
        collector.add_event(&event);
    }

    let histogram = collector.histogram();
    assert_eq!(histogram.bucket_0_1ms, 1);
    assert_eq!(histogram.bucket_1_5ms, 1);
    assert_eq!(histogram.bucket_5_10ms, 1);
    assert_eq!(histogram.bucket_10_50ms, 1);
    assert_eq!(histogram.bucket_50_100ms, 1);
    assert_eq!(histogram.bucket_100ms_plus, 1);
}

#[test]
fn histogram_buckets_for_three_samples() {
    // 500us, 3000us and 120000us land in the first, second and last bucket.
    let mut collector = MetricsCollector::new();
    let key = test_key();
    for &latency_us in &[500u64, 3000, 120000] {
        let event = LatencyEvent {
            key,
            timestamp_ns: 1,
            latency_ns: latency_us * 1000,
            pid: 1,
            event_type: EVENT_TYPE_RECV,
        };
        collector.add_event(&event);
    }
    let histogram = collector.histogram().clone();
    assert_eq!(histogram.bucket_0_1ms, 1);
    assert_eq!(histogram.bucket_1_5ms, 1);
    assert_eq!(histogram.bucket_100ms_plus, 1);
    assert_eq!(histogram.total_count(), 3);
}

#[test]
fn histogram_total_matches_event_count() {
    let mut collector = MetricsCollector::new();
    let key = test_key();
    for i in 0..100u64 {
        let event = LatencyEvent {
            key,
            timestamp_ns: i,
            latency_ns: 1000 + i * 997_000,
            pid: 1,
            event_type: EVENT_TYPE_RECV,
        };
        collector.add_event(&event);
    }
    assert_eq!(collector.histogram().clone().total_count(), collector.event_count());
}

#[test]
fn event_type_breakdown_counts() {
    // Three receive events and one send event on one connection.
    let mut collector = MetricsCollector::new();
    let key = test_key();
    for _ in 0..3 {
        let event = LatencyEvent {
            key,
            timestamp_ns: 1,
            latency_ns: 2000,
            pid: 1,
            event_type: EVENT_TYPE_RECV,
        };
        collector.add_event(&event);
    }
    let event = LatencyEvent {
        key,
        timestamp_ns: 1,
        latency_ns: 2000,
        pid: 1,
        event_type: EVENT_TYPE_SEND,
    };
    collector.add_event(&event);

    let expected = EventTypeBreakdown { tcp_sendmsg: 1, tcp_recvmsg: 3, tcp_cleanup_rbuf: 0 };
    assert_eq!(*collector.event_types(), expected);
    assert_eq!(collector.connection_count(), 1);
}

#[test]
fn connection_lifecycle_duration() {
    // CONNECTING -> ESTABLISHED -> CLOSED with start 1s and close 3s yields
    // one duration sample of two seconds and one opened and closed count.
    let mut collector = MetricsCollector::new();
    let key = test_key();
    let base = ConnectionState {
        key,
        start_time_ns: 1_000_000_000,
        close_time_ns: 0,
        state: CONN_STATE_CONNECTING,
        bytes_sent: 0,
        bytes_received: 0,
        pid: 7,
    };
    collector.add_connection_state(&base);
    let established = ConnectionState { state: CONN_STATE_ESTABLISHED, ..base };
    collector.add_connection_state(&established);
    let closed =
        ConnectionState { state: CONN_STATE_CLOSED, close_time_ns: 3_000_000_000, ..base };
    collector.add_connection_state(&closed);

    let metrics = collector.generate_metrics(10);
    let states = metrics.connection_states;
    assert_eq!(states.total_opened, 1);
    assert_eq!(states.total_closed, 1);
    assert_eq!(states.avg_duration_ns, 2_000_000_000);
    assert_eq!(states.states_breakdown.connecting, 1);
    assert_eq!(states.states_breakdown.established, 1);
    assert_eq!(states.states_breakdown.closed, 1);
}

#[test]
fn packet_drops_by_location_and_protocol() {
    let mut collector = MetricsCollector::new();
    let keyed = PacketDropEvent {
        key: test_key(),
        timestamp_ns: 5,
        drop_reason: 2,
        drop_location: DROP_LOCATION_XDP,
        protocol: IPPROTO_TCP,
    };
    collector.add_packet_drop(&keyed);
    collector.add_packet_drop(&keyed);
    let anonymous = PacketDropEvent {
        key: ConnectionKey { saddr: 0, daddr: 0, sport: 0, dport: 0 },
        timestamp_ns: 6,
        drop_reason: 3,
        drop_location: 99,
        protocol: IPPROTO_UDP,
    };
    collector.add_packet_drop(&anonymous);

    let metrics = collector.generate_metrics(1);
    let drops = metrics.packet_drops;
    assert_eq!(drops.total_drops, 3);
    assert_eq!(drops.drops_by_location.xdp, 2);
    assert_eq!(drops.drops_by_location.unknown, 1);
    assert_eq!(drops.drops_by_protocol.tcp, 2);
    assert_eq!(drops.drops_by_protocol.udp, 1);
    // Only drops with a known key are counted per connection.
    assert_eq!(drops.connections.len(), 1);
    assert_eq!(drops.connections[0].key, test_key());
    assert_eq!(drops.connections[0].drops, 2);
}

#[test]
fn snapshot_reflects_collector_state() {
    let mut collector = MetricsCollector::new();
    let key = test_key();
    for &latency_us in &[100u64, 200, 300] {
        let event = LatencyEvent {
            key,
            timestamp_ns: 1,
            latency_ns: latency_us * 1000,
            pid: 1,
            event_type: EVENT_TYPE_RECV,
        };
        collector.add_event(&event);
    }
    let metrics = collector.generate_metrics(60);
    assert_eq!(metrics.duration_seconds, 60);
    assert_eq!(metrics.total_events, 3);
    assert_eq!(metrics.connections.len(), 1);
    let conn = metrics.connections[0];
    assert_eq!(conn.key, key);
    assert_eq!(conn.events, 3);
    assert_eq!(conn.min_latency_us, 100);
    assert_eq!(conn.max_latency_us, 300);
    assert_eq!(conn.avg_latency_us, 200);
    // Population standard deviation of [100, 200, 300]: the variance is
    // 20000 / 3 = 6666 rounded down, whose integer square root is 81.
    assert_eq!(conn.std_dev_us, 81);
    // The collector stays queryable after a snapshot is taken.
    assert_eq!(collector.event_count(), 3);
}
