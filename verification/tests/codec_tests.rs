//! Round-trip tests for the binary wire form of the event records.

use latency_probe::codec::{
    decode_connection_state, decode_latency_event, decode_packet_drop, encode_connection_state,
    encode_latency_event, encode_packet_drop, CONNECTION_STATE_WIRE_SIZE,
    LATENCY_EVENT_WIRE_SIZE, PACKET_DROP_WIRE_SIZE,
};
use latency_probe::types::{ConnectionKey, ConnectionState, LatencyEvent, PacketDropEvent};

fn sample_key() -> ConnectionKey {
    ConnectionKey { saddr: 0x0100007f, daddr: 0xc0a80101, sport: 0x5000, dport: 0xbb01 }
}

#[test]
fn latency_event_round_trip() {
    let event = LatencyEvent {
        key: sample_key(),
        timestamp_ns: 123_456_789_012,
        latency_ns: 4_900,
        pid: 4242,
        event_type: 1,
    };
    let bytes = encode_latency_event(&event);
    assert_eq!(bytes.len(), LATENCY_EVENT_WIRE_SIZE);
    let decoded = decode_latency_event(&bytes).unwrap();
    assert_eq!(decoded, event);
}

#[test]
fn latency_event_round_trip_boundary_values() {
    let zeros = LatencyEvent {
        key: ConnectionKey { saddr: 0, daddr: 0, sport: 0, dport: 0 },
        timestamp_ns: 0,
        latency_ns: 0,
        pid: 0,
        event_type: 0,
    };
    let maxed = LatencyEvent {
        key: ConnectionKey { saddr: u32::MAX, daddr: u32::MAX, sport: u16::MAX, dport: u16::MAX },
        timestamp_ns: u64::MAX,
        latency_ns: u64::MAX,
        pid: u32::MAX,
        event_type: u8::MAX,
    };
    for event in [zeros, maxed] {
        let bytes = encode_latency_event(&event);
        assert_eq!(decode_latency_event(&bytes), Some(event));
    }
}

#[test]
fn latency_event_decode_rejects_wrong_length() {
    let event = LatencyEvent {
        key: sample_key(),
        timestamp_ns: 1,
        latency_ns: 2,
        pid: 3,
        event_type: 0,
    };
    let mut bytes = encode_latency_event(&event);
    bytes.pop();
    assert_eq!(decode_latency_event(&bytes), None);
    assert_eq!(decode_latency_event(&[]), None);
}

#[test]
fn latency_event_wire_layout() {
    // The fields sit at their fixed offsets, little-endian within a field.
    let event = LatencyEvent {
        key: sample_key(),
        timestamp_ns: 0x0102030405060708,
        latency_ns: 0x1112131415161718,
        pid: 0x21222324,
        event_type: 0x31,
    };
    let bytes = encode_latency_event(&event);
    assert_eq!(&bytes[0..4], &[0x7f, 0x00, 0x00, 0x01]); // saddr as stored
    assert_eq!(&bytes[8..10], &[0x00, 0x50]); // sport as stored
    assert_eq!(&bytes[12..16], &[0, 0, 0, 0]); // alignment padding
    assert_eq!(&bytes[16..24], &[8, 7, 6, 5, 4, 3, 2, 1]); // timestamp
    assert_eq!(bytes[36], 0x31); // event type
}

#[test]
fn packet_drop_round_trip() {
    let event = PacketDropEvent {
        key: sample_key(),
        timestamp_ns: 55_555,
        drop_reason: 0xdeadbeef,
        drop_location: 3,
        protocol: 6,
    };
    let bytes = encode_packet_drop(&event);
    assert_eq!(bytes.len(), PACKET_DROP_WIRE_SIZE);
    assert_eq!(decode_packet_drop(&bytes), Some(event));
    assert_eq!(decode_packet_drop(&bytes[1..]), None);
}

#[test]
fn connection_state_round_trip() {
    let record = ConnectionState {
        key: sample_key(),
        start_time_ns: 1_000_000_000,
        close_time_ns: 3_000_000_000,
        state: 3,
        bytes_sent: 12345,
        bytes_received: 67890,
        pid: 999,
    };
    let bytes = encode_connection_state(&record);
    assert_eq!(bytes.len(), CONNECTION_STATE_WIRE_SIZE);
    assert_eq!(decode_connection_state(&bytes), Some(record));
    assert_eq!(decode_connection_state(&bytes[..63]), None);
}
