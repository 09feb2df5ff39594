//! Shared data structures and constants of the event pipeline.
//!
//! These records cross the kernel/userspace boundary as fixed-layout binary
//! events; the `codec` module gives them an explicit wire form.  All address
//! and port fields hold network-byte-order values.

use vstd::prelude::*;

verus! {

/// Maximum number of concurrent connections to track.
pub const MAX_CONNECTIONS: u32 = 10240;

/// Maximum number of events in an outbound event channel.
pub const MAX_EVENTS: u32 = 1024;

/// Maximum number of packet drop events to track.
pub const MAX_PACKET_DROPS: u32 = 4096;

/// Event triggered by the send-path hook.
pub const EVENT_TYPE_SEND: u8 = 0;

/// Event triggered by the receive-path hook.
pub const EVENT_TYPE_RECV: u8 = 1;

/// Event triggered by the receive-buffer-cleanup hook.
pub const EVENT_TYPE_CLEANUP: u8 = 2;

/// Connection is being established.
pub const CONN_STATE_CONNECTING: u8 = 0;

/// Connection is established and active.
pub const CONN_STATE_ESTABLISHED: u8 = 1;

/// Connection is being closed.
pub const CONN_STATE_CLOSING: u8 = 2;

/// Connection is fully closed.
pub const CONN_STATE_CLOSED: u8 = 3;

/// Packet dropped at the traffic-control layer.
pub const DROP_LOCATION_TC: u8 = 0;

/// Packet dropped at the XDP layer.
pub const DROP_LOCATION_XDP: u8 = 1;

/// Packet dropped by netfilter.
pub const DROP_LOCATION_NETFILTER: u8 = 2;

/// Packet dropped in the network stack.
pub const DROP_LOCATION_STACK: u8 = 3;

/// Packet dropped by the application.
pub const DROP_LOCATION_APP: u8 = 4;

/// Maximum latency to consider valid (60 seconds in nanoseconds).
/// Latencies above this are likely measurement errors.
pub const MAX_LATENCY_NS: u64 = 60_000_000_000;

/// Minimum latency to consider valid (1 microsecond in nanoseconds).
/// Latencies below this are likely measurement errors.
pub const MIN_LATENCY_NS: u64 = 1_000;

/// Histogram bucket boundary: 0-1ms, in microseconds.
pub const HISTOGRAM_BUCKET_1MS: u64 = 1_000;

/// Histogram bucket boundary: 1-5ms, in microseconds.
pub const HISTOGRAM_BUCKET_5MS: u64 = 5_000;

/// Histogram bucket boundary: 5-10ms, in microseconds.
pub const HISTOGRAM_BUCKET_10MS: u64 = 10_000;

/// Histogram bucket boundary: 10-50ms, in microseconds.
pub const HISTOGRAM_BUCKET_50MS: u64 = 50_000;

/// Histogram bucket boundary: 50-100ms, in microseconds.
pub const HISTOGRAM_BUCKET_100MS: u64 = 100_000;

/// Default sampling rate (1 = capture all events).
pub const DEFAULT_SAMPLE_RATE: u32 = 1;

/// Maximum sampling rate (capture 1 in N events).
pub const MAX_SAMPLE_RATE: u32 = 1000;

/// TCP protocol number.
pub const IPPROTO_TCP: u8 = 6;

/// UDP protocol number.
pub const IPPROTO_UDP: u8 = 17;

/// ICMP protocol number.
pub const IPPROTO_ICMP: u8 = 1;

/// A latency measurement is valid when it lies inside the accepted window.
pub open spec fn spec_valid_latency(latency_ns: u64) -> bool {
    MIN_LATENCY_NS <= latency_ns <= MAX_LATENCY_NS
}

/// Connection tracking key (4-tuple).
///
/// Uniquely identifies a TCP connection; equality is exact field equality and
/// the key is directional (A→B and B→A are distinct).  All fields are in
/// network byte order.
#[derive(Clone, Copy, Debug, PartialEq, Eq, Structural)]
pub struct ConnectionKey {
    /// Source IP address (network byte order).
    pub saddr: u32,
    /// Destination IP address (network byte order).
    pub daddr: u32,
    /// Source port (network byte order).
    pub sport: u16,
    /// Destination port (network byte order).
    pub dport: u16,
}

impl ConnectionKey {
    /// The all-zero key, used when a drop's connection context is unknown.
    pub fn zero() -> (r: ConnectionKey)
        ensures
            r == (ConnectionKey { saddr: 0, daddr: 0, sport: 0, dport: 0 }),
    {
        ConnectionKey { saddr: 0, daddr: 0, sport: 0, dport: 0 }
    }

    /// True when every field is zero.
    pub open spec fn spec_is_zero(self) -> bool {
        self.saddr == 0 && self.daddr == 0 && self.sport == 0 && self.dport == 0
    }

    /// Executable test for the all-zero key.
    pub fn is_zero(&self) -> (r: bool)
        ensures
            r == self.spec_is_zero(),
    {
        self.saddr == 0 && self.daddr == 0 && self.sport == 0 && self.dport == 0
    }
}

/// Latency event sent from the kernel side to userspace.
#[derive(Clone, Copy, Debug, PartialEq, Eq, Structural)]
pub struct LatencyEvent {
    /// Connection identifier.
    pub key: ConnectionKey,
    /// Timestamp when the event occurred (nanoseconds).
    pub timestamp_ns: u64,
    /// Measured latency (nanoseconds).
    pub latency_ns: u64,
    /// Process ID that triggered the event.
    pub pid: u32,
    /// Type of event (see the `EVENT_TYPE_*` constants).
    pub event_type: u8,
}

/// Packet drop event.
///
/// The key may be all-zero when the drop's connection context could not be
/// resolved.
#[derive(Clone, Copy, Debug, PartialEq, Eq, Structural)]
pub struct PacketDropEvent {
    /// Connection identifier (possibly all-zero).
    pub key: ConnectionKey,
    /// Timestamp when the drop occurred (nanoseconds).
    pub timestamp_ns: u64,
    /// Drop reason code.
    pub drop_reason: u32,
    /// Drop location (see the `DROP_LOCATION_*` constants).
    pub drop_location: u8,
    /// Protocol number (`IPPROTO_TCP`, `IPPROTO_UDP`, ...).
    pub protocol: u8,
}

/// Connection lifecycle record.
///
/// One live entry per tracked connection, mutated in place on every
/// state-affecting hook.
#[derive(Clone, Copy, Debug, PartialEq, Eq, Structural)]
pub struct ConnectionState {
    /// Connection identifier.
    pub key: ConnectionKey,
    /// Timestamp when the connection started (nanoseconds).
    pub start_time_ns: u64,
    /// Timestamp when the connection closed (nanoseconds, 0 if still open).
    pub close_time_ns: u64,
    /// Connection state (see the `CONN_STATE_*` constants).
    pub state: u8,
    /// Number of bytes sent.
    pub bytes_sent: u64,
    /// Number of bytes received.
    pub bytes_received: u64,
    /// Process ID.
    pub pid: u32,
}

/// Per-connection packet counters kept at the earliest interception point,
/// independent of the socket-layer state.
#[derive(Clone, Copy, Debug, PartialEq, Eq, Structural)]
pub struct XdpConnStats {
    /// Packets seen for this connection.
    pub packet_count: u64,
    /// Bytes seen for this connection.
    pub byte_count: u64,
    /// Timestamp of the most recent packet (nanoseconds).
    pub last_seen_ns: u64,
    /// Packets dropped for this connection.
    pub drop_count: u64,
}

} // verus!
