//! Breakdown counters and the immutable metrics snapshot.
//!
//! Packet drops and lifecycle transitions fall into small fixed domains, so
//! their breakdowns are fixed counter structs; unknown values land in a
//! catch-all counter.  The snapshot packages every aggregate at shutdown.

use vstd::prelude::*;
use crate::types::{
    ConnectionKey, DROP_LOCATION_TC, DROP_LOCATION_XDP, DROP_LOCATION_NETFILTER,
    DROP_LOCATION_STACK, DROP_LOCATION_APP, IPPROTO_TCP, IPPROTO_UDP, IPPROTO_ICMP,
    CONN_STATE_CONNECTING, CONN_STATE_ESTABLISHED, CONN_STATE_CLOSING, CONN_STATE_CLOSED,
};
use crate::histogram::LatencyHistogram;
use crate::stats::{
    Percentiles, spec_seq_min, spec_seq_max, spec_seq_sum, spec_std_dev,
};
use crate::collector::EventTypeBreakdown;

verus! {

/// Drop counts by the place in the stack where the packet was lost.
#[derive(Clone, Copy, Debug, PartialEq, Eq, Structural)]
pub struct DropLocationBreakdown {
    /// Dropped at the traffic-control layer.
    pub tc: u64,
    /// Dropped at the XDP layer.
    pub xdp: u64,
    /// Dropped by netfilter.
    pub netfilter: u64,
    /// Dropped in the network stack.
    pub stack: u64,
    /// Dropped by the application.
    pub app: u64,
    /// Dropped at an unrecognised location.
    pub unknown: u64,
}

impl Default for DropLocationBreakdown {
    /// All counters zero.
    fn default() -> (r: DropLocationBreakdown)
        ensures
            r == DropLocationBreakdown::spec_zero(),
    {
        DropLocationBreakdown { tc: 0, xdp: 0, netfilter: 0, stack: 0, app: 0, unknown: 0 }
    }
}

impl DropLocationBreakdown {
    /// The all-zero breakdown.
    pub open spec fn spec_zero() -> DropLocationBreakdown {
        DropLocationBreakdown { tc: 0, xdp: 0, netfilter: 0, stack: 0, app: 0, unknown: 0 }
    }

    /// Sum of all location counters.
    pub open spec fn spec_sum(self) -> int {
        self.tc + self.xdp + self.netfilter + self.stack + self.app + self.unknown
    }

    /// Count one drop at `location`.
    pub fn record(&mut self, location: u8)
        requires
            old(self).spec_sum() < u64::MAX,
        ensures
            *final(self) == spec_loc_add(*old(self), location),
            final(self).spec_sum() == old(self).spec_sum() + 1,
    {
        if location == DROP_LOCATION_TC {
            self.tc = self.tc + 1;
        } else if location == DROP_LOCATION_XDP {
            self.xdp = self.xdp + 1;
        } else if location == DROP_LOCATION_NETFILTER {
            self.netfilter = self.netfilter + 1;
        } else if location == DROP_LOCATION_STACK {
            self.stack = self.stack + 1;
        } else if location == DROP_LOCATION_APP {
            self.app = self.app + 1;
        } else {
            self.unknown = self.unknown + 1;
        }
    }
}

/// The breakdown after one drop at `location`: exactly one counter grows.
pub open spec fn spec_loc_add(b: DropLocationBreakdown, location: u8) -> DropLocationBreakdown {
    if location == DROP_LOCATION_TC {
        DropLocationBreakdown { tc: (b.tc + 1) as u64, ..b }
    } else if location == DROP_LOCATION_XDP {
        DropLocationBreakdown { xdp: (b.xdp + 1) as u64, ..b }
    } else if location == DROP_LOCATION_NETFILTER {
        DropLocationBreakdown { netfilter: (b.netfilter + 1) as u64, ..b }
    } else if location == DROP_LOCATION_STACK {
        DropLocationBreakdown { stack: (b.stack + 1) as u64, ..b }
    } else if location == DROP_LOCATION_APP {
        DropLocationBreakdown { app: (b.app + 1) as u64, ..b }
    } else {
        DropLocationBreakdown { unknown: (b.unknown + 1) as u64, ..b }
    }
}

/// Drop counts by IP protocol.
#[derive(Clone, Copy, Debug, PartialEq, Eq, Structural)]
pub struct DropProtocolBreakdown {
    /// TCP packets dropped.
    pub tcp: u64,
    /// UDP packets dropped.
    pub udp: u64,
    /// ICMP packets dropped.
    pub icmp: u64,
    /// Packets of any other protocol dropped.
    pub other: u64,
}

impl Default for DropProtocolBreakdown {
    /// All counters zero.
    fn default() -> (r: DropProtocolBreakdown)
        ensures
            r == DropProtocolBreakdown::spec_zero(),
    {
        DropProtocolBreakdown { tcp: 0, udp: 0, icmp: 0, other: 0 }
    }
}

impl DropProtocolBreakdown {
    /// The all-zero breakdown.
    pub open spec fn spec_zero() -> DropProtocolBreakdown {
        DropProtocolBreakdown { tcp: 0, udp: 0, icmp: 0, other: 0 }
    }

    /// Sum of all protocol counters.
    pub open spec fn spec_sum(self) -> int {
        self.tcp + self.udp + self.icmp + self.other
    }

    /// Count one drop of `protocol`.
    pub fn record(&mut self, protocol: u8)
        requires
            old(self).spec_sum() < u64::MAX,
        ensures
            *final(self) == spec_proto_add(*old(self), protocol),
            final(self).spec_sum() == old(self).spec_sum() + 1,
    {
        if protocol == IPPROTO_TCP {
            self.tcp = self.tcp + 1;
        } else if protocol == IPPROTO_UDP {
            self.udp = self.udp + 1;
        } else if protocol == IPPROTO_ICMP {
            self.icmp = self.icmp + 1;
        } else {
            self.other = self.other + 1;
        }
    }
}

/// The breakdown after one drop of `protocol`: exactly one counter grows.
pub open spec fn spec_proto_add(b: DropProtocolBreakdown, protocol: u8) -> DropProtocolBreakdown {
    if protocol == IPPROTO_TCP {
        DropProtocolBreakdown { tcp: (b.tcp + 1) as u64, ..b }
    } else if protocol == IPPROTO_UDP {
        DropProtocolBreakdown { udp: (b.udp + 1) as u64, ..b }
    } else if protocol == IPPROTO_ICMP {
        DropProtocolBreakdown { icmp: (b.icmp + 1) as u64, ..b }
    } else {
        DropProtocolBreakdown { other: (b.other + 1) as u64, ..b }
    }
}

/// Connection lifecycle transition counts by resulting state.
#[derive(Clone, Copy, Debug, PartialEq, Eq, Structural)]
pub struct StateBreakdown {
    /// Transitions into the connecting state.
    pub connecting: u64,
    /// Transitions into the established state.
    pub established: u64,
    /// Transitions into the closing state.
    pub closing: u64,
    /// Transitions into the closed state.
    pub closed: u64,
    /// Transitions carrying an unrecognised state value.
    pub unknown: u64,
}

impl Default for StateBreakdown {
    /// All counters zero.
    fn default() -> (r: StateBreakdown)
        ensures
            r == StateBreakdown::spec_zero(),
    {
        StateBreakdown { connecting: 0, established: 0, closing: 0, closed: 0, unknown: 0 }
    }
}

impl StateBreakdown {
    /// The all-zero breakdown.
    pub open spec fn spec_zero() -> StateBreakdown {
        StateBreakdown { connecting: 0, established: 0, closing: 0, closed: 0, unknown: 0 }
    }

    /// Sum of all state counters.
    pub open spec fn spec_sum(self) -> int {
        self.connecting + self.established + self.closing + self.closed + self.unknown
    }

    /// Count one record in `state`.
    pub fn record(&mut self, state: u8)
        requires
            old(self).spec_sum() < u64::MAX,
        ensures
            *final(self) == spec_state_add(*old(self), state),
            final(self).spec_sum() == old(self).spec_sum() + 1,
    {
        if state == CONN_STATE_CONNECTING {
            self.connecting = self.connecting + 1;
        } else if state == CONN_STATE_ESTABLISHED {
            self.established = self.established + 1;
        } else if state == CONN_STATE_CLOSING {
            self.closing = self.closing + 1;
        } else if state == CONN_STATE_CLOSED {
            self.closed = self.closed + 1;
        } else {
            self.unknown = self.unknown + 1;
        }
    }
}

/// The breakdown after one record in `state`: exactly one counter grows.
pub open spec fn spec_state_add(b: StateBreakdown, state: u8) -> StateBreakdown {
    if state == CONN_STATE_CONNECTING {
        StateBreakdown { connecting: (b.connecting + 1) as u64, ..b }
    } else if state == CONN_STATE_ESTABLISHED {
        StateBreakdown { established: (b.established + 1) as u64, ..b }
    } else if state == CONN_STATE_CLOSING {
        StateBreakdown { closing: (b.closing + 1) as u64, ..b }
    } else if state == CONN_STATE_CLOSED {
        StateBreakdown { closed: (b.closed + 1) as u64, ..b }
    } else {
        StateBreakdown { unknown: (b.unknown + 1) as u64, ..b }
    }
}

/// Drops counted against one connection.
#[derive(Clone, Copy, Debug, PartialEq, Eq, Structural)]
pub struct ConnectionDropCount {
    /// The connection the drops belong to.
    pub key: ConnectionKey,
    /// Number of drops seen for it.
    pub drops: u64,
}

/// No two entries of the per-connection drop table share a key.
pub open spec fn drop_keys_unique(cs: Seq<ConnectionDropCount>) -> bool {
    forall|i: int, j: int|
        0 <= i < j < cs.len() ==> (#[trigger] cs[i]).key != (#[trigger] cs[j]).key
}

/// Some entry of the drop table carries `key`.
pub open spec fn spec_has_drop(cs: Seq<ConnectionDropCount>, key: ConnectionKey) -> bool {
    exists|i: int| 0 <= i < cs.len() && (#[trigger] cs[i]).key == key
}

/// The index of the drop entry carrying `key`, when one exists.
pub open spec fn spec_drop_index(cs: Seq<ConnectionDropCount>, key: ConnectionKey) -> int {
    choose|i: int| 0 <= i < cs.len() && (#[trigger] cs[i]).key == key
}

/// The drops counted against `key`, 0 when the connection has none.
pub open spec fn spec_conn_drops(cs: Seq<ConnectionDropCount>, key: ConnectionKey) -> int {
    if spec_has_drop(cs, key) {
        cs[spec_drop_index(cs, key)].drops as int
    } else {
        0
    }
}

/// Replacing a drop entry by one with the same key changes only that key's
/// count.
pub proof fn lemma_conn_drops_update(c: Seq<ConnectionDropCount>, i: int, e: ConnectionDropCount)
    requires
        drop_keys_unique(c),
        0 <= i < c.len(),
        e.key == c[i].key,
    ensures
        drop_keys_unique(c.update(i, e)),
        spec_has_drop(c, e.key),
        spec_conn_drops(c, e.key) == c[i].drops,
        spec_has_drop(c.update(i, e), e.key),
        spec_conn_drops(c.update(i, e), e.key) == e.drops,
        forall|k: ConnectionKey|
            k != e.key ==> spec_has_drop(c.update(i, e), k) == spec_has_drop(c, k),
        forall|k: ConnectionKey|
            k != e.key ==> spec_conn_drops(c.update(i, e), k) == spec_conn_drops(c, k),
{
    let f = c.update(i, e);
    assert(f[i].key == e.key);
    let j = spec_drop_index(c, e.key);
    assert(0 <= j < c.len() && c[j].key == e.key);
    assert(j == i);
    let j2 = spec_drop_index(f, e.key);
    assert(0 <= j2 < f.len() && f[j2].key == e.key);
    assert(j2 == i);
    assert forall|k: ConnectionKey| k != e.key implies spec_has_drop(f, k) == spec_has_drop(c, k)
        && spec_conn_drops(f, k) == spec_conn_drops(c, k) by {
        if spec_has_drop(c, k) {
            let a = spec_drop_index(c, k);
            assert(0 <= a < c.len() && c[a].key == k);
            assert(a != i);
            assert(f[a].key == k);
            assert(spec_has_drop(f, k));
            let b = spec_drop_index(f, k);
            assert(0 <= b < f.len() && f[b].key == k);
            assert(b != i);
            assert(c[b].key == k);
            assert(b == a);
        } else {
            if spec_has_drop(f, k) {
                let b = spec_drop_index(f, k);
                assert(0 <= b < f.len() && f[b].key == k);
                assert(b != i);
                assert(c[b].key == k);
                assert(false);
            }
        }
    }
}

/// Appending a drop entry with an unseen key changes only that key's count.
pub proof fn lemma_conn_drops_push(c: Seq<ConnectionDropCount>, e: ConnectionDropCount)
    requires
        drop_keys_unique(c),
        forall|i: int| 0 <= i < c.len() ==> (#[trigger] c[i]).key != e.key,
    ensures
        drop_keys_unique(c.push(e)),
        !spec_has_drop(c, e.key),
        spec_conn_drops(c, e.key) == 0,
        spec_has_drop(c.push(e), e.key),
        spec_conn_drops(c.push(e), e.key) == e.drops,
        forall|k: ConnectionKey|
            k != e.key ==> spec_has_drop(c.push(e), k) == spec_has_drop(c, k),
        forall|k: ConnectionKey|
            k != e.key ==> spec_conn_drops(c.push(e), k) == spec_conn_drops(c, k),
{
    let f = c.push(e);
    let n = c.len() as int;
    assert(f[n].key == e.key);
    assert(spec_has_drop(f, e.key));
    assert forall|i: int, j: int| 0 <= i < j < f.len() implies (#[trigger] f[i]).key != (
    #[trigger] f[j]).key by {
        if j < n {
            assert(f[i] == c[i] && f[j] == c[j]);
        } else {
            assert(f[i] == c[i] && f[j] == e);
        }
    }
    let j2 = spec_drop_index(f, e.key);
    assert(0 <= j2 < f.len() && f[j2].key == e.key);
    assert(j2 == n);
    assert forall|k: ConnectionKey| k != e.key implies spec_has_drop(f, k) == spec_has_drop(c, k)
        && spec_conn_drops(f, k) == spec_conn_drops(c, k) by {
        if spec_has_drop(c, k) {
            let a = spec_drop_index(c, k);
            assert(0 <= a < c.len() && c[a].key == k);
            assert(f[a].key == k);
            assert(spec_has_drop(f, k));
            let b = spec_drop_index(f, k);
            assert(0 <= b < f.len() && f[b].key == k);
            assert(b != n);
            assert(c[b].key == k);
            assert(b == a);
        } else {
            if spec_has_drop(f, k) {
                let b = spec_drop_index(f, k);
                assert(0 <= b < f.len() && f[b].key == k);
                assert(b != n);
                assert(c[b].key == k);
                assert(false);
            }
        }
    }
}

/// Packet drop statistics of the run.
#[derive(Clone, Debug)]
pub struct PacketDropStats {
    /// Total packet drops.
    pub total_drops: u64,
    /// Drops by location.
    pub drops_by_location: DropLocationBreakdown,
    /// Drops by protocol.
    pub drops_by_protocol: DropProtocolBreakdown,
    /// Per-connection drop counts, for drops whose key was known.
    pub connections: Vec<ConnectionDropCount>,
}

/// Connection lifecycle statistics of the run.
#[derive(Clone, Copy, Debug, PartialEq, Eq, Structural)]
pub struct ConnectionStateStats {
    /// Total connections opened.
    pub total_opened: u64,
    /// Total connections closed.
    pub total_closed: u64,
    /// Connections opened and not yet closed.
    pub active_connections: u64,
    /// Mean connection duration in nanoseconds, 0 when none closed.
    pub avg_duration_ns: u64,
    /// Transition counts by resulting state.
    pub states_breakdown: StateBreakdown,
}

/// Aggregated metrics for one connection, latencies in microseconds.
#[derive(Clone, Copy, Debug, PartialEq, Eq, Structural)]
pub struct ConnectionMetrics {
    /// The connection measured.
    pub key: ConnectionKey,
    /// Number of events for this connection.
    pub events: u64,
    /// Minimum latency in microseconds.
    pub min_latency_us: u64,
    /// Maximum latency in microseconds.
    pub max_latency_us: u64,
    /// Mean latency in microseconds, rounded down.
    pub avg_latency_us: u64,
    /// Population standard deviation in microseconds, rounded down.
    pub std_dev_us: u64,
}

/// The metrics owed for one connection's sample list.
pub open spec fn spec_metrics_for(key: ConnectionKey, samples: Seq<u64>) -> ConnectionMetrics {
    let n = samples.len() as int;
    let avg = spec_seq_sum(samples) / n;
    ConnectionMetrics {
        key: key,
        events: samples.len() as u64,
        min_latency_us: spec_seq_min(samples),
        max_latency_us: spec_seq_max(samples),
        avg_latency_us: avg as u64,
        std_dev_us: spec_std_dev(samples, avg as u64) as u64,
    }
}

/// The immutable metrics snapshot produced at shutdown.
#[derive(Clone, Debug)]
pub struct LatencyMetrics {
    /// RFC 3339 timestamp of when the snapshot was taken.
    pub timestamp: String,
    /// Duration of the collection period in seconds.
    pub duration_seconds: u64,
    /// Total number of latency events captured.
    pub total_events: u64,
    /// Per-connection metrics.
    pub connections: Vec<ConnectionMetrics>,
    /// Latency histogram across all connections.
    pub histogram: LatencyHistogram,
    /// Latency percentiles across all connections, in microseconds.
    pub percentiles: Percentiles,
    /// Breakdown by event type.
    pub event_type_breakdown: EventTypeBreakdown,
    /// Packet drop statistics.
    pub packet_drops: PacketDropStats,
    /// Connection lifecycle statistics.
    pub connection_states: ConnectionStateStats,
}

} // verus!
