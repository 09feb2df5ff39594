//! Metrics collection and aggregation.
//!
//! The collector accumulates latency events, packet drops and connection
//! lifecycle records into counters, sample lists and a histogram.  Every
//! field is derivable by replaying the event stream: all updates are
//! associative and commutative counts or appends, so events may be applied
//! in any interleaving.

use vstd::prelude::*;
use crate::types::{
    ConnectionKey, LatencyEvent, PacketDropEvent, ConnectionState, spec_valid_latency,
    MAX_LATENCY_NS, EVENT_TYPE_SEND, EVENT_TYPE_RECV, EVENT_TYPE_CLEANUP, CONN_STATE_ESTABLISHED,
    CONN_STATE_CLOSED,
};
use crate::histogram::{LatencyHistogram, spec_hist_sum, spec_hist_add};
use crate::stats::{
    MAX_LATENCY_US, Percentiles, calculate_percentiles, calculate_std_dev, spec_percentiles,
    spec_seq_sum, sum_samples, min_sample, max_sample, lemma_sum_bounded, lemma_avg_bounded,
};
use crate::metrics::{
    DropLocationBreakdown, DropProtocolBreakdown, StateBreakdown, ConnectionDropCount,
    ConnectionMetrics, PacketDropStats, ConnectionStateStats, LatencyMetrics, spec_loc_add,
    spec_proto_add, spec_state_add, drop_keys_unique, spec_has_drop, spec_conn_drops,
    lemma_conn_drops_update, lemma_conn_drops_push, spec_metrics_for,
};

verus! {

/// Event counts broken down by the probe that produced them.
#[derive(Clone, Copy, Debug, PartialEq, Eq, Structural)]
pub struct EventTypeBreakdown {
    /// Count of send-path events.
    pub tcp_sendmsg: u64,
    /// Count of receive-path events.
    pub tcp_recvmsg: u64,
    /// Count of receive-buffer-cleanup events.
    pub tcp_cleanup_rbuf: u64,
}

impl Default for EventTypeBreakdown {
    /// All counters zero.
    fn default() -> (r: EventTypeBreakdown)
        ensures
            r == EventTypeBreakdown::spec_zero(),
    {
        EventTypeBreakdown { tcp_sendmsg: 0, tcp_recvmsg: 0, tcp_cleanup_rbuf: 0 }
    }
}

impl EventTypeBreakdown {
    /// The all-zero breakdown.
    pub open spec fn spec_zero() -> EventTypeBreakdown {
        EventTypeBreakdown { tcp_sendmsg: 0, tcp_recvmsg: 0, tcp_cleanup_rbuf: 0 }
    }

    /// Sum of the three counters.
    pub open spec fn spec_sum(self) -> int {
        self.tcp_sendmsg + self.tcp_recvmsg + self.tcp_cleanup_rbuf
    }
}

/// The breakdown after one event of type `t`: the matching counter is
/// incremented; an unknown type leaves the breakdown unchanged.
pub open spec fn spec_event_types_add(b: EventTypeBreakdown, t: u8) -> EventTypeBreakdown {
    if t == EVENT_TYPE_SEND {
        EventTypeBreakdown { tcp_sendmsg: (b.tcp_sendmsg + 1) as u64, ..b }
    } else if t == EVENT_TYPE_RECV {
        EventTypeBreakdown { tcp_recvmsg: (b.tcp_recvmsg + 1) as u64, ..b }
    } else if t == EVENT_TYPE_CLEANUP {
        EventTypeBreakdown { tcp_cleanup_rbuf: (b.tcp_cleanup_rbuf + 1) as u64, ..b }
    } else {
        b
    }
}

/// The latency samples recorded for one connection.
#[derive(Debug)]
pub struct ConnectionSamples {
    /// The connection the samples belong to.
    pub key: ConnectionKey,
    /// Latency samples for this connection, in microseconds, in arrival
    /// order.
    pub samples: Vec<u64>,
}

/// No two entries of the per-connection table share a key.
pub open spec fn conn_keys_unique(cs: Seq<ConnectionSamples>) -> bool {
    forall|i: int, j: int|
        0 <= i < j < cs.len() ==> (#[trigger] cs[i]).key != (#[trigger] cs[j]).key
}

/// Some entry of the table carries `key`.
pub open spec fn spec_has_conn(cs: Seq<ConnectionSamples>, key: ConnectionKey) -> bool {
    exists|i: int| 0 <= i < cs.len() && (#[trigger] cs[i]).key == key
}

/// The index of the entry carrying `key`, when one exists.
pub open spec fn spec_conn_index(cs: Seq<ConnectionSamples>, key: ConnectionKey) -> int {
    choose|i: int| 0 <= i < cs.len() && (#[trigger] cs[i]).key == key
}

/// The samples recorded for `key`: the entry's list, or empty when the
/// connection has not been seen.
pub open spec fn spec_conn_samples(cs: Seq<ConnectionSamples>, key: ConnectionKey) -> Seq<u64> {
    if spec_has_conn(cs, key) {
        cs[spec_conn_index(cs, key)].samples@
    } else {
        Seq::<u64>::empty()
    }
}

/// Replacing an entry by one with the same key changes only that key's
/// samples.
proof fn lemma_conn_samples_update(c: Seq<ConnectionSamples>, i: int, e: ConnectionSamples)
    requires
        conn_keys_unique(c),
        0 <= i < c.len(),
        e.key == c[i].key,
    ensures
        conn_keys_unique(c.update(i, e)),
        spec_has_conn(c, e.key),
        spec_conn_samples(c, e.key) == c[i].samples@,
        spec_has_conn(c.update(i, e), e.key),
        spec_conn_samples(c.update(i, e), e.key) == e.samples@,
        forall|k: ConnectionKey|
            k != e.key ==> spec_has_conn(c.update(i, e), k) == spec_has_conn(c, k),
        forall|k: ConnectionKey|
            k != e.key ==> spec_conn_samples(c.update(i, e), k) == spec_conn_samples(c, k),
{
    let f = c.update(i, e);
    assert(f[i].key == e.key);
    assert(spec_has_conn(c, e.key));
    let j = spec_conn_index(c, e.key);
    assert(0 <= j < c.len() && c[j].key == e.key);
    assert(j == i);
    let j2 = spec_conn_index(f, e.key);
    assert(0 <= j2 < f.len() && f[j2].key == e.key);
    assert(j2 == i);
    assert forall|k: ConnectionKey| k != e.key implies spec_has_conn(f, k) == spec_has_conn(c, k)
        && spec_conn_samples(f, k) == spec_conn_samples(c, k) by {
        if spec_has_conn(c, k) {
            let a = spec_conn_index(c, k);
            assert(0 <= a < c.len() && c[a].key == k);
            assert(a != i);
            assert(f[a].key == k);
            assert(spec_has_conn(f, k));
            let b = spec_conn_index(f, k);
            assert(0 <= b < f.len() && f[b].key == k);
            assert(b != i);
            assert(c[b].key == k);
            assert(b == a);
        } else {
            if spec_has_conn(f, k) {
                let b = spec_conn_index(f, k);
                assert(0 <= b < f.len() && f[b].key == k);
                assert(b != i);
                assert(c[b].key == k);
                assert(false);
            }
        }
    }
}

/// Appending an entry with an unseen key changes only that key's samples.
proof fn lemma_conn_samples_push(c: Seq<ConnectionSamples>, e: ConnectionSamples)
    requires
        conn_keys_unique(c),
        forall|i: int| 0 <= i < c.len() ==> (#[trigger] c[i]).key != e.key,
    ensures
        conn_keys_unique(c.push(e)),
        !spec_has_conn(c, e.key),
        spec_conn_samples(c, e.key) == Seq::<u64>::empty(),
        spec_has_conn(c.push(e), e.key),
        spec_conn_samples(c.push(e), e.key) == e.samples@,
        forall|k: ConnectionKey|
            k != e.key ==> spec_has_conn(c.push(e), k) == spec_has_conn(c, k),
        forall|k: ConnectionKey|
            k != e.key ==> spec_conn_samples(c.push(e), k) == spec_conn_samples(c, k),
{
    let f = c.push(e);
    let n = c.len() as int;
    assert(f[n].key == e.key);
    assert(spec_has_conn(f, e.key));
    assert forall|i: int, j: int| 0 <= i < j < f.len() implies (#[trigger] f[i]).key != (
    #[trigger] f[j]).key by {
        if j < n {
            assert(f[i] == c[i] && f[j] == c[j]);
        } else {
            assert(f[i] == c[i] && f[j] == e);
        }
    }
    let j2 = spec_conn_index(f, e.key);
    assert(0 <= j2 < f.len() && f[j2].key == e.key);
    assert(j2 == n);
    assert forall|k: ConnectionKey| k != e.key implies spec_has_conn(f, k) == spec_has_conn(c, k)
        && spec_conn_samples(f, k) == spec_conn_samples(c, k) by {
        if spec_has_conn(c, k) {
            let a = spec_conn_index(c, k);
            assert(0 <= a < c.len() && c[a].key == k);
            assert(f[a].key == k);
            assert(spec_has_conn(f, k));
            let b = spec_conn_index(f, k);
            assert(0 <= b < f.len() && f[b].key == k);
            assert(b != n);
            assert(c[b].key == k);
            assert(b == a);
        } else {
            if spec_has_conn(f, k) {
                let b = spec_conn_index(f, k);
                assert(0 <= b < f.len() && f[b].key == k);
                assert(b != n);
                assert(c[b].key == k);
                assert(false);
            }
        }
    }
}

/// Find the table entry carrying `key`.
fn find_conn(cs: &Vec<ConnectionSamples>, key: &ConnectionKey) -> (r: Option<usize>)
    ensures
        match r {
            Option::Some(i) => 0 <= i < cs@.len() && cs@[i as int].key == *key,
            Option::None => forall|i: int| 0 <= i < cs@.len() ==> (#[trigger] cs@[i]).key != *key,
        },
{
    let mut i: usize = 0;
    while i < cs.len()
        invariant
            i <= cs@.len(),
            forall|j: int| 0 <= j < i ==> (#[trigger] cs@[j]).key != *key,
        decreases cs@.len() - i,
    {
        if cs[i].key == *key {
            return Some(i);
        }
        i = i + 1;
    }
    None
}

/// Metrics collector: the shared aggregate state of the run.
#[derive(Debug)]
pub struct MetricsCollector {
    /// Every latency sample of the run, in microseconds, in arrival order.
    pub all_latencies: Vec<u64>,
    /// Per-connection latency samples.
    pub connections: Vec<ConnectionSamples>,
    /// Running latency histogram.
    pub histogram: LatencyHistogram,
    /// Running event type breakdown.
    pub event_types: EventTypeBreakdown,
    /// Total number of latency events processed.
    pub total_events: u64,
    /// Total packet drops recorded.
    pub total_drops: u64,
    /// Drops by location.
    pub drops_by_location: DropLocationBreakdown,
    /// Drops by protocol.
    pub drops_by_protocol: DropProtocolBreakdown,
    /// Per-connection drop counts, for drops whose key was known.
    pub conn_drops: Vec<ConnectionDropCount>,
    /// Lifecycle transition counts by resulting state.
    pub states_breakdown: StateBreakdown,
    /// Connections seen opening (established with a positive start time).
    pub total_opened: u64,
    /// Connections seen closing.
    pub total_closed: u64,
    /// Durations of closed connections, in nanoseconds, in arrival order.
    pub durations_ns: Vec<u64>,
}

/// The latency aggregates of `a` and `b` agree.
pub open spec fn latency_unchanged(a: MetricsCollector, b: MetricsCollector) -> bool {
    &&& a.all_latencies@ == b.all_latencies@
    &&& a.connections@ == b.connections@
    &&& a.histogram == b.histogram
    &&& a.event_types == b.event_types
    &&& a.total_events == b.total_events
}

/// The packet drop aggregates of `a` and `b` agree.
pub open spec fn drops_unchanged(a: MetricsCollector, b: MetricsCollector) -> bool {
    &&& a.total_drops == b.total_drops
    &&& a.drops_by_location == b.drops_by_location
    &&& a.drops_by_protocol == b.drops_by_protocol
    &&& a.conn_drops@ == b.conn_drops@
}

/// The lifecycle aggregates of `a` and `b` agree.
pub open spec fn states_unchanged(a: MetricsCollector, b: MetricsCollector) -> bool {
    &&& a.states_breakdown == b.states_breakdown
    &&& a.total_opened == b.total_opened
    &&& a.total_closed == b.total_closed
    &&& a.durations_ns@ == b.durations_ns@
}

/// Nothing in the collector changed between `a` and `b`.
pub open spec fn collector_unchanged(a: MetricsCollector, b: MetricsCollector) -> bool {
    &&& latency_unchanged(a, b)
    &&& drops_unchanged(a, b)
    &&& states_unchanged(a, b)
}

/// How applying one latency event relates the collector's state after
/// (`post`) to the state before (`pre`): the microsecond sample is appended
/// globally and under its connection, counted in its histogram bucket and
/// tallied by event type; nothing else moves.
pub open spec fn spec_event_applied(
    pre: MetricsCollector,
    post: MetricsCollector,
    event: LatencyEvent,
) -> bool {
    let us = (event.latency_ns / 1000) as u64;
    &&& post.total_events == pre.total_events + 1
    &&& post.all_latencies@ == pre.all_latencies@.push(us)
    &&& post.histogram == spec_hist_add(pre.histogram, us)
    &&& post.event_types == spec_event_types_add(pre.event_types, event.event_type)
    &&& spec_has_conn(post.connections@, event.key)
    &&& spec_conn_samples(post.connections@, event.key) == spec_conn_samples(
        pre.connections@,
        event.key,
    ).push(us)
    &&& forall|k: ConnectionKey|
        k != event.key ==> spec_has_conn(post.connections@, k) == spec_has_conn(
            pre.connections@,
            k,
        )
    &&& forall|k: ConnectionKey|
        k != event.key ==> spec_conn_samples(post.connections@, k) == spec_conn_samples(
            pre.connections@,
            k,
        )
    &&& post.connections@.len() == pre.connections@.len() + (
    if spec_has_conn(pre.connections@, event.key) {
        0int
    } else {
        1int
    })
    &&& drops_unchanged(post, pre)
    &&& states_unchanged(post, pre)
}

/// Mean duration in nanoseconds of the closed connections, 0 when none.
pub open spec fn spec_avg_duration(s: Seq<u64>) -> int {
    if s.len() == 0 {
        0
    } else {
        spec_seq_sum(s) / s.len() as int
    }
}

/// Find the drop table entry carrying `key`.
fn find_drop(cs: &Vec<ConnectionDropCount>, key: &ConnectionKey) -> (r: Option<usize>)
    ensures
        match r {
            Option::Some(i) => 0 <= i < cs@.len() && cs@[i as int].key == *key,
            Option::None => forall|i: int| 0 <= i < cs@.len() ==> (#[trigger] cs@[i]).key != *key,
        },
{
    let mut i: usize = 0;
    while i < cs.len()
        invariant
            i <= cs@.len(),
            forall|j: int| 0 <= j < i ==> (#[trigger] cs@[j]).key != *key,
        decreases cs@.len() - i,
    {
        if cs[i].key == *key {
            return Some(i);
        }
        i = i + 1;
    }
    None
}

/// Copy a sample list.
fn copy_u64s(v: &Vec<u64>) -> (r: Vec<u64>)
    ensures
        r@ == v@,
{
    let mut out: Vec<u64> = Vec::new();
    let mut i: usize = 0;
    while i < v.len()
        invariant
            i <= v@.len(),
            out@ == v@.subrange(0, i as int),
        decreases v@.len() - i,
    {
        out.push(v[i]);
        proof {
            assert(v@.subrange(0, (i + 1) as int) =~= v@.subrange(0, i as int).push(v@[i as int]));
        }
        i = i + 1;
    }
    proof {
        assert(v@.subrange(0, v@.len() as int) =~= v@);
    }
    out
}

/// Copy the per-connection drop table.
fn copy_drop_counts(v: &Vec<ConnectionDropCount>) -> (r: Vec<ConnectionDropCount>)
    ensures
        r@ == v@,
{
    let mut out: Vec<ConnectionDropCount> = Vec::new();
    let mut i: usize = 0;
    while i < v.len()
        invariant
            i <= v@.len(),
            out@ == v@.subrange(0, i as int),
        decreases v@.len() - i,
    {
        out.push(v[i]);
        proof {
            assert(v@.subrange(0, (i + 1) as int) =~= v@.subrange(0, i as int).push(v@[i as int]));
        }
        i = i + 1;
    }
    proof {
        assert(v@.subrange(0, v@.len() as int) =~= v@);
    }
    out
}

/// Relies on chrono's `Utc::now` and `DateTime::to_rfc3339` for the current
/// wall-clock time as an RFC 3339 string.  The result depends on the clock,
/// so nothing is promised of it.
#[verifier::external_body]
fn now_rfc3339() -> String {
    chrono::Utc::now().to_rfc3339()
}

impl Default for MetricsCollector {
    /// An empty collector.
    fn default() -> (r: MetricsCollector)
        ensures
            r.well_formed(),
            r.spec_total_events() == 0,
            r.spec_all_latencies() == Seq::<u64>::empty(),
            r.spec_connections().len() == 0,
            r.spec_histogram() == LatencyHistogram::spec_empty(),
            r.spec_event_types() == EventTypeBreakdown::spec_zero(),
            r.total_drops == 0,
            r.drops_by_location == DropLocationBreakdown::spec_zero(),
            r.drops_by_protocol == DropProtocolBreakdown::spec_zero(),
            r.conn_drops@.len() == 0,
            r.states_breakdown == StateBreakdown::spec_zero(),
            r.total_opened == 0,
            r.total_closed == 0,
            r.durations_ns@.len() == 0,
    {
        MetricsCollector {
            all_latencies: Vec::new(),
            connections: Vec::new(),
            histogram: LatencyHistogram::new(),
            event_types: EventTypeBreakdown::default(),
            total_events: 0,
            total_drops: 0,
            drops_by_location: DropLocationBreakdown::default(),
            drops_by_protocol: DropProtocolBreakdown::default(),
            conn_drops: Vec::new(),
            states_breakdown: StateBreakdown::default(),
            total_opened: 0,
            total_closed: 0,
            durations_ns: Vec::new(),
        }
    }
}

impl MetricsCollector {
    /// The recorded global sample list, in microseconds.
    pub open spec fn spec_all_latencies(self) -> Seq<u64> {
        self.all_latencies@
    }

    /// The per-connection sample table.
    pub open spec fn spec_connections(self) -> Seq<ConnectionSamples> {
        self.connections@
    }

    /// The running histogram.
    pub open spec fn spec_histogram(self) -> LatencyHistogram {
        self.histogram
    }

    /// The running event type breakdown.
    pub open spec fn spec_event_types(self) -> EventTypeBreakdown {
        self.event_types
    }

    /// The total number of events processed.
    pub open spec fn spec_total_events(self) -> int {
        self.total_events as int
    }

    /// Collector invariant: every aggregate agrees with the sample lists.
    ///
    /// In particular the histogram's bucket total always equals the number
    /// of events added, and every stored sample is a valid latency.
    pub open spec fn well_formed(self) -> bool {
        &&& self.total_events == self.all_latencies@.len()
        &&& spec_hist_sum(self.histogram) == self.total_events
        &&& self.event_types.spec_sum() <= self.total_events
        &&& forall|i: int|
            0 <= i < self.all_latencies@.len() ==> #[trigger] self.all_latencies@[i]
                <= MAX_LATENCY_US
        &&& conn_keys_unique(self.connections@)
        &&& forall|i: int|
            0 <= i < self.connections@.len() ==> (#[trigger] self.connections@[i]).samples@.len()
                >= 1
        &&& forall|i: int, j: int|
            0 <= i < self.connections@.len() && 0 <= j < self.connections@[i].samples@.len()
                ==> #[trigger] self.connections@[i].samples@[j] <= MAX_LATENCY_US
        &&& self.connections@.len() <= self.total_events
        &&& self.drops_by_location.spec_sum() == self.total_drops
        &&& self.drops_by_protocol.spec_sum() == self.total_drops
        &&& drop_keys_unique(self.conn_drops@)
        &&& forall|i: int|
            0 <= i < self.conn_drops@.len() ==> 1 <= (#[trigger] self.conn_drops@[i]).drops
                <= self.total_drops
        &&& self.total_opened <= self.states_breakdown.established
        &&& self.total_closed == self.states_breakdown.closed
        &&& self.durations_ns@.len() <= self.total_closed
    }

    /// Create a new, empty metrics collector.
    pub fn new() -> (r: MetricsCollector)
        ensures
            r.well_formed(),
            r.spec_total_events() == 0,
            r.spec_all_latencies() == Seq::<u64>::empty(),
            r.spec_connections().len() == 0,
            r.spec_histogram() == LatencyHistogram::spec_empty(),
            r.spec_event_types() == EventTypeBreakdown::spec_zero(),
            r.total_drops == 0,
            r.drops_by_location == DropLocationBreakdown::spec_zero(),
            r.drops_by_protocol == DropProtocolBreakdown::spec_zero(),
            r.conn_drops@.len() == 0,
            r.states_breakdown == StateBreakdown::spec_zero(),
            r.total_opened == 0,
            r.total_closed == 0,
            r.durations_ns@.len() == 0,
    {
        MetricsCollector::default()
    }

    /// Add a latency event to the collector.
    ///
    /// The latency is converted to whole microseconds, appended to the
    /// global and per-connection sample lists, counted in the histogram
    /// bucket it falls in, and tallied by event type.  Only measurements
    /// inside the valid latency window ever reach the collector.
    pub fn add_event(&mut self, event: &LatencyEvent)
        requires
            old(self).well_formed(),
            spec_valid_latency(event.latency_ns),
            old(self).spec_total_events() < u64::MAX,
        ensures
            final(self).well_formed(),
            spec_event_applied(*old(self), *final(self), *event),
    {
        let latency_us: u64 = event.latency_ns / 1000;
        proof {
            vstd::arithmetic::div_mod::lemma_div_is_ordered(
                event.latency_ns as int,
                MAX_LATENCY_NS as int,
                1000,
            );
        }
        self.all_latencies.push(latency_us);
        match find_conn(&self.connections, &event.key) {
            Some(i) => {
                let ghost c = self.connections@;
                let mut entry = self.connections.remove(i);
                entry.samples.push(latency_us);
                self.connections.insert(i, entry);
                proof {
                    c.remove_ensures(i as int);
                    c.remove(i as int).insert_ensures(i as int, entry);
                    assert(self.connections@ =~= c.update(i as int, entry));
                    lemma_conn_samples_update(c, i as int, entry);
                }
            },
            None => {
                let mut samples: Vec<u64> = Vec::new();
                samples.push(latency_us);
                let entry = ConnectionSamples { key: event.key, samples };
                let ghost c = self.connections@;
                let ghost e = entry;
                self.connections.push(entry);
                proof {
                    lemma_conn_samples_push(c, e);
                }
            },
        }
        self.histogram.add_sample(latency_us);
        if event.event_type == EVENT_TYPE_SEND {
            self.event_types.tcp_sendmsg = self.event_types.tcp_sendmsg + 1;
        } else if event.event_type == EVENT_TYPE_RECV {
            self.event_types.tcp_recvmsg = self.event_types.tcp_recvmsg + 1;
        } else if event.event_type == EVENT_TYPE_CLEANUP {
            self.event_types.tcp_cleanup_rbuf = self.event_types.tcp_cleanup_rbuf + 1;
        }
        self.total_events = self.total_events + 1;
    }

    /// The histogram's bucket total equals the number of events added, for
    /// any interleaving of event applications: both are pinned to the
    /// global sample count by the collector invariant, which every update
    /// preserves.
    pub proof fn lemma_histogram_counts_every_event(self)
        requires
            self.well_formed(),
        ensures
            spec_hist_sum(self.spec_histogram()) == self.spec_total_events(),
            self.spec_total_events() == self.spec_all_latencies().len(),
    {
    }

    /// Current event count.
    pub fn event_count(&self) -> (r: u64)
        ensures
            r == self.spec_total_events(),
    {
        self.total_events
    }

    /// Number of unique connections seen.
    pub fn connection_count(&self) -> (r: usize)
        ensures
            r == self.spec_connections().len(),
    {
        self.connections.len()
    }

    /// The running histogram.
    pub fn histogram(&self) -> (r: &LatencyHistogram)
        ensures
            *r == self.spec_histogram(),
    {
        &self.histogram
    }

    /// The running event type breakdown.
    pub fn event_types(&self) -> (r: &EventTypeBreakdown)
        ensures
            *r == self.spec_event_types(),
    {
        &self.event_types
    }

    /// Add a packet drop event.
    ///
    /// The total, the per-location and the per-protocol counters grow by
    /// one (unknown values land in the catch-all counters); the drop is
    /// counted against its connection only when the key is non-zero.
    pub fn add_packet_drop(&mut self, event: &PacketDropEvent)
        requires
            old(self).well_formed(),
            old(self).total_drops < u64::MAX,
        ensures
            final(self).well_formed(),
            latency_unchanged(*final(self), *old(self)),
            states_unchanged(*final(self), *old(self)),
            final(self).total_drops == old(self).total_drops + 1,
            final(self).drops_by_location == spec_loc_add(
                old(self).drops_by_location,
                event.drop_location,
            ),
            final(self).drops_by_protocol == spec_proto_add(
                old(self).drops_by_protocol,
                event.protocol,
            ),
            event.key.spec_is_zero() ==> final(self).conn_drops@ == old(self).conn_drops@,
            !event.key.spec_is_zero() ==> spec_conn_drops(final(self).conn_drops@, event.key)
                == spec_conn_drops(old(self).conn_drops@, event.key) + 1,
            forall|k: ConnectionKey|
                k != event.key ==> spec_conn_drops(final(self).conn_drops@, k) == spec_conn_drops(
                    old(self).conn_drops@,
                    k,
                ),
    {
        self.drops_by_location.record(event.drop_location);
        self.drops_by_protocol.record(event.protocol);
        if !event.key.is_zero() {
            match find_drop(&self.conn_drops, &event.key) {
                Some(i) => {
                    let ghost c = self.conn_drops@;
                    let mut entry = self.conn_drops.remove(i);
                    entry.drops = entry.drops + 1;
                    self.conn_drops.insert(i, entry);
                    proof {
                        c.remove_ensures(i as int);
                        c.remove(i as int).insert_ensures(i as int, entry);
                        assert(self.conn_drops@ =~= c.update(i as int, entry));
                        lemma_conn_drops_update(c, i as int, entry);
                    }
                },
                None => {
                    let entry = ConnectionDropCount { key: event.key, drops: 1 };
                    let ghost c = self.conn_drops@;
                    self.conn_drops.push(entry);
                    proof {
                        lemma_conn_drops_push(c, entry);
                    }
                },
            }
        }
        self.total_drops = self.total_drops + 1;
    }

    /// Add a connection lifecycle record.
    ///
    /// The resulting state's counter grows by one.  A transition to
    /// established with a positive start time counts a connection as
    /// opened; a transition to closed counts one as closed and, when the
    /// record carries a consistent positive lifetime, records its duration.
    pub fn add_connection_state(&mut self, conn: &ConnectionState)
        requires
            old(self).well_formed(),
            old(self).states_breakdown.spec_sum() < u64::MAX,
        ensures
            final(self).well_formed(),
            latency_unchanged(*final(self), *old(self)),
            drops_unchanged(*final(self), *old(self)),
            final(self).states_breakdown == spec_state_add(old(self).states_breakdown, conn.state),
            final(self).total_opened == old(self).total_opened + (
            if conn.state == CONN_STATE_ESTABLISHED && conn.start_time_ns > 0 {
                1int
            } else {
                0int
            }),
            final(self).total_closed == old(self).total_closed + (
            if conn.state == CONN_STATE_CLOSED {
                1int
            } else {
                0int
            }),
            final(self).durations_ns@ == (
            if conn.state == CONN_STATE_CLOSED && conn.close_time_ns > conn.start_time_ns
                && conn.start_time_ns > 0 {
                old(self).durations_ns@.push((conn.close_time_ns - conn.start_time_ns) as u64)
            } else {
                old(self).durations_ns@
            }),
    {
        self.states_breakdown.record(conn.state);
        if conn.state == CONN_STATE_ESTABLISHED {
            if conn.start_time_ns > 0 {
                self.total_opened = self.total_opened + 1;
            }
        } else if conn.state == CONN_STATE_CLOSED {
            self.total_closed = self.total_closed + 1;
            if conn.close_time_ns > conn.start_time_ns && conn.start_time_ns > 0 {
                self.durations_ns.push(conn.close_time_ns - conn.start_time_ns);
            }
        }
    }

    /// Generate the aggregated metrics snapshot.
    ///
    /// A pure function of the accumulated state: global percentiles over
    /// all samples, per-connection min/max/mean/standard deviation, drop
    /// and lifecycle statistics.  The collector itself is not changed and
    /// remains queryable.
    pub fn generate_metrics(&self, elapsed_secs: u64) -> (r: LatencyMetrics)
        requires
            self.well_formed(),
        ensures
            r.duration_seconds == elapsed_secs,
            r.total_events == self.total_events,
            r.histogram == self.spec_histogram(),
            r.event_type_breakdown == self.spec_event_types(),
            r.percentiles == spec_percentiles(self.spec_all_latencies()),
            r.connections@.len() == self.spec_connections().len(),
            forall|i: int|
                0 <= i < r.connections@.len() ==> #[trigger] r.connections@[i] == spec_metrics_for(
                    self.spec_connections()[i].key,
                    self.spec_connections()[i].samples@,
                ),
            r.packet_drops.total_drops == self.total_drops,
            r.packet_drops.drops_by_location == self.drops_by_location,
            r.packet_drops.drops_by_protocol == self.drops_by_protocol,
            r.packet_drops.connections@ == self.conn_drops@,
            r.connection_states.total_opened == self.total_opened,
            r.connection_states.total_closed == self.total_closed,
            r.connection_states.states_breakdown == self.states_breakdown,
            r.connection_states.active_connections == (
            if self.total_opened >= self.total_closed {
                self.total_opened - self.total_closed
            } else {
                0int
            }),
            r.connection_states.avg_duration_ns == spec_avg_duration(self.durations_ns@),
    {
        let percentiles: Percentiles = calculate_percentiles(copy_u64s(&self.all_latencies));
        let mut conn_metrics: Vec<ConnectionMetrics> = Vec::new();
        let mut i: usize = 0;
        while i < self.connections.len()
            invariant
                self.well_formed(),
                i <= self.connections@.len(),
                conn_metrics@.len() == i,
                forall|k: int|
                    0 <= k < i ==> #[trigger] conn_metrics@[k] == spec_metrics_for(
                        self.connections@[k].key,
                        self.connections@[k].samples@,
                    ),
            decreases self.connections@.len() - i,
        {
            let entry = &self.connections[i];
            let n: usize = entry.samples.len();
            let sum: u128 = sum_samples(&entry.samples);
            proof {
                lemma_sum_bounded(entry.samples@, MAX_LATENCY_US);
                assert((n as int) * (MAX_LATENCY_US as int) >= 0) by (nonlinear_arith)
                    requires
                        n >= 0,
                ;
                lemma_avg_bounded(sum as int, n as int, MAX_LATENCY_US as int);
            }
            let avg: u64 = (sum / (n as u128)) as u64;
            let mn: u64 = min_sample(&entry.samples);
            let mx: u64 = max_sample(&entry.samples);
            let sd: u64 = calculate_std_dev(&entry.samples, avg);
            conn_metrics.push(
                ConnectionMetrics {
                    key: entry.key,
                    events: n as u64,
                    min_latency_us: mn,
                    max_latency_us: mx,
                    avg_latency_us: avg,
                    std_dev_us: sd,
                },
            );
            i = i + 1;
        }
        let n_dur: usize = self.durations_ns.len();
        let mut dsum: u128 = 0;
        let mut j: usize = 0;
        proof {
            assert(self.durations_ns@.subrange(0, 0) =~= Seq::<u64>::empty());
        }
        while j < n_dur
            invariant
                j <= n_dur,
                n_dur == self.durations_ns@.len(),
                dsum == spec_seq_sum(self.durations_ns@.subrange(0, j as int)),
                dsum <= (j as int) * (u64::MAX as int),
            decreases n_dur - j,
        {
            proof {
                assert(self.durations_ns@.subrange(0, (j + 1) as int).drop_last()
                    =~= self.durations_ns@.subrange(0, j as int));
                assert((j as int) * (u64::MAX as int) + (u64::MAX as int) == ((j + 1) as int) * (
                u64::MAX as int)) by (nonlinear_arith);
            }
            dsum = dsum + (self.durations_ns[j] as u128);
            j = j + 1;
        }
        let avg_duration: u64 = if n_dur == 0 {
            0
        } else {
            proof {
                assert(self.durations_ns@.subrange(0, n_dur as int) =~= self.durations_ns@);
                assert((n_dur as int) * (u64::MAX as int) >= 0) by (nonlinear_arith)
                    requires
                        n_dur >= 0,
                ;
                lemma_avg_bounded(dsum as int, n_dur as int, u64::MAX as int);
            }
            (dsum / (n_dur as u128)) as u64
        };
        let active: u64 = if self.total_opened >= self.total_closed {
            self.total_opened - self.total_closed
        } else {
            0
        };
        LatencyMetrics {
            timestamp: now_rfc3339(),
            duration_seconds: elapsed_secs,
            total_events: self.total_events,
            connections: conn_metrics,
            histogram: self.histogram,
            percentiles,
            event_type_breakdown: self.event_types,
            packet_drops: PacketDropStats {
                total_drops: self.total_drops,
                drops_by_location: self.drops_by_location,
                drops_by_protocol: self.drops_by_protocol,
                connections: copy_drop_counts(&self.conn_drops),
            },
            connection_states: ConnectionStateStats {
                total_opened: self.total_opened,
                total_closed: self.total_closed,
                active_connections: active,
                avg_duration_ns: avg_duration,
                states_breakdown: self.states_breakdown,
            },
        }
    }
}

} // verus!
